//! Flattening of a field tree into the ordered column headers of a sheet.
//!
//! The headers start with the row identifier `#`. An ordinary field gives one
//! header, its effective name. An array with a count gives the headers of its
//! elements `0..count`, each named `base[i]`; an element with two or more
//! parts gives the headers of its parts, `base[i].part`, each part expanded in
//! turn as if it were an array.

use crate::error::ExportError;
use crate::schema::{field_models, lemma_field_models, Field, FieldKind, FieldModel, Schema, SchemaModel};
use crate::text::{decimal, u64_to_string};
use vstd::prelude::*;

verus! {

/// The texts of a list of strings.
pub open spec fn texts(strings: Seq<String>) -> Seq<Seq<char>> {
    strings.map_values(|s: String| s@)
}

/// The header of the row identifier.
pub open spec fn id_header() -> Seq<char> {
    seq!['#']
}

/// The name a field goes by: the pending name if there is one, else the
/// current name.
pub open spec fn effective_name(field: FieldModel) -> Option<Seq<char>> {
    match field.pending_name {
        Some(pending) => Some(pending),
        None => field.name,
    }
}

/// The name of element `i` of the array named `base`.
pub open spec fn indexed_name(base: Seq<char>, i: nat) -> Seq<char> {
    base + seq!['['] + decimal(i) + seq![']']
}

/// The name of the part `part` of the array element named `indexed`.
pub open spec fn qualified_name(indexed: Seq<char>, part: Seq<char>) -> Seq<char> {
    indexed + seq!['.'] + part
}

/// Whether the array has a count, and at least one element.
pub open spec fn has_elements(field: FieldModel) -> bool {
    field.count matches Some(count) && count > 0
}

/// Whether one element of the array has parts with headers of their own.
pub open spec fn has_parts(field: FieldModel) -> bool {
    field.fields matches Some(parts) && parts.len() >= 2
}

/// The headers of `field` under the name `base`.
pub open spec fn expand(field: FieldModel, base: Seq<char>) -> Seq<Seq<char>>
    decreases field, 2nat, 0nat,
{
    match field.count {
        None => seq![base],
        Some(count) => elements(field, base, count),
    }
}

/// The headers of the elements `0..n` of the array `field` named `base`.
pub open spec fn elements(field: FieldModel, base: Seq<char>, n: nat) -> Seq<Seq<char>>
    decreases field, 1nat, n,
{
    if n == 0 {
        Seq::empty()
    } else {
        elements(field, base, (n - 1) as nat) + element(field, indexed_name(base, (n - 1) as nat))
    }
}

/// The headers of the one element named `indexed` of the array `field`.
pub open spec fn element(field: FieldModel, indexed: Seq<char>) -> Seq<Seq<char>>
    decreases field, 0nat, 0nat,
{
    match field.fields {
        Some(children) => if children.len() >= 2 {
            parts(children, indexed, children.len())
        } else {
            seq![indexed]
        },
        None => seq![indexed],
    }
}

/// The headers of the first `k` parts of the element named `indexed`.
pub open spec fn parts(children: Seq<FieldModel>, indexed: Seq<char>, k: nat) -> Seq<Seq<char>>
    decreases children, 0nat, k,
{
    if k == 0 || k > children.len() {
        Seq::empty()
    } else {
        parts(children, indexed, (k - 1) as nat) + expand(
            children[k - 1],
            qualified_name(indexed, effective_name(children[k - 1]).unwrap()),
        )
    }
}

/// Whether every name that `expand` reads of `field` is there: the parts of
/// an element are named, and can be expanded themselves, wherever the array
/// has an element at all.
pub open spec fn expandable(field: FieldModel) -> bool
    decreases field,
{
    match field.fields {
        Some(children) => if has_elements(field) && children.len() >= 2 {
            forall|j: int|
                0 <= j < children.len() ==> effective_name(#[trigger] children[j]) is Some
                    && expandable(children[j])
        } else {
            true
        },
        None => true,
    }
}

/// The headers of one top-level field.
pub open spec fn field_headers(field: FieldModel) -> Seq<Seq<char>> {
    if field.kind == FieldKind::Array {
        expand(field, effective_name(field).unwrap())
    } else {
        seq![effective_name(field).unwrap()]
    }
}

/// Whether a top-level field has every name that its headers need.
pub open spec fn resolvable(field: FieldModel) -> bool {
    effective_name(field) is Some && (field.kind == FieldKind::Array ==> expandable(field))
}

/// The headers of the first `k` top-level fields.
pub open spec fn leading_headers(fields: Seq<FieldModel>, k: nat) -> Seq<Seq<char>>
    decreases k,
{
    if k == 0 || k > fields.len() {
        Seq::empty()
    } else {
        leading_headers(fields, (k - 1) as nat) + field_headers(fields[k - 1])
    }
}

/// The column headers of a top-level field list: the row identifier, then the
/// headers of each field in document order.
pub open spec fn headers(fields: Seq<FieldModel>) -> Seq<Seq<char>> {
    seq![id_header()] + leading_headers(fields, fields.len())
}

/// Whether every top-level field of the list is resolvable.
pub open spec fn all_resolvable(fields: Seq<FieldModel>) -> bool {
    forall|i: int| 0 <= i < fields.len() ==> resolvable(#[trigger] fields[i])
}

/// The field list that a schema's headers come from: the pending list where
/// there is one, the current list otherwise.
pub open spec fn chosen_fields(schema: SchemaModel) -> Seq<FieldModel> {
    match schema.pending_fields {
        Some(pending) => pending,
        None => schema.fields,
    }
}

/// What flattening a top-level field list gives: its headers, or
/// `NameMissing` if a field of the list is not resolvable.
pub open spec fn flattened(fields: Seq<FieldModel>) -> Result<Seq<Seq<char>>, ExportError> {
    if all_resolvable(fields) {
        Ok(headers(fields))
    } else {
        Err(ExportError::NameMissing)
    }
}

/// The model of the outcome of a flattening.
pub open spec fn outcome_texts(outcome: Result<Vec<String>, ExportError>) -> Result<
    Seq<Seq<char>>,
    ExportError,
> {
    match outcome {
        Ok(list) => Ok(texts(list@)),
        Err(e) => Err(e),
    }
}

/// The effective name of a field, or `NameMissing` if it has neither a
/// pending nor a current name.
pub fn latest_name(field: &Field) -> (name: Result<String, ExportError>)
    ensures
        match name {
            Ok(text) => effective_name(field@) == Some(text@),
            Err(e) => e == ExportError::NameMissing && effective_name(field@) is None,
        },
{
    match &field.pending_name {
        Some(pending) => Ok(pending.clone()),
        None => match &field.name {
            Some(name) => Ok(name.clone()),
            None => Err(ExportError::NameMissing),
        },
    }
}

/// `base[i]`.
fn indexed(base: &String, i: u32) -> (name: String)
    ensures
        name@ == indexed_name(base@, i as nat),
{
    proof {
        reveal_strlit("[");
        reveal_strlit("]");
    }
    let mut name = base.clone();
    name.append("[");
    let digits = u64_to_string(i as u64);
    name.append(digits.as_str());
    name.append("]");
    assert(name@ =~= indexed_name(base@, i as nat));
    name
}

/// `indexed.part`.
fn qualified(indexed: &String, part: &String) -> (name: String)
    ensures
        name@ == qualified_name(indexed@, part@),
{
    proof {
        reveal_strlit(".");
    }
    let mut name = indexed.clone();
    name.append(".");
    name.append(part.as_str());
    assert(name@ =~= qualified_name(indexed@, part@));
    name
}

/// Appends `text` to `names`.
fn push_name(names: &mut Vec<String>, text: String)
    ensures
        final(names)@ == old(names)@.push(text),
        texts(final(names)@) == texts(old(names)@) + seq![text@],
{
    names.push(text);
    assert(texts(names@) =~= texts(old(names)@) + seq![text@]);
}

/// Takes back everything that was appended to `names` after its first
/// `len` entries.
fn restore(names: &mut Vec<String>, len: usize, Ghost(before): Ghost<Seq<String>>)
    requires
        len == before.len(),
        before.is_prefix_of(old(names)@),
    ensures
        final(names)@ == before,
{
    names.truncate(len);
    assert(names@ =~= before);
}

/// Appends the headers of the one element named `indexed` of the array
/// `field` to `names`. Fails with `NameMissing`, leaving `names` as it was,
/// if a part of the element lacks a name that its headers need.
fn parse_element(field: &Field, indexed: String, names: &mut Vec<String>) -> (done: Result<
    (),
    ExportError,
>)
    ensures
        match done {
            Ok(()) => {
                &&& has_parts(field@) ==> forall|j: int|
                    0 <= j < field@.fields->0.len() ==> effective_name(
                        #[trigger] field@.fields->0[j],
                    ) is Some && expandable(field@.fields->0[j])
                &&& texts(final(names)@) == texts(old(names)@) + element(field@, indexed@)
                &&& old(names)@.is_prefix_of(final(names)@)
            },
            Err(e) => {
                &&& e == ExportError::NameMissing
                &&& has_parts(field@)
                &&& exists|j: int|
                    0 <= j < field@.fields->0.len() && !(effective_name(
                        #[trigger] field@.fields->0[j],
                    ) is Some && expandable(field@.fields->0[j]))
                &&& final(names)@ == old(names)@
            },
        },
    decreases field, 0nat,
{
    let ghost before = names@;
    let start = names.len();
    let many = match &field.fields {
        Some(children) => children.len() > 1,
        None => false,
    };
    if !many {
        proof {
            if field.fields is Some {
                lemma_field_models(field.fields->0@);
            }
        }
        push_name(names, indexed);
        return Ok(());
    }
    let children = field.fields.as_ref().unwrap();
    let ghost models = field_models(children@);
    proof {
        lemma_field_models(children@);
        assert(field@.fields == Some(models));
    }
    let mut j: usize = 0;
    while j < children.len()
        invariant
            j <= children.len(),
            children.len() >= 2,
            field.fields == Some(*children),
            models == field_models(children@),
            models.len() == children@.len(),
            forall|k: int| 0 <= k < children@.len() ==> #[trigger] models[k] == children@[k]@,
            before == old(names)@,
            start == before.len(),
            before.is_prefix_of(names@),
            texts(names@) == texts(before) + parts(models, indexed@, j as nat),
            forall|k: int|
                0 <= k < j ==> effective_name(#[trigger] models[k]) is Some && expandable(
                    models[k],
                ),
        decreases children.len() - j,
    {
        let child = &children[j];
        assert(child@ == models[j as int]);
        let part = match latest_name(child) {
            Ok(part) => part,
            Err(e) => {
                assert(!(effective_name(models[j as int]) is Some && expandable(models[j as int])));
                restore(names, start, Ghost(before));
                return Err(e);
            },
        };
        let base = qualified(&indexed, &part);
        let ghost sofar = names@;
        match parse_array(child, base, names) {
            Ok(()) => {},
            Err(e) => {
                assert(!(effective_name(models[j as int]) is Some && expandable(models[j as int])));
                restore(names, start, Ghost(before));
                return Err(e);
            },
        }
        proof {
            lemma_prefix_transitive(before, sofar, names@);
            assert(texts(names@) =~= texts(before) + parts(models, indexed@, (j + 1) as nat));
        }
        j = j + 1;
    }
    assert(field@.fields->0 == models);
    Ok(())
}

/// A prefix of a prefix is a prefix.
pub proof fn lemma_prefix_transitive<A>(a: Seq<A>, b: Seq<A>, c: Seq<A>)
    requires
        a.is_prefix_of(b),
        b.is_prefix_of(c),
    ensures
        a.is_prefix_of(c),
{
    assert(a =~= c.subrange(0, a.len() as int));
}

/// Appends the headers of `field` under the name `name` to `names`: the name
/// itself if the field has no count, else the headers of its elements
/// `0..count` in order. Fails with `NameMissing`, leaving `names` as it was,
/// exactly if the field is not expandable.
pub fn parse_array(field: &Field, name: String, names: &mut Vec<String>) -> (done: Result<
    (),
    ExportError,
>)
    ensures
        match done {
            Ok(()) => {
                &&& expandable(field@)
                &&& texts(final(names)@) == texts(old(names)@) + expand(field@, name@)
                &&& old(names)@.is_prefix_of(final(names)@)
            },
            Err(e) => {
                &&& e == ExportError::NameMissing
                &&& !expandable(field@)
                &&& final(names)@ == old(names)@
            },
        },
    decreases field, 1nat,
{
    let ghost before = names@;
    let start = names.len();
    match field.count {
        None => {
            push_name(names, name);
            Ok(())
        },
        Some(count) => {
            let mut i: u32 = 0;
            while i < count
                invariant
                    i <= count,
                    field.count == Some(count),
                    before == old(names)@,
                    start == before.len(),
                    before.is_prefix_of(names@),
                    texts(names@) == texts(before) + elements(field@, name@, i as nat),
                    i > 0 ==> expandable(field@),
                decreases count - i,
            {
                let item = indexed(&name, i);
                let ghost sofar = names@;
                match parse_element(field, item, names) {
                    Ok(()) => {},
                    Err(e) => {
                        assert(names@ == sofar);
                        restore(names, start, Ghost(before));
                        return Err(e);
                    },
                }
                proof {
                    lemma_prefix_transitive(before, sofar, names@);
                    assert(texts(names@) =~= texts(before) + elements(
                        field@,
                        name@,
                        (i + 1) as nat,
                    ));
                }
                i = i + 1;
            }
            Ok(())
        },
    }
}

/// The column headers of a top-level field list: `#`, then the headers of
/// each field in document order. Fails with `NameMissing` exactly if a field
/// of the list is not resolvable.
pub fn parse_field_names(fields: &Vec<Field>) -> (names: Result<Vec<String>, ExportError>)
    ensures
        outcome_texts(names) == flattened(field_models(fields@)),
        names matches Ok(list) ==> list@.len() >= 1 && list@[0]@ == id_header(),
{
    let ghost models = field_models(fields@);
    proof {
        lemma_field_models(fields@);
        reveal_strlit("#");
    }
    let mut names: Vec<String> = Vec::new();
    let id = String::from_str("#");
    assert(id@ =~= id_header());
    push_name(&mut names, id);
    assert(texts(names@) =~= seq![id_header()] + leading_headers(models, 0));
    let mut i: usize = 0;
    while i < fields.len()
        invariant
            i <= fields.len(),
            models == field_models(fields@),
            models.len() == fields@.len(),
            forall|k: int| 0 <= k < fields@.len() ==> #[trigger] models[k] == fields@[k]@,
            texts(names@) == seq![id_header()] + leading_headers(models, i as nat),
            forall|k: int| 0 <= k < i ==> resolvable(#[trigger] models[k]),
        decreases fields.len() - i,
    {
        let field = &fields[i];
        assert(field@ == models[i as int]);
        let name = match latest_name(field) {
            Ok(name) => name,
            Err(e) => {
                assert(!resolvable(models[i as int]));
                return Err(e);
            },
        };
        match field.kind {
            FieldKind::Array => {
                match parse_array(field, name, &mut names) {
                    Ok(()) => {},
                    Err(e) => {
                        assert(!resolvable(models[i as int]));
                        return Err(e);
                    },
                }
            },
            _ => {
                push_name(&mut names, name);
            },
        }
        assert(texts(names@) =~= seq![id_header()] + leading_headers(models, (i + 1) as nat));
        i = i + 1;
    }
    proof {
        let all = headers(models);
        assert(texts(names@) == all);
        assert(all[0] == id_header());
        assert(texts(names@)[0] == names@[0]@);
    }
    Ok(names)
}

/// The column headers of a schema: those of its pending field list where it
/// has one, those of its current field list otherwise. The list that is not
/// chosen is not read.
pub fn field_names(schema: &Schema) -> (names: Result<Vec<String>, ExportError>)
    ensures
        outcome_texts(names) == flattened(chosen_fields(schema@)),
        names matches Ok(list) ==> list@.len() >= 1 && list@[0]@ == id_header(),
{
    match &schema.pending_fields {
        Some(pending) => parse_field_names(pending),
        None => parse_field_names(&schema.fields),
    }
}

} // verus!
