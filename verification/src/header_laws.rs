//! What holds of the headers of every field tree.

use crate::headers::{
    all_resolvable, chosen_fields, effective_name, element, elements, expand, expandable,
    field_headers, flattened, has_elements, has_parts, headers, indexed_name, leading_headers, lemma_prefix_transitive, parts,
    qualified_name, resolvable,
};
use crate::schema::{FieldKind, FieldModel, SchemaModel};
use vstd::prelude::*;

verus! {

/// The first header of every field list is the row identifier `#`.
pub proof fn headers_start_with_id(fields: Seq<FieldModel>)
    ensures
        headers(fields).len() >= 1,
        headers(fields)[0] == seq!['#'],
{
}

/// The first header of every schema is the row identifier `#`.
pub proof fn schema_headers_start_with_id(schema: SchemaModel)
    ensures
        headers(chosen_fields(schema)).len() >= 1,
        headers(chosen_fields(schema))[0] == seq!['#'],
{
}

/// Where a schema has a pending field list, its headers are those of the
/// pending list alone: the current list has no part in them.
pub proof fn pending_fields_override(schema: SchemaModel, other: Seq<FieldModel>)
    requires
        schema.pending_fields is Some,
    ensures
        flattened(chosen_fields(schema)) == flattened(schema.pending_fields->0),
        flattened(chosen_fields(SchemaModel { fields: other, ..schema })) == flattened(
            chosen_fields(schema),
        ),
{
}

/// Where a schema has no pending field list, its headers are those of the
/// current list.
pub proof fn current_fields_without_pending(schema: SchemaModel)
    requires
        schema.pending_fields is None,
    ensures
        flattened(chosen_fields(schema)) == flattened(schema.fields),
{
}

/// Flattening is a function of the field list: equal lists give equal
/// outcomes, headers and failures alike.
pub proof fn flattening_is_deterministic(first: Seq<FieldModel>, second: Seq<FieldModel>)
    requires
        first == second,
    ensures
        flattened(first) == flattened(second),
{
}

/// The number of headers that a field gives under any name: one without a
/// count, else the count times the number of headers of one element.
pub open spec fn width(field: FieldModel) -> nat
    decreases field, 1nat, 0nat,
{
    match field.count {
        None => 1,
        Some(count) => count * element_width(field),
    }
}

/// The number of headers of one element of an array: the sum of the widths
/// of its parts where it has two or more, else one.
pub open spec fn element_width(field: FieldModel) -> nat
    decreases field, 0nat, 0nat,
{
    match field.fields {
        Some(children) => if children.len() >= 2 {
            parts_width(children, children.len())
        } else {
            1
        },
        None => 1,
    }
}

/// The sum of the widths of the first `k` parts.
pub open spec fn parts_width(children: Seq<FieldModel>, k: nat) -> nat
    decreases children, 0nat, k,
{
    if k == 0 || k > children.len() {
        0
    } else {
        parts_width(children, (k - 1) as nat) + width(children[k - 1])
    }
}

/// A field gives `width` headers, whatever its name.
pub proof fn expand_len(field: FieldModel, base: Seq<char>)
    ensures
        expand(field, base).len() == width(field),
    decreases field, 2nat, 0nat,
{
    match field.count {
        None => {},
        Some(count) => {
            elements_len(field, base, count);
        },
    }
}

/// The first `n` elements of an array give `n` times the headers of one.
pub proof fn elements_len(field: FieldModel, base: Seq<char>, n: nat)
    ensures
        elements(field, base, n).len() == n * element_width(field),
    decreases field, 1nat, n,
{
    let w = element_width(field);
    if n > 0 {
        elements_len(field, base, (n - 1) as nat);
        element_len(field, indexed_name(base, (n - 1) as nat));
        assert((n - 1) * w + w == n * w) by (nonlinear_arith);
    } else {
        assert(0 * w == 0) by (nonlinear_arith);
    }
}

/// One element of an array gives `element_width` headers.
pub proof fn element_len(field: FieldModel, indexed: Seq<char>)
    ensures
        element(field, indexed).len() == element_width(field),
    decreases field, 0nat, 0nat,
{
    match field.fields {
        Some(children) => {
            if children.len() >= 2 {
                parts_len(children, indexed, children.len());
            }
        },
        None => {},
    }
}

/// The first `k` parts of an element give the sum of their widths.
pub proof fn parts_len(children: Seq<FieldModel>, indexed: Seq<char>, k: nat)
    ensures
        parts(children, indexed, k).len() == parts_width(children, k),
    decreases children, 0nat, k,
{
    if !(k == 0 || k > children.len()) {
        parts_len(children, indexed, (k - 1) as nat);
        expand_len(
            children[k - 1],
            qualified_name(indexed, effective_name(children[k - 1]).unwrap()),
        );
    }
}

/// A top-level array with a count of `n` adds `n` headers for each header of
/// one element: with two or more parts, `n` times the sum of what each part
/// gives; with fewer, or none, `n`.
pub proof fn array_cardinality(field: FieldModel, n: nat)
    requires
        field.kind == FieldKind::Array,
        field.count == Some(n),
    ensures
        has_parts(field) ==> field_headers(field).len() == n * parts_width(
            field.fields->0,
            field.fields->0.len(),
        ),
        !has_parts(field) ==> field_headers(field).len() == n,
        forall|j: int, base: Seq<char>|
            has_parts(field) && 0 <= j < field.fields->0.len() ==> #[trigger] expand(
                field.fields->0[j],
                base,
            ).len() == width(field.fields->0[j]),
{
    expand_len(field, effective_name(field).unwrap());
    assert(n * 1 == n) by (nonlinear_arith);
    assert forall|j: int, base: Seq<char>|
        has_parts(field) && 0 <= j < field.fields->0.len() implies #[trigger] expand(
        field.fields->0[j],
        base,
    ).len() == width(field.fields->0[j]) by {
        expand_len(field.fields->0[j], base);
    }
}

/// Every header of a field starts with the name that the field was expanded
/// under.
pub proof fn expand_keeps_base(field: FieldModel, base: Seq<char>, k: int)
    requires
        0 <= k < expand(field, base).len(),
    ensures
        base.is_prefix_of(expand(field, base)[k]),
    decreases field, 2nat, 0nat,
{
    match field.count {
        None => {},
        Some(count) => {
            let i = elements_index(field, base, count, k);
            assert(base.is_prefix_of(indexed_name(base, i)));
            lemma_prefix_transitive(base, indexed_name(base, i), expand(field, base)[k]);
        },
    }
}

/// Every header among the first `n` elements of an array starts with the
/// indexed name of one of them; the result is the index of that element.
pub proof fn elements_index(field: FieldModel, base: Seq<char>, n: nat, k: int) -> (i: nat)
    requires
        0 <= k < elements(field, base, n).len(),
    ensures
        i < n,
        indexed_name(base, i).is_prefix_of(elements(field, base, n)[k]),
    decreases field, 1nat, n,
{
    let earlier = elements(field, base, (n - 1) as nat);
    if k < earlier.len() {
        elements_index(field, base, (n - 1) as nat, k)
    } else {
        element_keeps_name(field, indexed_name(base, (n - 1) as nat), k - earlier.len());
        (n - 1) as nat
    }
}

/// Every header of one array element starts with the element's name.
pub proof fn element_keeps_name(field: FieldModel, indexed: Seq<char>, k: int)
    requires
        0 <= k < element(field, indexed).len(),
    ensures
        indexed.is_prefix_of(element(field, indexed)[k]),
    decreases field, 0nat, 0nat,
{
    match field.fields {
        Some(children) => {
            if children.len() >= 2 {
                parts_keep_name(children, indexed, children.len(), k);
            }
        },
        None => {},
    }
}

/// Every header of the first `n` parts of an element starts with the
/// element's name.
pub proof fn parts_keep_name(children: Seq<FieldModel>, indexed: Seq<char>, n: nat, k: int)
    requires
        0 <= k < parts(children, indexed, n).len(),
    ensures
        indexed.is_prefix_of(parts(children, indexed, n)[k]),
    decreases children, 0nat, n,
{
    let earlier = parts(children, indexed, (n - 1) as nat);
    if k < earlier.len() {
        parts_keep_name(children, indexed, (n - 1) as nat, k);
    } else {
        let child = children[n - 1];
        let name = qualified_name(indexed, effective_name(child).unwrap());
        expand_keeps_base(child, name, k - earlier.len());
        assert(indexed.is_prefix_of(name));
        lemma_prefix_transitive(indexed, name, parts(children, indexed, n)[k]);
    }
}

/// Every header that a top-level array with a count gives starts with
/// `name[i]`, for the array's effective name and an index `i` below the
/// count.
pub proof fn array_headers_are_indexed(field: FieldModel, k: int)
    requires
        field.kind == FieldKind::Array,
        field.count is Some,
        0 <= k < field_headers(field).len(),
    ensures
        exists|i: nat|
            i < field.count->0 && (#[trigger] indexed_name(
                effective_name(field).unwrap(),
                i,
            )).is_prefix_of(field_headers(field)[k]),
{
    let name = effective_name(field).unwrap();
    let i = elements_index(field, name, field.count->0, k);
    assert(i < field.count->0 && indexed_name(name, i).is_prefix_of(field_headers(field)[k]));
}

/// Whether two fields differ at most in current names that a pending name
/// stands in front of, anywhere in their trees.
pub open spec fn alike(a: FieldModel, b: FieldModel) -> bool
    decreases a,
{
    &&& a.pending_name == b.pending_name
    &&& (a.pending_name is None ==> a.name == b.name)
    &&& a.kind == b.kind
    &&& a.count == b.count
    &&& match a.fields {
        Some(x) => b.fields is Some && all_alike(x, b.fields->0),
        None => b.fields is None,
    }
}

/// Whether two field lists are alike position by position.
pub open spec fn all_alike(x: Seq<FieldModel>, y: Seq<FieldModel>) -> bool
    decreases x,
{
    x.len() == y.len() && forall|j: int| 0 <= j < x.len() ==> alike(#[trigger] x[j], y[j])
}

/// A field goes by its pending name if and only if it has one; otherwise by
/// its current name.
pub proof fn effective_name_precedence(field: FieldModel)
    ensures
        field.pending_name is Some ==> effective_name(field) == field.pending_name,
        field.pending_name is None ==> effective_name(field) == field.name,
{
}

/// Alike fields have the same headers under the same name.
pub proof fn alike_expand(a: FieldModel, b: FieldModel, base: Seq<char>)
    requires
        alike(a, b),
    ensures
        expand(a, base) == expand(b, base),
    decreases a, 2nat, 0nat,
{
    match a.count {
        None => {},
        Some(count) => {
            alike_elements(a, b, base, count);
        },
    }
}

/// Alike arrays have the same headers for their first `n` elements.
pub proof fn alike_elements(a: FieldModel, b: FieldModel, base: Seq<char>, n: nat)
    requires
        alike(a, b),
    ensures
        elements(a, base, n) == elements(b, base, n),
    decreases a, 1nat, n,
{
    if n > 0 {
        alike_elements(a, b, base, (n - 1) as nat);
        alike_element(a, b, indexed_name(base, (n - 1) as nat));
    }
}

/// Alike arrays have the same headers for one element.
pub proof fn alike_element(a: FieldModel, b: FieldModel, indexed: Seq<char>)
    requires
        alike(a, b),
    ensures
        element(a, indexed) == element(b, indexed),
    decreases a, 0nat, 0nat,
{
    match a.fields {
        Some(x) => {
            if x.len() >= 2 {
                alike_parts(x, b.fields->0, indexed, x.len());
            }
        },
        None => {},
    }
}

/// Alike part lists have the same headers for their first `k` parts.
pub proof fn alike_parts(x: Seq<FieldModel>, y: Seq<FieldModel>, indexed: Seq<char>, k: nat)
    requires
        all_alike(x, y),
    ensures
        parts(x, indexed, k) == parts(y, indexed, k),
    decreases x, 0nat, k,
{
    if !(k == 0 || k > x.len()) {
        alike_parts(x, y, indexed, (k - 1) as nat);
        assert(alike(x[k - 1], y[k - 1]));
        alike_expand(
            x[k - 1],
            y[k - 1],
            qualified_name(indexed, effective_name(x[k - 1]).unwrap()),
        );
    }
}

/// Alike fields are expandable together.
pub proof fn alike_expandable(a: FieldModel, b: FieldModel)
    requires
        alike(a, b),
    ensures
        expandable(a) == expandable(b),
    decreases a,
{
    match a.fields {
        Some(x) => {
            let y = b.fields->0;
            assert forall|j: int| 0 <= j < x.len() implies (effective_name(#[trigger] x[j]) is Some
                && expandable(x[j])) == (effective_name(y[j]) is Some && expandable(y[j])) by {
                assert(alike(x[j], y[j]));
                alike_expandable(x[j], y[j]);
            }
            if expandable(a) && has_elements_and_parts(a) {
                assert forall|j: int| 0 <= j < y.len() implies effective_name(#[trigger] y[j]) is Some
                    && expandable(y[j]) by {
                    assert(effective_name(x[j]) is Some && expandable(x[j]));
                }
            }
            if expandable(b) && has_elements_and_parts(b) {
                assert forall|j: int| 0 <= j < x.len() implies effective_name(#[trigger] x[j]) is Some
                    && expandable(x[j]) by {
                    assert(effective_name(y[j]) is Some && expandable(y[j]));
                }
            }
        },
        None => {},
    }
}

/// Whether expanding the field reads the names of its parts.
pub open spec fn has_elements_and_parts(field: FieldModel) -> bool {
    has_elements(field) && has_parts(field)
}

/// The current name of a field that has a pending name shows in no header,
/// at any depth: field lists that are alike flatten to the same outcome.
pub proof fn shadowed_names_do_not_show(x: Seq<FieldModel>, y: Seq<FieldModel>)
    requires
        all_alike(x, y),
    ensures
        flattened(x) == flattened(y),
{
    assert forall|i: int| 0 <= i < x.len() implies resolvable(#[trigger] x[i]) == resolvable(
        y[i],
    ) by {
        assert(alike(x[i], y[i]));
        alike_expandable(x[i], y[i]);
    }
    if all_resolvable(x) {
        assert forall|i: int| 0 <= i < y.len() implies resolvable(#[trigger] y[i]) by {
            assert(resolvable(x[i]));
        }
    }
    if all_resolvable(y) {
        assert forall|i: int| 0 <= i < x.len() implies resolvable(#[trigger] x[i]) by {
            assert(resolvable(y[i]));
        }
    }
    alike_leading(x, y, x.len());
}

/// Alike field lists have the same headers for their first `k` fields.
pub proof fn alike_leading(x: Seq<FieldModel>, y: Seq<FieldModel>, k: nat)
    requires
        all_alike(x, y),
    ensures
        leading_headers(x, k) == leading_headers(y, k),
    decreases k,
{
    if !(k == 0 || k > x.len()) {
        alike_leading(x, y, (k - 1) as nat);
        assert(alike(x[k - 1], y[k - 1]));
        alike_expand(x[k - 1], y[k - 1], effective_name(x[k - 1]).unwrap());
    }
}

} // verus!
