//! The field tree of a schema document, and its mathematical model.

use vstd::prelude::*;

verus! {

/// What a field holds. Only `Array` changes how headers are produced.
#[derive(Debug, Clone, Copy, PartialEq, Eq, Structural)]
pub enum FieldKind {
    Scalar,
    Array,
    Icon,
    ModelId,
    Color,
    Link,
}

impl Default for FieldKind {
    fn default() -> (kind: Self)
        ensures
            kind == FieldKind::Scalar,
    {
        FieldKind::Scalar
    }
}

/// One node of the field tree.
#[derive(Debug)]
pub struct Field {
    /// The current name.
    pub name: Option<String>,
    /// A proposed replacement for the name, preferred when present.
    pub pending_name: Option<String>,
    pub kind: FieldKind,
    /// How often an array repeats.
    pub count: Option<u32>,
    /// The parts of one array element.
    pub fields: Option<Vec<Field>>,
}

/// A schema document: the current field list and, optionally, a pending one
/// that replaces it as a whole.
#[derive(Debug)]
pub struct Schema {
    pub fields: Vec<Field>,
    pub pending_fields: Option<Vec<Field>>,
}

/// The model of a `Field`: texts as character sequences, the count unbounded.
pub struct FieldModel {
    pub name: Option<Seq<char>>,
    pub pending_name: Option<Seq<char>>,
    pub kind: FieldKind,
    pub count: Option<nat>,
    pub fields: Option<Seq<FieldModel>>,
}

/// The model of a `Schema`.
pub struct SchemaModel {
    pub fields: Seq<FieldModel>,
    pub pending_fields: Option<Seq<FieldModel>>,
}

/// The model of an optional text.
pub open spec fn text_model(text: Option<String>) -> Option<Seq<char>> {
    match text {
        Some(s) => Some(s@),
        None => None,
    }
}

/// The models of a list of fields, in order.
pub open spec fn field_models(fields: Seq<Field>) -> Seq<FieldModel>
    decreases fields, 0nat,
{
    if fields.len() == 0 {
        Seq::empty()
    } else {
        field_models(fields.drop_last()).push(field_model(fields.last()))
    }
}

/// The model of one field.
pub open spec fn field_model(field: Field) -> FieldModel
    decreases field, 1nat,
{
    FieldModel {
        name: text_model(field.name),
        pending_name: text_model(field.pending_name),
        kind: field.kind,
        count: match field.count {
            Some(n) => Some(n as nat),
            None => None,
        },
        fields: match field.fields {
            Some(children) => Some(field_models(children@)),
            None => None,
        },
    }
}

impl View for Field {
    type V = FieldModel;

    open spec fn view(&self) -> FieldModel {
        field_model(*self)
    }
}

impl View for Schema {
    type V = SchemaModel;

    open spec fn view(&self) -> SchemaModel {
        SchemaModel {
            fields: field_models(self.fields@),
            pending_fields: match self.pending_fields {
                Some(pending) => Some(field_models(pending@)),
                None => None,
            },
        }
    }
}

/// `field_models` keeps the length and maps position by position.
pub proof fn lemma_field_models(fields: Seq<Field>)
    ensures
        field_models(fields).len() == fields.len(),
        forall|i: int| 0 <= i < fields.len() ==> #[trigger] field_models(fields)[i] == field_model(fields[i]),
    decreases fields.len(),
{
    if fields.len() > 0 {
        lemma_field_models(fields.drop_last());
    }
}

/// The lower-case form of an ASCII capital; any other character itself.
pub open spec fn lower(c: char) -> char {
    if 'A' <= c && c <= 'Z' {
        ((c as u8) + 32) as u8 as char
    } else {
        c
    }
}

/// Whether two texts are the same but for the case of their ASCII letters.
pub open spec fn same_ignoring_case(a: Seq<char>, b: Seq<char>) -> bool {
    a.len() == b.len() && forall|i: int| 0 <= i < a.len() ==> lower(#[trigger] a[i]) == lower(b[i])
}

/// The name of a kind in a schema document.
pub open spec fn kind_name(kind: FieldKind) -> Seq<char> {
    match kind {
        FieldKind::Scalar => seq!['s', 'c', 'a', 'l', 'a', 'r'],
        FieldKind::Array => seq!['a', 'r', 'r', 'a', 'y'],
        FieldKind::Icon => seq!['i', 'c', 'o', 'n'],
        FieldKind::ModelId => seq!['m', 'o', 'd', 'e', 'l', 'I', 'd'],
        FieldKind::Color => seq!['c', 'o', 'l', 'o', 'r'],
        FieldKind::Link => seq!['l', 'i', 'n', 'k'],
    }
}

/// The kind that a text names, if any: the one whose name it is, but for
/// case.
pub open spec fn kind_named(text: Seq<char>) -> Option<FieldKind> {
    if same_ignoring_case(text, kind_name(FieldKind::Scalar)) {
        Some(FieldKind::Scalar)
    } else if same_ignoring_case(text, kind_name(FieldKind::Array)) {
        Some(FieldKind::Array)
    } else if same_ignoring_case(text, kind_name(FieldKind::Icon)) {
        Some(FieldKind::Icon)
    } else if same_ignoring_case(text, kind_name(FieldKind::ModelId)) {
        Some(FieldKind::ModelId)
    } else if same_ignoring_case(text, kind_name(FieldKind::Color)) {
        Some(FieldKind::Color)
    } else if same_ignoring_case(text, kind_name(FieldKind::Link)) {
        Some(FieldKind::Link)
    } else {
        None
    }
}

/// Folds an ASCII capital to its lower-case form.
fn to_lower(c: char) -> (folded: char)
    ensures
        folded == lower(c),
{
    if 'A' <= c && c <= 'Z' {
        ((c as u8) + 32) as char
    } else {
        c
    }
}

/// Whether `text` is `name` but for the case of its ASCII letters.
fn names(text: &str, name: &str) -> (same: bool)
    ensures
        same == same_ignoring_case(text@, name@),
{
    let n = text.unicode_len();
    if n != name.unicode_len() {
        return false;
    }
    let mut i: usize = 0;
    while i < n
        invariant
            i <= n,
            n == text@.len(),
            n == name@.len(),
            forall|k: int| 0 <= k < i ==> lower(#[trigger] text@[k]) == lower(name@[k]),
        decreases n - i,
    {
        if to_lower(text.get_char(i)) != to_lower(name.get_char(i)) {
            return false;
        }
        i = i + 1;
    }
    true
}

/// The kind that a schema document names by `text`: one of `scalar`, `array`,
/// `icon`, `modelId`, `color` and `link`, in any case; `None` for any other
/// text.
pub fn parse_kind(text: &str) -> (kind: Option<FieldKind>)
    ensures
        kind == kind_named(text@),
{
    proof {
        reveal_strlit("scalar");
        reveal_strlit("array");
        reveal_strlit("icon");
        reveal_strlit("modelId");
        reveal_strlit("color");
        reveal_strlit("link");
        assert("scalar"@ =~= kind_name(FieldKind::Scalar));
        assert("array"@ =~= kind_name(FieldKind::Array));
        assert("icon"@ =~= kind_name(FieldKind::Icon));
        assert("modelId"@ =~= kind_name(FieldKind::ModelId));
        assert("color"@ =~= kind_name(FieldKind::Color));
        assert("link"@ =~= kind_name(FieldKind::Link));
    }
    if names(text, "scalar") {
        Some(FieldKind::Scalar)
    } else if names(text, "array") {
        Some(FieldKind::Array)
    } else if names(text, "icon") {
        Some(FieldKind::Icon)
    } else if names(text, "modelId") {
        Some(FieldKind::ModelId)
    } else if names(text, "color") {
        Some(FieldKind::Color)
    } else if names(text, "link") {
        Some(FieldKind::Link)
    } else {
        None
    }
}

/// Returns the name of a kind in a schema document.
pub fn kind_text(kind: FieldKind) -> (name: &'static str)
    ensures
        name@ == kind_name(kind),
{
    proof {
        reveal_strlit("scalar");
        reveal_strlit("array");
        reveal_strlit("icon");
        reveal_strlit("modelId");
        reveal_strlit("color");
        reveal_strlit("link");
    }
    let name = match kind {
        FieldKind::Scalar => "scalar",
        FieldKind::Array => "array",
        FieldKind::Icon => "icon",
        FieldKind::ModelId => "modelId",
        FieldKind::Color => "color",
        FieldKind::Link => "link",
    };
    assert(name@ =~= kind_name(kind));
    name
}

/// Every kind is the kind that its own name names.
pub proof fn kind_names_itself(kind: FieldKind)
    ensures
        kind_named(kind_name(kind)) == Some(kind),
{
    let name = kind_name(kind);
    assert(same_ignoring_case(name, name));
    assert(name.len() != kind_name(FieldKind::Scalar).len() || kind == FieldKind::Scalar);
    match kind {
        FieldKind::Scalar => {},
        FieldKind::Array => {
            assert(lower(name[0]) != lower(kind_name(FieldKind::Color)[0]));
        },
        FieldKind::Icon => {
            assert(lower(name[0]) != lower(kind_name(FieldKind::Link)[0]));
        },
        FieldKind::ModelId => {},
        FieldKind::Color => {
            assert(lower(name[0]) != lower(kind_name(FieldKind::Array)[0]));
        },
        FieldKind::Link => {
            assert(lower(name[0]) != lower(kind_name(FieldKind::Icon)[0]));
        },
    }
}

} // verus!
