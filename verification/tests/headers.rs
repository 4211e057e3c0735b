use sheet_export::error::ExportError;
use sheet_export::headers::{field_names, latest_name, parse_array, parse_field_names};
use sheet_export::schema::{kind_text, parse_kind, Field, FieldKind, Schema};

fn named(name: &str, kind: FieldKind) -> Field {
    Field { name: Some(name.to_string()), pending_name: None, kind, count: None, fields: None }
}

fn leaf(name: &str) -> Field {
    named(name, FieldKind::Scalar)
}

fn nameless() -> Field {
    Field { name: None, pending_name: None, kind: FieldKind::Scalar, count: None, fields: None }
}

fn array(name: &str, count: Option<u32>, fields: Option<Vec<Field>>) -> Field {
    Field { name: Some(name.to_string()), pending_name: None, kind: FieldKind::Array, count, fields }
}

fn texts(list: &[&str]) -> Vec<String> {
    list.iter().map(|s| s.to_string()).collect()
}

#[test]
fn flat_schema() {
    let fields = vec![leaf("A"), named("B", FieldKind::Scalar), named("C", FieldKind::Icon)];
    assert_eq!(parse_field_names(&fields), Ok(texts(&["#", "A", "B", "C"])));
}

#[test]
fn simple_array() {
    let fields = vec![array("X", Some(3), None)];
    assert_eq!(parse_field_names(&fields), Ok(texts(&["#", "X[0]", "X[1]", "X[2]"])));
}

#[test]
fn single_child_array_collapses() {
    let fields = vec![array("X", Some(2), Some(vec![leaf("inner")]))];
    assert_eq!(parse_field_names(&fields), Ok(texts(&["#", "X[0]", "X[1]"])));
}

#[test]
fn multi_child_array_expands() {
    let fields = vec![array("X", Some(2), Some(vec![leaf("a"), leaf("b")]))];
    assert_eq!(
        parse_field_names(&fields),
        Ok(texts(&["#", "X[0].a", "X[0].b", "X[1].a", "X[1].b"]))
    );
}

#[test]
fn pending_name_precedence() {
    let mut field = leaf("old");
    field.pending_name = Some("new".to_string());
    assert_eq!(parse_field_names(&vec![field]), Ok(texts(&["#", "new"])));
}

#[test]
fn top_level_pending_list() {
    let schema = Schema { fields: vec![leaf("A")], pending_fields: Some(vec![leaf("B")]) };
    assert_eq!(field_names(&schema), Ok(texts(&["#", "B"])));
}

#[test]
fn current_list_without_pending() {
    let schema = Schema { fields: vec![leaf("A")], pending_fields: None };
    assert_eq!(field_names(&schema), Ok(texts(&["#", "A"])));
}

#[test]
fn pending_list_hides_faults_of_current_list() {
    let schema = Schema { fields: vec![nameless()], pending_fields: Some(vec![leaf("B")]) };
    assert_eq!(field_names(&schema), Ok(texts(&["#", "B"])));
    let schema = Schema { fields: vec![leaf("A")], pending_fields: Some(vec![nameless()]) };
    assert_eq!(field_names(&schema), Err(ExportError::NameMissing));
}

#[test]
fn empty_pending_list_is_still_chosen() {
    let schema = Schema { fields: vec![leaf("A")], pending_fields: Some(vec![]) };
    assert_eq!(field_names(&schema), Ok(texts(&["#"])));
}

#[test]
fn empty_list_gives_the_identifier_alone() {
    assert_eq!(parse_field_names(&vec![]), Ok(texts(&["#"])));
}

#[test]
fn first_header_is_the_identifier() {
    let lists = vec![
        vec![],
        vec![leaf("A")],
        vec![array("X", Some(0), None)],
        vec![array("X", Some(4), Some(vec![leaf("a"), leaf("b"), leaf("c")]))],
    ];
    for fields in lists.iter() {
        let names = parse_field_names(fields).unwrap();
        assert_eq!(names[0], "#");
    }
}

#[test]
fn top_level_field_without_a_name_fails() {
    assert_eq!(parse_field_names(&vec![leaf("A"), nameless()]), Err(ExportError::NameMissing));
    let mut unnamed_array = array("X", Some(2), None);
    unnamed_array.name = None;
    assert_eq!(parse_field_names(&vec![unnamed_array]), Err(ExportError::NameMissing));
}

#[test]
fn nameless_single_child_is_permitted() {
    let fields = vec![array("X", Some(2), Some(vec![nameless()]))];
    assert_eq!(parse_field_names(&fields), Ok(texts(&["#", "X[0]", "X[1]"])));
}

#[test]
fn nameless_child_of_many_fails() {
    let fields = vec![array("X", Some(2), Some(vec![leaf("a"), nameless()]))];
    assert_eq!(parse_field_names(&fields), Err(ExportError::NameMissing));
}

#[test]
fn nameless_children_of_an_array_without_elements_are_not_read() {
    let fields = vec![array("X", Some(0), Some(vec![nameless(), nameless()])), leaf("Y")];
    assert_eq!(parse_field_names(&fields), Ok(texts(&["#", "Y"])));
    let fields = vec![array("X", None, Some(vec![nameless(), nameless()]))];
    assert_eq!(parse_field_names(&fields), Ok(texts(&["#", "X"])));
}

#[test]
fn nameless_children_of_an_ordinary_field_are_not_read() {
    let mut field = leaf("A");
    field.count = Some(2);
    field.fields = Some(vec![nameless(), nameless()]);
    assert_eq!(parse_field_names(&vec![field]), Ok(texts(&["#", "A"])));
}

#[test]
fn array_without_count_gives_its_name() {
    let fields = vec![array("X", None, Some(vec![leaf("a"), leaf("b")]))];
    assert_eq!(parse_field_names(&fields), Ok(texts(&["#", "X"])));
}

#[test]
fn ordinary_field_with_count_gives_its_name() {
    let mut field = named("A", FieldKind::Link);
    field.count = Some(3);
    assert_eq!(parse_field_names(&vec![field]), Ok(texts(&["#", "A"])));
}

#[test]
fn every_kind_but_array_is_a_leaf() {
    let kinds = [FieldKind::Scalar, FieldKind::Icon, FieldKind::ModelId, FieldKind::Color, FieldKind::Link];
    for kind in kinds {
        let mut field = named("A", kind);
        field.count = Some(2);
        assert_eq!(parse_field_names(&vec![field]), Ok(texts(&["#", "A"])));
    }
}

#[test]
fn array_with_no_children_listed() {
    let fields = vec![array("X", Some(2), Some(vec![]))];
    assert_eq!(parse_field_names(&fields), Ok(texts(&["#", "X[0]", "X[1]"])));
}

#[test]
fn nested_arrays_expand_depth_first() {
    let inner = array("a", Some(2), None);
    let fields = vec![array("X", Some(2), Some(vec![inner, leaf("b")])), leaf("Z")];
    assert_eq!(
        parse_field_names(&fields),
        Ok(texts(&[
            "#", "X[0].a[0]", "X[0].a[1]", "X[0].b", "X[1].a[0]", "X[1].a[1]", "X[1].b", "Z",
        ]))
    );
}

#[test]
fn children_expand_whatever_their_kind() {
    let mut counted = leaf("a");
    counted.count = Some(2);
    let fields = vec![array("X", Some(1), Some(vec![counted, leaf("b")]))];
    assert_eq!(parse_field_names(&fields), Ok(texts(&["#", "X[0].a[0]", "X[0].a[1]", "X[0].b"])));
}

#[test]
fn nested_parts_of_parts() {
    let inner = array("p", Some(1), Some(vec![leaf("u"), leaf("v")]));
    let fields = vec![array("X", Some(1), Some(vec![inner, leaf("q")]))];
    assert_eq!(
        parse_field_names(&fields),
        Ok(texts(&["#", "X[0].p[0].u", "X[0].p[0].v", "X[0].q"]))
    );
}

#[test]
fn deep_missing_name_fails() {
    let inner = array("p", Some(1), Some(vec![leaf("u"), nameless()]));
    let fields = vec![array("X", Some(1), Some(vec![inner, leaf("q")]))];
    assert_eq!(parse_field_names(&fields), Err(ExportError::NameMissing));
}

#[test]
fn pending_name_of_a_part_is_used() {
    let mut part = leaf("old");
    part.pending_name = Some("new".to_string());
    let fields = vec![array("X", Some(1), Some(vec![part, leaf("b")]))];
    assert_eq!(parse_field_names(&fields), Ok(texts(&["#", "X[0].new", "X[0].b"])));
}

#[test]
fn pending_name_alone_is_enough() {
    let mut field = nameless();
    field.pending_name = Some("draft".to_string());
    assert_eq!(parse_field_names(&vec![field]), Ok(texts(&["#", "draft"])));
}

#[test]
fn shadowed_names_do_not_show() {
    let mut a = array("first", Some(2), Some(vec![leaf("a"), leaf("b")]));
    a.pending_name = Some("P".to_string());
    let mut b = array("second", Some(2), Some(vec![leaf("a"), leaf("b")]));
    b.pending_name = Some("P".to_string());
    assert_eq!(parse_field_names(&vec![a]), parse_field_names(&vec![b]));
}

#[test]
fn indexes_are_decimal() {
    let names = parse_field_names(&vec![array("X", Some(12), None)]).unwrap();
    assert_eq!(names.len(), 13);
    assert_eq!(names[1], "X[0]");
    assert_eq!(names[10], "X[9]");
    assert_eq!(names[11], "X[10]");
    assert_eq!(names[12], "X[11]");
}

#[test]
fn array_cardinality() {
    let inner = array("a", Some(3), None);
    let fields = vec![array("X", Some(4), Some(vec![inner, leaf("b"), leaf("c")]))];
    let names = parse_field_names(&fields).unwrap();
    assert_eq!(names.len(), 1 + 4 * (3 + 1 + 1));
    let names = parse_field_names(&vec![array("X", Some(5), Some(vec![leaf("only")]))]).unwrap();
    assert_eq!(names.len(), 1 + 5);
    let names = parse_field_names(&vec![array("X", Some(5), None)]).unwrap();
    assert_eq!(names.len(), 1 + 5);
}

#[test]
fn array_headers_hold_an_index() {
    let inner = array("a", Some(2), None);
    let fields = vec![array("Item", Some(3), Some(vec![inner, leaf("b")]))];
    let names = parse_field_names(&fields).unwrap();
    for name in names.iter().skip(1) {
        assert!((0..3).any(|i| name.starts_with(&format!("Item[{}]", i))));
    }
}

#[test]
fn flattening_twice_gives_the_same() {
    let inner = array("a", Some(2), None);
    let fields = vec![leaf("A"), array("X", Some(2), Some(vec![inner, leaf("b")]))];
    assert_eq!(parse_field_names(&fields), parse_field_names(&fields));
    let bad = vec![nameless()];
    assert_eq!(parse_field_names(&bad), parse_field_names(&bad));
}

#[test]
fn latest_name_prefers_pending() {
    let mut field = leaf("old");
    assert_eq!(latest_name(&field), Ok("old".to_string()));
    field.pending_name = Some("new".to_string());
    assert_eq!(latest_name(&field), Ok("new".to_string()));
    field.name = None;
    assert_eq!(latest_name(&field), Ok("new".to_string()));
    assert_eq!(latest_name(&nameless()), Err(ExportError::NameMissing));
}

#[test]
fn parse_array_appends_after_what_is_there() {
    let mut names = texts(&["kept"]);
    let field = array("ignored", Some(2), Some(vec![leaf("a"), leaf("b")]));
    assert_eq!(parse_array(&field, "Base".to_string(), &mut names), Ok(()));
    assert_eq!(names, texts(&["kept", "Base[0].a", "Base[0].b", "Base[1].a", "Base[1].b"]));
}

#[test]
fn parse_array_without_count_appends_the_name() {
    let mut names = Vec::new();
    assert_eq!(parse_array(&leaf("x"), "Given".to_string(), &mut names), Ok(()));
    assert_eq!(names, texts(&["Given"]));
}

#[test]
fn parse_array_leaves_names_alone_when_it_fails() {
    let mut names = texts(&["kept"]);
    let inner = array("p", Some(2), Some(vec![leaf("u"), nameless()]));
    let field = array("X", Some(3), Some(vec![leaf("first"), inner]));
    assert_eq!(parse_array(&field, "X".to_string(), &mut names), Err(ExportError::NameMissing));
    assert_eq!(names, texts(&["kept"]));
}

#[test]
fn default_kind_is_scalar() {
    assert_eq!(FieldKind::default(), FieldKind::Scalar);
}

#[test]
fn kinds_are_named_in_any_case() {
    assert_eq!(parse_kind("scalar"), Some(FieldKind::Scalar));
    assert_eq!(parse_kind("array"), Some(FieldKind::Array));
    assert_eq!(parse_kind("icon"), Some(FieldKind::Icon));
    assert_eq!(parse_kind("modelId"), Some(FieldKind::ModelId));
    assert_eq!(parse_kind("color"), Some(FieldKind::Color));
    assert_eq!(parse_kind("link"), Some(FieldKind::Link));
    assert_eq!(parse_kind("ARRAY"), Some(FieldKind::Array));
    assert_eq!(parse_kind("ModelID"), Some(FieldKind::ModelId));
    assert_eq!(parse_kind("modelid"), Some(FieldKind::ModelId));
    assert_eq!(parse_kind("Link"), Some(FieldKind::Link));
}

#[test]
fn other_texts_name_no_kind() {
    assert_eq!(parse_kind(""), None);
    assert_eq!(parse_kind("arrays"), None);
    assert_eq!(parse_kind("arra"), None);
    assert_eq!(parse_kind("model_id"), None);
    assert_eq!(parse_kind("colour"), None);
    assert_eq!(parse_kind("icon "), None);
    assert_eq!(parse_kind("lin\u{212a}"), None);
}

#[test]
fn every_kind_is_named_by_its_own_name() {
    let kinds = [
        FieldKind::Scalar,
        FieldKind::Array,
        FieldKind::Icon,
        FieldKind::ModelId,
        FieldKind::Color,
        FieldKind::Link,
    ];
    for kind in kinds {
        assert_eq!(parse_kind(kind_text(kind)), Some(kind));
        assert_eq!(parse_kind(&kind_text(kind).to_uppercase()), Some(kind));
    }
    assert_eq!(kind_text(FieldKind::ModelId), "modelId");
    assert_eq!(kind_text(FieldKind::Scalar), "scalar");
}
