use pim_docs::diff::{
    extract_item_properties, flatten_changes, parse_changed_item, parse_diff_data, DiffError,
    FieldChange, NestedFieldDiff,
};
use pim_docs::json::Json;

fn s(v: &str) -> Json {
    Json::Str(v.to_string())
}

fn n(v: &str) -> Json {
    Json::Number(v.to_string())
}

fn obj(members: Vec<(&str, Json)>) -> Json {
    Json::Object(members.into_iter().map(|(k, v)| (k.to_string(), v)).collect())
}

fn arr(items: Vec<Json>) -> Json {
    Json::Array(items)
}

fn flatten(prefix: &str, v: &Json) -> (Vec<FieldChange>, Vec<NestedFieldDiff>) {
    let mut out = Vec::new();
    let mut nested = Vec::new();
    flatten_changes(prefix, v, &mut out, &mut nested);
    (out, nested)
}

fn change_tuples(v: &[FieldChange]) -> Vec<(String, String, String)> {
    v.iter().map(|c| (c.field_path.clone(), c.old.clone(), c.new.clone())).collect()
}

#[test]
fn flattening_twice_gives_the_same_lists() {
    let tree = obj(vec![
        ("en_US", obj(vec![("old", s("A")), ("new", s("B"))])),
        ("de_DE", obj(vec![("old", Json::Null), ("new", s("C"))])),
        ("options", obj(vec![("added", arr(vec![s("x")])), ("removed", arr(vec![]))])),
    ]);
    let (c1, n1) = flatten("labels", &tree);
    let (c2, n2) = flatten("labels", &tree);
    assert_eq!(change_tuples(&c1), change_tuples(&c2));
    assert_eq!(c1.len(), 2);
    assert_eq!(n1.len(), 1);
    assert_eq!(n1[0].field_path, n2[0].field_path);
    assert_eq!(n1[0].added, n2[0].added);
    assert_eq!(c1[0].field_path, "labels.en_US");
    assert_eq!(c1[1].field_path, "labels.de_DE");
    assert_eq!(c1[1].old, "null");
}

#[test]
fn leaf_rule_wins_over_list_rule() {
    let node = obj(vec![
        ("added", arr(vec![s("a")])),
        ("removed", arr(vec![s("b")])),
        ("old", s("1")),
        ("new", s("2")),
    ]);
    let (changes, nested) = flatten("field", &node);
    assert_eq!(change_tuples(&changes), vec![("field".to_string(), "1".to_string(), "2".to_string())]);
    assert!(nested.is_empty());
}

#[test]
fn nested_path_is_dotted() {
    let entry = obj(vec![
        ("code", s("sku")),
        ("changes", obj(vec![("labels", obj(vec![("en_US", obj(vec![("old", s("A")), ("new", s("B"))]))]))])),
    ]);
    let item = parse_changed_item(&entry).unwrap();
    assert_eq!(item.code, "sku");
    assert_eq!(
        change_tuples(&item.changes),
        vec![("labels.en_US".to_string(), "A".to_string(), "B".to_string())]
    );
    assert!(item.nested_diffs.is_empty());
}

#[test]
fn list_change_keeps_display_values() {
    let node = obj(vec![("added", arr(vec![s("x"), n("3"), Json::Bool(true)]))]);
    let (changes, nested) = flatten("attributes", &node);
    assert!(changes.is_empty());
    assert_eq!(nested.len(), 1);
    assert_eq!(nested[0].field_path, "attributes");
    assert_eq!(nested[0].added, vec!["x".to_string(), "3".to_string(), "true".to_string()]);
    assert!(nested[0].removed.is_empty());
}

#[test]
fn list_rule_needs_an_array() {
    let node = obj(vec![("added", s("x")), ("sub", obj(vec![("old", n("1")), ("new", n("2"))]))]);
    let (changes, nested) = flatten("f", &node);
    assert!(nested.is_empty());
    assert_eq!(change_tuples(&changes), vec![("f.sub".to_string(), "1".to_string(), "2".to_string())]);
}

#[test]
fn non_object_node_gives_nothing() {
    let (changes, nested) = flatten("f", &arr(vec![s("x")]));
    assert!(changes.is_empty());
    assert!(nested.is_empty());
    let (changes, nested) = flatten("f", &s("x"));
    assert!(changes.is_empty());
    assert!(nested.is_empty());
}

#[test]
fn composite_values_show_as_json_text() {
    let node = obj(vec![("old", arr(vec![s("a\"b"), n("1")])), ("new", obj(vec![("k", Json::Null)]))]);
    let (changes, _) = flatten("f", &node);
    assert_eq!(changes[0].old, "[\"a\\\"b\",1]");
    assert_eq!(changes[0].new, "{\"k\":null}");
}

#[test]
fn malformed_changed_entry_is_dropped() {
    let root = obj(vec![(
        "attributes",
        obj(vec![(
            "changed",
            arr(vec![
                obj(vec![("code", s("a")), ("changes", obj(vec![("type", obj(vec![("old", s("x")), ("new", s("y"))]))]))]),
                obj(vec![("changes", obj(vec![]))]),
            ]),
        )]),
    )]);
    let report = parse_diff_data(&root).unwrap();
    assert_eq!(report.categories.len(), 1);
    assert_eq!(report.categories[0].0, "attributes");
    assert_eq!(report.categories[0].1.changed.len(), 1);
    assert_eq!(report.categories[0].1.changed[0].code, "a");
    assert!(report.categories[0].1.added.is_empty());
    assert!(report.categories[0].1.removed.is_empty());
}

#[test]
fn changed_entry_needs_string_code_and_object_changes() {
    assert!(parse_changed_item(&obj(vec![("code", n("1")), ("changes", obj(vec![]))])).is_none());
    assert!(parse_changed_item(&obj(vec![("code", s("a")), ("changes", arr(vec![]))])).is_none());
    assert!(parse_changed_item(&s("a")).is_none());
}

#[test]
fn root_must_be_an_object() {
    assert_eq!(parse_diff_data(&arr(vec![])).unwrap_err(), DiffError::RootNotObject);
}

#[test]
fn category_must_be_an_object() {
    let root = obj(vec![("families", obj(vec![])), ("attributes", arr(vec![]))]);
    assert_eq!(
        parse_diff_data(&root).unwrap_err(),
        DiffError::CategoryNotObject("attributes".to_string())
    );
}

#[test]
fn added_and_removed_are_kept() {
    let root = obj(vec![(
        "families",
        obj(vec![("added", arr(vec![obj(vec![("code", s("f1"))])])), ("removed", s("oops"))]),
    )]);
    let report = parse_diff_data(&root).unwrap();
    let cat = &report.categories[0].1;
    assert_eq!(cat.added.len(), 1);
    assert!(cat.removed.is_empty());
    assert!(cat.changed.is_empty());
}

#[test]
fn noise_fields_give_no_properties() {
    let item = obj(vec![("flag", Json::Bool(false)), ("list", arr(vec![])), ("obj", obj(vec![]))]);
    assert!(extract_item_properties(&item).is_empty());
}

#[test]
fn properties_in_priority_then_labels_then_rest() {
    let item = obj(vec![
        ("scopable", Json::Bool(true)),
        ("group", s("marketing")),
        ("labels", obj(vec![("en_US", s("Name")), ("fr_FR", s("Nom"))])),
        ("code", s("name")),
        ("type", Json::Null),
        ("max_characters", n("255")),
        ("sort_order", n("4")),
    ]);
    let props = extract_item_properties(&item);
    let expected: Vec<(String, String)> = vec![
        ("code", "name"),
        ("group", "marketing"),
        ("label (en_US)", "Name"),
        ("label (fr_FR)", "Nom"),
        ("scopable", "true"),
        ("sort_order", "4"),
    ]
    .into_iter()
    .map(|(k, v)| (k.to_string(), v.to_string()))
    .collect();
    assert_eq!(props, expected);
}

#[test]
fn non_object_item_is_one_value_entry() {
    let props = extract_item_properties(&s("plain"));
    assert_eq!(props, vec![("value".to_string(), "\"plain\"".to_string())]);
}

#[test]
fn noise_is_left_out_of_priority_fields_and_labels() {
    let item = obj(vec![
        ("code", s("c")),
        ("type", Json::Bool(false)),
        ("group", arr(vec![])),
        ("labels", obj(vec![("en_US", Json::Null), ("de_DE", s("D")), ("fr_FR", obj(vec![]))])),
    ]);
    let props = extract_item_properties(&item);
    assert_eq!(
        props,
        vec![("code".to_string(), "c".to_string()), ("label (de_DE)".to_string(), "D".to_string())]
    );
}

#[test]
fn a_key_appears_once() {
    let item = obj(vec![("labels", obj(vec![("en_US", s("A"))])), ("label (en_US)", s("B"))]);
    let props = extract_item_properties(&item);
    assert_eq!(props, vec![("label (en_US)".to_string(), "A".to_string())]);
}
