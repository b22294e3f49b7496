use dds::{flatten, parse_document, FlatRecord, JsonNode};

fn num(text: &str) -> JsonNode {
    JsonNode::Number(text.to_string())
}

fn flat_of(text: &str) -> FlatRecord {
    let doc = parse_document(text).expect("valid JSON");
    flatten(doc, String::new())
}

#[test]
fn nested_objects_join_keys_with_underscores() {
    let r = flat_of(r#"{"a": {"b": 1, "c": {"d": 2}}}"#);
    assert_eq!(r.len(), 2);
    assert_eq!(r.get("a_b"), Some(&num("1")));
    assert_eq!(r.get("a_c_d"), Some(&num("2")));
    assert_eq!(r.get("a"), None);
    assert_eq!(r.get("a_c"), None);
}

#[test]
fn arrays_are_kept_whole() {
    let r = flat_of(r#"{"a": [1,2,3]}"#);
    assert_eq!(r.len(), 1);
    assert_eq!(
        r.get("a"),
        Some(&JsonNode::Array(vec![num("1"), num("2"), num("3")]))
    );
    assert_eq!(r.get("a_0"), None);
}

#[test]
fn arrays_of_objects_are_not_flattened() {
    let r = flat_of(r#"{"a": [{"b": 1}]}"#);
    assert_eq!(r.len(), 1);
    assert_eq!(
        r.get("a"),
        Some(&JsonNode::Array(vec![JsonNode::Object(vec![(
            "b".to_string(),
            num("1")
        )])]))
    );
}

#[test]
fn flat_object_passes_through() {
    let r = flat_of(r#"{"x": 1, "y": "two", "z": null, "w": true, "v": [1]}"#);
    assert_eq!(r.len(), 5);
    assert_eq!(r.get("x"), Some(&num("1")));
    assert_eq!(r.get("y"), Some(&JsonNode::Str("two".to_string())));
    assert_eq!(r.get("z"), Some(&JsonNode::Null));
    assert_eq!(r.get("w"), Some(&JsonNode::Bool(true)));
    assert_eq!(r.get("v"), Some(&JsonNode::Array(vec![num("1")])));
}

#[test]
fn flat_object_built_by_hand_passes_through() {
    let doc = JsonNode::Object(vec![
        ("k".to_string(), num("7")),
        ("s".to_string(), JsonNode::Str("t".to_string())),
    ]);
    let (columns, values) = flatten(doc, String::new()).into_columns_and_values();
    assert_eq!(columns, vec!["k".to_string(), "s".to_string()]);
    assert_eq!(values, vec![num("7"), JsonNode::Str("t".to_string())]);
}

#[test]
fn later_path_overwrites_earlier_on_same_key() {
    let doc = JsonNode::Object(vec![
        ("a_b".to_string(), num("1")),
        (
            "a".to_string(),
            JsonNode::Object(vec![("b".to_string(), num("2"))]),
        ),
    ]);
    let r = flatten(doc, String::new());
    assert_eq!(r.len(), 1);
    assert_eq!(r.get("a_b"), Some(&num("2")));
}

#[test]
fn scalar_at_top_level_is_keyed_by_prefix() {
    let r = flatten(num("5"), String::new());
    assert_eq!(r.len(), 1);
    assert_eq!(r.get(""), Some(&num("5")));
    let r = flatten(JsonNode::Bool(false), "p".to_string());
    assert_eq!(r.len(), 1);
    assert_eq!(r.get("p"), Some(&JsonNode::Bool(false)));
}

#[test]
fn prefix_is_joined_to_top_level_keys() {
    let doc = JsonNode::Object(vec![(
        "a".to_string(),
        JsonNode::Object(vec![("b".to_string(), num("1"))]),
    )]);
    let r = flatten(doc, "root".to_string());
    assert_eq!(r.len(), 1);
    assert_eq!(r.get("root_a_b"), Some(&num("1")));
}

#[test]
fn empty_object_gives_empty_record() {
    let r = flat_of("{}");
    assert_eq!(r.len(), 0);
    let (columns, values) = r.into_columns_and_values();
    assert!(columns.is_empty());
    assert!(values.is_empty());
}

#[test]
fn empty_nested_object_leaves_no_entry() {
    let r = flat_of(r#"{"a": {}, "b": 1}"#);
    assert_eq!(r.len(), 1);
    assert_eq!(r.get("b"), Some(&num("1")));
}

#[test]
fn every_leaf_found_under_its_path() {
    let r = flat_of(r#"{"user": {"name": "ann", "address": {"city": "Oslo", "zip": "0150"}}, "tags": ["x"], "n": -3}"#);
    assert_eq!(r.len(), 5);
    assert_eq!(r.get("user_name"), Some(&JsonNode::Str("ann".to_string())));
    assert_eq!(r.get("user_address_city"), Some(&JsonNode::Str("Oslo".to_string())));
    assert_eq!(r.get("user_address_zip"), Some(&JsonNode::Str("0150".to_string())));
    assert_eq!(r.get("tags"), Some(&JsonNode::Array(vec![JsonNode::Str("x".to_string())])));
    assert_eq!(r.get("n"), Some(&num("-3")));
}

#[test]
fn record_insert_replaces_value() {
    let mut r = FlatRecord::new();
    r.insert("a".to_string(), num("1"));
    r.insert("b".to_string(), num("2"));
    r.insert("a".to_string(), num("3"));
    assert_eq!(r.len(), 2);
    let (columns, values) = r.into_columns_and_values();
    assert_eq!(columns, vec!["a".to_string(), "b".to_string()]);
    assert_eq!(values, vec![num("3"), num("2")]);
}
