use dds::{
    build_insert, contains_name, find_schema, flatten, insert_document, is_sql_identifier,
    prepare_insert, ETLPipelineError, FlatRecord, JsonNode, TableSchema,
};

fn num(text: &str) -> JsonNode {
    JsonNode::Number(text.to_string())
}

fn schema(name: &str, columns: &[&str]) -> TableSchema {
    TableSchema {
        name: name.to_string(),
        columns: columns.iter().map(|c| c.to_string()).collect(),
    }
}

#[test]
fn statement_for_nested_document() {
    let schemas = vec![schema("json_data", &["id", "a_b", "a_c_d"])];
    let s = prepare_insert(
        Ok(r#"{"a": {"b": 1, "c": {"d": 2}}}"#.to_string()),
        "json_data",
        &schemas,
    )
    .unwrap();
    assert_eq!(s.sql, "INSERT INTO json_data (a_b, a_c_d) VALUES ($1, $2)");
    assert_eq!(s.columns, vec!["a_b".to_string(), "a_c_d".to_string()]);
    assert_eq!(s.params, vec![num("1"), num("2")]);
}

#[test]
fn flat_document_loads_its_members() {
    let schemas = vec![schema("t", &["x", "y", "z"])];
    let s = prepare_insert(Ok(r#"{"y": [1, 2], "x": "s"}"#.to_string()), "t", &schemas).unwrap();
    assert_eq!(s.sql, "INSERT INTO t (x, y) VALUES ($1, $2)");
    assert_eq!(s.columns, vec!["x".to_string(), "y".to_string()]);
    assert_eq!(
        s.params,
        vec![
            JsonNode::Str("s".to_string()),
            JsonNode::Array(vec![num("1"), num("2")])
        ]
    );
}

#[test]
fn columns_and_values_stay_aligned() {
    let mut r = FlatRecord::new();
    r.insert("z".to_string(), num("1"));
    r.insert("y".to_string(), JsonNode::Str("two".to_string()));
    r.insert("x".to_string(), JsonNode::Null);
    let s = build_insert(&schema("t", &["x", "y", "z"]), r).unwrap();
    assert_eq!(s.sql, "INSERT INTO t (z, y, x) VALUES ($1, $2, $3)");
    assert_eq!(s.columns, vec!["z".to_string(), "y".to_string(), "x".to_string()]);
    assert_eq!(s.params, vec![num("1"), JsonNode::Str("two".to_string()), JsonNode::Null]);
}

#[test]
fn placeholders_past_nine() {
    let mut r = FlatRecord::new();
    let mut columns = Vec::new();
    for i in 0..12 {
        r.insert(format!("c{}", i), num(&i.to_string()));
        columns.push(format!("c{}", i));
    }
    let table = TableSchema { name: "t".to_string(), columns };
    let s = build_insert(&table, r).unwrap();
    assert_eq!(
        s.sql,
        "INSERT INTO t (c0, c1, c2, c3, c4, c5, c6, c7, c8, c9, c10, c11) VALUES ($1, $2, $3, $4, $5, $6, $7, $8, $9, $10, $11, $12)"
    );
    assert_eq!(s.params[11], num("11"));
}

#[test]
fn empty_record_gives_empty_lists() {
    let s = build_insert(&schema("t", &["a"]), FlatRecord::new()).unwrap();
    assert_eq!(s.sql, "INSERT INTO t () VALUES ()");
    assert!(s.columns.is_empty());
    assert!(s.params.is_empty());
}

#[test]
fn bad_table_name_is_refused() {
    let mut r = FlatRecord::new();
    r.insert("a".to_string(), num("1"));
    let e = build_insert(&schema("t; DROP TABLE t", &["a"]), r).err().unwrap();
    assert_eq!(e, ETLPipelineError::InvalidIdentifier("t; DROP TABLE t".to_string()));
}

#[test]
fn bad_key_is_refused() {
    let doc = JsonNode::Object(vec![
        ("ok".to_string(), num("1")),
        ("a-b".to_string(), num("2")),
    ]);
    let e = insert_document(doc, &schema("t", &["ok", "a-b"])).err().unwrap();
    assert_eq!(e, ETLPipelineError::InvalidIdentifier("a-b".to_string()));
}

#[test]
fn key_that_is_no_column_is_refused() {
    let doc = JsonNode::Object(vec![
        ("ok".to_string(), num("1")),
        (
            "extra".to_string(),
            JsonNode::Object(vec![("field".to_string(), num("2"))]),
        ),
    ]);
    let e = insert_document(doc, &schema("t", &["ok", "extra"])).err().unwrap();
    assert_eq!(e, ETLPipelineError::UnknownColumn("extra_field".to_string()));
}

#[test]
fn unknown_table_is_refused() {
    let schemas = vec![schema("json_data", &["a"])];
    let e = prepare_insert(Ok(r#"{"a": 1}"#.to_string()), "users", &schemas)
        .err()
        .unwrap();
    assert_eq!(e, ETLPipelineError::UnknownTable("users".to_string()));
}

#[test]
fn schema_lookup() {
    let schemas = vec![schema("a", &["x"]), schema("b", &["y"]), schema("b", &["z"])];
    assert_eq!(find_schema(&schemas, "b").unwrap().columns, vec!["y".to_string()]);
    assert!(find_schema(&schemas, "c").is_none());
    assert!(find_schema(&Vec::new(), "a").is_none());
    assert!(contains_name(&schemas[0].columns, &"x".to_string()));
    assert!(!contains_name(&schemas[0].columns, &"X".to_string()));
}

#[test]
fn top_level_scalar_has_no_column_name() {
    let schemas = vec![schema("t", &["a"])];
    let e = prepare_insert(Ok("7".to_string()), "t", &schemas).err().unwrap();
    assert_eq!(e, ETLPipelineError::InvalidIdentifier(String::new()));
}

#[test]
fn malformed_json_gives_parse_error() {
    let schemas = vec![schema("t", &["a"])];
    let r = prepare_insert(Ok(r#"{"a": }"#.to_string()), "t", &schemas);
    assert!(matches!(r, Err(ETLPipelineError::JsonParseError(_))));
}

#[test]
fn unreadable_file_gives_read_error() {
    let schemas = vec![schema("t", &["a"])];
    let r = prepare_insert(
        Err("missing.json: No such file or directory".to_string()),
        "t",
        &schemas,
    );
    assert_eq!(
        r.err().unwrap(),
        ETLPipelineError::FileReadError("missing.json: No such file or directory".to_string())
    );
}

#[test]
fn identifiers() {
    assert!(is_sql_identifier("json_data"));
    assert!(is_sql_identifier("_x9"));
    assert!(is_sql_identifier("A"));
    assert!(!is_sql_identifier(""));
    assert!(!is_sql_identifier("9a"));
    assert!(!is_sql_identifier("a b"));
    assert!(!is_sql_identifier("a\"b"));
    assert!(!is_sql_identifier("é"));
}

#[test]
fn flattened_document_round_trips_through_statement() {
    let make = || {
        JsonNode::Object(vec![
            (
                "p".to_string(),
                JsonNode::Object(vec![
                    ("q".to_string(), JsonNode::Str("v".to_string())),
                    ("r".to_string(), JsonNode::Array(vec![num("1")])),
                ]),
            ),
            ("s".to_string(), JsonNode::Bool(true)),
        ])
    };
    let s = insert_document(make(), &schema("t", &["p_q", "p_r", "s"])).unwrap();
    let expected = flatten(make(), String::new());
    assert_eq!(s.columns.len(), expected.len());
    for (column, value) in s.columns.iter().zip(s.params.iter()) {
        assert_eq!(expected.get(column), Some(value));
    }
    assert_eq!(s.sql, "INSERT INTO t (p_q, p_r, s) VALUES ($1, $2, $3)");
}
