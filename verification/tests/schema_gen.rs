use rs_aio_db::db::internal::schema_gen::{
    extract_parentheses_contents, generate_db_schema_query, get_current_schema, get_sql_type,
    split_by_comma, split_by_empty_space,
};
use rs_aio_db::db::models::Schema;

fn field(name: &str, kind: &str) -> Schema {
    Schema { field_name: name.to_string(), field_type: kind.to_string() }
}

#[test]
fn sql_type_of_each_field_type() {
    assert_eq!(get_sql_type("bool"), Some("NUMERIC".to_string()));
    for ident in ["u8", "u16", "u32", "u64", "u128", "i8", "i16", "i32", "i64", "i128"] {
        assert_eq!(get_sql_type(ident), Some("INTEGER".to_string()));
    }
    assert_eq!(get_sql_type("f32"), Some("REAL".to_string()));
    assert_eq!(get_sql_type("f64"), Some("REAL".to_string()));
    assert_eq!(get_sql_type("char"), Some("TEXT".to_string()));
    assert_eq!(get_sql_type("String"), Some("TEXT".to_string()));
    assert_eq!(get_sql_type("Vec"), Some("BLOB".to_string()));
}

#[test]
fn sql_type_of_an_unknown_field_type() {
    assert_eq!(get_sql_type("HashMap"), None);
    assert_eq!(get_sql_type(""), None);
    assert_eq!(get_sql_type("Bool"), None);
    assert_eq!(get_sql_type("string"), None);
}

#[test]
fn create_table_statement() {
    let schema = vec![field("name", "String"), field("age", "i32"), field("married", "bool")];
    assert_eq!(
        generate_db_schema_query(&schema, "Test"),
        "CREATE TABLE IF NOT EXISTS Test ( name TEXT, age INTEGER, married NUMERIC)"
    );
}

#[test]
fn create_table_statement_for_one_field() {
    let schema = vec![field("some_blob", "Vec")];
    assert_eq!(
        generate_db_schema_query(&schema, "t"),
        "CREATE TABLE IF NOT EXISTS t ( some_blob BLOB)"
    );
}

#[test]
fn parentheses_contents() {
    assert_eq!(
        extract_parentheses_contents("CREATE TABLE t ( a INTEGER, b TEXT)"),
        Some(" a INTEGER, b TEXT".to_string())
    );
    assert_eq!(extract_parentheses_contents("no parentheses"), None);
    assert_eq!(extract_parentheses_contents("()"), None);
    assert_eq!(extract_parentheses_contents(") (a"), None);
    assert_eq!(extract_parentheses_contents("x (a (b) c) d"), Some("a b".to_string()));
    assert_eq!(extract_parentheses_contents("(abc"), Some("abc".to_string()));
    assert_eq!(extract_parentheses_contents(""), None);
}

#[test]
fn comma_entries_are_trimmed() {
    assert_eq!(split_by_comma(" a INTEGER, b TEXT"), vec!["a INTEGER", "b TEXT"]);
    assert_eq!(split_by_comma("a,,b"), vec!["a", "", "b"]);
    assert_eq!(split_by_comma(""), vec![""]);
    assert_eq!(split_by_comma("\t x \n"), vec!["x"]);
    assert_eq!(split_by_comma(","), vec!["", ""]);
}

#[test]
fn entries_to_columns() {
    let columns = split_by_empty_space(vec!["a INTEGER", "b  TEXT", "c", ""]);
    let pairs: Vec<(String, String)> =
        columns.into_iter().map(|c| (c.field_name, c.field_type)).collect();
    assert_eq!(
        pairs,
        vec![
            ("a".to_string(), "INTEGER".to_string()),
            ("b".to_string(), "TEXT".to_string()),
            ("c".to_string(), "c".to_string()),
            ("".to_string(), "".to_string()),
        ]
    );
}

#[test]
fn stored_statement_to_schema() {
    let schema =
        get_current_schema("CREATE TABLE Test ( name TEXT, age INTEGER, married NUMERIC)".into());
    let pairs: Vec<(String, String)> =
        schema.into_iter().map(|c| (c.field_name, c.field_type)).collect();
    assert_eq!(
        pairs,
        vec![
            ("name".to_string(), "TEXT".to_string()),
            ("age".to_string(), "INTEGER".to_string()),
            ("married".to_string(), "NUMERIC".to_string()),
        ]
    );
}
