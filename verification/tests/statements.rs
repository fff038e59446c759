use rs_aio_db::db::internal::queries::{
    all_query, alter_table_drop_column, alter_table_new_column, any_count_query,
    change_db_settings, change_synchronous_settings, columns_are_fields, create_index,
    create_unique_index, current_db_schema_query, delete_query, drop_index, find_field,
    insert_query, partial_update_query, set_wal_mode, set_wal_mode_to_rollback, update_query,
};
use rs_aio_db::db::models::{ConfigurationError, FieldValue, GenericValue, Schema};
use rs_aio_db::db::WalMode;

fn field(name: &str, kind: &str) -> Schema {
    Schema { field_name: name.to_string(), field_type: kind.to_string() }
}

fn person() -> Vec<GenericValue> {
    vec![
        GenericValue::new("name".into(), FieldValue::Text("Mylo".into())),
        GenericValue::new("age".into(), FieldValue::I32(0)),
        GenericValue::new("height".into(), FieldValue::Float32("2.1".into())),
        GenericValue::new("married".into(), FieldValue::Bool(true)),
        GenericValue::new("comments".into(), FieldValue::Text("It's cold".into())),
        GenericValue::new("some_blob".into(), FieldValue::Bytes(vec![1, 2, 255])),
    ]
}

#[test]
fn insert_statement() {
    assert_eq!(
        insert_query(&person(), "Test", false),
        "INSERT INTO Test (name,age,height,married,comments,some_blob) VALUES ('Mylo',0,2.1,1,'It''s cold',x'0102ff')"
    );
}

#[test]
fn insert_statement_in_a_block_of_its_own() {
    let one = vec![GenericValue::new("id".into(), FieldValue::U32(7))];
    assert_eq!(insert_query(&one, "t", false), "INSERT INTO t (id) VALUES (7)");
    assert_eq!(
        insert_query(&one, "t", true),
        "BEGIN CONCURRENT; INSERT INTO t (id) VALUES (7); COMMIT;"
    );
}

#[test]
fn insert_statement_with_empty_values() {
    let record = vec![
        GenericValue::new("a".into(), FieldValue::Text(String::new())),
        GenericValue::new("b".into(), FieldValue::Bytes(Vec::new())),
        GenericValue::new("c".into(), FieldValue::Bool(false)),
    ];
    assert_eq!(insert_query(&record, "t", false), "INSERT INTO t (a,b,c) VALUES ('',x'',0)");
}

#[test]
fn update_statement() {
    assert_eq!(
        update_query(&person(), "Test", "WHERE age == 0", false),
        "UPDATE Test SET name = 'Mylo', age = 0, height = 2.1, married = 1, comments = 'It''s cold', some_blob = x'0102ff' WHERE age == 0"
    );
}

#[test]
fn update_statement_in_a_block_of_its_own() {
    let one = vec![GenericValue::new("id".into(), FieldValue::U32(7))];
    assert_eq!(update_query(&one, "t", "", false), "UPDATE t SET id = 7 ");
    assert_eq!(
        update_query(&one, "t", "WHERE id == 1", true),
        "BEGIN CONCURRENT; UPDATE t SET id = 7 WHERE id == 1; COMMIT;"
    );
}

#[test]
fn partial_update_statement() {
    assert_eq!(
        partial_update_query("name", "It's", "Test", "WHERE age == 0", false),
        "UPDATE Test SET name = 'It''s' WHERE age == 0"
    );
    assert_eq!(
        partial_update_query("age", "5", "Test", "", true),
        "BEGIN CONCURRENT; UPDATE Test SET age = '5' ; COMMIT;"
    );
}

#[test]
fn delete_statement() {
    assert_eq!(delete_query("Test", "WHERE name == 'Mylo'"), "DELETE FROM Test WHERE name == 'Mylo'");
    assert_eq!(delete_query("Test", ""), "DELETE FROM Test ");
}

#[test]
fn counting_statements() {
    assert_eq!(all_query("Test"), "SELECT COUNT(*) AS count_total FROM Test ");
    assert_eq!(
        any_count_query("Test", "WHERE age > 5"),
        "SELECT COUNT(*) AS count_total FROM Test WHERE age > 5"
    );
    assert_eq!(any_count_query("Test", ""), "SELECT COUNT(*) AS count_total FROM Test ");
}

#[test]
fn index_statements() {
    let schema = vec![field("id", "u32"), field("first_name", "String"), field("age", "u32")];
    assert_eq!(
        create_unique_index("first_name_unique", "t", &vec!["first_name".to_string()], &schema),
        Ok("CREATE UNIQUE INDEX IF NOT EXISTS first_name_unique ON t (first_name);".to_string())
    );
    assert_eq!(
        create_index("id_unique", "t", &vec!["id".to_string()], &schema),
        Ok("CREATE INDEX IF NOT EXISTS id_unique ON t (id);".to_string())
    );
    assert_eq!(
        create_index("both", "t", &vec!["id".to_string(), "age".to_string()], &schema),
        Ok("CREATE INDEX IF NOT EXISTS both ON t (id,age);".to_string())
    );
    assert_eq!(drop_index("id_unique"), "DROP INDEX IF EXISTS id_unique");
}

#[test]
fn an_index_on_an_unmapped_column_is_refused() {
    let schema = vec![field("id", "u32"), field("first_name", "String")];
    assert_eq!(
        create_index("i", "t", &vec!["id".to_string(), "last_name".to_string()], &schema),
        Err(ConfigurationError::UnmappedColumn)
    );
    assert_eq!(
        create_unique_index("i", "t", &vec!["last_name".to_string()], &schema),
        Err(ConfigurationError::UnmappedColumn)
    );
    assert!(!columns_are_fields(&vec!["id".to_string(), "x".to_string()], &schema));
    assert!(columns_are_fields(&vec!["first_name".to_string(), "id".to_string()], &schema));
    assert!(columns_are_fields(&Vec::new(), &schema));
}

#[test]
fn the_first_field_of_a_name_is_found() {
    let schema = vec![field("a", "u8"), field("b", "u16"), field("a", "u32")];
    assert_eq!(find_field(&schema, "a").map(|f| f.field_type.clone()), Some("u8".to_string()));
    assert_eq!(find_field(&schema, "b").map(|f| f.field_type.clone()), Some("u16".to_string()));
    assert!(find_field(&schema, "c").is_none());
    assert!(find_field(&Vec::new(), "a").is_none());
}

#[test]
fn alter_table_statements() {
    assert_eq!(
        alter_table_new_column("Test", &field("c", "String")),
        "ALTER TABLE Test ADD COLUMN c TEXT"
    );
    assert_eq!(
        alter_table_new_column("Test", &field("flag", "bool")),
        "ALTER TABLE Test ADD COLUMN flag NUMERIC"
    );
    assert_eq!(alter_table_drop_column("Test", "a"), "ALTER TABLE Test DROP COLUMN a");
}

#[test]
fn the_statement_that_reads_the_stored_schema() {
    assert_eq!(
        current_db_schema_query("Test"),
        "SELECT sql FROM sqlite_schema WHERE name = 'Test'"
    );
    assert_eq!(
        current_db_schema_query("it's"),
        "SELECT sql FROM sqlite_schema WHERE name = 'it''s'"
    );
}

#[test]
fn settings() {
    let pairs: Vec<(&str, &str)> =
        change_db_settings().iter().map(|p| (p.name, p.value)).collect();
    assert_eq!(
        pairs,
        vec![
            ("journal_size_limit", "-1"),
            ("synchronous", "NORMAL"),
            ("auto_vacuum", "FULL"),
            ("temp_store", "MEMORY"),
            ("journal_mode", "WAL"),
        ]
    );
    let p = change_synchronous_settings(true);
    assert_eq!((p.name, p.value), ("synchronous", "NORMAL"));
    let p = change_synchronous_settings(false);
    assert_eq!((p.name, p.value), ("synchronous", "OFF"));
    let p = set_wal_mode(WalMode::WAL);
    assert_eq!((p.name, p.value), ("journal_mode", "WAL"));
    let p = set_wal_mode(WalMode::WAL2);
    assert_eq!((p.name, p.value), ("journal_mode", "WAL"));
    let p = set_wal_mode_to_rollback();
    assert_eq!((p.name, p.value), ("journal_mode", "DELETE"));
    assert_eq!(WalMode::WAL.name(), "WAL");
    assert_eq!(WalMode::WAL2.name(), "WAL2");
}
