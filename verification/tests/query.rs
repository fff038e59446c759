use rs_aio_db::db::aio_database::{AioDatabase, DEFAULT_RETRIES};
use rs_aio_db::db::aio_query::{Next, Operator, QueryBuilder, QueryOption};
use rs_aio_db::db::internal::helpers::{
    get_end_value, get_next, push_contains_to_query_string, push_ends_with_to_query_string,
    push_starts_with_to_query_string, push_str_to_query_string, query_match_operators,
};
use rs_aio_db::db::internal::queries::{
    fields_are_mapped, generate_get_query, generate_where_query, is_complete,
};
use rs_aio_db::db::models::{ConfigurationError, Schema};

fn field(name: &str, kind: &str) -> Schema {
    Schema { field_name: name.to_string(), field_type: kind.to_string() }
}

fn people() -> AioDatabase {
    AioDatabase::create(
        "Test".to_string(),
        vec![
            field("name", "String"),
            field("age", "i32"),
            field("height", "f32"),
            field("married", "bool"),
            field("initial", "char"),
            field("some_blob", "Vec"),
        ],
        DEFAULT_RETRIES,
    )
    .unwrap()
}

#[test]
fn joining_words() {
    assert_eq!(get_next(&Next::And), "AND");
    assert_eq!(get_next(&Next::Or), "OR");
}

#[test]
fn operand_literals() {
    assert_eq!(get_end_value("Mylo", "String"), "'Mylo'");
    assert_eq!(get_end_value("It's cold", "String"), "'It''s cold'");
    assert_eq!(get_end_value("", "String"), "''");
    assert_eq!(get_end_value("a", "char"), "'a'");
    assert_eq!(get_end_value("5", "i32"), "5");
    assert_eq!(get_end_value("0", "u32"), "0");
    assert_eq!(get_end_value("2.1", "f32"), "2.1");
    assert_eq!(get_end_value("true", "bool"), "1");
    assert_eq!(get_end_value("false", "bool"), "0");
    assert_eq!(get_end_value("1", "bool"), "1");
    assert_eq!(get_end_value("x'00'", "Vec"), "x'00'");
    assert_eq!(get_end_value("7", "unknown"), "7");
}

#[test]
fn a_comparison_is_appended() {
    let mut query = String::from("WHERE ");
    push_str_to_query_string(&mut query, "age", "5", false, ">", Some(&Next::Or));
    assert_eq!(query, "WHERE age > 5 OR ");
    push_str_to_query_string(&mut query, "name", "'Mylo'", true, "==", Some(&Next::And));
    assert_eq!(query, "WHERE age > 5 OR name == 'Mylo'");
    push_str_to_query_string(&mut query, "x", "1", true, "<>", None);
    assert_eq!(query, "WHERE age > 5 OR name == 'Mylo'x <> 1");
}

#[test]
fn pattern_matches_are_appended() {
    let mut query = String::new();
    push_contains_to_query_string(&mut query, "comments", "CoLd", true, Some(&Next::And));
    assert_eq!(query, "comments LIKE '%CoLd%'");
    let mut query = String::new();
    push_contains_to_query_string(&mut query, "comments", "It's", false, Some(&Next::And));
    assert_eq!(query, "comments LIKE '%It''s%' AND ");
    let mut query = String::new();
    push_starts_with_to_query_string(&mut query, "comments", "Its", true, None);
    assert_eq!(query, "comments LIKE 'Its%'");
    let mut query = String::new();
    push_starts_with_to_query_string(&mut query, "comments", "It's", false, Some(&Next::Or));
    assert_eq!(query, "comments LIKE 'It''s%' OR ");
    let mut query = String::new();
    push_ends_with_to_query_string(&mut query, "comments", "HelP!!", true, None);
    assert_eq!(query, "comments LIKE '%HelP!!'");
    let mut query = String::new();
    push_ends_with_to_query_string(&mut query, "comments", "'", false, Some(&Next::And));
    assert_eq!(query, "comments LIKE '%''' AND ");
}

#[test]
fn every_operator_has_its_sql() {
    let cases = [
        (Operator::Eq("5".into()), "age == 5"),
        (Operator::Ne("5".into()), "age <> 5"),
        (Operator::Gt("5".into()), "age > 5"),
        (Operator::Lt("5".into()), "age < 5"),
        (Operator::Ge("5".into()), "age >= 5"),
        (Operator::Le("5".into()), "age <= 5"),
        (Operator::Contains("5".into()), "age LIKE '%5%'"),
        (Operator::StartsWith("5".into()), "age LIKE '5%'"),
        (Operator::EndsWith("5".into()), "age LIKE '%5'"),
    ];
    for (operator, expected) in cases {
        let mut query = String::new();
        query_match_operators(&operator, &mut query, "age", "i32", true, Some(&Next::And));
        assert_eq!(query, expected);
    }
}

#[test]
fn an_operator_on_a_text_field_quotes_its_operand() {
    let mut query = String::new();
    query_match_operators(
        &Operator::Eq("It's cold".into()),
        &mut query,
        "comments",
        "String",
        false,
        Some(&Next::Or),
    );
    assert_eq!(query, "comments == 'It''s cold' OR ");
}

#[test]
fn a_new_builder_has_no_terms() {
    let db = people();
    let builder = QueryBuilder::new(&db);
    assert_eq!(builder.table_name, "Test");
    assert_eq!(builder.query_options.len(), 0);
    let builder = db.query();
    assert_eq!(builder.table_name, "Test");
    assert_eq!(builder.query_options.len(), 0);
}

#[test]
fn a_field_is_a_term_without_a_comparison() {
    let db = people();
    let builder = db.query();
    let option = builder.field("age");
    assert_eq!(option.field_name, "age");
    assert!(option.operator.is_none());
    assert_eq!(option.next, Some(Next::And));
    assert!(option.query_builder.is_some());
}

#[test]
fn where_is_adds_a_term_and_keeps_the_earlier_builder() {
    let db = people();
    let empty = db.query();
    let option = empty.field("age");
    let one = option.where_is(Operator::Gt("5".to_string()), Some(Next::Or));
    assert_eq!(empty.query_options.len(), 0);
    assert_eq!(one.query_options.len(), 1);
    assert_eq!(one.table_name, "Test");
    assert_eq!(one.query_options[0].field_name, "age");
    assert_eq!(one.query_options[0].operator, Some(Operator::Gt("5".to_string())));
    assert_eq!(one.query_options[0].next, Some(Next::Or));
    let option = one.field("name");
    let two = option.where_is(Operator::Eq("Mylo".into()), None);
    assert_eq!(one.query_options.len(), 1);
    assert_eq!(two.query_options.len(), 2);
    assert_eq!(two.query_options[0].field_name, "age");
    assert_eq!(two.query_options[0].operator, Some(Operator::Gt("5".to_string())));
    assert_eq!(two.query_options[0].next, Some(Next::Or));
    assert_eq!(two.query_options[1].field_name, "name");
    assert_eq!(two.query_options[1].operator, Some(Operator::Eq("Mylo".to_string())));
    assert_eq!(two.query_options[1].next, Some(Next::And));
}

#[test]
fn clearing_a_builder() {
    let db = people();
    let empty = db.query();
    let option = empty.field("age");
    let mut one = option.where_is(Operator::Gt("5".to_string()), None);
    one.clear();
    assert_eq!(one.query_options.len(), 0);
    assert_eq!(one.table_name, "Test");
}

#[test]
fn select_without_terms_has_no_where() {
    let db = people();
    let builder = db.query();
    assert_eq!(generate_get_query(&builder), Ok("SELECT * FROM Test".to_string()));
    assert_eq!(generate_where_query(&builder), Ok(String::new()));
}

#[test]
fn select_with_one_term() {
    let db = people();
    let builder = db.query();
    let option = builder.field("name");
    let builder = option.where_is(Operator::Eq("Mylo".into()), None);
    assert_eq!(
        generate_get_query(&builder),
        Ok("SELECT * FROM Test WHERE name == 'Mylo'".to_string())
    );
    assert_eq!(generate_where_query(&builder), Ok("WHERE name == 'Mylo'".to_string()));
}

#[test]
fn select_with_a_chain_of_terms() {
    let db = people();
    let b0 = db.query();
    let o1 = b0.field("age");
    let b1 = o1.where_is(Operator::Gt(5.to_string()), Some(Next::Or));
    let o2 = b1.field("name");
    let b2 = o2.where_is(Operator::Eq("Mylo".into()), None);
    let o3 = b2.field("married");
    let b3 = o3.where_is(Operator::Eq(true.to_string()), Some(Next::Or));
    assert_eq!(
        generate_get_query(&b3),
        Ok("SELECT * FROM Test WHERE age > 5 OR name == 'Mylo' AND married == 1".to_string())
    );
    assert_eq!(
        generate_where_query(&b3),
        Ok("WHERE age > 5 OR name == 'Mylo' AND married == 1".to_string())
    );
    assert_eq!(
        generate_where_query(&b2),
        Ok("WHERE age > 5 OR name == 'Mylo'".to_string())
    );
}

#[test]
fn a_term_on_a_character_field_quotes_its_operand() {
    let db = people();
    let b0 = db.query();
    let o1 = b0.field("initial");
    let b1 = o1.where_is(Operator::Ne("'".into()), None);
    assert_eq!(generate_where_query(&b1), Ok("WHERE initial <> ''''".to_string()));
}

#[test]
fn a_filter_on_an_unmapped_field_is_refused() {
    let db = people();
    let b0 = db.query();
    let o1 = b0.field("age");
    let b1 = o1.where_is(Operator::Gt(5.to_string()), None);
    let o2 = b1.field("nickname");
    let b2 = o2.where_is(Operator::Eq("M".into()), None);
    assert_eq!(generate_get_query(&b2), Err(ConfigurationError::UnmappedField));
    assert_eq!(generate_where_query(&b2), Err(ConfigurationError::UnmappedField));
    assert!(generate_get_query(&b1).is_ok());
    assert!(!fields_are_mapped(&b2.query_options, db.get_schema()));
    assert!(fields_are_mapped(&b1.query_options, db.get_schema()));
}

#[test]
fn a_term_without_a_comparison_is_not_complete() {
    let db = people();
    let b0 = db.query();
    let o1 = b0.field("age");
    let b1 = o1.where_is(Operator::Gt(5.to_string()), None);
    assert!(is_complete(&b1.query_options));
    let dangling =
        QueryOption { field_name: "age".into(), operator: None, next: None, query_builder: None };
    let options = vec![dangling];
    assert!(!is_complete(&options));
    let no_word = QueryOption {
        field_name: "age".into(),
        operator: Some(Operator::Eq("1".into())),
        next: None,
        query_builder: None,
    };
    assert!(!is_complete(&vec![no_word]));
    assert!(is_complete(&Vec::new()));
}

#[test]
fn the_table_name_of_the_builder_is_used() {
    let db = people();
    let mut builder = db.query();
    builder.table_name = "Other".to_string();
    assert_eq!(generate_get_query(&builder), Ok("SELECT * FROM Other".to_string()));
}
