use rs_aio_db::db::internal::codec::{decode_field, encode_literal, zero_value};
use rs_aio_db::db::models::{Cell, FieldCells, FieldValue, GenericValue, LogicalType};

fn named(cell: Cell) -> FieldCells {
    FieldCells { by_name: Some(cell), by_index: None }
}

fn positional(cell: Cell) -> FieldCells {
    FieldCells { by_name: None, by_index: Some(cell) }
}

fn both(by_name: Cell, by_index: Cell) -> FieldCells {
    FieldCells { by_name: Some(by_name), by_index: Some(by_index) }
}

fn absent() -> FieldCells {
    FieldCells { by_name: None, by_index: None }
}

fn show(value: FieldValue) -> String {
    format!("{:?}", value)
}

#[test]
fn literals_of_booleans() {
    assert_eq!(encode_literal(&FieldValue::Bool(true)), "1");
    assert_eq!(encode_literal(&FieldValue::Bool(false)), "0");
}

#[test]
fn literals_of_integers() {
    assert_eq!(encode_literal(&FieldValue::U8(255)), "255");
    assert_eq!(encode_literal(&FieldValue::U16(65535)), "65535");
    assert_eq!(encode_literal(&FieldValue::U32(50)), "50");
    assert_eq!(encode_literal(&FieldValue::U64(u64::MAX)), "18446744073709551615");
    assert_eq!(
        encode_literal(&FieldValue::U128(u128::MAX)),
        "340282366920938463463374607431768211455"
    );
    assert_eq!(encode_literal(&FieldValue::I8(-128)), "-128");
    assert_eq!(encode_literal(&FieldValue::I16(-1)), "-1");
    assert_eq!(encode_literal(&FieldValue::I32(0)), "0");
    assert_eq!(encode_literal(&FieldValue::I64(i64::MIN)), "-9223372036854775808");
    assert_eq!(
        encode_literal(&FieldValue::I128(i128::MIN)),
        "-170141183460469231731687303715884105728"
    );
}

#[test]
fn literals_of_reals_are_their_text() {
    assert_eq!(encode_literal(&FieldValue::Float32("2.1".to_string())), "2.1");
    assert_eq!(encode_literal(&FieldValue::Float64("-10.4".to_string())), "-10.4");
}

#[test]
fn literals_of_texts_and_characters() {
    assert_eq!(encode_literal(&FieldValue::Text("Mylo".to_string())), "'Mylo'");
    assert_eq!(encode_literal(&FieldValue::Text(String::new())), "''");
    assert_eq!(encode_literal(&FieldValue::Text("It's cold".to_string())), "'It''s cold'");
    assert_eq!(encode_literal(&FieldValue::Char('a')), "'a'");
    assert_eq!(encode_literal(&FieldValue::Char('\'')), "''''");
}

#[test]
fn literals_of_bytes_are_hexadecimal() {
    assert_eq!(encode_literal(&FieldValue::Bytes(vec![])), "x''");
    assert_eq!(encode_literal(&FieldValue::Bytes(vec![1, 2, 3, 15, 16])), "x'0102030f10'");
    assert_eq!(encode_literal(&FieldValue::Bytes(vec![0, 255, 171])), "x'00ffab'");
    assert_eq!(encode_literal(&FieldValue::Bytes(b"Hello world!".to_vec())), "x'48656c6c6f20776f726c6421'");
}

#[test]
fn booleans_are_decoded_from_integers() {
    assert_eq!(show(decode_field(LogicalType::Bool, &named(Cell::Integer(1)))), "Bool(true)");
    assert_eq!(show(decode_field(LogicalType::Bool, &named(Cell::Integer(0)))), "Bool(false)");
    assert_eq!(show(decode_field(LogicalType::Bool, &named(Cell::Integer(-7)))), "Bool(true)");
    assert_eq!(show(decode_field(LogicalType::Bool, &positional(Cell::Integer(1)))), "Bool(true)");
    assert_eq!(show(decode_field(LogicalType::Bool, &absent())), "Bool(false)");
    assert_eq!(show(decode_field(LogicalType::Bool, &named(Cell::Null))), "Bool(false)");
    assert_eq!(
        show(decode_field(LogicalType::Bool, &named(Cell::Text("true".to_string())))),
        "Bool(false)"
    );
    assert_eq!(
        show(decode_field(LogicalType::Bool, &named(Cell::Integer(4294967296)))),
        "Bool(false)"
    );
}

#[test]
fn integers_are_decoded_in_their_width() {
    assert_eq!(show(decode_field(LogicalType::U8, &named(Cell::Integer(255)))), "U8(255)");
    assert_eq!(show(decode_field(LogicalType::U8, &named(Cell::Integer(256)))), "U8(0)");
    assert_eq!(show(decode_field(LogicalType::U8, &named(Cell::Integer(-1)))), "U8(255)");
    assert_eq!(show(decode_field(LogicalType::U16, &named(Cell::Integer(65536 + 5)))), "U16(5)");
    assert_eq!(show(decode_field(LogicalType::U32, &named(Cell::Integer(50)))), "U32(50)");
    assert_eq!(
        show(decode_field(LogicalType::U32, &named(Cell::Integer(-1)))),
        "U32(4294967295)"
    );
    assert_eq!(
        show(decode_field(LogicalType::U64, &named(Cell::Integer(-1)))),
        "U64(18446744073709551615)"
    );
    assert_eq!(
        show(decode_field(LogicalType::U128, &named(Cell::Integer(-1)))),
        "U128(340282366920938463463374607431768211455)"
    );
    assert_eq!(show(decode_field(LogicalType::I8, &named(Cell::Integer(128)))), "I8(-128)");
    assert_eq!(show(decode_field(LogicalType::I16, &named(Cell::Integer(-32769)))), "I16(32767)");
    assert_eq!(
        show(decode_field(LogicalType::I64, &named(Cell::Integer(i64::MIN)))),
        "I64(-9223372036854775808)"
    );
    assert_eq!(show(decode_field(LogicalType::I128, &named(Cell::Integer(-5)))), "I128(-5)");
}

#[test]
fn thirty_two_bit_integers_do_not_wrap() {
    assert_eq!(show(decode_field(LogicalType::I32, &named(Cell::Integer(-2147483648)))), "I32(-2147483648)");
    assert_eq!(show(decode_field(LogicalType::I32, &named(Cell::Integer(2147483647)))), "I32(2147483647)");
    assert_eq!(show(decode_field(LogicalType::I32, &named(Cell::Integer(2147483648)))), "I32(0)");
    assert_eq!(
        show(decode_field(LogicalType::I32, &both(Cell::Integer(2147483648), Cell::Integer(7)))),
        "I32(7)"
    );
}

#[test]
fn the_named_column_comes_before_the_position() {
    assert_eq!(
        show(decode_field(LogicalType::U32, &both(Cell::Integer(1), Cell::Integer(2)))),
        "U32(1)"
    );
    assert_eq!(
        show(decode_field(LogicalType::U32, &both(Cell::Text("x".to_string()), Cell::Integer(2)))),
        "U32(2)"
    );
    assert_eq!(
        show(decode_field(LogicalType::Text, &both(Cell::Integer(1), Cell::Text("t".to_string())))),
        "Text(\"t\")"
    );
    assert_eq!(
        show(decode_field(LogicalType::Text, &both(Cell::Text("n".to_string()), Cell::Text("p".to_string())))),
        "Text(\"n\")"
    );
}

#[test]
fn fields_without_a_cell_take_their_zero_value() {
    assert_eq!(show(decode_field(LogicalType::U8, &absent())), "U8(0)");
    assert_eq!(show(decode_field(LogicalType::I64, &absent())), "I64(0)");
    assert_eq!(show(decode_field(LogicalType::Float64, &absent())), "Float64(\"0.0\")");
    assert_eq!(show(decode_field(LogicalType::Float32, &named(Cell::Null))), "Float32(\"0.0\")");
    assert_eq!(show(decode_field(LogicalType::Char, &absent())), "Char('\\0')");
    assert_eq!(show(decode_field(LogicalType::Text, &absent())), "Text(\"\")");
    assert_eq!(show(decode_field(LogicalType::Bytes, &absent())), "Bytes([])");
    assert_eq!(show(decode_field(LogicalType::Text, &named(Cell::Blob(vec![1])))), "Text(\"\")");
    assert_eq!(show(decode_field(LogicalType::U32, &named(Cell::Real("1.5".to_string())))), "U32(0)");
}

#[test]
fn zero_values_of_every_type() {
    let all = [
        (LogicalType::Bool, "Bool(false)"),
        (LogicalType::U8, "U8(0)"),
        (LogicalType::U16, "U16(0)"),
        (LogicalType::U32, "U32(0)"),
        (LogicalType::U64, "U64(0)"),
        (LogicalType::U128, "U128(0)"),
        (LogicalType::I8, "I8(0)"),
        (LogicalType::I16, "I16(0)"),
        (LogicalType::I32, "I32(0)"),
        (LogicalType::I64, "I64(0)"),
        (LogicalType::I128, "I128(0)"),
        (LogicalType::Float32, "Float32(\"0.0\")"),
        (LogicalType::Float64, "Float64(\"0.0\")"),
        (LogicalType::Char, "Char('\\0')"),
        (LogicalType::Text, "Text(\"\")"),
        (LogicalType::Bytes, "Bytes([])"),
    ];
    for (kind, expected) in all {
        let value = zero_value(kind);
        assert_eq!(value.kind(), kind);
        assert_eq!(show(value), expected);
    }
}

#[test]
fn reals_are_decoded_as_text() {
    assert_eq!(
        show(decode_field(LogicalType::Float64, &named(Cell::Real("2.1".to_string())))),
        "Float64(\"2.1\")"
    );
    assert_eq!(
        show(decode_field(LogicalType::Float32, &named(Cell::Integer(-3)))),
        "Float32(\"-3\")"
    );
    assert_eq!(
        show(decode_field(LogicalType::Float64, &both(Cell::Text("x".to_string()), Cell::Integer(4)))),
        "Float64(\"4\")"
    );
}

#[test]
fn characters_are_decoded_from_texts() {
    assert_eq!(show(decode_field(LogicalType::Char, &named(Cell::Text("abc".to_string())))), "Char('a')");
    assert_eq!(show(decode_field(LogicalType::Char, &named(Cell::Text(String::new())))), "Char(' ')");
    assert_eq!(show(decode_field(LogicalType::Char, &named(Cell::Text("\u{e9}t".to_string())))), "Char('\u{e9}')");
}

#[test]
fn bytes_are_decoded_from_blobs_and_hexadecimal_texts() {
    assert_eq!(show(decode_field(LogicalType::Bytes, &named(Cell::Blob(vec![1, 2, 255])))), "Bytes([1, 2, 255])");
    assert_eq!(show(decode_field(LogicalType::Bytes, &named(Cell::Blob(vec![])))), "Bytes([])");
    assert_eq!(
        show(decode_field(LogicalType::Bytes, &named(Cell::Text("0102030f10".to_string())))),
        "Bytes([1, 2, 3, 15, 16])"
    );
    assert_eq!(
        show(decode_field(LogicalType::Bytes, &named(Cell::Text("00FFab".to_string())))),
        "Bytes([0, 255, 171])"
    );
    assert_eq!(show(decode_field(LogicalType::Bytes, &named(Cell::Text("123".to_string())))), "Bytes([])");
    assert_eq!(show(decode_field(LogicalType::Bytes, &named(Cell::Text("zz".to_string())))), "Bytes([])");
    assert_eq!(show(decode_field(LogicalType::Bytes, &named(Cell::Text("\u{e9}".to_string())))), "Bytes([])");
    assert_eq!(
        show(decode_field(LogicalType::Bytes, &both(Cell::Text("ff".to_string()), Cell::Blob(vec![9])))),
        "Bytes([9])"
    );
}

#[test]
fn hexadecimal_text_is_not_handed_back_unchanged() {
    let literal = encode_literal(&FieldValue::Bytes(b"ab".to_vec()));
    assert_eq!(literal, "x'6162'");
    let decoded = decode_field(LogicalType::Bytes, &named(Cell::Text("6162".to_string())));
    assert_eq!(show(decoded), "Bytes([97, 98])");
}

#[test]
fn a_field_knows_the_identifier_of_its_type() {
    let field = GenericValue::new("age".to_string(), FieldValue::U32(50));
    assert_eq!(field.field_name, "age");
    assert_eq!(field.field_type, "u32");
    let field = GenericValue::new("blob".to_string(), FieldValue::Bytes(vec![]));
    assert_eq!(field.field_type, "Vec");
    let field = GenericValue::new("name".to_string(), FieldValue::Text(String::new()));
    assert_eq!(field.field_type, "String");
    let copy = field.clone();
    assert_eq!(copy.field_name, "name");
    assert_eq!(show(copy.field_value), "Text(\"\")");
}

#[test]
fn identifiers_of_the_logical_types() {
    let all = [
        (LogicalType::Bool, "bool"),
        (LogicalType::U8, "u8"),
        (LogicalType::U16, "u16"),
        (LogicalType::U32, "u32"),
        (LogicalType::U64, "u64"),
        (LogicalType::U128, "u128"),
        (LogicalType::I8, "i8"),
        (LogicalType::I16, "i16"),
        (LogicalType::I32, "i32"),
        (LogicalType::I64, "i64"),
        (LogicalType::I128, "i128"),
        (LogicalType::Float32, "f32"),
        (LogicalType::Float64, "f64"),
        (LogicalType::Char, "char"),
        (LogicalType::Text, "String"),
        (LogicalType::Bytes, "Vec"),
    ];
    for (kind, ident) in all {
        assert_eq!(kind.ident(), ident);
        assert_eq!(LogicalType::from_ident(ident), Some(kind));
    }
    assert_eq!(LogicalType::from_ident("usize"), None);
    assert_eq!(LogicalType::from_ident("str"), None);
}
