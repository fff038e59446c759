use rs_aio_db::db::internal::text::{
    decimal_text, escape_quotes, is_whitespace, push_decimal, push_signed_decimal, quote_text,
    signed_decimal_text, split_on, trim,
};

#[test]
fn quotes_are_doubled() {
    assert_eq!(escape_quotes("It's cold"), "It''s cold");
    assert_eq!(escape_quotes(""), "");
    assert_eq!(escape_quotes("'"), "''");
    assert_eq!(escape_quotes("''"), "''''");
    assert_eq!(escape_quotes("no quote"), "no quote");
    assert_eq!(escape_quotes("a'b'c"), "a''b''c");
    assert_eq!(escape_quotes("\"double\""), "\"double\"");
}

#[test]
fn escaping_agrees_with_replace() {
    for text in ["", "'", "x'y", "'''", "a\u{e9}'\u{4e2d}", "'; DROP TABLE t; --"] {
        assert_eq!(escape_quotes(text), text.replace("'", "''"));
    }
}

#[test]
fn text_is_quoted() {
    assert_eq!(quote_text("Mylo"), "'Mylo'");
    assert_eq!(quote_text(""), "''");
    assert_eq!(quote_text("It's very cold up there. Send help!"), "'It''s very cold up there. Send help!'");
    assert_eq!(quote_text("'"), "''''");
}

#[test]
fn numerals_of_naturals() {
    assert_eq!(decimal_text(0), "0");
    assert_eq!(decimal_text(9), "9");
    assert_eq!(decimal_text(10), "10");
    assert_eq!(decimal_text(1000000), "1000000");
    assert_eq!(decimal_text(u64::MAX as u128), "18446744073709551615");
    assert_eq!(decimal_text(u128::MAX), "340282366920938463463374607431768211455");
}

#[test]
fn numerals_of_integers() {
    assert_eq!(signed_decimal_text(0), "0");
    assert_eq!(signed_decimal_text(-1), "-1");
    assert_eq!(signed_decimal_text(50), "50");
    assert_eq!(signed_decimal_text(i64::MIN as i128), "-9223372036854775808");
    assert_eq!(signed_decimal_text(i128::MIN), "-170141183460469231731687303715884105728");
    assert_eq!(signed_decimal_text(i128::MAX), "170141183460469231731687303715884105727");
}

#[test]
fn numerals_agree_with_to_string() {
    for n in [0u128, 1, 7, 10, 99, 100, 12345, 4294967295, 4294967296] {
        assert_eq!(decimal_text(n), n.to_string());
    }
    for i in [0i128, -1, 1, -10, 10, -128, 127, -32768, 2147483647, -2147483648] {
        assert_eq!(signed_decimal_text(i), i.to_string());
    }
}

#[test]
fn numerals_are_appended() {
    let mut text = String::from("age = ");
    push_decimal(&mut text, 50);
    assert_eq!(text, "age = 50");
    let mut text = String::from("t = ");
    push_signed_decimal(&mut text, -40);
    assert_eq!(text, "t = -40");
}

#[test]
fn white_space_agrees_with_the_standard_library() {
    let mut code: u32 = 0;
    while code <= 0x10ffff {
        if let Some(c) = char::from_u32(code) {
            assert_eq!(is_whitespace(c), c.is_whitespace(), "U+{:04X}", code);
        }
        code += 1;
    }
}

#[test]
fn trimming() {
    assert_eq!(trim("  a b  "), "a b");
    assert_eq!(trim(""), "");
    assert_eq!(trim("   "), "");
    assert_eq!(trim("x"), "x");
    assert_eq!(trim("\t\n x \r\n"), "x");
    assert_eq!(trim("\u{a0}x\u{3000}"), "x");
    assert_eq!(trim("a  "), "a");
    assert_eq!(trim("  a"), "a");
}

#[test]
fn trimming_agrees_with_the_standard_library() {
    for text in ["", " ", "a", " a", "a ", " a b ", "\u{2003}\u{e9}t\u{e9} \u{2028}", "\n\n", " \u{4e2d} "] {
        assert_eq!(trim(text), text.trim());
    }
}

#[test]
fn splitting() {
    assert_eq!(split_on("a,b,c", ','), vec!["a", "b", "c"]);
    assert_eq!(split_on("", ','), vec![""]);
    assert_eq!(split_on(",", ','), vec!["", ""]);
    assert_eq!(split_on("a,,b", ','), vec!["a", "", "b"]);
    assert_eq!(split_on(",a,", ','), vec!["", "a", ""]);
    assert_eq!(split_on("no separator", ','), vec!["no separator"]);
    assert_eq!(split_on("a  b", ' '), vec!["a", "", "b"]);
}

#[test]
fn splitting_agrees_with_the_standard_library() {
    for text in ["", ",", "a,b", ",,", "x,\u{e9},\u{4e2d}\u{6587},", "a b c"] {
        let expected: Vec<&str> = text.split(',').collect();
        assert_eq!(split_on(text, ','), expected);
        let expected: Vec<&str> = text.split(' ').collect();
        assert_eq!(split_on(text, ' '), expected);
    }
}
