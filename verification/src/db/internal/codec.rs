//! The value codec: field values to SQL literals, and the cells of a row back
//! to field values.
use crate::db::internal::text::{
    decimal, decimal_text, decimal_value, doubled_quotes, lemma_decimal_value,
    lemma_undoubled_doubled, quote_char, quote_text, quoted, signed_decimal, signed_decimal_text,
    undoubled_quotes,
};
use crate::db::models::{
    cell_view, well_typed, Cell, CellView, FieldCells, FieldValue, LogicalType, Lookup, Payload,
    Value,
};
use vstd::prelude::*;
use vstd::string::*;

verus! {

/// The lower-case hexadecimal digit for a number below sixteen.
pub open spec fn hex_digit(n: int) -> char {
    if n < 10 {
        (n + 48) as char
    } else {
        (n + 87) as char
    }
}

/// The hexadecimal text of a byte sequence: two lower-case digits for each
/// byte, the high half first.
pub open spec fn hex_text(bytes: Seq<u8>) -> Seq<char>
    decreases bytes.len(),
{
    if bytes.len() == 0 {
        Seq::empty()
    } else {
        hex_text(bytes.drop_last()).push(hex_digit(bytes.last() as int / 16)).push(
            hex_digit(bytes.last() as int % 16),
        )
    }
}

/// The number that a hexadecimal digit denotes, in either case.
pub open spec fn hex_value(c: char) -> Option<int> {
    if '0' <= c <= '9' {
        Some(c as int - 48)
    } else if 'a' <= c <= 'f' {
        Some(c as int - 87)
    } else if 'A' <= c <= 'F' {
        Some(c as int - 55)
    } else {
        None
    }
}

/// Whether a text is the hexadecimal text of some byte sequence: an even
/// number of hexadecimal digits.
pub open spec fn is_hex_text(text: Seq<char>) -> bool {
    &&& text.len() % 2 == 0
    &&& forall|i: int| 0 <= i < text.len() ==> hex_value(#[trigger] text[i]) is Some
}

/// The byte sequence that a hexadecimal text denotes.
pub open spec fn hex_bytes(text: Seq<char>) -> Seq<u8> {
    Seq::new(
        text.len() / 2,
        |i: int| (hex_value(text[2 * i]).unwrap() * 16 + hex_value(text[2 * i + 1]).unwrap()) as u8,
    )
}

/// `hex::encode`: writes each byte as two lower-case hexadecimal digits, the
/// high half first, in the order of the bytes.
#[verifier::external_body]
fn hex_encode(bytes: &Vec<u8>) -> (text: String)
    ensures
        text@ == hex_text(bytes@),
{
    hex::encode(bytes)
}

/// `hex::decode`: succeeds exactly on an even number of hexadecimal digits,
/// upper or lower case, and then gives the byte that each pair of digits
/// denotes, in order.
#[verifier::external_body]
fn hex_decode(text: &str) -> (bytes: Option<Vec<u8>>)
    ensures
        bytes is Some <==> is_hex_text(text@),
        bytes is Some ==> bytes.unwrap()@ == hex_bytes(text@),
{
    hex::decode(text).ok()
}

/// The text of a hexadecimal blob literal for `bytes`.
pub open spec fn blob_literal(bytes: Seq<u8>) -> Seq<char> {
    seq!['x', '\''] + hex_text(bytes) + seq!['\'']
}

/// The SQL literal that stands for a value: `0` or `1` for a boolean, the
/// decimal numeral for an integer, the text as it is for a real number, a
/// quoted string for a character or a text, and a hexadecimal blob for bytes.
pub open spec fn literal_text(value: Value) -> Seq<char> {
    match value.payload {
        Payload::Flag(b) => if b {
            seq!['1']
        } else {
            seq!['0']
        },
        Payload::Number(i) => signed_decimal(i),
        Payload::Real(t) => t,
        Payload::Letter(c) => quoted(seq![c]),
        Payload::Text(t) => quoted(t),
        Payload::Bytes(b) => blob_literal(b),
    }
}

/// Writes a value as the SQL literal that stands for it.
pub fn encode_literal(value: &FieldValue) -> (literal: String)
    ensures
        literal@ == literal_text(value@),
{
    match value {
        FieldValue::Bool(b) => {
            let mut literal = String::new();
            if *b {
                literal.push('1');
            } else {
                literal.push('0');
            }
            literal
        },
        FieldValue::U8(n) => signed_decimal_text(*n as i128),
        FieldValue::U16(n) => signed_decimal_text(*n as i128),
        FieldValue::U32(n) => signed_decimal_text(*n as i128),
        FieldValue::U64(n) => signed_decimal_text(*n as i128),
        FieldValue::U128(n) => decimal_text(*n),
        FieldValue::I8(n) => signed_decimal_text(*n as i128),
        FieldValue::I16(n) => signed_decimal_text(*n as i128),
        FieldValue::I32(n) => signed_decimal_text(*n as i128),
        FieldValue::I64(n) => signed_decimal_text(*n as i128),
        FieldValue::I128(n) => signed_decimal_text(*n),
        FieldValue::Float32(t) => t.clone(),
        FieldValue::Float64(t) => t.clone(),
        FieldValue::Char(c) => {
            let mut letter = String::new();
            letter.push(*c);
            quote_text(letter.as_str())
        },
        FieldValue::Text(t) => quote_text(t.as_str()),
        FieldValue::Bytes(b) => {
            let mut literal = String::new();
            literal.push('x');
            literal.push('\'');
            let hex = hex_encode(b);
            literal.append(hex.as_str());
            literal.push('\'');
            proof {
                assert(literal@ == blob_literal(b@));
            }
            literal
        },
    }
}

/// The integer in a cell that holds one.
pub open spec fn as_integer(cell: Option<CellView>) -> Option<int> {
    match cell {
        Some(CellView::Integer(i)) => Some(i),
        _ => None,
    }
}

/// The integer in a cell that holds one of at most 32 bits.
pub open spec fn as_small_integer(cell: Option<CellView>) -> Option<int> {
    match cell {
        Some(CellView::Integer(i)) => if -0x8000_0000 <= i <= 0x7fff_ffff {
            Some(i)
        } else {
            None
        },
        _ => None,
    }
}

/// The real number in a cell that holds a number, as decimal text.
pub open spec fn as_real(cell: Option<CellView>) -> Option<Seq<char>> {
    match cell {
        Some(CellView::Real(t)) => Some(t),
        Some(CellView::Integer(i)) => Some(signed_decimal(i)),
        _ => None,
    }
}

/// The text in a cell that holds one.
pub open spec fn as_text(cell: Option<CellView>) -> Option<Seq<char>> {
    match cell {
        Some(CellView::Text(t)) => Some(t),
        _ => None,
    }
}

/// The bytes in a cell that holds a blob.
pub open spec fn as_blob(cell: Option<CellView>) -> Option<Seq<u8>> {
    match cell {
        Some(CellView::Blob(b)) => Some(b),
        _ => None,
    }
}

/// The first of two readings that succeeded.
pub open spec fn or_else<T>(first: Option<T>, second: Option<T>) -> Option<T> {
    if first is Some {
        first
    } else {
        second
    }
}

/// An integer of the engine, read in the width of an integer type: its low
/// bits, as a number of that type.
pub open spec fn in_width(kind: LogicalType, i: int) -> int {
    match kind {
        LogicalType::U8 => (i as i64) as u8 as int,
        LogicalType::U16 => (i as i64) as u16 as int,
        LogicalType::U32 => (i as i64) as u32 as int,
        LogicalType::U64 => (i as i64) as u64 as int,
        LogicalType::U128 => (i as i64) as u128 as int,
        LogicalType::I8 => (i as i64) as i8 as int,
        LogicalType::I16 => (i as i64) as i16 as int,
        LogicalType::I128 => (i as i64) as i128 as int,
        _ => i,
    }
}

/// The text that stands for the real number zero.
pub open spec fn zero_real() -> Seq<char> {
    seq!['0', '.', '0']
}

/// The value that a field takes where no cell can feed it.
pub open spec fn zero_payload(kind: LogicalType) -> Payload {
    match kind {
        LogicalType::Bool => Payload::Flag(false),
        LogicalType::Float32 | LogicalType::Float64 => Payload::Real(zero_real()),
        LogicalType::Char => Payload::Letter('\0'),
        LogicalType::Text => Payload::Text(Seq::empty()),
        LogicalType::Bytes => Payload::Bytes(Seq::empty()),
        _ => Payload::Number(0),
    }
}

/// The bytes that the cells give to a field of bytes: a blob, or else a text
/// that is hexadecimal.
pub open spec fn decoded_bytes(cells: Lookup) -> Option<Seq<u8>> {
    match or_else(as_blob(cells.by_name), as_blob(cells.by_index)) {
        Some(b) => Some(b),
        None => match or_else(as_text(cells.by_name), as_text(cells.by_index)) {
            Some(t) => if is_hex_text(t) {
                Some(hex_bytes(t))
            } else {
                None
            },
            None => None,
        },
    }
}

/// What the cells give to a field of the logical type `kind`. The cell in the
/// column of the field's name is read first, in the way that the type asks
/// for; where it is missing or holds something else, the cell at the field's
/// position is read; where that fails too, the field takes its zero value.
pub open spec fn decoded(kind: LogicalType, cells: Lookup) -> Payload {
    match kind {
        LogicalType::Bool => match or_else(
            as_small_integer(cells.by_name),
            as_small_integer(cells.by_index),
        ) {
            Some(i) => Payload::Flag(i != 0),
            None => zero_payload(kind),
        },
        LogicalType::I32 => match or_else(
            as_small_integer(cells.by_name),
            as_small_integer(cells.by_index),
        ) {
            Some(i) => Payload::Number(i),
            None => zero_payload(kind),
        },
        LogicalType::U8
        | LogicalType::U16
        | LogicalType::U32
        | LogicalType::U64
        | LogicalType::U128
        | LogicalType::I8
        | LogicalType::I16
        | LogicalType::I64
        | LogicalType::I128 => match or_else(as_integer(cells.by_name), as_integer(cells.by_index)) {
            Some(i) => Payload::Number(in_width(kind, i)),
            None => zero_payload(kind),
        },
        LogicalType::Float32 | LogicalType::Float64 => match or_else(
            as_real(cells.by_name),
            as_real(cells.by_index),
        ) {
            Some(t) => Payload::Real(t),
            None => zero_payload(kind),
        },
        LogicalType::Char => match or_else(as_text(cells.by_name), as_text(cells.by_index)) {
            Some(t) => Payload::Letter(
                if t.len() > 0 {
                    t[0]
                } else {
                    ' '
                },
            ),
            None => zero_payload(kind),
        },
        LogicalType::Text => match or_else(as_text(cells.by_name), as_text(cells.by_index)) {
            Some(t) => Payload::Text(t),
            None => zero_payload(kind),
        },
        LogicalType::Bytes => match decoded_bytes(cells) {
            Some(b) => Payload::Bytes(b),
            None => zero_payload(kind),
        },
    }
}

fn read_integer(cells: &FieldCells) -> (i: Option<i64>)
    ensures
        (match i {
            Some(v) => Some(v as int),
            None => None,
        }) == or_else(as_integer(cells@.by_name), as_integer(cells@.by_index)),
{
    match &cells.by_name {
        Some(Cell::Integer(v)) => Some(*v),
        _ => match &cells.by_index {
            Some(Cell::Integer(v)) => Some(*v),
            _ => None,
        },
    }
}

fn small_in(cell: &Option<Cell>) -> (i: Option<i32>)
    ensures
        (match i {
            Some(v) => Some(v as int),
            None => None,
        }) == as_small_integer(cell_view(*cell)),
{
    match cell {
        Some(Cell::Integer(v)) => if -0x8000_0000 <= *v && *v <= 0x7fff_ffff {
            Some(*v as i32)
        } else {
            None
        },
        _ => None,
    }
}

fn read_small_integer(cells: &FieldCells) -> (i: Option<i32>)
    ensures
        (match i {
            Some(v) => Some(v as int),
            None => None,
        }) == or_else(as_small_integer(cells@.by_name), as_small_integer(cells@.by_index)),
{
    match small_in(&cells.by_name) {
        Some(v) => Some(v),
        None => small_in(&cells.by_index),
    }
}

fn real_in(cell: &Option<Cell>) -> (t: Option<String>)
    ensures
        (match t {
            Some(v) => Some(v@),
            None => None,
        }) == as_real(cell_view(*cell)),
{
    match cell {
        Some(Cell::Real(t)) => Some(t.clone()),
        Some(Cell::Integer(i)) => Some(signed_decimal_text(*i as i128)),
        _ => None,
    }
}

fn read_real(cells: &FieldCells) -> (t: Option<String>)
    ensures
        (match t {
            Some(v) => Some(v@),
            None => None,
        }) == or_else(as_real(cells@.by_name), as_real(cells@.by_index)),
{
    match real_in(&cells.by_name) {
        Some(t) => Some(t),
        None => real_in(&cells.by_index),
    }
}

fn read_text(cells: &FieldCells) -> (t: Option<&String>)
    ensures
        (match t {
            Some(v) => Some(v@),
            None => None,
        }) == or_else(as_text(cells@.by_name), as_text(cells@.by_index)),
{
    match &cells.by_name {
        Some(Cell::Text(t)) => Some(t),
        _ => match &cells.by_index {
            Some(Cell::Text(t)) => Some(t),
            _ => None,
        },
    }
}

fn read_blob(cells: &FieldCells) -> (b: Option<&Vec<u8>>)
    ensures
        (match b {
            Some(v) => Some(v@),
            None => None,
        }) == or_else(as_blob(cells@.by_name), as_blob(cells@.by_index)),
{
    match &cells.by_name {
        Some(Cell::Blob(b)) => Some(b),
        _ => match &cells.by_index {
            Some(Cell::Blob(b)) => Some(b),
            _ => None,
        },
    }
}

/// The value that a field of the logical type `kind` takes where no cell can
/// feed it: false, zero, the empty text or no bytes.
pub fn zero_value(kind: LogicalType) -> (value: FieldValue)
    ensures
        value@ == (Value { kind, payload: zero_payload(kind) }),
{
    match kind {
        LogicalType::Bool => FieldValue::Bool(false),
        LogicalType::U8 => FieldValue::U8(0),
        LogicalType::U16 => FieldValue::U16(0),
        LogicalType::U32 => FieldValue::U32(0),
        LogicalType::U64 => FieldValue::U64(0),
        LogicalType::U128 => FieldValue::U128(0),
        LogicalType::I8 => FieldValue::I8(0),
        LogicalType::I16 => FieldValue::I16(0),
        LogicalType::I32 => FieldValue::I32(0),
        LogicalType::I64 => FieldValue::I64(0),
        LogicalType::I128 => FieldValue::I128(0),
        LogicalType::Float32 => FieldValue::Float32(zero_real_text()),
        LogicalType::Float64 => FieldValue::Float64(zero_real_text()),
        LogicalType::Char => FieldValue::Char('\0'),
        LogicalType::Text => FieldValue::Text(String::new()),
        LogicalType::Bytes => FieldValue::Bytes(Vec::new()),
    }
}

fn zero_real_text() -> (text: String)
    ensures
        text@ == zero_real(),
{
    let mut text = String::new();
    text.push('0');
    text.push('.');
    text.push('0');
    proof {
        assert(text@ == zero_real());
    }
    text
}

/// Decodes the cells of a row into the value of one field of the logical
/// type `kind`. It never fails: a field that no cell can feed takes its zero
/// value.
pub fn decode_field(kind: LogicalType, cells: &FieldCells) -> (value: FieldValue)
    ensures
        value@ == (Value { kind, payload: decoded(kind, cells@) }),
{
    match kind {
        LogicalType::Bool => match read_small_integer(cells) {
            Some(i) => FieldValue::Bool(i != 0),
            None => zero_value(kind),
        },
        LogicalType::I32 => match read_small_integer(cells) {
            Some(i) => FieldValue::I32(i),
            None => zero_value(kind),
        },
        LogicalType::U8 => match read_integer(cells) {
            Some(i) => FieldValue::U8(
                #[verifier::truncate]
                (i as u8),
            ),
            None => zero_value(kind),
        },
        LogicalType::U16 => match read_integer(cells) {
            Some(i) => FieldValue::U16(
                #[verifier::truncate]
                (i as u16),
            ),
            None => zero_value(kind),
        },
        LogicalType::U32 => match read_integer(cells) {
            Some(i) => FieldValue::U32(
                #[verifier::truncate]
                (i as u32),
            ),
            None => zero_value(kind),
        },
        LogicalType::U64 => match read_integer(cells) {
            Some(i) => FieldValue::U64(
                #[verifier::truncate]
                (i as u64),
            ),
            None => zero_value(kind),
        },
        LogicalType::U128 => match read_integer(cells) {
            Some(i) => FieldValue::U128(
                #[verifier::truncate]
                (i as u128),
            ),
            None => zero_value(kind),
        },
        LogicalType::I8 => match read_integer(cells) {
            Some(i) => FieldValue::I8(
                #[verifier::truncate]
                (i as i8),
            ),
            None => zero_value(kind),
        },
        LogicalType::I16 => match read_integer(cells) {
            Some(i) => FieldValue::I16(
                #[verifier::truncate]
                (i as i16),
            ),
            None => zero_value(kind),
        },
        LogicalType::I64 => match read_integer(cells) {
            Some(i) => FieldValue::I64(i),
            None => zero_value(kind),
        },
        LogicalType::I128 => match read_integer(cells) {
            Some(i) => FieldValue::I128(i as i128),
            None => zero_value(kind),
        },
        LogicalType::Float32 => match read_real(cells) {
            Some(t) => FieldValue::Float32(t),
            None => zero_value(kind),
        },
        LogicalType::Float64 => match read_real(cells) {
            Some(t) => FieldValue::Float64(t),
            None => zero_value(kind),
        },
        LogicalType::Char => match read_text(cells) {
            Some(t) => {
                if t.as_str().is_empty() {
                    FieldValue::Char(' ')
                } else {
                    FieldValue::Char(t.as_str().get_char(0))
                }
            },
            None => zero_value(kind),
        },
        LogicalType::Text => match read_text(cells) {
            Some(t) => FieldValue::Text(t.clone()),
            None => zero_value(kind),
        },
        LogicalType::Bytes => match read_blob(cells) {
            Some(b) => FieldValue::Bytes(b.clone()),
            None => match read_text(cells) {
                Some(t) => match hex_decode(t.as_str()) {
                    Some(b) => FieldValue::Bytes(b),
                    None => zero_value(kind),
                },
                None => zero_value(kind),
            },
        },
    }
}

/// The digits of a hexadecimal text, byte by byte.
pub proof fn lemma_hex_text_digits(bytes: Seq<u8>)
    ensures
        hex_text(bytes).len() == 2 * bytes.len(),
        forall|i: int|
            0 <= i < bytes.len() ==> hex_text(bytes)[2 * i] == hex_digit(bytes[i] as int / 16)
                && hex_text(bytes)[2 * i + 1] == hex_digit(#[trigger] bytes[i] as int % 16),
    decreases bytes.len(),
{
    if bytes.len() > 0 {
        let front = bytes.drop_last();
        lemma_hex_text_digits(front);
        assert forall|i: int| 0 <= i < bytes.len() implies hex_text(bytes)[2 * i] == hex_digit(
            bytes[i] as int / 16,
        ) && hex_text(bytes)[2 * i + 1] == hex_digit(#[trigger] bytes[i] as int % 16) by {
            if i < front.len() {
                assert(front[i] == bytes[i]);
            }
        }
    }
}

/// Hexadecimal text loses nothing: it is hexadecimal, and it denotes the
/// bytes it was written for.
pub proof fn lemma_hex_round_trip(bytes: Seq<u8>)
    ensures
        is_hex_text(hex_text(bytes)),
        hex_bytes(hex_text(bytes)) == bytes,
{
    lemma_hex_text_digits(bytes);
    let text = hex_text(bytes);
    assert forall|k: int| 0 <= k < text.len() implies hex_value(#[trigger] text[k]) is Some by {
        let i = k / 2;
        assert(0 <= i < bytes.len());
        let b = bytes[i];
        if k == 2 * i {
            assert(text[k] == hex_digit(b as int / 16));
        } else {
            assert(k == 2 * i + 1);
            assert(text[k] == hex_digit(b as int % 16));
        }
    }
    assert forall|i: int| 0 <= i < bytes.len() implies hex_bytes(text)[i] == bytes[i] by {
        let b = bytes[i];
        assert(text[2 * i] == hex_digit(b as int / 16));
        assert(text[2 * i + 1] == hex_digit(b as int % 16));
        assert(hex_value(hex_digit(b as int / 16)) == Some(b as int / 16));
        assert(hex_value(hex_digit(b as int % 16)) == Some(b as int % 16));
    }
    assert(hex_bytes(text) =~= bytes);
}

/// The cell that the engine keeps for a literal, for the forms of literal
/// that the codec writes: a quoted string is kept as the text it denotes, a
/// hexadecimal blob as its bytes, and a decimal numeral as an integer where
/// it fits in 64 bits. A numeral of a real number, and anything else, has no
/// cell here.
pub open spec fn literal_cell(literal: Seq<char>) -> Option<CellView> {
    if literal.len() >= 2 && literal[0] == quote_char() && literal.last() == quote_char() {
        match undoubled_quotes(literal.subrange(1, literal.len() - 1)) {
            Some(text) => Some(CellView::Text(text)),
            None => None,
        }
    } else if literal.len() >= 3 && literal[0] == 'x' && literal[1] == quote_char()
        && literal.last() == quote_char() {
        let digits = literal.subrange(2, literal.len() - 1);
        if is_hex_text(digits) {
            Some(CellView::Blob(hex_bytes(digits)))
        } else {
            None
        }
    } else if literal.len() >= 1 && literal[0] == '-' {
        match decimal_value(literal.skip(1)) {
            Some(n) => if n <= 0x8000_0000_0000_0000 {
                Some(CellView::Integer(-(n as int)))
            } else {
                None
            },
            None => None,
        }
    } else {
        match decimal_value(literal) {
            Some(n) => if n <= 0x7fff_ffff_ffff_ffff {
                Some(CellView::Integer(n as int))
            } else {
                None
            },
            None => None,
        }
    }
}

/// The values that the engine keeps exactly: everything but real numbers,
/// which the library only passes on as text, and integers that do not fit in
/// 64 bits, which the engine keeps as approximate real numbers.
pub open spec fn kept_exactly(value: Value) -> bool {
    match value.payload {
        Payload::Real(_) => false,
        Payload::Number(i) => -0x8000_0000_0000_0000 <= i <= 0x7fff_ffff_ffff_ffff,
        _ => true,
    }
}

/// The cell that the engine keeps for a value written as a literal.
pub open spec fn stored_cell(value: Value) -> Option<CellView> {
    literal_cell(literal_text(value))
}

/// Writing a value as a literal and decoding the cell that the engine keeps
/// for it gives the value back, for every logical type and every value that
/// the engine keeps exactly: the empty text, no bytes and false among them.
/// It does so where the cell is found under the field's name, whatever
/// stands at the field's position, and where it is found at the field's
/// position and no column bears the field's name.
pub proof fn lemma_round_trip(value: Value, other: Option<CellView>)
    requires
        well_typed(value),
        kept_exactly(value),
    ensures
        stored_cell(value) is Some,
        decoded(value.kind, Lookup { by_name: stored_cell(value), by_index: other })
            == value.payload,
        decoded(value.kind, Lookup { by_name: None, by_index: stored_cell(value) })
            == value.payload,
{
    let literal = literal_text(value);
    match value.payload {
        Payload::Flag(b) => {
            lemma_decimal_value(1);
            lemma_decimal_value(0);
            assert(decimal(1) == seq!['1']);
            assert(decimal(0) == seq!['0']);
        },
        Payload::Number(i) => {
            if i < 0 {
                let digits = decimal((-i) as nat);
                lemma_decimal_value((-i) as nat);
                assert(literal == seq!['-'] + digits);
                assert(literal.skip(1) == digits);
                assert(literal[0] == '-');
            } else {
                lemma_decimal_value(i as nat);
                assert(literal == decimal(i as nat));
                assert('0' <= literal[0] <= '9');
            }
            assert(stored_cell(value) == Some(CellView::Integer(i)));
        },
        Payload::Real(_) => {},
        Payload::Letter(c) => {
            lemma_quoted_literal(seq![c]);
        },
        Payload::Text(t) => {
            lemma_quoted_literal(t);
        },
        Payload::Bytes(b) => {
            lemma_hex_round_trip(b);
            lemma_hex_text_digits(b);
            assert(literal == blob_literal(b));
            assert(literal.subrange(2, literal.len() - 1) == hex_text(b));
            assert(literal[0] == 'x');
            assert(literal[1] == quote_char());
            assert(literal.last() == quote_char());
        },
    }
}

/// A quoted string is kept as the text it was written for.
pub proof fn lemma_quoted_literal(text: Seq<char>)
    ensures
        literal_cell(quoted(text)) == Some(CellView::Text(text)),
{
    let literal = quoted(text);
    lemma_undoubled_doubled(text);
    assert(literal.subrange(1, literal.len() - 1) == doubled_quotes(text));
    assert(literal[0] == quote_char());
    assert(literal.last() == quote_char());
}

} // verus!
