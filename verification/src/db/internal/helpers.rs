//! The rendering of one filter term, and the settling of decoded rows.
use crate::db::aio_query::{
    records, Comparison, Condition, Next, Operator, QueryRowResult, QueryRowsResult,
};
use crate::db::internal::codec::{
    lemma_quoted_literal, literal_cell, stored_cell, zero_payload, zero_value,
};
use crate::db::internal::schema_gen::all_mapped;
use crate::db::internal::text::{
    doubled_quotes, escape_quotes, lemma_doubled_quotes_concat, quote_text, quoted,
};
use crate::db::models::{
    columns, distinct_names, fields, lemma_type_ident_names_its_type, logical_type, type_ident,
    CellView, Column, Field, FieldValue, GenericValue, LogicalType, Payload, Schema, Value,
};
use vstd::prelude::*;
use vstd::string::*;

verus! {

/// The path delimiter of an operating system that the library supports.
pub open spec fn delimiter_of(os: Seq<char>) -> Seq<char> {
    if os == "windows"@ {
        "\\"@
    } else {
        "/"@
    }
}

/// Whether the library knows the path delimiter of the operating system `os`.
pub fn is_supported_os(os: &str) -> (supported: bool)
    ensures
        supported == (os@ == "windows"@ || os@ == "linux"@),
{
    os.eq("windows") || os.eq("linux")
}

/// The character that separates the parts of a path on the operating system
/// `os`.
pub fn get_system_char_delimiter(os: &str) -> (delimiter: &'static str)
    requires
        os@ == "windows"@ || os@ == "linux"@,
    ensures
        delimiter@ == delimiter_of(os@),
{
    if os.eq("windows") {
        "\\"
    } else {
        "/"
    }
}

/// The SQL keyword for a joining word.
pub open spec fn next_keyword(next: Next) -> Seq<char> {
    match next {
        Next::And => "AND"@,
        Next::Or => "OR"@,
    }
}

/// The SQL keyword for a joining word.
pub fn get_next(next: &Next) -> (keyword: String)
    ensures
        keyword@ == next_keyword(*next),
{
    match next {
        Next::And => String::from_str("AND"),
        Next::Or => String::from_str("OR"),
    }
}

/// The literal that stands for an operand in a comparison with a field of the
/// type `field_type`: a quoted string for a text or a character, `1` and `0`
/// for the words `true` and `false` on a boolean, and the operand as it is
/// otherwise.
pub open spec fn end_value(value: Seq<char>, field_type: Seq<char>) -> Seq<char> {
    match logical_type(field_type) {
        Some(LogicalType::Text) | Some(LogicalType::Char) => quoted(value),
        Some(LogicalType::Bool) => if value == "true"@ {
            seq!['1']
        } else if value == "false"@ {
            seq!['0']
        } else {
            value
        },
        _ => value,
    }
}

/// A text with a quote in it is found again by an exact match: the literal
/// that a filter on a text field writes for an operand denotes the very text
/// that the engine keeps for a field of that value, whatever characters the
/// text holds.
pub proof fn lemma_text_operand_matches_stored_text(text: Seq<char>)
    ensures
        literal_cell(end_value(text, type_ident(LogicalType::Text))) == Some(CellView::Text(text)),
        stored_cell(Value { kind: LogicalType::Text, payload: Payload::Text(text) }) == Some(
            CellView::Text(text),
        ),
{
    lemma_type_ident_names_its_type(LogicalType::Text);
    lemma_quoted_literal(text);
}

/// Writes an operand as the literal that a comparison with a field of the type
/// `field_type` takes.
pub fn get_end_value(value: &str, field_type: &str) -> (literal: String)
    ensures
        literal@ == end_value(value@, field_type@),
{
    match LogicalType::from_ident(field_type) {
        Some(LogicalType::Text) | Some(LogicalType::Char) => quote_text(value),
        Some(LogicalType::Bool) => {
            let mut literal = String::new();
            if value.eq("true") {
                literal.push('1');
            } else if value.eq("false") {
                literal.push('0');
            } else {
                literal.append(value);
            }
            literal
        },
        _ => String::from_str(value),
    }
}

/// What follows a term: nothing after the last one, and otherwise the joining
/// word between two spaces.
pub open spec fn continuation(last_item: bool, next: Option<Next>) -> Seq<char> {
    if last_item {
        Seq::empty()
    } else {
        seq![' '] + next_keyword(next.unwrap()) + seq![' ']
    }
}

fn push_continuation(query_string: &mut String, last_item: bool, next: Option<&Next>)
    requires
        !last_item ==> next is Some,
    ensures
        final(query_string)@ == old(query_string)@ + continuation(last_item, word_of(next)),
{
    if !last_item {
        let next = next.unwrap();
        query_string.push(' ');
        query_string.append(get_next(next).as_str());
        query_string.push(' ');
        proof {
            assert(query_string@ == old(query_string)@ + (seq![' '] + next_keyword(*next) + seq![
                ' ',
            ]));
        }
    } else {
        proof {
            assert(query_string@ == old(query_string)@ + Seq::<char>::empty());
        }
    }
}

/// A comparison of a field with a literal: the field, the operator and the
/// literal, a space between them, and what follows the term.
pub open spec fn comparison_text(
    field_name: Seq<char>,
    sql_operator: Seq<char>,
    end_value: Seq<char>,
    last_item: bool,
    next: Option<Next>,
) -> Seq<char> {
    field_name + seq![' '] + sql_operator + seq![' '] + end_value + continuation(last_item, next)
}

/// The joining word behind an optional reference.
pub open spec fn word_of(next: Option<&Next>) -> Option<Next> {
    match next {
        Some(word) => Some(*word),
        None => None,
    }
}

/// Appends a comparison of a field with a literal to the query.
pub fn push_str_to_query_string(
    query_string: &mut String,
    field_name: &str,
    end_value: &str,
    last_item: bool,
    sql_operator: &str,
    next: Option<&Next>,
)
    requires
        !last_item ==> next is Some,
    ensures
        final(query_string)@ == old(query_string)@ + comparison_text(
            field_name@,
            sql_operator@,
            end_value@,
            last_item,
            word_of(next),
        ),
{
    query_string.append(field_name);
    query_string.push(' ');
    query_string.append(sql_operator);
    query_string.push(' ');
    query_string.append(end_value);
    let ghost before = query_string@;
    push_continuation(query_string, last_item, next);
    proof {
        assert(before == old(query_string)@ + (field_name@ + seq![' '] + sql_operator@ + seq![' ']
            + end_value@));
        assert(query_string@ == old(query_string)@ + comparison_text(
            field_name@,
            sql_operator@,
            end_value@,
            last_item,
            word_of(next),
        ));
    }
}

/// A pattern match on a field: the field, `LIKE` and the pattern, a space
/// between them, and what follows the term.
pub open spec fn like_text(
    field_name: Seq<char>,
    pattern: Seq<char>,
    last_item: bool,
    next: Option<Next>,
) -> Seq<char> {
    field_name + " LIKE "@ + pattern + continuation(last_item, next)
}

/// The pattern that matches a text which holds `value` anywhere.
pub open spec fn contains_pattern(value: Seq<char>) -> Seq<char> {
    seq!['\'', '%'] + doubled_quotes(value) + seq!['%', '\'']
}

/// The pattern that matches a text which begins with `value`.
pub open spec fn starts_with_pattern(value: Seq<char>) -> Seq<char> {
    seq!['\''] + doubled_quotes(value) + seq!['%', '\'']
}

/// The pattern that matches a text which ends with `value`.
pub open spec fn ends_with_pattern(value: Seq<char>) -> Seq<char> {
    seq!['\'', '%'] + doubled_quotes(value) + seq!['\'']
}

/// The three patterns are string literals, whatever the operand holds: the
/// engine reads each as the operand itself with the wildcard `%` where the
/// operator wants it, before and after the operand for a match anywhere,
/// after it for a match at the start, and before it for a match at the end.
pub proof fn lemma_patterns_are_literals(value: Seq<char>)
    ensures
        literal_cell(contains_pattern(value)) == Some(
            CellView::Text(seq!['%'] + value + seq!['%']),
        ),
        literal_cell(starts_with_pattern(value)) == Some(CellView::Text(value + seq!['%'])),
        literal_cell(ends_with_pattern(value)) == Some(CellView::Text(seq!['%'] + value)),
{
    let wildcard = seq!['%'];
    assert(doubled_quotes(wildcard) == wildcard) by {
        assert(wildcard.drop_last() == Seq::<char>::empty());
        reveal_with_fuel(doubled_quotes, 2);
    }
    lemma_doubled_quotes_concat(wildcard, value);
    lemma_doubled_quotes_concat(wildcard + value, wildcard);
    lemma_doubled_quotes_concat(value, wildcard);
    assert(contains_pattern(value) == quoted(wildcard + value + wildcard));
    assert(starts_with_pattern(value) == quoted(value + wildcard));
    assert(ends_with_pattern(value) == quoted(wildcard + value));
    lemma_quoted_literal(wildcard + value + wildcard);
    lemma_quoted_literal(value + wildcard);
    lemma_quoted_literal(wildcard + value);
}

fn push_like(
    query_string: &mut String,
    field_name: &str,
    pattern: &str,
    last_item: bool,
    next: Option<&Next>,
)
    requires
        !last_item ==> next is Some,
    ensures
        final(query_string)@ == old(query_string)@ + like_text(
            field_name@,
            pattern@,
            last_item,
            word_of(next),
        ),
{
    query_string.append(field_name);
    query_string.append(" LIKE ");
    query_string.append(pattern);
    let ghost before = query_string@;
    push_continuation(query_string, last_item, next);
    proof {
        assert(before == old(query_string)@ + (field_name@ + " LIKE "@ + pattern@));
        assert(query_string@ == old(query_string)@ + like_text(
            field_name@,
            pattern@,
            last_item,
            word_of(next),
        ));
    }
}

/// Appends to the query a match of the field against the texts that hold
/// `end_value` anywhere.
pub fn push_contains_to_query_string(
    query_string: &mut String,
    field_name: &str,
    end_value: &str,
    last_item: bool,
    next: Option<&Next>,
)
    requires
        !last_item ==> next is Some,
    ensures
        final(query_string)@ == old(query_string)@ + like_text(
            field_name@,
            contains_pattern(end_value@),
            last_item,
            word_of(next),
        ),
{
    let mut like_end_value = String::new();
    like_end_value.push('\'');
    like_end_value.push('%');
    like_end_value.append(escape_quotes(end_value).as_str());
    like_end_value.push('%');
    like_end_value.push('\'');
    proof {
        assert(like_end_value@ == contains_pattern(end_value@));
    }
    push_like(query_string, field_name, like_end_value.as_str(), last_item, next);
}

/// Appends to the query a match of the field against the texts that begin
/// with `end_value`.
pub fn push_starts_with_to_query_string(
    query_string: &mut String,
    field_name: &str,
    end_value: &str,
    last_item: bool,
    next: Option<&Next>,
)
    requires
        !last_item ==> next is Some,
    ensures
        final(query_string)@ == old(query_string)@ + like_text(
            field_name@,
            starts_with_pattern(end_value@),
            last_item,
            word_of(next),
        ),
{
    let mut like_end_value = String::new();
    like_end_value.push('\'');
    like_end_value.append(escape_quotes(end_value).as_str());
    like_end_value.push('%');
    like_end_value.push('\'');
    proof {
        assert(like_end_value@ == starts_with_pattern(end_value@));
    }
    push_like(query_string, field_name, like_end_value.as_str(), last_item, next);
}

/// Appends to the query a match of the field against the texts that end with
/// `end_value`.
pub fn push_ends_with_to_query_string(
    query_string: &mut String,
    field_name: &str,
    end_value: &str,
    last_item: bool,
    next: Option<&Next>,
)
    requires
        !last_item ==> next is Some,
    ensures
        final(query_string)@ == old(query_string)@ + like_text(
            field_name@,
            ends_with_pattern(end_value@),
            last_item,
            word_of(next),
        ),
{
    let mut like_end_value = String::new();
    like_end_value.push('\'');
    like_end_value.push('%');
    like_end_value.append(escape_quotes(end_value).as_str());
    like_end_value.push('\'');
    proof {
        assert(like_end_value@ == ends_with_pattern(end_value@));
    }
    push_like(query_string, field_name, like_end_value.as_str(), last_item, next);
}

/// The SQL operator of each of the six comparisons of order and equality.
pub open spec fn sql_operator(comparison: Comparison) -> Seq<char> {
    match comparison {
        Comparison::Eq => "=="@,
        Comparison::Ne => "<>"@,
        Comparison::Gt => ">"@,
        Comparison::Lt => "<"@,
        Comparison::Ge => ">="@,
        _ => "<="@,
    }
}

/// The SQL text of one filter term on the field `field_name` of the type
/// `field_type`.
pub open spec fn predicate_text(
    condition: Condition,
    field_name: Seq<char>,
    field_type: Seq<char>,
    last_item: bool,
    next: Option<Next>,
) -> Seq<char> {
    match condition.comparison {
        Comparison::Contains => like_text(
            field_name,
            contains_pattern(condition.operand),
            last_item,
            next,
        ),
        Comparison::StartsWith => like_text(
            field_name,
            starts_with_pattern(condition.operand),
            last_item,
            next,
        ),
        Comparison::EndsWith => like_text(
            field_name,
            ends_with_pattern(condition.operand),
            last_item,
            next,
        ),
        comparison => comparison_text(
            field_name,
            sql_operator(comparison),
            end_value(condition.operand, field_type),
            last_item,
            next,
        ),
    }
}

/// Appends one filter term to the query: a comparison of the field with the
/// operand's literal, or a pattern match on the field.
pub fn query_match_operators(
    operator: &Operator,
    query_string: &mut String,
    field_name: &str,
    field_type: &str,
    last_item: bool,
    next: Option<&Next>,
)
    requires
        !last_item ==> next is Some,
    ensures
        final(query_string)@ == old(query_string)@ + predicate_text(
            operator@,
            field_name@,
            field_type@,
            last_item,
            word_of(next),
        ),
{
    match operator {
        Operator::Eq(value) => {
            let end_value = get_end_value(value.as_str(), field_type);
            push_str_to_query_string(
                query_string,
                field_name,
                end_value.as_str(),
                last_item,
                "==",
                next,
            );
        },
        Operator::Ne(value) => {
            let end_value = get_end_value(value.as_str(), field_type);
            push_str_to_query_string(
                query_string,
                field_name,
                end_value.as_str(),
                last_item,
                "<>",
                next,
            );
        },
        Operator::Gt(value) => {
            let end_value = get_end_value(value.as_str(), field_type);
            push_str_to_query_string(
                query_string,
                field_name,
                end_value.as_str(),
                last_item,
                ">",
                next,
            );
        },
        Operator::Lt(value) => {
            let end_value = get_end_value(value.as_str(), field_type);
            push_str_to_query_string(
                query_string,
                field_name,
                end_value.as_str(),
                last_item,
                "<",
                next,
            );
        },
        Operator::Ge(value) => {
            let end_value = get_end_value(value.as_str(), field_type);
            push_str_to_query_string(
                query_string,
                field_name,
                end_value.as_str(),
                last_item,
                ">=",
                next,
            );
        },
        Operator::Le(value) => {
            let end_value = get_end_value(value.as_str(), field_type);
            push_str_to_query_string(
                query_string,
                field_name,
                end_value.as_str(),
                last_item,
                "<=",
                next,
            );
        },
        Operator::Contains(value) => {
            push_contains_to_query_string(query_string, field_name, value.as_str(), last_item, next);
        },
        Operator::StartsWith(value) => {
            push_starts_with_to_query_string(
                query_string,
                field_name,
                value.as_str(),
                last_item,
                next,
            );
        },
        Operator::EndsWith(value) => {
            push_ends_with_to_query_string(query_string, field_name, value.as_str(), last_item, next);
        },
    }
}

/// The value of the first field of a record that is named `name`.
pub open spec fn value_of(record: Seq<Field>, name: Seq<char>) -> Option<Value>
    decreases record.len(),
{
    if record.len() == 0 {
        None
    } else if record[0].name == name {
        Some(record[0].value)
    } else {
        value_of(record.drop_first(), name)
    }
}

/// The value that a field takes where the record holds none of its type
/// under its name: a space for a character, and the zero value otherwise.
pub open spec fn fallback(kind: LogicalType) -> Payload {
    if kind == LogicalType::Char {
        Payload::Letter(' ')
    } else {
        zero_payload(kind)
    }
}

/// The field that a record gives for one column of the schema: the value it
/// holds under the column's name, if that is of the column's type.
pub open spec fn settled_field(column: Column, record: Seq<Field>) -> Field {
    let kind = logical_type(column.kind).unwrap();
    Field {
        name: column.name,
        kind: column.kind,
        value: match value_of(record, column.name) {
            Some(value) => if value.kind == kind {
                value
            } else {
                Value { kind, payload: fallback(kind) }
            },
            None => Value { kind, payload: fallback(kind) },
        },
    }
}

/// A record laid out by the schema: one field for each column, in the
/// schema's order.
pub open spec fn settled(columns: Seq<Column>, record: Seq<Field>) -> Seq<Field> {
    Seq::new(columns.len(), |i: int| settled_field(columns[i], record))
}

/// The value found under a name is that of the first field so named.
pub proof fn lemma_value_of(record: Seq<Field>, name: Seq<char>, i: int)
    requires
        0 <= i < record.len(),
        record[i].name == name,
        forall|j: int| 0 <= j < i ==> (#[trigger] record[j]).name != name,
    ensures
        value_of(record, name) == Some(record[i].value),
    decreases i,
{
    if i > 0 {
        let rest = record.drop_first();
        assert(record[0].name != name);
        assert forall|j: int| 0 <= j < i - 1 implies (#[trigger] rest[j]).name != name by {
            assert(rest[j] == record[j + 1]);
        }
        lemma_value_of(rest, name, i - 1);
    }
}

/// Laying a record of the schema out by the schema changes nothing, where no
/// two fields of the schema share a name.
pub proof fn lemma_settled_record(columns: Seq<Column>, record: Seq<Field>)
    requires
        record.len() == columns.len(),
        forall|i: int|
            0 <= i < record.len() ==> (#[trigger] record[i]).name == columns[i].name
                && record[i].kind == columns[i].kind && logical_type(columns[i].kind) == Some(
                record[i].value.kind,
            ),
        distinct_names(columns),
    ensures
        settled(columns, record) == record,
{
    assert forall|i: int| 0 <= i < columns.len() implies settled(columns, record)[i]
        == record[i] by {
        assert forall|j: int| 0 <= j < i implies (#[trigger] record[j]).name
            != columns[i].name by {
            assert(columns[j].name != columns[i].name);
        }
        lemma_value_of(record, columns[i].name, i);
    }
    assert(settled(columns, record) =~= record);
}

fn find_value<'a>(record: &'a Vec<GenericValue>, name: &str) -> (found: Option<&'a FieldValue>)
    ensures
        match value_of(fields(record@), name@) {
            Some(value) => found is Some && found.unwrap()@ == value,
            None => found is None,
        },
{
    let mut i: usize = 0;
    assert(fields(record@).skip(0) == fields(record@));
    while i < record.len()
        invariant
            i <= record.len(),
            value_of(fields(record@), name@) == value_of(fields(record@).skip(i as int), name@),
        decreases record.len() - i,
    {
        proof {
            let rest = fields(record@).skip(i as int);
            assert(rest[0] == record@[i as int]@);
            assert(rest.drop_first() == fields(record@).skip(i + 1));
        }
        if record[i].field_name.as_str().eq(name) {
            return Some(&record[i].field_value);
        }
        i += 1;
    }
    None
}

fn fallback_value(kind: LogicalType) -> (value: FieldValue)
    ensures
        value@ == (Value { kind, payload: fallback(kind) }),
{
    match kind {
        LogicalType::Char => FieldValue::Char(' '),
        _ => zero_value(kind),
    }
}

fn settle(schema: &Vec<Schema>, row: &Vec<GenericValue>) -> (instance: Vec<GenericValue>)
    requires
        all_mapped(columns(schema@)),
    ensures
        fields(instance@) == settled(columns(schema@), fields(row@)),
{
    let mut instance: Vec<GenericValue> = Vec::new();
    let mut i: usize = 0;
    while i < schema.len()
        invariant
            i <= schema.len(),
            all_mapped(columns(schema@)),
            instance@.len() == i,
            forall|j: int|
                0 <= j < i ==> (#[trigger] instance@[j])@ == settled_field(
                    schema@[j]@,
                    fields(row@),
                ),
        decreases schema.len() - i,
    {
        let field = &schema[i];
        assert(columns(schema@)[i as int] == field@);
        let kind = LogicalType::from_ident(field.field_type.as_str()).unwrap();
        let value = match find_value(row, field.field_name.as_str()) {
            Some(found) => if found.kind() == kind {
                found.clone()
            } else {
                fallback_value(kind)
            },
            None => fallback_value(kind),
        };
        instance.push(
            GenericValue {
                field_name: field.field_name.clone(),
                field_value: value,
                field_type: field.field_type.clone(),
            },
        );
        i += 1;
    }
    proof {
        assert(fields(instance@) =~= settled(columns(schema@), fields(row@)));
    }
    instance
}

/// Lays the decoded row out by the schema. There is nothing to lay out where
/// the read gave no row.
pub fn set_values_from_row_result(schema: &Vec<Schema>, row_result: &QueryRowResult) -> (result:
    Result<Vec<GenericValue>, ()>)
    requires
        all_mapped(columns(schema@)),
    ensures
        match row_result.value {
            Some(row) => result is Ok && fields(result.unwrap()@) == settled(
                columns(schema@),
                fields(row@),
            ),
            None => result is Err,
        },
{
    match &row_result.value {
        Some(row) => Ok(settle(schema, row)),
        None => Err(()),
    }
}

/// The records of a list of rows, each laid out by the schema.
pub open spec fn settled_rows(columns: Seq<Column>, rows: Seq<Seq<Field>>) -> Seq<Seq<Field>> {
    rows.map_values(|row: Seq<Field>| settled(columns, row))
}

/// Lays every decoded row out by the schema, in the order of the rows. A read
/// that gave no row gives the empty list, and never an error.
pub fn set_values_from_many_rows_result(
    schema: &Vec<Schema>,
    row_result: &QueryRowsResult,
) -> (result: Result<Vec<Vec<GenericValue>>, ()>)
    requires
        all_mapped(columns(schema@)),
    ensures
        result is Ok,
        match row_result.value {
            Some(rows) => records(result.unwrap()@) == settled_rows(
                columns(schema@),
                records(rows@),
            ),
            None => result.unwrap()@.len() == 0,
        },
{
    let mut vec_t: Vec<Vec<GenericValue>> = Vec::new();
    match &row_result.value {
        Some(rows) => {
            let mut i: usize = 0;
            while i < rows.len()
                invariant
                    i <= rows.len(),
                    all_mapped(columns(schema@)),
                    vec_t@.len() == i,
                    forall|j: int|
                        0 <= j < i ==> fields((#[trigger] vec_t@[j])@) == settled(
                            columns(schema@),
                            fields(rows@[j]@),
                        ),
                decreases rows.len() - i,
            {
                vec_t.push(settle(schema, &rows[i]));
                i += 1;
            }
            proof {
                assert(records(vec_t@) =~= settled_rows(columns(schema@), records(rows@)));
            }
            Ok(vec_t)
        },
        None => Ok(vec_t),
    }
}

} // verus!
