//! The command compiler: whole statements from a table's name, its schema, a
//! record's fields and the filter terms of a query builder.
use crate::db::aio_query::{
    predicates, records, Predicate, QueryBuilder, QueryOption, QueryRowResult, QueryRowsResult,
};
use crate::db::internal::codec::{encode_literal, literal_text};
use crate::db::internal::helpers::{
    predicate_text, query_match_operators, set_values_from_many_rows_result,
    set_values_from_row_result, settled, settled_rows,
};
use crate::db::internal::schema_gen::all_mapped;
use crate::db::WalMode;
use crate::db::internal::schema_gen::get_sql_type;
use crate::db::internal::text::{quote_text, quoted};
use crate::db::models::{
    columns, fields, logical_type, sql_type, Column, ConfigurationError, Field, GenericValue,
    Schema,
};
use vstd::prelude::*;
use vstd::string::*;

verus! {

/// The texts of `items` in their order, with `separator` between each two.
pub open spec fn joined(items: Seq<Seq<char>>, separator: Seq<char>) -> Seq<char>
    decreases items.len(),
{
    if items.len() == 0 {
        Seq::empty()
    } else if items.len() == 1 {
        items[0]
    } else {
        joined(items.drop_last(), separator) + separator + items.last()
    }
}

/// Joining one more item: the separator comes before it unless it is the
/// first.
pub proof fn lemma_joined_push(items: Seq<Seq<char>>, separator: Seq<char>, item: Seq<char>)
    ensures
        joined(items.push(item), separator) == if items.len() == 0 {
            item
        } else {
            joined(items, separator) + separator + item
        },
{
    assert(items.push(item).drop_last() == items);
}

/// The type of the first column named `name`, if there is one.
pub open spec fn kind_of(columns: Seq<Column>, name: Seq<char>) -> Option<Seq<char>>
    decreases columns.len(),
{
    if columns.len() == 0 {
        None
    } else if columns[0].name == name {
        Some(columns[0].kind)
    } else {
        kind_of(columns.drop_first(), name)
    }
}

/// The first field of the schema that is named `name`.
pub fn find_field<'a>(schema: &'a Vec<Schema>, name: &str) -> (found: Option<&'a Schema>)
    ensures
        match kind_of(columns(schema@), name@) {
            Some(kind) => found is Some && found.unwrap()@.name == name@ && found.unwrap()@.kind
                == kind,
            None => found is None,
        },
{
    let mut i: usize = 0;
    assert(columns(schema@).skip(0) == columns(schema@));
    while i < schema.len()
        invariant
            i <= schema.len(),
            kind_of(columns(schema@), name@) == kind_of(columns(schema@).skip(i as int), name@),
        decreases schema.len() - i,
    {
        proof {
            let rest = columns(schema@).skip(i as int);
            assert(rest[0] == schema@[i as int]@);
            assert(rest.drop_first() == columns(schema@).skip(i + 1));
        }
        if schema[i].field_name.as_str().eq(name) {
            return Some(&schema[i]);
        }
        i += 1;
    }
    None
}

/// A filter term is complete when it has a comparison and a joining word.
pub open spec fn complete(terms: Seq<Predicate>) -> bool {
    forall|i: int|
        0 <= i < terms.len() ==> (#[trigger] terms[i]).operator is Some && terms[i].next is Some
}

/// Whether every term of a chain is about a field of the schema.
pub open spec fn mapped(terms: Seq<Predicate>, columns: Seq<Column>) -> bool {
    forall|i: int| 0 <= i < terms.len() ==> kind_of(columns, (#[trigger] terms[i]).field) is Some
}

/// The SQL text of one filter term, with the literal written for the type
/// that the schema gives to the term's field.
pub open spec fn term_text(term: Predicate, columns: Seq<Column>, last_item: bool) -> Seq<char> {
    predicate_text(
        term.operator.unwrap(),
        term.field,
        kind_of(columns, term.field).unwrap(),
        last_item,
        term.next,
    )
}

/// The SQL text of the first `n` terms, each followed by its joining word.
pub open spec fn chained_terms(terms: Seq<Predicate>, columns: Seq<Column>, n: int) -> Seq<char>
    decreases n,
{
    if n <= 0 {
        Seq::empty()
    } else {
        chained_terms(terms, columns, n - 1) + term_text(terms[n - 1], columns, false)
    }
}

/// The SQL text of a chain of filter terms: every term but the last followed
/// by its joining word, the last one by nothing.
pub open spec fn filter_text(terms: Seq<Predicate>, columns: Seq<Column>) -> Seq<char> {
    if terms.len() == 0 {
        Seq::empty()
    } else {
        chained_terms(terms, columns, terms.len() - 1) + term_text(terms.last(), columns, true)
    }
}

/// Whether every term of the chain has a comparison and a joining word.
pub fn is_complete(options: &Vec<QueryOption>) -> (ok: bool)
    ensures
        ok == complete(predicates(options@)),
{
    let mut i: usize = 0;
    while i < options.len()
        invariant
            i <= options.len(),
            forall|j: int|
                0 <= j < i ==> (#[trigger] predicates(options@)[j]).operator is Some && predicates(
                    options@,
                )[j].next is Some,
        decreases options.len() - i,
    {
        assert(predicates(options@)[i as int] == options@[i as int]@);
        if options[i].operator.is_none() || options[i].next.is_none() {
            return false;
        }
        i += 1;
    }
    true
}

/// Whether every term of the chain is about a field of the schema.
pub fn fields_are_mapped(options: &Vec<QueryOption>, schema: &Vec<Schema>) -> (ok: bool)
    ensures
        ok == mapped(predicates(options@), columns(schema@)),
{
    let mut i: usize = 0;
    while i < options.len()
        invariant
            i <= options.len(),
            forall|j: int|
                0 <= j < i ==> kind_of(columns(schema@), (#[trigger] predicates(options@)[j]).field)
                    is Some,
        decreases options.len() - i,
    {
        assert(predicates(options@)[i as int] == options@[i as int]@);
        if find_field(schema, options[i].field_name.as_str()).is_none() {
            return false;
        }
        i += 1;
    }
    true
}

fn push_term(query: &mut String, option: &QueryOption, schema: &Vec<Schema>, last_item: bool)
    requires
        option@.operator is Some,
        option@.next is Some,
        kind_of(columns(schema@), option@.field) is Some,
    ensures
        final(query)@ == old(query)@ + term_text(option@, columns(schema@), last_item),
{
    let current = find_field(schema, option.field_name.as_str()).unwrap();
    let next = option.next.as_ref().unwrap();
    let operator = option.operator.as_ref().unwrap();
    query_match_operators(
        operator,
        query,
        option.field_name.as_str(),
        current.field_type.as_str(),
        last_item,
        Some(next),
    );
}

fn push_filter(query: &mut String, options: &Vec<QueryOption>, schema: &Vec<Schema>)
    requires
        options@.len() > 0,
        complete(predicates(options@)),
        mapped(predicates(options@), columns(schema@)),
    ensures
        final(query)@ == old(query)@ + filter_text(predicates(options@), columns(schema@)),
{
    let ghost terms = predicates(options@);
    let ghost cols = columns(schema@);
    let last = options.len() - 1;
    let mut i: usize = 0;
    while i < last
        invariant
            i <= last,
            last == options@.len() - 1,
            terms == predicates(options@),
            cols == columns(schema@),
            complete(terms),
            mapped(terms, cols),
            query@ == old(query)@ + chained_terms(terms, cols, i as int),
        decreases last - i,
    {
        assert(terms[i as int] == options@[i as int]@);
        assert(terms[i as int].operator is Some);
        assert(kind_of(cols, terms[i as int].field) is Some);
        push_term(query, &options[i], schema, false);
        i += 1;
    }
    assert(terms.last() == options@[last as int]@);
    assert(terms[last as int].operator is Some);
    assert(kind_of(cols, terms[last as int].field) is Some);
    push_term(query, &options[last], schema, true);
}

/// The `WHERE` clause of a chain of filter terms; nothing for an empty chain.
pub open spec fn where_text(terms: Seq<Predicate>, columns: Seq<Column>) -> Seq<char> {
    if terms.len() == 0 {
        Seq::empty()
    } else {
        "WHERE "@ + filter_text(terms, columns)
    }
}

/// The statement that selects the rows which a chain of filter terms lets
/// through; every row for an empty chain.
pub open spec fn select_text(
    table_name: Seq<char>,
    terms: Seq<Predicate>,
    columns: Seq<Column>,
) -> Seq<char> {
    if terms.len() == 0 {
        "SELECT * FROM "@ + table_name
    } else {
        "SELECT * FROM "@ + table_name + " WHERE "@ + filter_text(terms, columns)
    }
}

/// Reads and writes filter alike: the `SELECT` statement for a chain is the
/// bare statement and then, after a space, the very `WHERE` clause that the
/// updates and deletes of the same chain carry.
pub proof fn lemma_select_carries_where(
    table_name: Seq<char>,
    terms: Seq<Predicate>,
    columns: Seq<Column>,
)
    requires
        terms.len() > 0,
    ensures
        select_text(table_name, terms, columns) == "SELECT * FROM "@ + table_name + seq![' ']
            + where_text(terms, columns),
{
    reveal_strlit(" WHERE ");
    reveal_strlit("WHERE ");
    assert(" WHERE "@ =~= seq![' '] + "WHERE "@);
    let filter = filter_text(terms, columns);
    assert("SELECT * FROM "@ + table_name + " WHERE "@ + filter =~= "SELECT * FROM "@ + table_name
        + seq![' '] + ("WHERE "@ + filter));
}

/// Compiles the builder's chain into a `SELECT` statement over its table.
/// A chain that names a field which the table's schema does not have is
/// refused.
pub fn generate_get_query(query_builder: &QueryBuilder) -> (query: Result<
    String,
    ConfigurationError,
>)
    requires
        complete(predicates(query_builder.query_options@)),
    ensures
        match query {
            Ok(text) => mapped(predicates(query_builder.query_options@), query_builder.db.schema())
                && text@ == select_text(
                query_builder.table_name@,
                predicates(query_builder.query_options@),
                query_builder.db.schema(),
            ),
            Err(error) => error == ConfigurationError::UnmappedField && !mapped(
                predicates(query_builder.query_options@),
                query_builder.db.schema(),
            ),
        },
{
    let options = &query_builder.query_options;
    let schema = query_builder.db.get_schema();
    if !fields_are_mapped(options, schema) {
        return Err(ConfigurationError::UnmappedField);
    }
    let mut query = String::from_str("SELECT * FROM ");
    query.append(query_builder.table_name.as_str());
    if options.len() > 0 {
        query.append(" WHERE ");
        push_filter(&mut query, options, schema);
    }
    Ok(query)
}

/// Compiles the builder's chain into a `WHERE` clause; into nothing where the
/// chain is empty. A chain that names a field which the table's schema does
/// not have is refused.
pub fn generate_where_query(query_builder: &QueryBuilder) -> (query: Result<
    String,
    ConfigurationError,
>)
    requires
        complete(predicates(query_builder.query_options@)),
    ensures
        match query {
            Ok(text) => mapped(predicates(query_builder.query_options@), query_builder.db.schema())
                && text@ == where_text(
                predicates(query_builder.query_options@),
                query_builder.db.schema(),
            ),
            Err(error) => error == ConfigurationError::UnmappedField && !mapped(
                predicates(query_builder.query_options@),
                query_builder.db.schema(),
            ),
        },
{
    let options = &query_builder.query_options;
    let schema = query_builder.db.get_schema();
    if !fields_are_mapped(options, schema) {
        return Err(ConfigurationError::UnmappedField);
    }
    let mut query = String::new();
    if options.len() > 0 {
        query.append("WHERE ");
        push_filter(&mut query, options, schema);
    }
    Ok(query)
}

/// What opens a statement that runs in a transaction block of its own.
pub open spec fn block_start(concurrent: bool) -> Seq<char> {
    if concurrent {
        "BEGIN CONCURRENT; "@
    } else {
        Seq::empty()
    }
}

/// What closes a statement that runs in a transaction block of its own.
pub open spec fn block_end(concurrent: bool) -> Seq<char> {
    if concurrent {
        "; COMMIT;"@
    } else {
        Seq::empty()
    }
}

/// The names of a record's fields.
pub open spec fn field_names(record: Seq<Field>) -> Seq<Seq<char>> {
    record.map_values(|field: Field| field.name)
}

/// The literals of a record's values.
pub open spec fn field_literals(record: Seq<Field>) -> Seq<Seq<char>> {
    record.map_values(|field: Field| literal_text(field.value))
}

/// The statement that inserts a record: the names of its fields, then the
/// literals of its values, both in the record's order and between commas.
pub open spec fn insert_text(record: Seq<Field>, table_name: Seq<char>, concurrent: bool) -> Seq<
    char,
> {
    block_start(concurrent) + "INSERT INTO "@ + table_name + " ("@ + joined(
        field_names(record),
        seq![','],
    ) + seq![')'] + " VALUES ("@ + joined(field_literals(record), seq![',']) + seq![')']
        + block_end(concurrent)
}

fn start_statement(concurrent: bool) -> (query: String)
    ensures
        query@ == block_start(concurrent),
{
    if concurrent {
        String::from_str("BEGIN CONCURRENT; ")
    } else {
        String::new()
    }
}

fn end_statement(query: &mut String, concurrent: bool)
    ensures
        final(query)@ == old(query)@ + block_end(concurrent),
{
    if concurrent {
        query.append("; COMMIT;");
    } else {
        proof {
            assert(query@ == old(query)@ + Seq::<char>::empty());
        }
    }
}

/// Compiles the `INSERT` statement for one record.
pub fn insert_query(generic_values: &Vec<GenericValue>, table_name: &str, concurrent: bool) -> (query:
    String)
    requires
        generic_values@.len() > 0,
    ensures
        query@ == insert_text(fields(generic_values@), table_name@, concurrent),
{
    let ghost record = fields(generic_values@);
    let mut query = start_statement(concurrent);
    query.append("INSERT INTO ");
    query.append(table_name);
    query.append(" (");
    let ghost head = query@;
    let mut i: usize = 0;
    while i < generic_values.len()
        invariant
            i <= generic_values.len(),
            record == fields(generic_values@),
            query@ == head + joined(field_names(record).take(i as int), seq![',']),
        decreases generic_values.len() - i,
    {
        proof {
            let names = field_names(record);
            assert(names.take(i + 1) == names.take(i as int).push(names[i as int]));
            lemma_joined_push(names.take(i as int), seq![','], names[i as int]);
            assert(names[i as int] == generic_values@[i as int]@.name);
        }
        if i > 0 {
            query.push(',');
        }
        query.append(generic_values[i].field_name.as_str());
        i += 1;
    }
    proof {
        assert(field_names(record).take(i as int) == field_names(record));
    }
    query.push(')');
    query.append(" VALUES (");
    let ghost middle = query@;
    let mut i: usize = 0;
    while i < generic_values.len()
        invariant
            i <= generic_values.len(),
            record == fields(generic_values@),
            query@ == middle + joined(field_literals(record).take(i as int), seq![',']),
        decreases generic_values.len() - i,
    {
        proof {
            let literals = field_literals(record);
            assert(literals.take(i + 1) == literals.take(i as int).push(literals[i as int]));
            lemma_joined_push(literals.take(i as int), seq![','], literals[i as int]);
            assert(literals[i as int] == literal_text(generic_values@[i as int]@.value));
        }
        if i > 0 {
            query.push(',');
        }
        let literal = encode_literal(&generic_values[i].field_value);
        query.append(literal.as_str());
        i += 1;
    }
    proof {
        assert(field_literals(record).take(i as int) == field_literals(record));
    }
    query.push(')');
    end_statement(&mut query, concurrent);
    query
}

/// The assignment of a value to its field: the name, ` = `, the literal.
pub open spec fn assignment_text(field: Field) -> Seq<char> {
    field.name + " = "@ + literal_text(field.value)
}

/// The assignments of a record's values to its fields.
pub open spec fn assignments(record: Seq<Field>) -> Seq<Seq<char>> {
    record.map_values(|field: Field| assignment_text(field))
}

/// The statement that writes a record over the rows which a `WHERE` clause
/// lets through.
pub open spec fn update_text(
    record: Seq<Field>,
    table_name: Seq<char>,
    where_query: Seq<char>,
    concurrent: bool,
) -> Seq<char> {
    block_start(concurrent) + "UPDATE "@ + table_name + " SET "@ + joined(
        assignments(record),
        seq![',', ' '],
    ) + seq![' '] + where_query + block_end(concurrent)
}

/// Compiles the `UPDATE` statement that writes one record over the rows which
/// `where_query` lets through.
pub fn update_query(
    generic_values: &Vec<GenericValue>,
    table_name: &str,
    where_query: &str,
    concurrent: bool,
) -> (query: String)
    requires
        generic_values@.len() > 0,
    ensures
        query@ == update_text(fields(generic_values@), table_name@, where_query@, concurrent),
{
    let ghost record = fields(generic_values@);
    let mut query = start_statement(concurrent);
    query.append("UPDATE ");
    query.append(table_name);
    query.append(" SET ");
    let ghost head = query@;
    let mut i: usize = 0;
    while i < generic_values.len()
        invariant
            i <= generic_values.len(),
            record == fields(generic_values@),
            query@ == head + joined(assignments(record).take(i as int), seq![',', ' ']),
        decreases generic_values.len() - i,
    {
        proof {
            let items = assignments(record);
            assert(items.take(i + 1) == items.take(i as int).push(items[i as int]));
            lemma_joined_push(items.take(i as int), seq![',', ' '], items[i as int]);
            assert(items[i as int] == assignment_text(generic_values@[i as int]@));
        }
        let ghost before = query@;
        if i > 0 {
            query.push(',');
            query.push(' ');
        }
        let ghost separated = query@;
        query.append(generic_values[i].field_name.as_str());
        query.append(" = ");
        let literal = encode_literal(&generic_values[i].field_value);
        query.append(literal.as_str());
        proof {
            assert(query@ == separated + assignment_text(generic_values@[i as int]@));
            if i > 0 {
                assert(separated == before + seq![',', ' ']);
            }
        }
        i += 1;
    }
    proof {
        assert(assignments(record).take(i as int) == assignments(record));
    }
    query.push(' ');
    query.append(where_query);
    end_statement(&mut query, concurrent);
    query
}

/// The statement that writes one value, given as text, into one field of the
/// rows which a `WHERE` clause lets through.
pub open spec fn partial_update_text(
    field_name: Seq<char>,
    field_value: Seq<char>,
    table_name: Seq<char>,
    where_query: Seq<char>,
    concurrent: bool,
) -> Seq<char> {
    block_start(concurrent) + "UPDATE "@ + table_name + " SET "@ + field_name + " = "@ + quoted(
        field_value,
    ) + seq![' '] + where_query + block_end(concurrent)
}

/// Compiles the `UPDATE` statement that writes `field_value`, as a string
/// literal, into the field `field_name` of the rows which `where_query` lets
/// through.
pub fn partial_update_query(
    field_name: &str,
    field_value: &str,
    table_name: &str,
    where_query: &str,
    concurrent: bool,
) -> (query: String)
    ensures
        query@ == partial_update_text(
            field_name@,
            field_value@,
            table_name@,
            where_query@,
            concurrent,
        ),
{
    let mut query = start_statement(concurrent);
    query.append("UPDATE ");
    query.append(table_name);
    query.append(" SET ");
    query.append(field_name);
    query.append(" = ");
    query.append(quote_text(field_value).as_str());
    query.push(' ');
    query.append(where_query);
    end_statement(&mut query, concurrent);
    query
}

/// The statement that deletes the rows which a `WHERE` clause lets through.
pub open spec fn delete_text(table_name: Seq<char>, where_query: Seq<char>) -> Seq<char> {
    "DELETE FROM "@ + table_name + seq![' '] + where_query
}

/// Compiles the `DELETE` statement for the rows which `where_query` lets
/// through.
pub fn delete_query(table_name: &str, where_query: &str) -> (query: String)
    ensures
        query@ == delete_text(table_name@, where_query@),
{
    let mut query = String::from_str("DELETE FROM ");
    query.append(table_name);
    query.push(' ');
    query.append(where_query);
    query
}

/// The statement that counts the rows of a table.
pub open spec fn count_text(table_name: Seq<char>) -> Seq<char> {
    "SELECT COUNT(*) AS count_total FROM "@ + table_name + seq![' ']
}

/// Compiles the statement that counts the rows which `where_query` lets
/// through.
pub fn any_count_query(table_name: &str, where_query: &str) -> (query: String)
    ensures
        query@ == count_text(table_name@) + where_query@,
{
    let mut query = all_query(table_name);
    query.append(where_query);
    query
}

/// Compiles the statement that counts all rows of a table.
pub fn all_query(table_name: &str) -> (query: String)
    ensures
        query@ == count_text(table_name@),
{
    let mut query = String::from_str("SELECT COUNT(*) AS count_total FROM ");
    query.append(table_name);
    query.push(' ');
    query
}

/// The texts of a list of strings.
pub open spec fn string_views(items: Seq<String>) -> Seq<Seq<char>> {
    items.map_values(|item: String| item@)
}

/// The statement that creates an index over columns of a table.
pub open spec fn index_text(
    unique: bool,
    index_name: Seq<char>,
    table_name: Seq<char>,
    columns: Seq<Seq<char>>,
) -> Seq<char> {
    (if unique {
        "CREATE UNIQUE INDEX IF NOT EXISTS "@
    } else {
        "CREATE INDEX IF NOT EXISTS "@
    }) + index_name + " ON "@ + table_name + " ("@ + joined(columns, seq![',']) + ");"@
}

/// Whether each of the named columns is a field of the schema.
pub open spec fn all_fields(names: Seq<Seq<char>>, columns: Seq<Column>) -> bool {
    forall|i: int| 0 <= i < names.len() ==> kind_of(columns, #[trigger] names[i]) is Some
}

/// Whether each of the named columns is a field of the schema.
pub fn columns_are_fields(names: &Vec<String>, schema: &Vec<Schema>) -> (ok: bool)
    ensures
        ok == all_fields(string_views(names@), columns(schema@)),
{
    let mut i: usize = 0;
    while i < names.len()
        invariant
            i <= names.len(),
            forall|j: int|
                0 <= j < i ==> kind_of(columns(schema@), #[trigger] string_views(names@)[j]) is Some,
        decreases names.len() - i,
    {
        assert(string_views(names@)[i as int] == names@[i as int]@);
        if find_field(schema, names[i].as_str()).is_none() {
            return false;
        }
        i += 1;
    }
    true
}

fn index_query(unique: bool, index_name: &str, table_name: &str, columns: &Vec<String>) -> (query:
    String)
    ensures
        query@ == index_text(unique, index_name@, table_name@, string_views(columns@)),
{
    let mut query = if unique {
        String::from_str("CREATE UNIQUE INDEX IF NOT EXISTS ")
    } else {
        String::from_str("CREATE INDEX IF NOT EXISTS ")
    };
    query.append(index_name);
    query.append(" ON ");
    query.append(table_name);
    query.append(" (");
    let ghost head = query@;
    let ghost names = string_views(columns@);
    let mut i: usize = 0;
    while i < columns.len()
        invariant
            i <= columns.len(),
            names == string_views(columns@),
            query@ == head + joined(names.take(i as int), seq![',']),
        decreases columns.len() - i,
    {
        proof {
            assert(names.take(i + 1) == names.take(i as int).push(names[i as int]));
            lemma_joined_push(names.take(i as int), seq![','], names[i as int]);
            assert(names[i as int] == columns@[i as int]@);
        }
        if i > 0 {
            query.push(',');
        }
        query.append(columns[i].as_str());
        i += 1;
    }
    proof {
        assert(names.take(i as int) == names);
    }
    query.append(");");
    query
}

/// Compiles the statement that creates a unique index named `index_name` over
/// the given columns of the table, unless it exists. A column that is no field
/// of the schema is refused.
pub fn create_unique_index(
    index_name: &str,
    table_name: &str,
    columns: &Vec<String>,
    schema: &Vec<Schema>,
) -> (query: Result<String, ConfigurationError>)
    requires
        columns@.len() > 0,
    ensures
        match query {
            Ok(text) => all_fields(string_views(columns@), crate::db::models::columns(schema@))
                && text@ == index_text(true, index_name@, table_name@, string_views(columns@)),
            Err(error) => error == ConfigurationError::UnmappedColumn && !all_fields(
                string_views(columns@),
                crate::db::models::columns(schema@),
            ),
        },
{
    if !columns_are_fields(columns, schema) {
        return Err(ConfigurationError::UnmappedColumn);
    }
    Ok(index_query(true, index_name, table_name, columns))
}

/// Compiles the statement that creates an index named `index_name` over the
/// given columns of the table, unless it exists. A column that is no field of
/// the schema is refused.
pub fn create_index(
    index_name: &str,
    table_name: &str,
    columns: &Vec<String>,
    schema: &Vec<Schema>,
) -> (query: Result<String, ConfigurationError>)
    requires
        columns@.len() > 0,
    ensures
        match query {
            Ok(text) => all_fields(string_views(columns@), crate::db::models::columns(schema@))
                && text@ == index_text(false, index_name@, table_name@, string_views(columns@)),
            Err(error) => error == ConfigurationError::UnmappedColumn && !all_fields(
                string_views(columns@),
                crate::db::models::columns(schema@),
            ),
        },
{
    if !columns_are_fields(columns, schema) {
        return Err(ConfigurationError::UnmappedColumn);
    }
    Ok(index_query(false, index_name, table_name, columns))
}

/// Compiles the statement that drops the index `index_name`, if it exists.
pub fn drop_index(index_name: &str) -> (query: String)
    ensures
        query@ == "DROP INDEX IF EXISTS "@ + index_name@,
{
    let mut query = String::from_str("DROP INDEX IF EXISTS ");
    query.append(index_name);
    query
}

/// The statement that adds a column to a table.
pub open spec fn add_column_text(table_name: Seq<char>, column: Column) -> Seq<char> {
    "ALTER TABLE "@ + table_name + " ADD COLUMN "@ + column.name + seq![' '] + sql_type(
        logical_type(column.kind).unwrap(),
    )
}

/// Compiles the statement that adds the column of a field to the table
/// `name`.
pub fn alter_table_new_column(name: &str, schema: &Schema) -> (query: String)
    requires
        logical_type(schema@.kind) is Some,
    ensures
        query@ == add_column_text(name@, schema@),
{
    let sql_type = get_sql_type(schema.field_type.as_str()).unwrap();
    let mut query = String::from_str("ALTER TABLE ");
    query.append(name);
    query.append(" ADD COLUMN ");
    query.append(schema.field_name.as_str());
    query.push(' ');
    query.append(sql_type.as_str());
    query
}

/// The statement that drops a column from a table.
pub open spec fn drop_column_text(table_name: Seq<char>, column_name: Seq<char>) -> Seq<char> {
    "ALTER TABLE "@ + table_name + " DROP COLUMN "@ + column_name
}

/// Compiles the statement that drops the column `column_name` from the table
/// `name`.
pub fn alter_table_drop_column(name: &str, column_name: &str) -> (query: String)
    ensures
        query@ == drop_column_text(name@, column_name@),
{
    let mut query = String::from_str("ALTER TABLE ");
    query.append(name);
    query.append(" DROP COLUMN ");
    query.append(column_name);
    query
}

/// Compiles the statement that asks the engine for the `CREATE TABLE`
/// statement it has stored for the table `name`.
pub fn current_db_schema_query(name: &str) -> (query: String)
    ensures
        query@ == "SELECT sql FROM sqlite_schema WHERE name = "@ + quoted(name@),
{
    let mut query = String::from_str("SELECT sql FROM sqlite_schema WHERE name = ");
    query.append(quote_text(name).as_str());
    query
}

/// One setting of the engine: the name of a pragma and the value to give it.
#[derive(Debug, Clone, Copy)]
pub struct Pragma {
    pub name: &'static str,
    pub value: &'static str,
}

/// The view of a [`Pragma`].
pub struct Setting {
    pub name: Seq<char>,
    pub value: Seq<char>,
}

impl View for Pragma {
    type V = Setting;

    open spec fn view(&self) -> Setting {
        Setting { name: self.name@, value: self.value@ }
    }
}

/// The settings of a list of pragmas.
pub open spec fn settings(pragmas: Seq<Pragma>) -> Seq<Setting> {
    pragmas.map_values(|pragma: Pragma| pragma@)
}

/// The settings that a new table's database is given: no limit on the
/// journal's size, normal durability, full auto-vacuum, temporary storage in
/// memory, and a write-ahead journal.
pub open spec fn baseline_settings() -> Seq<Setting> {
    seq![
        Setting { name: "journal_size_limit"@, value: "-1"@ },
        Setting { name: "synchronous"@, value: "NORMAL"@ },
        Setting { name: "auto_vacuum"@, value: "FULL"@ },
        Setting { name: "temp_store"@, value: "MEMORY"@ },
        Setting { name: "journal_mode"@, value: "WAL"@ },
    ]
}

/// The settings that a new table's database is given, in the order in which
/// they are applied.
pub fn change_db_settings() -> (pragmas: Vec<Pragma>)
    ensures
        settings(pragmas@) == baseline_settings(),
{
    let mut pragmas: Vec<Pragma> = Vec::new();
    pragmas.push(Pragma { name: "journal_size_limit", value: "-1" });
    pragmas.push(Pragma { name: "synchronous", value: "NORMAL" });
    pragmas.push(Pragma { name: "auto_vacuum", value: "FULL" });
    pragmas.push(Pragma { name: "temp_store", value: "MEMORY" });
    pragmas.push(Pragma { name: "journal_mode", value: "WAL" });
    proof {
        assert(settings(pragmas@) =~= baseline_settings());
    }
    pragmas
}

/// The setting that turns the write-ahead journal on. Either mode is asked
/// for under the engine's word `WAL`.
pub fn set_wal_mode(wal_mode: WalMode) -> (pragma: Pragma)
    ensures
        pragma@ == (Setting { name: "journal_mode"@, value: "WAL"@ }),
{
    match wal_mode {
        WalMode::WAL | WalMode::WAL2 => Pragma { name: "journal_mode", value: "WAL" },
    }
}

/// The setting that goes back from a write-ahead journal to a rollback
/// journal.
pub fn set_wal_mode_to_rollback() -> (pragma: Pragma)
    ensures
        pragma@ == (Setting { name: "journal_mode"@, value: "DELETE"@ }),
{
    Pragma { name: "journal_mode", value: "DELETE" }
}

/// The durability setting: normal where `val` holds, and off where it does
/// not.
pub fn change_synchronous_settings(val: bool) -> (pragma: Pragma)
    ensures
        pragma@ == (Setting {
            name: "synchronous"@,
            value: if val {
                "NORMAL"@
            } else {
                "OFF"@
            },
        }),
{
    if !val {
        Pragma { name: "synchronous", value: "OFF" }
    } else {
        Pragma { name: "synchronous", value: "NORMAL" }
    }
}

/// Replaces the decoded row of a read by the record laid out by the schema.
pub fn get_single_value(schema: &Vec<Schema>, query_result: &mut QueryRowResult)
    requires
        all_mapped(columns(schema@)),
    ensures
        match old(query_result).value {
            Some(row) => final(query_result).value is Some && fields(
                final(query_result).value.unwrap()@,
            ) == settled(columns(schema@), fields(row@)),
            None => final(query_result).value is None,
        },
{
    match set_values_from_row_result(schema, query_result) {
        Ok(result) => {
            query_result.value = Some(result);
        },
        Err(_) => {
            query_result.value = None;
        },
    }
}

/// The records of a read, laid out by the schema: always a list, empty where
/// the read gave no row.
pub fn get_many_values(schema: &Vec<Schema>, query_result: QueryRowsResult) -> (result: Option<
    Vec<Vec<GenericValue>>,
>)
    requires
        all_mapped(columns(schema@)),
    ensures
        result is Some,
        match query_result.value {
            Some(rows) => records(result.unwrap()@) == settled_rows(
                columns(schema@),
                records(rows@),
            ),
            None => result.unwrap()@.len() == 0,
        },
{
    match set_values_from_many_rows_result(schema, &query_result) {
        Ok(result) => Some(result),
        Err(_) => None,
    }
}

} // verus!
