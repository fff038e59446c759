//! The query builder: a chain of filter terms over the fields of a table.
use crate::db::aio_database::AioDatabase;
use crate::db::internal::codec::{
    decode_field, decoded, kept_exactly, lemma_round_trip, stored_cell,
};
use crate::db::internal::schema_gen::all_mapped;
use crate::db::models::{
    columns, fields, lemma_type_ident_names_its_type, logical_type, lookups, type_ident,
    well_typed, Column, Field, FieldCells, GenericValue, LogicalType, Lookup, Schema, Value,
};
use vstd::prelude::*;
use vstd::string::*;

verus! {

/// The nine ways in which a filter term can compare a field.
#[derive(Debug, Clone, Copy, PartialEq, Eq, Structural)]
pub enum Comparison {
    Eq,
    Ne,
    Gt,
    Lt,
    Ge,
    Le,
    Contains,
    StartsWith,
    EndsWith,
}

/// The view of an [`Operator`]: the comparison and the operand's text.
pub struct Condition {
    pub comparison: Comparison,
    pub operand: Seq<char>,
}

/// A comparison together with its operand, which is always given as text.
///
/// - **Eq**: equal
/// - **Ne**: not equal
/// - **Gt**: greater than
/// - **Lt**: less than
/// - **Ge**: greater or equal
/// - **Le**: less or equal
/// - **Contains**, **StartsWith**, **EndsWith**: the field holds the operand
///   somewhere, at its start, at its end
#[derive(Debug, PartialEq)]
pub enum Operator {
    Eq(String),
    Ne(String),
    Gt(String),
    Lt(String),
    Ge(String),
    Le(String),
    Contains(String),
    StartsWith(String),
    EndsWith(String),
}

impl View for Operator {
    type V = Condition;

    open spec fn view(&self) -> Condition {
        match self {
            Operator::Eq(v) => Condition { comparison: Comparison::Eq, operand: v@ },
            Operator::Ne(v) => Condition { comparison: Comparison::Ne, operand: v@ },
            Operator::Gt(v) => Condition { comparison: Comparison::Gt, operand: v@ },
            Operator::Lt(v) => Condition { comparison: Comparison::Lt, operand: v@ },
            Operator::Ge(v) => Condition { comparison: Comparison::Ge, operand: v@ },
            Operator::Le(v) => Condition { comparison: Comparison::Le, operand: v@ },
            Operator::Contains(v) => Condition { comparison: Comparison::Contains, operand: v@ },
            Operator::StartsWith(v) => Condition { comparison: Comparison::StartsWith, operand: v@ },
            Operator::EndsWith(v) => Condition { comparison: Comparison::EndsWith, operand: v@ },
        }
    }
}

impl Clone for Operator {
    fn clone(&self) -> (copy: Self)
        ensures
            copy@ == self@,
    {
        match self {
            Operator::Eq(v) => Operator::Eq(v.clone()),
            Operator::Ne(v) => Operator::Ne(v.clone()),
            Operator::Gt(v) => Operator::Gt(v.clone()),
            Operator::Lt(v) => Operator::Lt(v.clone()),
            Operator::Ge(v) => Operator::Ge(v.clone()),
            Operator::Le(v) => Operator::Le(v.clone()),
            Operator::Contains(v) => Operator::Contains(v.clone()),
            Operator::StartsWith(v) => Operator::StartsWith(v.clone()),
            Operator::EndsWith(v) => Operator::EndsWith(v.clone()),
        }
    }
}

/// The boolean word that joins a filter term to the term after it.
#[derive(Debug, Clone, Copy, PartialEq, Eq, Structural)]
pub enum Next {
    And,
    Or,
}

/// The view of a [`QueryOption`]: one filter term.
pub struct Predicate {
    pub field: Seq<char>,
    pub operator: Option<Condition>,
    pub next: Option<Next>,
}

/// One filter term: a field, the comparison made on it, and the word that
/// joins it to the next term. [`QueryBuilder::field`] hands out a term without
/// a comparison, which remembers its builder; [`QueryOption::where_is`]
/// completes it.
pub struct QueryOption<'a> {
    pub field_name: String,
    pub operator: Option<Operator>,
    pub next: Option<Next>,
    pub query_builder: Option<&'a QueryBuilder<'a>>,
}

/// The view of an optional operator.
pub open spec fn condition_of(operator: Option<Operator>) -> Option<Condition> {
    match operator {
        Some(op) => Some(op@),
        None => None,
    }
}

impl<'a> View for QueryOption<'a> {
    type V = Predicate;

    open spec fn view(&self) -> Predicate {
        Predicate {
            field: self.field_name@,
            operator: condition_of(self.operator),
            next: self.next,
        }
    }
}

/// The filter terms of a list of options.
pub open spec fn predicates(options: Seq<QueryOption>) -> Seq<Predicate> {
    options.map_values(|option: QueryOption| option@)
}

/// A chain of filter terms over one table. Each step of the chain gives a new
/// builder and leaves the earlier ones as they were.
pub struct QueryBuilder<'a> {
    pub table_name: String,
    pub query_options: Vec<QueryOption<'a>>,
    pub db: &'a AioDatabase,
}

impl<'a> QueryBuilder<'a> {
    /// A builder over the table of `db`, with no filter term.
    pub fn new(db: &'a AioDatabase) -> (builder: QueryBuilder<'a>)
        ensures
            builder.table_name@ == db.table_name(),
            builder.query_options@.len() == 0,
            builder.db == db,
    {
        QueryBuilder {
            table_name: String::from_str(db.get_name()),
            query_options: Vec::new(),
            db,
        }
    }

    /// Names the field that the next filter term is about.
    pub fn field(&'a self, name: &str) -> (option: QueryOption<'a>)
        ensures
            option@ == (Predicate { field: name@, operator: None, next: Some(Next::And) }),
            option.query_builder == Some(self),
    {
        QueryOption {
            field_name: String::from_str(name),
            operator: None,
            query_builder: Some(self),
            next: Some(Next::And),
        }
    }

    /// Takes every filter term out of the chain.
    pub fn clear(&mut self)
        ensures
            final(self).query_options@.len() == 0,
            final(self).table_name == old(self).table_name,
            final(self).db == old(self).db,
    {
        self.query_options.clear();
    }
}

/// The term that [`QueryOption::where_is`] adds for a field.
pub open spec fn completed(field: Seq<char>, operator: Condition, next: Option<Next>) -> Predicate {
    Predicate {
        field,
        operator: Some(operator),
        next: Some(
            match next {
                Some(word) => word,
                None => Next::And,
            },
        ),
    }
}

impl<'a> QueryOption<'a> {
    /// Completes the term with a comparison and adds it to the chain: the new
    /// builder holds the terms of the one that handed this term out, then
    /// this one. Without a `next` the term is joined to its successor by
    /// `AND`.
    pub fn where_is(&'a self, operator: Operator, next: Option<Next>) -> (query: QueryBuilder<'a>)
        requires
            self.query_builder is Some,
        ensures
            query.table_name@ == self.query_builder.unwrap().table_name@,
            query.db == self.query_builder.unwrap().db,
            predicates(query.query_options@) == predicates(
                self.query_builder.unwrap().query_options@,
            ).push(completed(self@.field, operator@, next)),
    {
        let builder = self.query_builder.unwrap();
        let mut options: Vec<QueryOption<'a>> = Vec::new();
        let mut i: usize = 0;
        while i < builder.query_options.len()
            invariant
                i <= builder.query_options@.len(),
                options@.len() == i,
                forall|j: int| 0 <= j < i ==> (#[trigger] options@[j])@ == builder.query_options@[j]@,
            decreases builder.query_options@.len() - i,
        {
            let x = &builder.query_options[i];
            let copy = QueryOption {
                field_name: x.field_name.clone(),
                operator: match &x.operator {
                    Some(op) => Some(op.clone()),
                    None => None,
                },
                query_builder: x.query_builder,
                next: x.next,
            };
            options.push(copy);
            i += 1;
        }
        let word = match next {
            Some(word) => word,
            None => Next::And,
        };
        options.push(
            QueryOption {
                field_name: self.field_name.clone(),
                operator: Some(operator),
                query_builder: None,
                next: Some(word),
            },
        );
        proof {
            assert(predicates(options@) =~= predicates(builder.query_options@).push(
                completed(self@.field, operator@, next),
            ));
        }
        QueryBuilder { table_name: builder.table_name.clone(), query_options: options, db: builder.db }
    }
}

/// The cells that feed the field at position `i`: those of the row, and none
/// where the row is shorter.
pub open spec fn cells_at(row: Seq<Lookup>, i: int) -> Lookup {
    if 0 <= i < row.len() {
        row[i]
    } else {
        Lookup { by_name: None, by_index: None }
    }
}

/// The field that a row gives for one column of the schema.
pub open spec fn decoded_field(column: Column, cells: Lookup) -> Field {
    Field {
        name: column.name,
        kind: column.kind,
        value: Value {
            kind: logical_type(column.kind).unwrap(),
            payload: decoded(logical_type(column.kind).unwrap(), cells),
        },
    }
}

/// The record that a row gives: one field for each column of the schema, in
/// the schema's order, each decoded by its logical type.
pub open spec fn decoded_row(columns: Seq<Column>, row: Seq<Lookup>) -> Seq<Field> {
    Seq::new(columns.len(), |i: int| decoded_field(columns[i], cells_at(row, i)))
}

/// Decodes one row into a record of the schema. Decoding never fails: a field
/// that no cell can feed takes its zero value.
pub fn map_row_to_struct(schema: &Vec<Schema>, row: &Vec<FieldCells>) -> (instance: Vec<
    GenericValue,
>)
    requires
        all_mapped(columns(schema@)),
    ensures
        fields(instance@) == decoded_row(columns(schema@), lookups(row@)),
{
    let mut instance: Vec<GenericValue> = Vec::new();
    let absent = FieldCells { by_name: None, by_index: None };
    let mut index: usize = 0;
    while index < schema.len()
        invariant
            index <= schema.len(),
            all_mapped(columns(schema@)),
            absent@ == (Lookup { by_name: None, by_index: None }),
            instance@.len() == index,
            forall|j: int|
                0 <= j < index ==> (#[trigger] instance@[j])@ == decoded_field(
                    schema@[j]@,
                    cells_at(lookups(row@), j),
                ),
        decreases schema.len() - index,
    {
        let field = &schema[index];
        assert(columns(schema@)[index as int] == field@);
        let kind = LogicalType::from_ident(field.field_type.as_str()).unwrap();
        let cells = if index < row.len() {
            assert(lookups(row@)[index as int] == row@[index as int]@);
            &row[index]
        } else {
            &absent
        };
        let value = decode_field(kind, cells);
        instance.push(
            GenericValue {
                field_name: field.field_name.clone(),
                field_value: value,
                field_type: field.field_type.clone(),
            },
        );
        index += 1;
    }
    proof {
        assert(fields(instance@) =~= decoded_row(columns(schema@), lookups(row@)));
    }
    instance
}

/// Whether a record is one of the schema: it has the schema's fields in the
/// schema's order, each with a value of the field's type.
pub open spec fn record_of(columns: Seq<Column>, record: Seq<Field>) -> bool {
    &&& record.len() == columns.len()
    &&& forall|i: int|
        0 <= i < record.len() ==> {
            &&& (#[trigger] record[i]).name == columns[i].name
            &&& record[i].kind == columns[i].kind
            &&& record[i].kind == type_ident(record[i].value.kind)
            &&& well_typed(record[i].value)
        }
}

/// The row that the engine keeps for a record that was written as literals:
/// each value's cell stands in the column of its field and at its position.
pub open spec fn stored_row(record: Seq<Field>) -> Seq<Lookup> {
    record.map_values(
        |field: Field|
            Lookup { by_name: stored_cell(field.value), by_index: stored_cell(field.value) },
    )
}

/// Writing a record as literals and decoding the row that the engine keeps
/// for it gives the record back, where the engine keeps each of its values
/// exactly.
pub proof fn lemma_record_round_trip(columns: Seq<Column>, record: Seq<Field>)
    requires
        record_of(columns, record),
        forall|i: int| 0 <= i < record.len() ==> kept_exactly((#[trigger] record[i]).value),
    ensures
        decoded_row(columns, stored_row(record)) == record,
{
    let row = stored_row(record);
    assert forall|i: int| 0 <= i < columns.len() implies decoded_row(columns, row)[i]
        == record[i] by {
        let value = record[i].value;
        lemma_type_ident_names_its_type(value.kind);
        lemma_round_trip(value, stored_cell(value));
        assert(cells_at(row, i) == Lookup { by_name: stored_cell(value), by_index: stored_cell(value) });
    }
    assert(decoded_row(columns, row) =~= record);
}

/// What came back from the engine for a read: nothing, because the statement
/// could not be run, or the rows it gave, which may be none.
#[derive(Debug)]
pub enum QueryOutcome {
    Failed,
    Rows(Vec<Vec<FieldCells>>),
}

/// The rows of an outcome, as mathematical values.
pub open spec fn row_lookups(rows: Seq<Vec<FieldCells>>) -> Seq<Seq<Lookup>> {
    rows.map_values(|row: Vec<FieldCells>| lookups(row@))
}

/// The records of a list of rows, as mathematical values.
pub open spec fn records(rows: Seq<Vec<GenericValue>>) -> Seq<Seq<Field>> {
    rows.map_values(|row: Vec<GenericValue>| fields(row@))
}

/// The first row of a read, decoded; `value` is `None` where the read gave no
/// row.
pub struct QueryRowResult {
    pub value: Option<Vec<GenericValue>>,
}

impl QueryRowResult {
    /// Decodes the first row of a read. `None` where the statement could not
    /// be run.
    pub fn new(schema: &Vec<Schema>, outcome: &QueryOutcome) -> (result: Option<QueryRowResult>)
        requires
            all_mapped(columns(schema@)),
        ensures
            match outcome {
                QueryOutcome::Failed => result is None,
                QueryOutcome::Rows(rows) => result is Some && if rows@.len() == 0 {
                    result.unwrap().value is None
                } else {
                    result.unwrap().value is Some && fields(result.unwrap().value.unwrap()@)
                        == decoded_row(columns(schema@), lookups(rows@[0]@))
                },
            },
    {
        match outcome {
            QueryOutcome::Failed => None,
            QueryOutcome::Rows(rows) => {
                if rows.len() == 0 {
                    Some(QueryRowResult { value: None })
                } else {
                    Some(QueryRowResult { value: Some(map_row_to_struct(schema, &rows[0])) })
                }
            },
        }
    }
}

/// The rows of a read, decoded; `value` is `None` where the read gave no row.
pub struct QueryRowsResult {
    pub value: Option<Vec<Vec<GenericValue>>>,
}

/// The records that the rows of a read give, in the order of the rows.
pub open spec fn decoded_rows(columns: Seq<Column>, rows: Seq<Seq<Lookup>>) -> Seq<Seq<Field>> {
    rows.map_values(|row: Seq<Lookup>| decoded_row(columns, row))
}

impl QueryRowsResult {
    /// Decodes every row of a read, in order. `None` where the statement
    /// could not be run.
    pub fn new_many(schema: &Vec<Schema>, outcome: &QueryOutcome) -> (result: Option<
        QueryRowsResult,
    >)
        requires
            all_mapped(columns(schema@)),
        ensures
            match outcome {
                QueryOutcome::Failed => result is None,
                QueryOutcome::Rows(rows) => result is Some && if rows@.len() == 0 {
                    result.unwrap().value is None
                } else {
                    result.unwrap().value is Some && records(result.unwrap().value.unwrap()@)
                        == decoded_rows(columns(schema@), row_lookups(rows@))
                },
            },
    {
        match outcome {
            QueryOutcome::Failed => None,
            QueryOutcome::Rows(rows) => {
                let mut results: Vec<Vec<GenericValue>> = Vec::new();
                let mut i: usize = 0;
                while i < rows.len()
                    invariant
                        i <= rows.len(),
                        all_mapped(columns(schema@)),
                        results@.len() == i,
                        forall|j: int|
                            0 <= j < i ==> fields((#[trigger] results@[j])@) == decoded_row(
                                columns(schema@),
                                lookups(rows@[j]@),
                            ),
                    decreases rows.len() - i,
                {
                    results.push(map_row_to_struct(schema, &rows[i]));
                    i += 1;
                }
                if results.len() == 0 {
                    Some(QueryRowsResult { value: None })
                } else {
                    proof {
                        assert(records(results@) =~= decoded_rows(
                            columns(schema@),
                            row_lookups(rows@),
                        ));
                    }
                    Some(QueryRowsResult { value: Some(results) })
                }
            },
        }
    }
}

} // verus!
