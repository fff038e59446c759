//! The database handle: the table's name, its schema and the retry budget.
use crate::db::aio_query::{
    cells_at, decoded_row, decoded_rows, records, row_lookups, QueryBuilder, QueryOutcome,
    QueryRowResult, QueryRowsResult,
};
use crate::db::internal::codec::decoded;
use crate::db::internal::helpers::{lemma_settled_record, settled, settled_rows};
use crate::db::internal::queries::{
    add_column_text, all_fields, alter_table_drop_column, alter_table_new_column, create_index,
    create_unique_index, drop_column_text, get_many_values, get_single_value, index_text,
    string_views,
};
use crate::db::internal::schema_gen::{
    all_mapped, create_table_text, generate_db_schema_query, kept_column,
    lemma_stored_columns_of_created_table, schema_is_mapped, stored_columns,
};
use crate::db::internal::text::{decimal, free_of, plain_word, push_decimal};
use crate::db::models::{
    columns, distinct_names, fields, has_column, lemma_type_ident_names_its_type, logical_type,
    lookups, type_ident, Column, ConfigurationError, Field, FieldValue, GenericValue, LogicalType,
    Lookup, Payload, Schema,
};
use vstd::prelude::*;
use vstd::string::*;

verus! {

/// The number of times a failed write is tried before it is given up, for a
/// caller that has no number of its own.
pub const DEFAULT_RETRIES: u32 = 5;

/// One step of bringing the table in line with the mapped record.
#[derive(Debug)]
pub enum SchemaChange {
    /// Create the table with every column of the schema.
    CreateTable,
    /// Give the database its baseline settings.
    ApplySettings,
    /// Drop the column of this name.
    DropColumn(String),
    /// Add a column for this field.
    AddColumn(Schema),
}

/// The view of a [`SchemaChange`].
pub enum Change {
    CreateTable,
    ApplySettings,
    DropColumn(Seq<char>),
    AddColumn(Column),
}

impl View for SchemaChange {
    type V = Change;

    open spec fn view(&self) -> Change {
        match self {
            SchemaChange::CreateTable => Change::CreateTable,
            SchemaChange::ApplySettings => Change::ApplySettings,
            SchemaChange::DropColumn(name) => Change::DropColumn(name@),
            SchemaChange::AddColumn(field) => Change::AddColumn(field@),
        }
    }
}

/// The steps of a list of changes.
pub open spec fn changes(plan: Seq<SchemaChange>) -> Seq<Change> {
    plan.map_values(|change: SchemaChange| change@)
}

/// The test that a column's name is not among those of `columns`.
pub open spec fn absent_from(columns: Seq<Column>) -> spec_fn(Column) -> bool {
    |column: Column| !has_column(columns, column.name)
}

/// The test that a column is not named `name`.
pub open spec fn other_than(name: Seq<char>) -> spec_fn(Column) -> bool {
    |column: Column| column.name != name
}

/// The columns of the table that the mapped record no longer has, in the
/// table's order.
pub open spec fn dropped(current: Seq<Column>, reflected: Seq<Column>) -> Seq<Column> {
    current.filter(absent_from(reflected))
}

/// The fields of the mapped record that the table has no column for, in the
/// record's order.
pub open spec fn added(current: Seq<Column>, reflected: Seq<Column>) -> Seq<Column> {
    reflected.filter(absent_from(current))
}

/// The step that drops a column.
pub open spec fn drop_of() -> spec_fn(Column) -> Change {
    |column: Column| Change::DropColumn(column.name)
}

/// The step that adds a column.
pub open spec fn add_of() -> spec_fn(Column) -> Change {
    |column: Column| Change::AddColumn(column)
}

/// The steps that bring a table in line with the mapped record. Where there
/// is no table it is created, and the database given its settings. Where
/// there is one, the columns that the record no longer has are dropped, then
/// the columns that the table lacks are added; a column that both have is
/// left alone, whatever its type.
pub open spec fn sync_plan(current: Option<Seq<Column>>, reflected: Seq<Column>) -> Seq<Change> {
    match current {
        None => seq![Change::CreateTable, Change::ApplySettings],
        Some(columns) => dropped(columns, reflected).map_values(drop_of()) + added(
            columns,
            reflected,
        ).map_values(add_of()),
    }
}

/// The columns of a table after one step of a plan for the record whose
/// columns are `reflected`.
pub open spec fn apply_change(columns: Seq<Column>, change: Change, reflected: Seq<Column>) -> Seq<
    Column,
> {
    match change {
        Change::CreateTable => reflected,
        Change::ApplySettings => columns,
        Change::DropColumn(name) => columns.filter(other_than(name)),
        Change::AddColumn(column) => columns.push(column),
    }
}

/// The columns of a table after the steps of a plan, taken in order.
pub open spec fn apply_plan(columns: Seq<Column>, plan: Seq<Change>, reflected: Seq<Column>) -> Seq<
    Column,
>
    decreases plan.len(),
{
    if plan.len() == 0 {
        columns
    } else {
        apply_plan(apply_change(columns, plan[0], reflected), plan.drop_first(), reflected)
    }
}

proof fn lemma_filter_keeps(columns: Seq<Column>, test: spec_fn(Column) -> bool, i: int)
    requires
        0 <= i < columns.len(),
        test(columns[i]),
    ensures
        has_column(columns.filter(test), columns[i].name),
{
    columns.lemma_filter_contains(test, i);
    let kept = columns.filter(test);
    let j = choose|j: int| 0 <= j < kept.len() && kept[j] == columns[i];
    assert(kept[j].name == columns[i].name);
}

proof fn lemma_filter_kept(columns: Seq<Column>, test: spec_fn(Column) -> bool, name: Seq<char>)
    requires
        has_column(columns.filter(test), name),
    ensures
        exists|i: int| 0 <= i < columns.len() && test(columns[i]) && (#[trigger] columns[i]).name == name,
{
    let kept = columns.filter(test);
    let j = choose|j: int| 0 <= j < kept.len() && (#[trigger] kept[j]).name == name;
    columns.lemma_filter_pred(test, j);
    assert(kept.contains(kept[j]));
    columns.lemma_filter_contains_rev(test, kept[j]);
    let i = choose|i: int| 0 <= i < columns.len() && columns[i] == kept[j];
    assert(test(columns[i]) && columns[i].name == name);
}

proof fn lemma_names_after_drop(columns: Seq<Column>, dropped_name: Seq<char>, name: Seq<char>)
    ensures
        has_column(columns.filter(other_than(dropped_name)), name) <==> has_column(columns, name)
            && name != dropped_name,
{
    let test = other_than(dropped_name);
    if has_column(columns.filter(test), name) {
        lemma_filter_kept(columns, test, name);
    }
    if has_column(columns, name) && name != dropped_name {
        let i = choose|i: int| 0 <= i < columns.len() && (#[trigger] columns[i]).name == name;
        lemma_filter_keeps(columns, test, i);
    }
}

proof fn lemma_names_absent(columns: Seq<Column>, others: Seq<Column>, name: Seq<char>)
    ensures
        has_column(columns.filter(absent_from(others)), name) <==> has_column(columns, name)
            && !has_column(others, name),
{
    let test = absent_from(others);
    if has_column(columns.filter(test), name) {
        lemma_filter_kept(columns, test, name);
    }
    if has_column(columns, name) && !has_column(others, name) {
        let i = choose|i: int| 0 <= i < columns.len() && (#[trigger] columns[i]).name == name;
        lemma_filter_keeps(columns, test, i);
    }
}

proof fn lemma_names_after_drops(
    columns: Seq<Column>,
    gone: Seq<Column>,
    reflected: Seq<Column>,
    name: Seq<char>,
)
    ensures
        has_column(apply_plan(columns, gone.map_values(drop_of()), reflected), name)
            <==> has_column(columns, name) && !has_column(gone, name),
    decreases gone.len(),
{
    let plan = gone.map_values(drop_of());
    if gone.len() > 0 {
        let rest = gone.drop_first();
        assert(plan.drop_first() =~= rest.map_values(drop_of()));
        assert(plan[0] == Change::DropColumn(gone[0].name));
        let after = columns.filter(other_than(gone[0].name));
        lemma_names_after_drop(columns, gone[0].name, name);
        lemma_names_after_drops(after, rest, reflected, name);
        if has_column(gone, name) {
            let i = choose|i: int| 0 <= i < gone.len() && (#[trigger] gone[i]).name == name;
            if i > 0 {
                assert(rest[i - 1].name == name);
            }
        }
        if has_column(rest, name) {
            let i = choose|i: int| 0 <= i < rest.len() && (#[trigger] rest[i]).name == name;
            assert(gone[i + 1].name == name);
        }
    }
}

proof fn lemma_names_after_adds(
    columns: Seq<Column>,
    fresh: Seq<Column>,
    reflected: Seq<Column>,
    name: Seq<char>,
)
    ensures
        has_column(apply_plan(columns, fresh.map_values(add_of()), reflected), name)
            <==> has_column(columns, name) || has_column(fresh, name),
    decreases fresh.len(),
{
    let plan = fresh.map_values(add_of());
    if fresh.len() > 0 {
        let rest = fresh.drop_first();
        assert(plan.drop_first() =~= rest.map_values(add_of()));
        assert(plan[0] == Change::AddColumn(fresh[0]));
        let after = columns.push(fresh[0]);
        lemma_names_after_adds(after, rest, reflected, name);
        if has_column(after, name) {
            let i = choose|i: int| 0 <= i < after.len() && (#[trigger] after[i]).name == name;
            if i < columns.len() {
                assert(columns[i].name == name);
            } else {
                assert(fresh[0].name == name);
            }
        }
        if has_column(columns, name) {
            let i = choose|i: int| 0 <= i < columns.len() && (#[trigger] columns[i]).name == name;
            assert(after[i].name == name);
        }
        if has_column(fresh, name) {
            let i = choose|i: int| 0 <= i < fresh.len() && (#[trigger] fresh[i]).name == name;
            if i > 0 {
                assert(rest[i - 1].name == name);
            } else {
                assert(after[columns.len() as int].name == name);
            }
        }
        if has_column(rest, name) {
            let i = choose|i: int| 0 <= i < rest.len() && (#[trigger] rest[i]).name == name;
            assert(fresh[i + 1].name == name);
        }
    }
}

proof fn lemma_apply_plan_concat(
    columns: Seq<Column>,
    first: Seq<Change>,
    second: Seq<Change>,
    reflected: Seq<Column>,
)
    ensures
        apply_plan(columns, first + second, reflected) == apply_plan(
            apply_plan(columns, first, reflected),
            second,
            reflected,
        ),
    decreases first.len(),
{
    if first.len() == 0 {
        assert(first + second =~= second);
    } else {
        assert((first + second).drop_first() =~= first.drop_first() + second);
        lemma_apply_plan_concat(
            apply_change(columns, first[0], reflected),
            first.drop_first(),
            second,
            reflected,
        );
    }
}

/// Synchronizing makes the table's columns those of the mapped record: after
/// the steps of the plan the table has a column of a name exactly when the
/// record has a field of that name. This holds for a table that was absent
/// and for one with any columns.
pub proof fn lemma_synchronized(current: Option<Seq<Column>>, reflected: Seq<Column>, name: Seq<char>)
    ensures
        has_column(
            apply_plan(
                match current {
                    Some(columns) => columns,
                    None => Seq::empty(),
                },
                sync_plan(current, reflected),
                reflected,
            ),
            name,
        ) <==> has_column(reflected, name),
{
    match current {
        None => {
            let plan = sync_plan(current, reflected);
            reveal_with_fuel(apply_plan, 3);
            assert(plan.drop_first() =~= seq![Change::ApplySettings]);
            assert(plan.drop_first().drop_first() =~= Seq::<Change>::empty());
        },
        Some(columns) => {
            let gone = dropped(columns, reflected);
            let fresh = added(columns, reflected);
            lemma_apply_plan_concat(
                columns,
                gone.map_values(drop_of()),
                fresh.map_values(add_of()),
                reflected,
            );
            let kept = apply_plan(columns, gone.map_values(drop_of()), reflected);
            lemma_names_after_drops(columns, gone, reflected, name);
            lemma_names_after_adds(kept, fresh, reflected, name);
            lemma_names_absent(columns, reflected, name);
            lemma_names_absent(reflected, columns, name);
        },
    }
}

proof fn lemma_filter_keeps_none(columns: Seq<Column>, test: spec_fn(Column) -> bool)
    requires
        forall|i: int| 0 <= i < columns.len() ==> !test(#[trigger] columns[i]),
    ensures
        columns.filter(test).len() == 0,
{
    let kept = columns.filter(test);
    if kept.len() > 0 {
        columns.lemma_filter_pred(test, 0);
        assert(kept.contains(kept[0]));
        columns.lemma_filter_contains_rev(test, kept[0]);
        let i = choose|i: int| 0 <= i < columns.len() && columns[i] == kept[0];
        assert(test(columns[i]));
    }
}

/// A table that was created for a record is in line with it: read back from
/// the statement that created it, its columns ask for no change. This holds
/// where every field's name is a plain word and the table's name holds no
/// parenthesis.
pub proof fn lemma_created_table_needs_no_change(reflected: Seq<Column>, name: Seq<char>)
    requires
        reflected.len() > 0,
        all_mapped(reflected),
        forall|i: int| 0 <= i < reflected.len() ==> plain_word((#[trigger] reflected[i]).name),
        free_of(name, '('),
        free_of(name, ')'),
    ensures
        sync_plan(Some(stored_columns(create_table_text(reflected, name))), reflected).len() == 0,
{
    lemma_stored_columns_of_created_table(reflected, name);
    let current = stored_columns(create_table_text(reflected, name));
    assert(current == reflected.map_values(|column: Column| kept_column(column)));
    assert forall|i: int| 0 <= i < current.len() implies !absent_from(reflected)(
        #[trigger] current[i],
    ) by {
        assert(reflected[i].name == current[i].name);
    }
    assert forall|i: int| 0 <= i < reflected.len() implies !absent_from(current)(
        #[trigger] reflected[i],
    ) by {
        assert(current[i].name == reflected[i].name);
    }
    lemma_filter_keeps_none(current, absent_from(reflected));
    lemma_filter_keeps_none(reflected, absent_from(current));
}

/// Synchronizing touches no column that the table and the record share: a
/// plan drops only columns that the table has and the record lacks, and adds
/// only fields that the record has and the table lacks.
pub proof fn lemma_shared_columns_untouched(current: Seq<Column>, reflected: Seq<Column>, i: int)
    requires
        0 <= i < sync_plan(Some(current), reflected).len(),
    ensures
        match sync_plan(Some(current), reflected)[i] {
            Change::DropColumn(name) => has_column(current, name) && !has_column(reflected, name),
            Change::AddColumn(column) => reflected.contains(column) && !has_column(
                current,
                column.name,
            ),
            _ => false,
        },
{
    let gone = dropped(current, reflected);
    let fresh = added(current, reflected);
    if i < gone.len() {
        assert(has_column(gone, gone[i].name));
        lemma_names_absent(current, reflected, gone[i].name);
    } else {
        let k = i - gone.len();
        assert(sync_plan(Some(current), reflected)[i] == Change::AddColumn(fresh[k]));
        reflected.lemma_filter_pred(absent_from(current), k);
        assert(fresh.contains(fresh[k]));
        reflected.lemma_filter_contains_rev(absent_from(current), fresh[k]);
    }
}


/// Whether the schema has a field named `name`.
pub fn has_field(schema: &Vec<Schema>, name: &str) -> (found: bool)
    ensures
        found == has_column(columns(schema@), name@),
{
    let mut i: usize = 0;
    while i < schema.len()
        invariant
            i <= schema.len(),
            forall|j: int| 0 <= j < i ==> (#[trigger] columns(schema@)[j]).name != name@,
        decreases schema.len() - i,
    {
        if schema[i].field_name.as_str().eq(name) {
            assert(columns(schema@)[i as int].name == name@);
            return true;
        }
        i += 1;
    }
    false
}

/// The path of the database file: the location, the delimiter unless the
/// location ends with it, the name, and `.db`.
pub open spec fn path_text(location: Seq<char>, delimiter: Seq<char>, name: Seq<char>) -> Seq<
    char,
> {
    if delimiter.is_suffix_of(location) {
        location + name + ".db"@
    } else {
        location + delimiter + name + ".db"@
    }
}

/// Whether `text` ends with `suffix`.
pub fn ends_with(text: &str, suffix: &str) -> (ends: bool)
    ensures
        ends == suffix@.is_suffix_of(text@),
{
    let n = text.unicode_len();
    let m = suffix.unicode_len();
    if m > n {
        false
    } else {
        text.substring_char(n - m, n).eq(suffix)
    }
}

/// The path of the file that holds the database `name` under `location`, on
/// a system whose paths are separated by `delimiter`.
pub fn database_path(location: &str, delimiter: &str, name: &str) -> (path: String)
    ensures
        path@ == path_text(location@, delimiter@, name@),
{
    let mut path = String::from_str(location);
    if !ends_with(location, delimiter) {
        path.append(delimiter);
    }
    path.append(name);
    path.append(".db");
    path
}

/// The four writes, each tried again when it fails.
#[derive(Debug, Clone, Copy, PartialEq, Eq, Structural)]
pub enum WriteOperation {
    Insert,
    Update,
    PartialUpdate,
    Delete,
}

/// The word for a write at the head of its error message.
pub open spec fn operation_label(operation: WriteOperation) -> Seq<char> {
    match operation {
        WriteOperation::Insert => "Insert"@,
        WriteOperation::Update => "Update"@,
        WriteOperation::PartialUpdate => "Partial update"@,
        WriteOperation::Delete => "Delete"@,
    }
}

/// The one error that a write gives once its budget is spent: it names the
/// write and the number of times it was tried.
pub open spec fn exhausted_text(operation: WriteOperation, retries: u32) -> Seq<char> {
    operation_label(operation) + " query retried "@ + decimal(retries as nat)
        + " times, but still failed. Increase retry count or lower the concurrent writes to database."@
}

/// The record that a read for one record gives: the first row, decoded.
/// There is none where the statement could not be run, and none where it gave
/// no row.
pub open spec fn single_record(columns: Seq<Column>, outcome: QueryOutcome) -> Option<Seq<Field>> {
    match outcome {
        QueryOutcome::Failed => None,
        QueryOutcome::Rows(rows) => if rows@.len() == 0 {
            None
        } else {
            Some(decoded_row(columns, lookups(rows@[0]@)))
        },
    }
}

/// The records that a read for many records gives: every row in order,
/// decoded. There is no list where the statement could not be run; a
/// statement that gave no row gives the empty list.
pub open spec fn many_records(columns: Seq<Column>, outcome: QueryOutcome) -> Option<
    Seq<Seq<Field>>,
> {
    match outcome {
        QueryOutcome::Failed => None,
        QueryOutcome::Rows(rows) => Some(decoded_rows(columns, row_lookups(rows@))),
    }
}

/// A decoded row is laid out by its schema already.
proof fn lemma_decoded_row_is_settled(columns: Seq<Column>, row: Seq<Lookup>)
    requires
        distinct_names(columns),
        all_mapped(columns),
    ensures
        settled(columns, decoded_row(columns, row)) == decoded_row(columns, row),
{
    lemma_settled_record(columns, decoded_row(columns, row));
}

/// The number that a payload holds, and zero where it holds none.
pub open spec fn number_of(payload: Payload) -> int {
    match payload {
        Payload::Number(n) => n,
        _ => 0,
    }
}

/// The count that a counting statement gave: the first cell of its first row,
/// read as an unsigned number. There is none where the statement could not be
/// run or gave no row.
pub open spec fn count_total(outcome: QueryOutcome) -> Option<int> {
    match outcome {
        QueryOutcome::Failed => None,
        QueryOutcome::Rows(rows) => if rows@.len() == 0 {
            None
        } else {
            Some(number_of(decoded(LogicalType::U64, cells_at(lookups(rows@[0]@), 0))))
        },
    }
}

/// The columns of the row that a counting statement gives.
pub open spec fn count_columns() -> Seq<Column> {
    seq![Column { name: "count_total"@, kind: "u64"@ }]
}

fn count_schema() -> (schema: Vec<Schema>)
    ensures
        columns(schema@) == count_columns(),
{
    let mut schema: Vec<Schema> = Vec::new();
    schema.push(
        Schema { field_name: String::from_str("count_total"), field_type: String::from_str("u64") },
    );
    proof {
        assert(columns(schema@) =~= count_columns());
    }
    schema
}

fn read_count(outcome: &QueryOutcome) -> (count: Option<u64>)
    ensures
        match count_total(*outcome) {
            Some(n) => count == Some(n as u64) && 0 <= n <= u64::MAX,
            None => count is None,
        },
{
    let schema = count_schema();
    proof {
        lemma_type_ident_names_its_type(LogicalType::U64);
        assert(type_ident(LogicalType::U64) == "u64"@);
    }
    match QueryRowResult::new(&schema, outcome) {
        Some(mut query_result) => {
            let ghost decoded_first = query_result.value;
            get_single_value(&schema, &mut query_result);
            match query_result.value {
                Some(any_result) => {
                    proof {
                        let rows = outcome->Rows_0;
                        let row = decoded_row(count_columns(), lookups(rows@[0]@));
                        assert(fields(decoded_first.unwrap()@) == row);
                        assert(row[0].name == "count_total"@);
                        assert(fields(any_result@) == settled(count_columns(), row));
                        assert(fields(any_result@).len() == 1);
                        assert(any_result@.len() == 1);
                        assert(fields(any_result@)[0] == any_result@[0]@);
                    }
                    match &any_result[0].field_value {
                        FieldValue::U64(n) => Some(*n),
                        _ => Some(0),
                    }
                },
                None => None,
            }
        },
        None => None,
    }
}

/// The handle of one mapped table: the table's name, the schema derived from
/// the mapped record, and the number of times a write is tried.
pub struct AioDatabase {
    name: String,
    schema: Vec<Schema>,
    retries: u32,
}

impl AioDatabase {
    /// The name of the table.
    pub closed spec fn table_name(&self) -> Seq<char> {
        self.name@
    }

    /// The columns of the mapped record, in the order of its fields.
    pub closed spec fn schema(&self) -> Seq<Column> {
        columns(self.schema@)
    }

    /// The number of times a write is tried.
    pub closed spec fn retries(&self) -> u32 {
        self.retries
    }

    /// A handle holds at least one field, no two fields of one name, and only
    /// fields whose types can be mapped.
    #[verifier::type_invariant]
    pub closed spec fn wf(&self) -> bool {
        &&& self.schema@.len() > 0
        &&& distinct_names(columns(self.schema@))
        &&& all_mapped(columns(self.schema@))
    }

    /// The handle for the table `name` of the record whose fields are
    /// `schema`, whose writes are tried `retries` times. A record with a field
    /// whose type cannot be mapped is refused.
    pub fn create(name: String, schema: Vec<Schema>, retries: u32) -> (db: Result<
        AioDatabase,
        ConfigurationError,
    >)
        requires
            schema@.len() > 0,
            distinct_names(columns(schema@)),
        ensures
            match db {
                Ok(handle) => all_mapped(columns(schema@)) && handle.table_name() == name@
                    && handle.schema() == columns(schema@) && handle.retries() == retries,
                Err(error) => error == ConfigurationError::UnsupportedFieldKind && !all_mapped(
                    columns(schema@),
                ),
            },
    {
        if !schema_is_mapped(&schema) {
            return Err(ConfigurationError::UnsupportedFieldKind);
        }
        Ok(AioDatabase { name, schema, retries })
    }

    /// Sets how many times a write is tried before it is given up.
    pub fn set_query_retries(&mut self, retries: u32)
        ensures
            final(self).retries() == retries,
            final(self).table_name() == old(self).table_name(),
            final(self).schema() == old(self).schema(),
    {
        proof {
            use_type_invariant(&*self);
        }
        self.retries = retries;
    }

    /// The number of times a write is tried before it is given up.
    pub fn get_query_retries(&self) -> (retries: u32)
        ensures
            retries == self.retries(),
    {
        self.retries
    }

    /// The name of the table.
    pub fn get_name(&self) -> (name: &str)
        ensures
            name@ == self.table_name(),
    {
        self.name.as_str()
    }

    /// The schema of the mapped record.
    pub fn get_schema(&self) -> (schema: &Vec<Schema>)
        ensures
            columns(schema@) == self.schema(),
            schema@.len() > 0,
            distinct_names(columns(schema@)),
            all_mapped(columns(schema@)),
    {
        proof {
            use_type_invariant(self);
        }
        &self.schema
    }

    /// Plans how to bring the table in line with the mapped record, given the
    /// columns that the table has now, or `None` where there is no table.
    pub fn synchronize(&self, current: &Option<Vec<Schema>>) -> (plan: Vec<SchemaChange>)
        ensures
            changes(plan@) == sync_plan(
                match current {
                    Some(schema) => Some(columns(schema@)),
                    None => None,
                },
                self.schema(),
            ),
    {
        let mut plan: Vec<SchemaChange> = Vec::new();
        match current {
            None => {
                plan.push(SchemaChange::CreateTable);
                plan.push(SchemaChange::ApplySettings);
                proof {
                    assert(changes(plan@) =~= seq![Change::CreateTable, Change::ApplySettings]);
                }
            },
            Some(current_schema) => {
                let ghost cur = columns(current_schema@);
                let ghost refl = columns(self.schema@);
                let ghost gone = absent_from(refl);
                let ghost fresh = absent_from(cur);
                let ghost drop = drop_of();
                let ghost add = add_of();
                let mut i: usize = 0;
                while i < current_schema.len()
                    invariant
                        i <= current_schema.len(),
                        cur == columns(current_schema@),
                        refl == columns(self.schema@),
                        gone == absent_from(refl),
                        drop == drop_of(),
                        changes(plan@) == cur.take(i as int).filter(gone).map_values(drop),
                    decreases current_schema.len() - i,
                {
                    proof {
                        let before = cur.take(i as int);
                        let after = cur.take(i + 1);
                        assert(after.drop_last() == before);
                        assert(after.last() == current_schema@[i as int]@);
                        reveal_with_fuel(Seq::filter, 2);
                    }
                    let current = &current_schema[i];
                    if !has_field(&self.schema, current.field_name.as_str()) {
                        let ghost prev = plan@;
                        plan.push(SchemaChange::DropColumn(current.field_name.clone()));
                        proof {
                            assert(changes(plan@) =~= changes(prev).push(
                                Change::DropColumn(current@.name),
                            ));
                            assert(cur.take(i + 1).filter(gone).map_values(drop) =~= cur.take(
                                i as int,
                            ).filter(gone).map_values(drop).push(Change::DropColumn(current@.name)));
                        }
                    }
                    i += 1;
                }
                proof {
                    assert(cur.take(i as int) == cur);
                }
                let ghost drops = changes(plan@);
                let mut k: usize = 0;
                while k < self.schema.len()
                    invariant
                        k <= self.schema.len(),
                        cur == columns(current_schema@),
                        refl == columns(self.schema@),
                        fresh == absent_from(cur),
                        add == add_of(),
                        changes(plan@) == drops + refl.take(k as int).filter(fresh).map_values(add),
                    decreases self.schema.len() - k,
                {
                    proof {
                        let before = refl.take(k as int);
                        let after = refl.take(k + 1);
                        assert(after.drop_last() == before);
                        assert(after.last() == self.schema@[k as int]@);
                        reveal_with_fuel(Seq::filter, 2);
                    }
                    let generic_field = &self.schema[k];
                    if !has_field(current_schema, generic_field.field_name.as_str()) {
                        let ghost prev = plan@;
                        plan.push(SchemaChange::AddColumn(generic_field.clone()));
                        proof {
                            assert(changes(plan@) =~= changes(prev).push(
                                Change::AddColumn(generic_field@),
                            ));
                            assert(refl.take(k + 1).filter(fresh).map_values(add) =~= refl.take(
                                k as int,
                            ).filter(fresh).map_values(add).push(Change::AddColumn(generic_field@)));
                        }
                    }
                    k += 1;
                }
                proof {
                    assert(refl.take(k as int) == refl);
                }
            },
        }
        plan
    }

    /// The statement that carries out one step of a plan; `None` for the
    /// step that is no statement, the giving of settings, and for a column
    /// whose type cannot be mapped.
    pub fn change_statement(&self, change: &SchemaChange) -> (statement: Option<String>)
        ensures
            match change@ {
                Change::CreateTable => statement is Some && statement.unwrap()@
                    == create_table_text(self.schema(), self.table_name()),
                Change::ApplySettings => statement is None,
                Change::DropColumn(name) => statement is Some && statement.unwrap()@
                    == drop_column_text(self.table_name(), name),
                Change::AddColumn(column) => if logical_type(column.kind) is Some {
                    statement is Some && statement.unwrap()@ == add_column_text(
                        self.table_name(),
                        column,
                    )
                } else {
                    statement is None
                },
            },
    {
        proof {
            use_type_invariant(self);
        }
        match change {
            SchemaChange::CreateTable => Some(
                generate_db_schema_query(&self.schema, self.name.as_str()),
            ),
            SchemaChange::ApplySettings => None,
            SchemaChange::DropColumn(name) => Some(
                alter_table_drop_column(self.name.as_str(), name.as_str()),
            ),
            SchemaChange::AddColumn(field) => {
                if LogicalType::from_ident(field.field_type.as_str()).is_some() {
                    Some(alter_table_new_column(self.name.as_str(), field))
                } else {
                    None
                }
            },
        }
    }

    /// Ends a write: the number of rows it changed where an attempt
    /// succeeded, and otherwise the one error that names the write and the
    /// retry budget.
    pub fn finish_write(&self, operation: WriteOperation, rows: Option<usize>) -> (result: Result<
        usize,
        String,
    >)
        ensures
            match rows {
                Some(n) => result == Ok::<usize, String>(n),
                None => result is Err && result->Err_0@ == exhausted_text(operation, self.retries()),
            },
    {
        match rows {
            Some(n) => Ok(n),
            None => {
                let mut message = match operation {
                    WriteOperation::Insert => String::from_str("Insert"),
                    WriteOperation::Update => String::from_str("Update"),
                    WriteOperation::PartialUpdate => String::from_str("Partial update"),
                    WriteOperation::Delete => String::from_str("Delete"),
                };
                message.append(" query retried ");
                push_decimal(&mut message, self.retries as u128);
                message.append(
                    " times, but still failed. Increase retry count or lower the concurrent writes to database.",
                );
                Err(message)
            },
        }
    }

    /// The record that a read for one record gave.
    pub fn get_single_value(&self, outcome: &QueryOutcome) -> (record: Option<Vec<GenericValue>>)
        ensures
            match single_record(self.schema(), *outcome) {
                Some(expected) => record is Some && fields(record.unwrap()@) == expected,
                None => record is None,
            },
    {
        proof {
            use_type_invariant(self);
        }
        match QueryRowResult::new(&self.schema, outcome) {
            Some(mut query_result) => {
                get_single_value(&self.schema, &mut query_result);
                proof {
                    let rows = outcome->Rows_0;
                    if rows@.len() > 0 {
                        lemma_decoded_row_is_settled(self.schema(), lookups(rows@[0]@));
                    }
                }
                query_result.value
            },
            None => None,
        }
    }

    /// The records that a read for many records gave: `None` where the
    /// statement could not be run, and otherwise a list, which is empty where
    /// no row matched.
    pub fn get_many_values(&self, outcome: &QueryOutcome) -> (found: Option<Vec<Vec<GenericValue>>>)
        ensures
            match many_records(self.schema(), *outcome) {
                Some(expected) => found is Some && records(found.unwrap()@) == expected,
                None => found is None,
            },
    {
        proof {
            use_type_invariant(self);
        }
        match QueryRowsResult::new_many(&self.schema, outcome) {
            Some(query_result) => {
                let result = get_many_values(&self.schema, query_result);
                proof {
                    let rows = outcome->Rows_0;
                    let decoded = decoded_rows(self.schema(), row_lookups(rows@));
                    assert forall|i: int| 0 <= i < decoded.len() implies settled(
                        self.schema(),
                        #[trigger] decoded[i],
                    ) == decoded[i] by {
                        lemma_decoded_row_is_settled(self.schema(), row_lookups(rows@)[i]);
                    }
                    assert(records(result.unwrap()@) =~= decoded);
                }
                result
            },
            None => None,
        }
    }

    /// Whether a counting statement found any row: false where it could not
    /// be run.
    pub fn any(&self, outcome: &QueryOutcome) -> (found: bool)
        ensures
            found == match count_total(*outcome) {
                Some(n) => n > 0,
                None => false,
            },
    {
        match read_count(outcome) {
            Some(n) => n > 0,
            None => false,
        }
    }

    /// The number of rows that a counting statement found: zero where it
    /// could not be run.
    pub fn count(&self, outcome: &QueryOutcome) -> (rows: u64)
        ensures
            rows as int == match count_total(*outcome) {
                Some(n) => n,
                None => 0,
            },
    {
        match read_count(outcome) {
            Some(n) => n,
            None => 0,
        }
    }

    /// Whether a filter lets every row of the table through, from two counts:
    /// that of all rows and that of the rows let through. Where either count
    /// could not be had the answer is yes. The two counts come from two
    /// reads, so rows written between them can make the answer wrong.
    pub fn all(&self, total: &QueryOutcome, filtered: &QueryOutcome) -> (every: bool)
        ensures
            every == match (count_total(*total), count_total(*filtered)) {
                (Some(all_records), Some(matching)) => matching == all_records,
                _ => true,
            },
    {
        match read_count(total) {
            Some(all_records) => match read_count(filtered) {
                Some(matching) => matching == all_records,
                None => true,
            },
            None => true,
        }
    }

    /// The statement that creates an index named `index_name` over the given
    /// columns of the table, unless it exists. A column that the mapped
    /// record does not have is refused.
    pub fn create_index(&self, index_name: &str, columns: &Vec<String>) -> (query: Result<
        String,
        ConfigurationError,
    >)
        requires
            columns@.len() > 0,
        ensures
            match query {
                Ok(text) => all_fields(string_views(columns@), self.schema()) && text@
                    == index_text(false, index_name@, self.table_name(), string_views(columns@)),
                Err(error) => error == ConfigurationError::UnmappedColumn && !all_fields(
                    string_views(columns@),
                    self.schema(),
                ),
            },
    {
        create_index(index_name, self.name.as_str(), columns, &self.schema)
    }

    /// The statement that creates a unique index named `index_name` over the
    /// given columns of the table, unless it exists. A column that the mapped
    /// record does not have is refused.
    pub fn create_unique_index(&self, index_name: &str, columns: &Vec<String>) -> (query: Result<
        String,
        ConfigurationError,
    >)
        requires
            columns@.len() > 0,
        ensures
            match query {
                Ok(text) => all_fields(string_views(columns@), self.schema()) && text@
                    == index_text(true, index_name@, self.table_name(), string_views(columns@)),
                Err(error) => error == ConfigurationError::UnmappedColumn && !all_fields(
                    string_views(columns@),
                    self.schema(),
                ),
            },
    {
        create_unique_index(index_name, self.name.as_str(), columns, &self.schema)
    }

    /// A query builder over this table, with no filter term yet.
    pub fn query(&self) -> (builder: QueryBuilder<'_>)
        ensures
            builder.table_name@ == self.table_name(),
            builder.query_options@.len() == 0,
            builder.db == self,
    {
        QueryBuilder { table_name: String::from_str(self.get_name()), query_options: Vec::new(), db: self }
    }
}

} // verus!
