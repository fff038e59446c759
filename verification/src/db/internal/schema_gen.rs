//! Column types, the `CREATE TABLE` statement, and reading a stored one back.
use crate::db::internal::text::{
    first_index_of, free_of, is_space, lemma_first_index_of, lemma_split_first,
    lemma_split_nonempty, lemma_split_whole, lemma_trim_end, lemma_trim_start,
    lemma_trimmed_plain_word, plain_word, split, split_on, texts, trim, trimmed,
};
use crate::db::models::{columns, logical_type, sql_type, Column, LogicalType, Schema};
use vstd::prelude::*;
use vstd::string::*;

verus! {

/// The engine's column type for a field declared with the type `rust_type`,
/// or `None` where the type cannot be mapped.
pub fn get_sql_type(rust_type: &str) -> (keyword: Option<String>)
    ensures
        match logical_type(rust_type@) {
            Some(t) => keyword is Some && keyword.unwrap()@ == sql_type(t),
            None => keyword is None,
        },
{
    match LogicalType::from_ident(rust_type) {
        Some(t) => Some(String::from_str(t.sql_keyword())),
        None => None,
    }
}

/// What stands between the first `(` of `input` and the first `)` of it, the
/// further `(` taken out; `None` where no `(` comes before the first `)`, or
/// where nothing is left.
pub open spec fn parentheses_contents(input: Seq<char>) -> Option<Seq<char>> {
    let before_close = input.take(first_index_of(input, ')'));
    let open = first_index_of(before_close, '(');
    let inner = before_close.skip(open + 1).filter(|c: char| c != '(');
    if open < before_close.len() && inner.len() > 0 {
        Some(inner)
    } else {
        None
    }
}

/// The column list of a stored `CREATE TABLE` statement.
pub fn extract_parentheses_contents(input: &str) -> (contents: Option<String>)
    ensures
        match parentheses_contents(input@) {
            Some(inner) => contents is Some && contents.unwrap()@ == inner,
            None => contents is None,
        },
{
    let mut result = String::new();
    let mut in_parentheses = false;
    let mut closed = false;
    let ghost keep = |c: char| c != '(';
    let ghost mut open: int = 0;
    let ghost mut seen: int = 0;
    for c in it: input.chars()
        invariant
            it.seq() == input@,
            keep == |c: char| c != '(',
            0 <= seen <= input@.len(),
            !closed ==> seen == it.index(),
            closed ==> seen < input@.len() && input@[seen] == ')',
            forall|j: int| 0 <= j < seen ==> input@[j] != ')',
            in_parentheses ==> 0 <= open < seen && input@[open] == '(',
            in_parentheses ==> forall|j: int| 0 <= j < open ==> input@[j] != '(',
            in_parentheses ==> result@ == input@.take(seen).skip(open + 1).filter(keep),
            !in_parentheses ==> forall|j: int| 0 <= j < seen ==> input@[j] != '(',
            !in_parentheses ==> result@.len() == 0,
    {
        if !closed {
            let ghost i = it.index() as int;
            if c == ')' {
                closed = true;
            } else {
                proof {
                    if in_parentheses {
                        let before = input@.take(i).skip(open + 1);
                        let after = input@.take(i + 1).skip(open + 1);
                        assert(after.drop_last() == before);
                        assert(after.last() == c);
                        reveal_with_fuel(Seq::filter, 2);
                    } else if c == '(' {
                        open = i;
                        assert(input@.take(i + 1).skip(i + 1) == Seq::<char>::empty());
                        reveal_with_fuel(Seq::filter, 1);
                    }
                    seen = i + 1;
                }
                if c == '(' {
                    in_parentheses = true;
                } else if in_parentheses {
                    result.push(c);
                }
            }
        }
    }
    proof {
        lemma_first_index_of(input@, ')', seen);
        let before_close = input@.take(seen);
        if in_parentheses {
            lemma_first_index_of(before_close, '(', open);
        } else {
            lemma_first_index_of(before_close, '(', before_close.len() as int);
        }
    }
    if !result.as_str().is_empty() && in_parentheses {
        Some(result)
    } else {
        None
    }
}

/// The entries of a column list: its pieces between commas, each trimmed.
pub open spec fn comma_entries(input: Seq<char>) -> Seq<Seq<char>> {
    split(input, ',').map_values(|piece: Seq<char>| trimmed(piece))
}

/// Splits a column list at its commas and trims each entry.
pub fn split_by_comma(input: &str) -> (entries: Vec<&str>)
    ensures
        texts(entries@) == comma_entries(input@),
{
    let pieces = split_on(input, ',');
    let mut entries: Vec<&str> = Vec::new();
    let mut i: usize = 0;
    while i < pieces.len()
        invariant
            i <= pieces.len(),
            texts(pieces@) == split(input@, ','),
            entries@.len() == i,
            forall|j: int| 0 <= j < i ==> (#[trigger] entries@[j])@ == trimmed(pieces@[j]@),
        decreases pieces.len() - i,
    {
        entries.push(trim(pieces[i]));
        i += 1;
    }
    proof {
        assert forall|j: int| 0 <= j < entries@.len() implies texts(entries@)[j] == comma_entries(
            input@,
        )[j] by {
            assert(texts(pieces@)[j] == pieces@[j]@);
        }
        assert(texts(entries@) =~= comma_entries(input@));
    }
    entries
}

/// The column that one entry of a column list declares: its name is what
/// stands before the first space, its type what stands after the last one,
/// both trimmed.
pub open spec fn column_of_entry(entry: Seq<char>) -> Column {
    Column {
        name: trimmed(split(entry, ' ').first()),
        kind: trimmed(split(entry, ' ').last()),
    }
}

/// Reads each entry of a column list as a column name and a column type.
pub fn split_by_empty_space(input: Vec<&str>) -> (list: Vec<Schema>)
    ensures
        columns(list@) == texts(input@).map_values(|entry: Seq<char>| column_of_entry(entry)),
{
    let mut list: Vec<Schema> = Vec::new();
    let mut i: usize = 0;
    while i < input.len()
        invariant
            i <= input.len(),
            list@.len() == i,
            forall|j: int| 0 <= j < i ==> (#[trigger] list@[j])@ == column_of_entry(input@[j]@),
        decreases input.len() - i,
    {
        let splitted = split_on(input[i], ' ');
        proof {
            lemma_split_nonempty(input@[i as int]@, ' ');
            assert(texts(splitted@).len() == splitted@.len());
            assert(texts(splitted@).first() == splitted@[0]@);
            assert(texts(splitted@).last() == splitted@[splitted@.len() - 1]@);
        }
        let first = trim(splitted[0]);
        let last = trim(splitted[splitted.len() - 1]);
        list.push(Schema { field_name: String::from_str(first), field_type: String::from_str(last) });
        i += 1;
    }
    proof {
        assert(columns(list@) =~= texts(input@).map_values(
            |entry: Seq<char>| column_of_entry(entry),
        ));
    }
    list
}

/// The columns that a stored `CREATE TABLE` statement declares.
pub open spec fn stored_columns(statement: Seq<char>) -> Seq<Column> {
    comma_entries(parentheses_contents(statement).unwrap()).map_values(
        |entry: Seq<char>| column_of_entry(entry),
    )
}

/// Reads the columns of a table from the `CREATE TABLE` statement that the
/// engine has stored for it.
pub fn get_current_schema(query_result: String) -> (schema: Vec<Schema>)
    requires
        parentheses_contents(query_result@) is Some,
    ensures
        columns(schema@) == stored_columns(query_result@),
{
    let content = extract_parentheses_contents(query_result.as_str()).unwrap();
    let list = split_by_comma(content.as_str());
    let schema = split_by_empty_space(list);
    schema
}

/// Whether every field of the schema has a type that can be mapped.
pub open spec fn all_mapped(columns: Seq<Column>) -> bool {
    forall|i: int| 0 <= i < columns.len() ==> logical_type((#[trigger] columns[i]).kind) is Some
}

/// The definition of one column: a space, its name, a space, its column type.
pub open spec fn column_definition(column: Column) -> Seq<char> {
    seq![' '] + column.name + seq![' '] + sql_type(logical_type(column.kind).unwrap())
}

/// The definitions of the first `n` columns, each followed by a comma.
pub open spec fn column_definitions(columns: Seq<Column>, n: int) -> Seq<char>
    decreases n,
{
    if n <= 0 {
        Seq::empty()
    } else {
        column_definitions(columns, n - 1) + column_definition(columns[n - 1]) + seq![',']
    }
}

/// The statement that creates the table `name` with the given columns.
pub open spec fn create_table_text(columns: Seq<Column>, name: Seq<char>) -> Seq<char> {
    "CREATE TABLE IF NOT EXISTS "@ + name + " ("@ + column_definitions(
        columns,
        columns.len() - 1,
    ) + column_definition(columns.last()) + seq![')']
}

fn push_column_definition(statement: &mut String, field: &Schema)
    requires
        logical_type(field@.kind) is Some,
    ensures
        final(statement)@ == old(statement)@ + column_definition(field@),
{
    let sql_type = get_sql_type(field.field_type.as_str()).unwrap();
    statement.push(' ');
    statement.append(field.field_name.as_str());
    statement.push(' ');
    statement.append(sql_type.as_str());
    proof {
        assert(statement@ == old(statement)@ + column_definition(field@));
    }
}

/// Whether every field of the schema has a type that can be mapped.
pub fn schema_is_mapped(schema_vec: &Vec<Schema>) -> (mapped: bool)
    ensures
        mapped == all_mapped(columns(schema_vec@)),
{
    let mut i: usize = 0;
    while i < schema_vec.len()
        invariant
            i <= schema_vec.len(),
            forall|j: int| 0 <= j < i ==> logical_type((#[trigger] columns(schema_vec@)[j]).kind) is Some,
        decreases schema_vec.len() - i,
    {
        if LogicalType::from_ident(schema_vec[i].field_type.as_str()).is_none() {
            assert(logical_type(columns(schema_vec@)[i as int].kind) is None);
            return false;
        }
        i += 1;
    }
    true
}

/// The `CREATE TABLE` statement for the table `name` with the columns of
/// `schema_vec`, in their order.
pub fn generate_db_schema_query(schema_vec: &Vec<Schema>, name: &str) -> (create_table: String)
    requires
        schema_vec@.len() > 0,
        all_mapped(columns(schema_vec@)),
    ensures
        create_table@ == create_table_text(columns(schema_vec@), name@),
{
    let mut create_table = String::from_str("CREATE TABLE IF NOT EXISTS ");
    create_table.append(name);
    create_table.append(" (");
    let ghost head = create_table@;
    let last = schema_vec.len() - 1;
    let mut i: usize = 0;
    while i < last
        invariant
            i <= last,
            last == schema_vec@.len() - 1,
            all_mapped(columns(schema_vec@)),
            create_table@ == head + column_definitions(columns(schema_vec@), i as int),
        decreases last - i,
    {
        assert(columns(schema_vec@)[i as int] == schema_vec@[i as int]@);
        push_column_definition(&mut create_table, &schema_vec[i]);
        create_table.push(',');
        i += 1;
    }
    assert(columns(schema_vec@).last() == schema_vec@[last as int]@);
    push_column_definition(&mut create_table, &schema_vec[last]);
    create_table.push(')');
    create_table
}

/// The column that the engine keeps for a field: the field's name with the
/// column type of its logical type.
pub open spec fn kept_column(column: Column) -> Column {
    Column { name: column.name, kind: sql_type(logical_type(column.kind).unwrap()) }
}

/// The column definitions of a `CREATE TABLE` statement: what stands between
/// its parentheses.
pub open spec fn column_list(columns: Seq<Column>) -> Seq<char> {
    column_definitions(columns, columns.len() - 1) + column_definition(columns.last())
}

/// The keyword of every column type is a plain word.
pub proof fn lemma_sql_type_is_plain(t: LogicalType)
    ensures
        plain_word(sql_type(t)),
{
    reveal_strlit("NUMERIC");
    reveal_strlit("INTEGER");
    reveal_strlit("REAL");
    reveal_strlit("TEXT");
    reveal_strlit("BLOB");
}

proof fn lemma_definition_shape(column: Column)
    requires
        plain_word(column.name),
        logical_type(column.kind) is Some,
    ensures
        column_definition(column).len() > 0,
        free_of(column_definition(column), ','),
        free_of(column_definition(column), '('),
        free_of(column_definition(column), ')'),
        column_of_entry(trimmed(column_definition(column))) == kept_column(column),
{
    let name = column.name;
    let kind = sql_type(logical_type(column.kind).unwrap());
    lemma_sql_type_is_plain(logical_type(column.kind).unwrap());
    let definition = column_definition(column);
    assert(definition == seq![' '] + name + seq![' '] + kind);
    assert forall|i: int| 0 <= i < definition.len() implies definition[i] != ',' && definition[i]
        != '(' && definition[i] != ')' by {
        if i == 0 {
        } else if i < 1 + name.len() {
            assert(definition[i] == name[i - 1]);
        } else if i == 1 + name.len() {
        } else {
            assert(definition[i] == kind[i - 2 - name.len()]);
        }
    }
    let entry = name + seq![' '] + kind;
    assert(definition[0] == ' ');
    assert(definition[1] == name[0]);
    lemma_trim_start(definition, 1);
    assert(definition.skip(1) == entry);
    assert(entry.last() == kind.last());
    lemma_trim_end(entry, entry.len() as int);
    assert(entry.take(entry.len() as int) == entry);
    assert(trimmed(definition) == entry);
    assert(free_of(name, ' ')) by {
        assert forall|i: int| 0 <= i < name.len() implies name[i] != ' ' by {
            assert(!is_space(name[i]));
        }
    }
    assert(free_of(kind, ' ')) by {
        assert forall|i: int| 0 <= i < kind.len() implies kind[i] != ' ' by {
            assert(!is_space(kind[i]));
        }
    }
    lemma_split_first(name, kind, ' ');
    lemma_split_whole(kind, ' ');
    let pieces = split(entry, ' ');
    assert(pieces == seq![name] + seq![kind]);
    assert(pieces.first() == name);
    assert(pieces.last() == kind);
    lemma_trimmed_plain_word(name);
    lemma_trimmed_plain_word(kind);
}

proof fn lemma_definitions_unfold(columns: Seq<Column>, n: int)
    requires
        1 <= n <= columns.len(),
    ensures
        column_definitions(columns, n) == column_definition(columns[0]) + seq![',']
            + column_definitions(columns.drop_first(), n - 1),
    decreases n,
{
    let rest = columns.drop_first();
    if n == 1 {
        reveal_with_fuel(column_definitions, 2);
        assert(column_definitions(columns, 0) == Seq::<char>::empty());
        assert(column_definitions(rest, 0) == Seq::<char>::empty());
        assert(column_definitions(columns, 1) == Seq::<char>::empty() + column_definition(
            columns[0],
        ) + seq![',']);
    } else {
        lemma_definitions_unfold(columns, n - 1);
        assert(rest[n - 2] == columns[n - 1]);
        assert(column_definitions(rest, n - 1) == column_definitions(rest, n - 2)
            + column_definition(rest[n - 2]) + seq![',']);
        assert(column_definitions(columns, n) == column_definitions(columns, n - 1)
            + column_definition(columns[n - 1]) + seq![',']);
    }
}

proof fn lemma_column_list(columns: Seq<Column>)
    requires
        columns.len() > 0,
        all_mapped(columns),
        forall|i: int| 0 <= i < columns.len() ==> plain_word((#[trigger] columns[i]).name),
    ensures
        column_list(columns).len() > 0,
        free_of(column_list(columns), '('),
        free_of(column_list(columns), ')'),
        comma_entries(column_list(columns)).map_values(|entry: Seq<char>| column_of_entry(entry))
            == columns.map_values(|column: Column| kept_column(column)),
    decreases columns.len(),
{
    let first = column_definition(columns[0]);
    lemma_definition_shape(columns[0]);
    let list = column_list(columns);
    let kept = columns.map_values(|column: Column| kept_column(column));
    if columns.len() == 1 {
        assert(column_definitions(columns, 0) == Seq::<char>::empty());
        assert(list == first);
        lemma_split_whole(first, ',');
        assert(comma_entries(list).map_values(|entry: Seq<char>| column_of_entry(entry)) =~= kept);
    } else {
        let rest = columns.drop_first();
        assert forall|i: int| 0 <= i < rest.len() implies plain_word((#[trigger] rest[i]).name)
            && logical_type(rest[i].kind) is Some by {
            assert(rest[i] == columns[i + 1]);
        }
        lemma_column_list(rest);
        lemma_definitions_unfold(columns, columns.len() - 1);
        let tail = column_list(rest);
        assert(rest.last() == columns.last());
        assert(list == first + seq![','] + tail);
        assert forall|i: int| 0 <= i < list.len() implies list[i] != '(' && list[i] != ')' by {
            if i < first.len() {
                assert(list[i] == first[i]);
            } else if i > first.len() {
                assert(list[i] == tail[i - first.len() - 1]);
            }
        }
        lemma_split_first(first, tail, ',');
        let entries = comma_entries(list);
        let tail_entries = comma_entries(tail);
        assert(split(list, ',') == seq![first] + split(tail, ','));
        assert(entries =~= seq![trimmed(first)] + tail_entries);
        let read = entries.map_values(|entry: Seq<char>| column_of_entry(entry));
        let tail_read = tail_entries.map_values(|entry: Seq<char>| column_of_entry(entry));
        assert(tail_read == rest.map_values(|column: Column| kept_column(column)));
        assert(tail_read.len() == rest.len());
        assert(tail_entries.len() == rest.len());
        assert(entries.len() == columns.len());
        assert forall|i: int| 0 <= i < kept.len() implies read[i] == kept[i] by {
            if i > 0 {
                assert(entries[i] == tail_entries[i - 1]);
                assert(tail_read[i - 1] == kept_column(rest[i - 1]));
            } else {
                assert(entries[0] == trimmed(first));
            }
        }
        assert(read =~= kept);
    }
}

/// What stands before the column list of a `CREATE TABLE` statement.
pub open spec fn create_table_head(name: Seq<char>) -> Seq<char> {
    "CREATE TABLE IF NOT EXISTS "@ + name + " ("@
}

proof fn lemma_create_table_words()
    ensures
        free_of("CREATE TABLE IF NOT EXISTS "@, '('),
        free_of("CREATE TABLE IF NOT EXISTS "@, ')'),
        " ("@ == seq![' ', '('],
{
    reveal_strlit("CREATE TABLE IF NOT EXISTS ");
    reveal_strlit(" (");
    assert(" ("@ =~= seq![' ', '(']);
}

proof fn lemma_create_table_head(name: Seq<char>)
    requires
        free_of(name, '('),
        free_of(name, ')'),
    ensures
        create_table_head(name).len() > 0,
        create_table_head(name).last() == '(',
        free_of(create_table_head(name).drop_last(), '('),
        free_of(create_table_head(name), ')'),
{
    lemma_create_table_words();
    let prefix = "CREATE TABLE IF NOT EXISTS "@;
    let head = create_table_head(name);
    assert(head == prefix + name + seq![' ', '(']);
    assert forall|j: int| 0 <= j < head.len() implies head[j] != ')' && (j < head.len() - 1
        ==> head[j] != '(') by {
        if j < prefix.len() {
            assert(head[j] == prefix[j]);
        } else if j < prefix.len() + name.len() {
            assert(head[j] == name[j - prefix.len()]);
        }
    }
    assert forall|j: int| 0 <= j < head.drop_last().len() implies head.drop_last()[j] != '(' by {
        assert(head.drop_last()[j] == head[j]);
    }
}

proof fn lemma_contents_between(head: Seq<char>, list: Seq<char>)
    requires
        head.len() > 0,
        head.last() == '(',
        free_of(head.drop_last(), '('),
        free_of(head, ')'),
        list.len() > 0,
        free_of(list, '('),
        free_of(list, ')'),
    ensures
        parentheses_contents(head + list + seq![')']) == Some(list),
{
    let text = head + list + seq![')'];
    let close = (head.len() + list.len()) as int;
    assert(text[close] == ')');
    assert forall|j: int| 0 <= j < close implies text[j] != ')' by {
        if j < head.len() {
            assert(text[j] == head[j]);
        } else {
            assert(text[j] == list[j - head.len()]);
        }
    }
    lemma_first_index_of(text, ')', close);
    let before_close = text.take(close);
    assert(before_close == head + list);
    let open = head.len() - 1;
    assert(before_close[open] == head.last());
    assert forall|j: int| 0 <= j < open implies before_close[j] != '(' by {
        assert(before_close[j] == head.drop_last()[j]);
    }
    lemma_first_index_of(before_close, '(', open);
    assert(before_close.skip(open + 1) == list);
    lemma_filter_keeps_all(list);
}

/// Reading a `CREATE TABLE` statement back gives the columns it was written
/// for: the statement for a schema declares, in the schema's order, one
/// column for each field, under the field's name and with the column type of
/// the field's logical type. This holds where every field's name is a plain
/// word and the table's name holds no parenthesis.
pub proof fn lemma_stored_columns_of_created_table(columns: Seq<Column>, name: Seq<char>)
    requires
        columns.len() > 0,
        all_mapped(columns),
        forall|i: int| 0 <= i < columns.len() ==> plain_word((#[trigger] columns[i]).name),
        free_of(name, '('),
        free_of(name, ')'),
    ensures
        parentheses_contents(create_table_text(columns, name)) == Some(column_list(columns)),
        stored_columns(create_table_text(columns, name)) == columns.map_values(
            |column: Column| kept_column(column),
        ),
{
    let head = create_table_head(name);
    let list = column_list(columns);
    lemma_column_list(columns);
    lemma_create_table_head(name);
    lemma_contents_between(head, list);
    assert(create_table_text(columns, name) == head + list + seq![')']);
}

proof fn lemma_filter_keeps_all(s: Seq<char>)
    requires
        free_of(s, '('),
    ensures
        s.filter(|c: char| c != '(') == s,
    decreases s.len(),
{
    reveal_with_fuel(Seq::filter, 1);
    if s.len() > 0 {
        let front = s.drop_last();
        assert forall|i: int| 0 <= i < front.len() implies front[i] != '(' by {
            assert(front[i] == s[i]);
        }
        lemma_filter_keeps_all(front);
        assert(s == front.push(s.last()));
    }
}

} // verus!
