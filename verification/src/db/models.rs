//! The data model: logical types, schema fields, typed field values and the
//! cells of a result row.
use vstd::prelude::*;
use vstd::string::*;

verus! {

/// A mistake in how the library is set up. None of them is tried again, and
/// none can be mended by the library.
#[derive(Debug, Clone, Copy, PartialEq, Eq, Structural)]
pub enum ConfigurationError {
    /// A field of the mapped record has a type that cannot be mapped.
    UnsupportedFieldKind,
    /// A filter names a field that the mapped record does not have.
    UnmappedField,
    /// An index is asked for on a column that the mapped record does not have.
    UnmappedColumn,
}

/// The closed set of field types that can be mapped onto a column.
#[derive(Debug, Clone, Copy, PartialEq, Eq, Structural)]
pub enum LogicalType {
    Bool,
    U8,
    U16,
    U32,
    U64,
    U128,
    I8,
    I16,
    I32,
    I64,
    I128,
    Float32,
    Float64,
    Char,
    Text,
    Bytes,
}

/// The identifier under which a record's field declares each logical type.
pub open spec fn type_ident(t: LogicalType) -> Seq<char> {
    match t {
        LogicalType::Bool => "bool"@,
        LogicalType::U8 => "u8"@,
        LogicalType::U16 => "u16"@,
        LogicalType::U32 => "u32"@,
        LogicalType::U64 => "u64"@,
        LogicalType::U128 => "u128"@,
        LogicalType::I8 => "i8"@,
        LogicalType::I16 => "i16"@,
        LogicalType::I32 => "i32"@,
        LogicalType::I64 => "i64"@,
        LogicalType::I128 => "i128"@,
        LogicalType::Float32 => "f32"@,
        LogicalType::Float64 => "f64"@,
        LogicalType::Char => "char"@,
        LogicalType::Text => "String"@,
        LogicalType::Bytes => "Vec"@,
    }
}

/// The logical type that a type identifier names, if it names one.
pub open spec fn logical_type(ident: Seq<char>) -> Option<LogicalType> {
    if ident == "bool"@ {
        Some(LogicalType::Bool)
    } else if ident == "u8"@ {
        Some(LogicalType::U8)
    } else if ident == "u16"@ {
        Some(LogicalType::U16)
    } else if ident == "u32"@ {
        Some(LogicalType::U32)
    } else if ident == "u64"@ {
        Some(LogicalType::U64)
    } else if ident == "u128"@ {
        Some(LogicalType::U128)
    } else if ident == "i8"@ {
        Some(LogicalType::I8)
    } else if ident == "i16"@ {
        Some(LogicalType::I16)
    } else if ident == "i32"@ {
        Some(LogicalType::I32)
    } else if ident == "i64"@ {
        Some(LogicalType::I64)
    } else if ident == "i128"@ {
        Some(LogicalType::I128)
    } else if ident == "f32"@ {
        Some(LogicalType::Float32)
    } else if ident == "f64"@ {
        Some(LogicalType::Float64)
    } else if ident == "char"@ {
        Some(LogicalType::Char)
    } else if ident == "String"@ {
        Some(LogicalType::Text)
    } else if ident == "Vec"@ {
        Some(LogicalType::Bytes)
    } else {
        None
    }
}

/// The engine's column type keyword for each logical type.
pub open spec fn sql_type(t: LogicalType) -> Seq<char> {
    match t {
        LogicalType::Bool => "NUMERIC"@,
        LogicalType::U8
        | LogicalType::U16
        | LogicalType::U32
        | LogicalType::U64
        | LogicalType::U128
        | LogicalType::I8
        | LogicalType::I16
        | LogicalType::I32
        | LogicalType::I64
        | LogicalType::I128 => "INTEGER"@,
        LogicalType::Float32 | LogicalType::Float64 => "REAL"@,
        LogicalType::Char | LogicalType::Text => "TEXT"@,
        LogicalType::Bytes => "BLOB"@,
    }
}

/// No two logical types share an identifier: reading a logical type's
/// identifier gives the type back.
pub proof fn lemma_type_ident_names_its_type(t: LogicalType)
    ensures
        logical_type(type_ident(t)) == Some(t),
{
    reveal_strlit("bool");
    reveal_strlit("u8");
    reveal_strlit("u16");
    reveal_strlit("u32");
    reveal_strlit("u64");
    reveal_strlit("u128");
    reveal_strlit("i8");
    reveal_strlit("i16");
    reveal_strlit("i32");
    reveal_strlit("i64");
    reveal_strlit("i128");
    reveal_strlit("f32");
    reveal_strlit("f64");
    reveal_strlit("char");
    reveal_strlit("String");
    reveal_strlit("Vec");
    let s = type_ident(t);
    match t {
        LogicalType::Bool => {},
        LogicalType::U8 => {
            assert(s.len() == 2);
        },
        LogicalType::U16 => {
            assert(s[1] == '1');
        },
        LogicalType::U32 => {
            assert(s[1] == '3');
        },
        LogicalType::U64 => {
            assert(s[1] == '6');
        },
        LogicalType::U128 => {
            assert(s.len() == 4 && s[0] == 'u');
        },
        LogicalType::I8 => {
            assert(s.len() == 2 && s[0] == 'i');
        },
        LogicalType::I16 => {
            assert(s[0] == 'i' && s[1] == '1');
        },
        LogicalType::I32 => {
            assert(s[0] == 'i' && s[1] == '3');
        },
        LogicalType::I64 => {
            assert(s[0] == 'i' && s[1] == '6');
        },
        LogicalType::I128 => {
            assert(s.len() == 4 && s[0] == 'i');
        },
        LogicalType::Float32 => {
            assert(s[0] == 'f' && s[1] == '3');
        },
        LogicalType::Float64 => {
            assert(s[0] == 'f' && s[1] == '6');
        },
        LogicalType::Char => {
            assert(s.len() == 4 && s[0] == 'c');
        },
        LogicalType::Text => {
            assert(s.len() == 6);
        },
        LogicalType::Bytes => {
            assert(s.len() == 3 && s[0] == 'V');
        },
    }
}

impl LogicalType {
    /// Reads a type identifier.
    pub fn from_ident(ident: &str) -> (t: Option<LogicalType>)
        ensures
            t == logical_type(ident@),
    {
        if ident.eq("bool") {
            Some(LogicalType::Bool)
        } else if ident.eq("u8") {
            Some(LogicalType::U8)
        } else if ident.eq("u16") {
            Some(LogicalType::U16)
        } else if ident.eq("u32") {
            Some(LogicalType::U32)
        } else if ident.eq("u64") {
            Some(LogicalType::U64)
        } else if ident.eq("u128") {
            Some(LogicalType::U128)
        } else if ident.eq("i8") {
            Some(LogicalType::I8)
        } else if ident.eq("i16") {
            Some(LogicalType::I16)
        } else if ident.eq("i32") {
            Some(LogicalType::I32)
        } else if ident.eq("i64") {
            Some(LogicalType::I64)
        } else if ident.eq("i128") {
            Some(LogicalType::I128)
        } else if ident.eq("f32") {
            Some(LogicalType::Float32)
        } else if ident.eq("f64") {
            Some(LogicalType::Float64)
        } else if ident.eq("char") {
            Some(LogicalType::Char)
        } else if ident.eq("String") {
            Some(LogicalType::Text)
        } else if ident.eq("Vec") {
            Some(LogicalType::Bytes)
        } else {
            None
        }
    }

    /// The identifier of this logical type.
    pub fn ident(&self) -> (s: &'static str)
        ensures
            s@ == type_ident(*self),
    {
        match self {
            LogicalType::Bool => "bool",
            LogicalType::U8 => "u8",
            LogicalType::U16 => "u16",
            LogicalType::U32 => "u32",
            LogicalType::U64 => "u64",
            LogicalType::U128 => "u128",
            LogicalType::I8 => "i8",
            LogicalType::I16 => "i16",
            LogicalType::I32 => "i32",
            LogicalType::I64 => "i64",
            LogicalType::I128 => "i128",
            LogicalType::Float32 => "f32",
            LogicalType::Float64 => "f64",
            LogicalType::Char => "char",
            LogicalType::Text => "String",
            LogicalType::Bytes => "Vec",
        }
    }

    /// The engine's column type keyword for this logical type.
    pub fn sql_keyword(&self) -> (s: &'static str)
        ensures
            s@ == sql_type(*self),
    {
        match self {
            LogicalType::Bool => "NUMERIC",
            LogicalType::U8
            | LogicalType::U16
            | LogicalType::U32
            | LogicalType::U64
            | LogicalType::U128
            | LogicalType::I8
            | LogicalType::I16
            | LogicalType::I32
            | LogicalType::I64
            | LogicalType::I128 => "INTEGER",
            LogicalType::Float32 | LogicalType::Float64 => "REAL",
            LogicalType::Char | LogicalType::Text => "TEXT",
            LogicalType::Bytes => "BLOB",
        }
    }
}

/// A column as a pair of texts: the view of a [`Schema`].
pub struct Column {
    pub name: Seq<char>,
    pub kind: Seq<char>,
}

/// One field of a mapped record, and so one column of its table: the field's
/// name and the identifier of its type. A table's schema is a `Vec<Schema>` in
/// the order in which the record declares its fields.
#[derive(Debug)]
pub struct Schema {
    pub field_name: String,
    pub field_type: String,
}

impl View for Schema {
    type V = Column;

    open spec fn view(&self) -> Column {
        Column { name: self.field_name@, kind: self.field_type@ }
    }
}

impl DeepView for Schema {
    type V = Column;

    open spec fn deep_view(&self) -> Column {
        self@
    }
}

impl Clone for Schema {
    fn clone(&self) -> (copy: Self)
        ensures
            copy == *self,
    {
        Schema { field_name: self.field_name.clone(), field_type: self.field_type.clone() }
    }
}

impl Default for Schema {
    fn default() -> (empty: Self)
        ensures
            empty@ == (Column { name: Seq::empty(), kind: Seq::empty() }),
    {
        Schema { field_name: String::new(), field_type: String::new() }
    }
}

/// The columns of a schema, as texts.
pub open spec fn columns(schema: Seq<Schema>) -> Seq<Column> {
    schema.map_values(|field: Schema| field@)
}

/// Whether some column of `columns` is named `name`.
pub open spec fn has_column(columns: Seq<Column>, name: Seq<char>) -> bool {
    exists|i: int| 0 <= i < columns.len() && (#[trigger] columns[i]).name == name
}

/// Whether no two columns share a name, as no two fields of a record do.
pub open spec fn distinct_names(columns: Seq<Column>) -> bool {
    forall|i: int, j: int|
        0 <= i < j < columns.len() ==> (#[trigger] columns[i]).name != (#[trigger] columns[j]).name
}

/// Whether no two fields of the schema share a name.
pub fn names_are_distinct(schema: &Vec<Schema>) -> (distinct: bool)
    ensures
        distinct == distinct_names(columns(schema@)),
{
    let mut j: usize = 0;
    while j < schema.len()
        invariant
            j <= schema.len(),
            forall|a: int, b: int|
                0 <= a < b < j ==> (#[trigger] columns(schema@)[a]).name != (#[trigger] columns(
                    schema@,
                )[b]).name,
        decreases schema.len() - j,
    {
        let mut i: usize = 0;
        while i < j
            invariant
                i <= j < schema.len(),
                forall|a: int|
                    0 <= a < i ==> (#[trigger] columns(schema@)[a]).name != columns(schema@)[j as int].name,
            decreases j - i,
        {
            if schema[i].field_name.as_str().eq(schema[j].field_name.as_str()) {
                assert(columns(schema@)[i as int].name == columns(schema@)[j as int].name);
                return false;
            }
            i += 1;
        }
        j += 1;
    }
    true
}

/// What a field value holds, whatever its width.
pub enum Payload {
    Flag(bool),
    Number(int),
    Real(Seq<char>),
    Letter(char),
    Text(Seq<char>),
    Bytes(Seq<u8>),
}

/// The view of a [`FieldValue`]: its logical type and what it holds.
pub struct Value {
    pub kind: LogicalType,
    pub payload: Payload,
}

/// The value of one field of one record. A real number is carried as its
/// decimal text: the library passes it on and does no arithmetic on it.
#[derive(Debug)]
pub enum FieldValue {
    Bool(bool),
    U8(u8),
    U16(u16),
    U32(u32),
    U64(u64),
    U128(u128),
    I8(i8),
    I16(i16),
    I32(i32),
    I64(i64),
    I128(i128),
    Float32(String),
    Float64(String),
    Char(char),
    Text(String),
    Bytes(Vec<u8>),
}

impl View for FieldValue {
    type V = Value;

    open spec fn view(&self) -> Value {
        match self {
            FieldValue::Bool(b) => Value { kind: LogicalType::Bool, payload: Payload::Flag(*b) },
            FieldValue::U8(n) => Value { kind: LogicalType::U8, payload: Payload::Number(*n as int) },
            FieldValue::U16(n) => Value { kind: LogicalType::U16, payload: Payload::Number(*n as int) },
            FieldValue::U32(n) => Value { kind: LogicalType::U32, payload: Payload::Number(*n as int) },
            FieldValue::U64(n) => Value { kind: LogicalType::U64, payload: Payload::Number(*n as int) },
            FieldValue::U128(n) => Value {
                kind: LogicalType::U128,
                payload: Payload::Number(*n as int),
            },
            FieldValue::I8(n) => Value { kind: LogicalType::I8, payload: Payload::Number(*n as int) },
            FieldValue::I16(n) => Value { kind: LogicalType::I16, payload: Payload::Number(*n as int) },
            FieldValue::I32(n) => Value { kind: LogicalType::I32, payload: Payload::Number(*n as int) },
            FieldValue::I64(n) => Value { kind: LogicalType::I64, payload: Payload::Number(*n as int) },
            FieldValue::I128(n) => Value {
                kind: LogicalType::I128,
                payload: Payload::Number(*n as int),
            },
            FieldValue::Float32(t) => Value { kind: LogicalType::Float32, payload: Payload::Real(t@) },
            FieldValue::Float64(t) => Value { kind: LogicalType::Float64, payload: Payload::Real(t@) },
            FieldValue::Char(c) => Value { kind: LogicalType::Char, payload: Payload::Letter(*c) },
            FieldValue::Text(t) => Value { kind: LogicalType::Text, payload: Payload::Text(t@) },
            FieldValue::Bytes(b) => Value { kind: LogicalType::Bytes, payload: Payload::Bytes(b@) },
        }
    }
}

/// Whether a value holds what its logical type says: a flag for a boolean, a
/// number in the type's range for an integer type, and so on. Every
/// [`FieldValue`] does.
pub open spec fn well_typed(value: Value) -> bool {
    match value.kind {
        LogicalType::Bool => value.payload is Flag,
        LogicalType::U8 => value.payload matches Payload::Number(n) && 0 <= n <= u8::MAX,
        LogicalType::U16 => value.payload matches Payload::Number(n) && 0 <= n <= u16::MAX,
        LogicalType::U32 => value.payload matches Payload::Number(n) && 0 <= n <= u32::MAX,
        LogicalType::U64 => value.payload matches Payload::Number(n) && 0 <= n <= u64::MAX,
        LogicalType::U128 => value.payload matches Payload::Number(n) && 0 <= n <= u128::MAX,
        LogicalType::I8 => value.payload matches Payload::Number(n) && i8::MIN <= n <= i8::MAX,
        LogicalType::I16 => value.payload matches Payload::Number(n) && i16::MIN <= n <= i16::MAX,
        LogicalType::I32 => value.payload matches Payload::Number(n) && i32::MIN <= n <= i32::MAX,
        LogicalType::I64 => value.payload matches Payload::Number(n) && i64::MIN <= n <= i64::MAX,
        LogicalType::I128 => value.payload matches Payload::Number(n) && i128::MIN <= n
            <= i128::MAX,
        LogicalType::Float32 | LogicalType::Float64 => value.payload is Real,
        LogicalType::Char => value.payload is Letter,
        LogicalType::Text => value.payload is Text,
        LogicalType::Bytes => value.payload is Bytes,
    }
}

/// The view of a field value is well typed.
pub proof fn lemma_field_value_well_typed(value: FieldValue)
    ensures
        well_typed(value@),
{
}

impl DeepView for FieldValue {
    type V = Value;

    open spec fn deep_view(&self) -> Value {
        self@
    }
}

impl Clone for FieldValue {
    fn clone(&self) -> (copy: Self)
        ensures
            copy@ == self@,
    {
        match self {
            FieldValue::Bool(b) => FieldValue::Bool(*b),
            FieldValue::U8(n) => FieldValue::U8(*n),
            FieldValue::U16(n) => FieldValue::U16(*n),
            FieldValue::U32(n) => FieldValue::U32(*n),
            FieldValue::U64(n) => FieldValue::U64(*n),
            FieldValue::U128(n) => FieldValue::U128(*n),
            FieldValue::I8(n) => FieldValue::I8(*n),
            FieldValue::I16(n) => FieldValue::I16(*n),
            FieldValue::I32(n) => FieldValue::I32(*n),
            FieldValue::I64(n) => FieldValue::I64(*n),
            FieldValue::I128(n) => FieldValue::I128(*n),
            FieldValue::Float32(t) => FieldValue::Float32(t.clone()),
            FieldValue::Float64(t) => FieldValue::Float64(t.clone()),
            FieldValue::Char(c) => FieldValue::Char(*c),
            FieldValue::Text(t) => FieldValue::Text(t.clone()),
            FieldValue::Bytes(b) => FieldValue::Bytes(b.clone()),
        }
    }
}

impl FieldValue {
    /// The logical type of this value.
    pub fn kind(&self) -> (t: LogicalType)
        ensures
            t == self@.kind,
    {
        match self {
            FieldValue::Bool(_) => LogicalType::Bool,
            FieldValue::U8(_) => LogicalType::U8,
            FieldValue::U16(_) => LogicalType::U16,
            FieldValue::U32(_) => LogicalType::U32,
            FieldValue::U64(_) => LogicalType::U64,
            FieldValue::U128(_) => LogicalType::U128,
            FieldValue::I8(_) => LogicalType::I8,
            FieldValue::I16(_) => LogicalType::I16,
            FieldValue::I32(_) => LogicalType::I32,
            FieldValue::I64(_) => LogicalType::I64,
            FieldValue::I128(_) => LogicalType::I128,
            FieldValue::Float32(_) => LogicalType::Float32,
            FieldValue::Float64(_) => LogicalType::Float64,
            FieldValue::Char(_) => LogicalType::Char,
            FieldValue::Text(_) => LogicalType::Text,
            FieldValue::Bytes(_) => LogicalType::Bytes,
        }
    }
}

/// The view of a [`GenericValue`].
pub struct Field {
    pub name: Seq<char>,
    pub kind: Seq<char>,
    pub value: Value,
}

/// One field of one record: its name, its value and the identifier of its
/// type. A record is a `Vec<GenericValue>` in the order of the schema.
#[derive(Debug)]
pub struct GenericValue {
    pub field_name: String,
    pub field_value: FieldValue,
    pub field_type: String,
}

impl View for GenericValue {
    type V = Field;

    open spec fn view(&self) -> Field {
        Field { name: self.field_name@, kind: self.field_type@, value: self.field_value@ }
    }
}

impl DeepView for GenericValue {
    type V = Field;

    open spec fn deep_view(&self) -> Field {
        self@
    }
}

impl Clone for GenericValue {
    fn clone(&self) -> (copy: Self)
        ensures
            copy@ == self@,
    {
        GenericValue {
            field_name: self.field_name.clone(),
            field_value: self.field_value.clone(),
            field_type: self.field_type.clone(),
        }
    }
}

/// The field named `name` that holds `value`, with the identifier of the
/// value's type.
pub open spec fn field_of(name: Seq<char>, value: Value) -> Field {
    Field { name, kind: type_ident(value.kind), value }
}

impl GenericValue {
    /// A field is well formed when its type identifier is that of the value it
    /// holds.
    pub open spec fn wf(&self) -> bool {
        self@.kind == type_ident(self@.value.kind)
    }

    /// The field `field_name` holding `field_value`.
    pub fn new(field_name: String, field_value: FieldValue) -> (field: GenericValue)
        ensures
            field@ == field_of(field_name@, field_value@),
            field.wf(),
    {
        let field_type = String::from_str(field_value.kind().ident());
        GenericValue { field_name, field_value, field_type }
    }
}

/// The fields of a record, as mathematical values.
pub open spec fn fields(record: Seq<GenericValue>) -> Seq<Field> {
    record.map_values(|field: GenericValue| field@)
}

/// The view of a [`Cell`].
pub enum CellView {
    Null,
    Integer(int),
    Real(Seq<char>),
    Text(Seq<char>),
    Blob(Seq<u8>),
}

/// What the engine holds in one column of one row. A real number is carried as
/// its decimal text.
#[derive(Debug)]
pub enum Cell {
    Null,
    Integer(i64),
    Real(String),
    Text(String),
    Blob(Vec<u8>),
}

impl View for Cell {
    type V = CellView;

    open spec fn view(&self) -> CellView {
        match self {
            Cell::Null => CellView::Null,
            Cell::Integer(i) => CellView::Integer(*i as int),
            Cell::Real(t) => CellView::Real(t@),
            Cell::Text(t) => CellView::Text(t@),
            Cell::Blob(b) => CellView::Blob(b@),
        }
    }
}

impl DeepView for Cell {
    type V = CellView;

    open spec fn deep_view(&self) -> CellView {
        self@
    }
}

/// The view of a [`FieldCells`].
pub struct Lookup {
    pub by_name: Option<CellView>,
    pub by_index: Option<CellView>,
}

/// The cells of a row that may feed one field: the one in the column that
/// bears the field's name, and the one at the field's position. Either is
/// `None` where the row has no such column.
#[derive(Debug)]
pub struct FieldCells {
    pub by_name: Option<Cell>,
    pub by_index: Option<Cell>,
}

/// The view of an optional cell.
pub open spec fn cell_view(cell: Option<Cell>) -> Option<CellView> {
    match cell {
        Some(c) => Some(c@),
        None => None,
    }
}

impl View for FieldCells {
    type V = Lookup;

    open spec fn view(&self) -> Lookup {
        Lookup { by_name: cell_view(self.by_name), by_index: cell_view(self.by_index) }
    }
}

impl DeepView for FieldCells {
    type V = Lookup;

    open spec fn deep_view(&self) -> Lookup {
        self@
    }
}

/// The cells of a row, field by field, as mathematical values.
pub open spec fn lookups(row: Seq<FieldCells>) -> Seq<Lookup> {
    row.map_values(|cells: FieldCells| cells@)
}

} // verus!
