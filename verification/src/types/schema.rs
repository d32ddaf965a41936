//! The shape of a table.

use vstd::prelude::*;

verus! {

/// The identifier that Postgres gives a table.
#[derive(Debug, Clone, Copy, PartialEq, Eq, Hash, Structural)]
pub struct TableId(pub u32);

impl TableId {
    /// The identifier with this number.
    pub fn new(id: u32) -> (table_id: TableId)
        ensures
            table_id.0 == id,
    {
        TableId(id)
    }
}

/// The name of a table within its schema.
#[derive(Debug, Clone, PartialEq, Eq)]
pub struct TableName {
    /// The schema.
    pub schema: String,
    /// The table.
    pub name: String,
}

impl TableName {
    /// The table `name` of the schema `schema`.
    pub fn new(schema: String, name: String) -> (table_name: TableName)
        ensures
            table_name.schema == schema && table_name.name == name,
    {
        TableName { schema, name }
    }

    /// The qualified name: the schema, a point and the table.
    pub open spec fn text(&self) -> Seq<char> {
        self.schema@ + seq!['.'] + self.name@
    }

    /// The qualified name: the schema, a point and the table.
    pub fn to_text(&self) -> (text: String)
        ensures
            text@ == self.text(),
    {
        let mut text = self.schema.clone();
        text.push('.');
        text.append(self.name.as_str());
        assert(text@ =~= self.text());
        text
    }
}

/// The type of a Postgres column.
#[derive(Debug, Clone, Copy, PartialEq, Eq, Structural)]
pub enum PgType {
    /// `bool`
    Bool,
    /// `"char"`
    Char,
    /// `char(n)`
    Bpchar,
    /// `varchar(n)`
    Varchar,
    /// `name`
    Name,
    /// `text`
    Text,
    /// `int2`
    Int2,
    /// `int4`
    Int4,
    /// `int8`
    Int8,
    /// `float4`
    Float4,
    /// `float8`
    Float8,
    /// `numeric`
    Numeric,
    /// `date`
    Date,
    /// `time`
    Time,
    /// `timestamp`
    Timestamp,
    /// `timestamptz`
    Timestamptz,
    /// `uuid`
    Uuid,
    /// `json`
    Json,
    /// `jsonb`
    Jsonb,
    /// `oid`
    Oid,
    /// `bytea`
    Bytea,
    /// `bool[]`
    BoolArray,
    /// `"char"[]`
    CharArray,
    /// `char(n)[]`
    BpcharArray,
    /// `varchar(n)[]`
    VarcharArray,
    /// `name[]`
    NameArray,
    /// `text[]`
    TextArray,
    /// `int2[]`
    Int2Array,
    /// `int4[]`
    Int4Array,
    /// `int8[]`
    Int8Array,
    /// `float4[]`
    Float4Array,
    /// `float8[]`
    Float8Array,
    /// `numeric[]`
    NumericArray,
    /// `date[]`
    DateArray,
    /// `time[]`
    TimeArray,
    /// `timestamp[]`
    TimestampArray,
    /// `timestamptz[]`
    TimestamptzArray,
    /// `uuid[]`
    UuidArray,
    /// `json[]`
    JsonArray,
    /// `jsonb[]`
    JsonbArray,
    /// `oid[]`
    OidArray,
    /// `bytea[]`
    ByteaArray,
    /// Any other type, by its object identifier.
    Other(u32),
    /// An array of any other type, by the object identifier of the array type.
    OtherArray(u32),
}

/// Whether the values of a type are arrays.
pub open spec fn is_array(typ: PgType) -> bool {
    match typ {
        PgType::BoolArray
        | PgType::CharArray
        | PgType::BpcharArray
        | PgType::VarcharArray
        | PgType::NameArray
        | PgType::TextArray
        | PgType::Int2Array
        | PgType::Int4Array
        | PgType::Int8Array
        | PgType::Float4Array
        | PgType::Float8Array
        | PgType::NumericArray
        | PgType::DateArray
        | PgType::TimeArray
        | PgType::TimestampArray
        | PgType::TimestamptzArray
        | PgType::UuidArray
        | PgType::JsonArray
        | PgType::JsonbArray
        | PgType::OidArray
        | PgType::ByteaArray
        | PgType::OtherArray(_) => true,
        _ => false,
    }
}

/// Whether the values of a type are arrays.
pub fn is_array_type(typ: &PgType) -> (array: bool)
    ensures
        array == is_array(*typ),
{
    match typ {
        PgType::BoolArray
        | PgType::CharArray
        | PgType::BpcharArray
        | PgType::VarcharArray
        | PgType::NameArray
        | PgType::TextArray
        | PgType::Int2Array
        | PgType::Int4Array
        | PgType::Int8Array
        | PgType::Float4Array
        | PgType::Float8Array
        | PgType::NumericArray
        | PgType::DateArray
        | PgType::TimeArray
        | PgType::TimestampArray
        | PgType::TimestamptzArray
        | PgType::UuidArray
        | PgType::JsonArray
        | PgType::JsonbArray
        | PgType::OidArray
        | PgType::ByteaArray
        | PgType::OtherArray(_) => true,
        _ => false,
    }
}

/// A column of a table.
#[derive(Debug, Clone, PartialEq, Eq)]
pub struct ColumnSchema {
    /// The name of the column.
    pub name: String,
    /// The type of its values.
    pub typ: PgType,
    /// The type modifier, -1 where there is none.
    pub modifier: i32,
    /// Whether values may be missing.
    pub nullable: bool,
    /// Whether the column is part of the primary key.
    pub primary: bool,
}

impl ColumnSchema {
    /// A column with these properties.
    pub fn new(name: String, typ: PgType, modifier: i32, nullable: bool, primary: bool) -> (column:
        ColumnSchema)
        ensures
            column == (ColumnSchema { name, typ, modifier, nullable, primary }),
    {
        ColumnSchema { name, typ, modifier, nullable, primary }
    }
}

/// A table and its columns.
#[derive(Debug, Clone, PartialEq, Eq)]
pub struct TableSchema {
    /// The identifier of the table.
    pub id: TableId,
    /// The name of the table.
    pub name: TableName,
    /// The columns, in order.
    pub column_schemas: Vec<ColumnSchema>,
}

impl TableSchema {
    /// A table with these columns.
    pub fn new(id: TableId, name: TableName, column_schemas: Vec<ColumnSchema>) -> (schema:
        TableSchema)
        ensures
            schema == (TableSchema { id, name, column_schemas }),
    {
        TableSchema { id, name, column_schemas }
    }
}

/// The positions of the columns that are part of the primary key, in order.
pub open spec fn primary_key_indices(columns: Seq<ColumnSchema>) -> Seq<int>
    decreases columns.len(),
{
    if columns.len() == 0 {
        Seq::empty()
    } else if columns.last().primary {
        primary_key_indices(columns.drop_last()).push(columns.len() - 1)
    } else {
        primary_key_indices(columns.drop_last())
    }
}

/// The names of the columns that are part of the primary key, in order.
pub open spec fn primary_key_names(columns: Seq<ColumnSchema>) -> Seq<Seq<char>> {
    primary_key_indices(columns).map_values(|i: int| columns[i].name@)
}

/// Positions of primary key columns are positions of columns.
pub proof fn primary_key_indices_are_columns(columns: Seq<ColumnSchema>)
    ensures
        primary_key_indices(columns).len() <= columns.len(),
        forall|k: int|
            0 <= k < primary_key_indices(columns).len() ==> {
                &&& 0 <= #[trigger] primary_key_indices(columns)[k] < columns.len()
                &&& columns[primary_key_indices(columns)[k]].primary
            },
        primary_key_indices(columns).len() > 0 <==> exists|i: int|
            0 <= i < columns.len() && (#[trigger] columns[i]).primary,
    decreases columns.len(),
{
    if columns.len() > 0 {
        let rest = columns.drop_last();
        primary_key_indices_are_columns(rest);
        let indices = primary_key_indices(rest);
        assert forall|k: int| 0 <= k < primary_key_indices(columns).len() implies {
            &&& 0 <= #[trigger] primary_key_indices(columns)[k] < columns.len()
            &&& columns[primary_key_indices(columns)[k]].primary
        } by {
            if k < indices.len() {
                assert(primary_key_indices(columns)[k] == indices[k]);
                assert(rest[indices[k]] == columns[indices[k]]);
            }
        }
        if exists|i: int| 0 <= i < columns.len() && (#[trigger] columns[i]).primary {
            let i = choose|i: int| 0 <= i < columns.len() && (#[trigger] columns[i]).primary;
            if i < columns.len() - 1 {
                assert(rest[i].primary);
            }
        }
        if primary_key_indices(columns).len() > 0 {
            let last = primary_key_indices(columns).len() - 1;
            assert(columns[primary_key_indices(columns)[last]].primary);
        }
    }
}

/// Primary key columns come in the order of the columns.
pub proof fn primary_key_indices_ascend(columns: Seq<ColumnSchema>, i: int, k: int)
    requires
        0 <= i < k < primary_key_indices(columns).len(),
    ensures
        primary_key_indices(columns)[i] < primary_key_indices(columns)[k],
    decreases columns.len(),
{
    if columns.len() > 0 {
        let before = primary_key_indices(columns.drop_last());
        primary_key_indices_are_columns(columns.drop_last());
        if k < before.len() {
            primary_key_indices_ascend(columns.drop_last(), i, k);
        } else {
            assert(before[i] < columns.len() - 1);
        }
    }
}

/// Every column that is part of the primary key has its place there.
pub proof fn primary_column_has_index(columns: Seq<ColumnSchema>, column: int) -> (k: int)
    requires
        0 <= column < columns.len(),
        columns[column].primary,
    ensures
        0 <= k < primary_key_indices(columns).len(),
        primary_key_indices(columns)[k] == column,
    decreases columns.len(),
{
    if column == columns.len() - 1 {
        primary_key_indices(columns).len() - 1
    } else {
        assert(columns.drop_last()[column] == columns[column]);
        primary_column_has_index(columns.drop_last(), column)
    }
}

/// The positions of the columns that are part of the primary key, in order.
pub fn primary_key_positions(columns: &[ColumnSchema]) -> (positions: Vec<usize>)
    ensures
        positions@.map_values(|i: usize| i as int) == primary_key_indices(columns@),
{
    let mut positions: Vec<usize> = Vec::new();
    let mut i: usize = 0;
    assert(positions@.map_values(|i: usize| i as int) =~= primary_key_indices(columns@.take(0)));
    while i < columns.len()
        invariant
            i <= columns@.len(),
            positions@.map_values(|i: usize| i as int) == primary_key_indices(
                columns@.take(i as int),
            ),
        decreases columns@.len() - i,
    {
        if columns[i].primary {
            positions.push(i);
        }
        proof {
            assert(columns@.take(i as int + 1).drop_last() =~= columns@.take(i as int));
            assert(positions@.map_values(|i: usize| i as int) =~= primary_key_indices(
                columns@.take(i as int + 1),
            ));
        }
        i += 1;
    }
    assert(columns@.take(i as int) =~= columns@);
    positions
}

} // verus!
