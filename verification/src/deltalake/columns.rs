//! The columns of a table hold the cells of their Postgres types.

use vstd::prelude::*;

use crate::batch::array;
use crate::batch::array::Item;
use crate::batch::cells;
use crate::batch::elements::{text_elements, typed_elements};
use crate::batch::encoding;
use crate::deltalake::expr;
use crate::deltalake::schema::{
    postgres_arrow_field, postgres_arrow_fields, postgres_element_arrow_type,
    postgres_element_field,
};
use crate::types::schema;
use crate::types::{ArrayCell, Cell, ColumnSchema, PgType, Row};

verus! {

/// Whether a list is one of a Postgres array type.
pub open spec fn is_list_of_type(typ: PgType, array_cell: ArrayCell) -> bool {
    match typ {
        PgType::BoolArray => array_cell is Bool,
        PgType::Int2Array => array_cell is I16,
        PgType::Int4Array => array_cell is I32,
        PgType::Int8Array => array_cell is I64,
        PgType::Float4Array => array_cell is F32,
        PgType::Float8Array => array_cell is F64,
        PgType::NumericArray => array_cell is Numeric,
        PgType::DateArray => array_cell is Date,
        PgType::TimeArray => array_cell is Time,
        PgType::TimestampArray => array_cell is Timestamp,
        PgType::TimestamptzArray => array_cell is TimestampTz,
        PgType::UuidArray => array_cell is Uuid,
        PgType::JsonArray | PgType::JsonbArray => array_cell is Json,
        PgType::OidArray => array_cell is U32,
        PgType::ByteaArray => array_cell is Bytes,
        _ => array_cell is String,
    }
}

/// Whether a cell holds a value of a Postgres type. Values of a type that is not known are texts.
pub open spec fn is_cell_of_type(typ: PgType, cell: Cell) -> bool {
    if schema::is_array(typ) {
        cell matches Cell::Array(array_cell) && is_list_of_type(typ, array_cell)
    } else {
        match typ {
            PgType::Bool => cell is Bool,
            PgType::Int2 => cell is I16,
            PgType::Int4 => cell is I32,
            PgType::Int8 => cell is I64,
            PgType::Float4 => cell is F32,
            PgType::Float8 => cell is F64,
            PgType::Numeric => cell is Numeric,
            PgType::Date => cell is Date,
            PgType::Time => cell is Time,
            PgType::Timestamp => cell is Timestamp,
            PgType::Timestamptz => cell is TimestampTz,
            PgType::Uuid => cell is Uuid,
            PgType::Json | PgType::Jsonb => cell is Json,
            PgType::Oid => cell is U32,
            PgType::Bytea => cell is Bytes,
            _ => cell is String,
        }
    }
}

/// Whether a cell can stand in a column: it holds a value of the type of the column, or is missing
/// where the column allows it.
pub open spec fn is_cell_of_column(column: ColumnSchema, cell: Cell) -> bool {
    is_cell_of_type(column.typ, cell) || (column.nullable && cell is Null)
}

/// Which elements of a list are present.
pub open spec fn present_elements(array_cell: ArrayCell) -> Seq<bool> {
    match array_cell {
        ArrayCell::Bool(v) => presence(v@),
        ArrayCell::String(v) => presence(v@),
        ArrayCell::I16(v) => presence(v@),
        ArrayCell::I32(v) => presence(v@),
        ArrayCell::U32(v) => presence(v@),
        ArrayCell::I64(v) => presence(v@),
        ArrayCell::F32(v) => presence(v@),
        ArrayCell::F64(v) => presence(v@),
        ArrayCell::Numeric(v) => presence(v@),
        ArrayCell::Date(v) => presence(v@),
        ArrayCell::Time(v) => presence(v@),
        ArrayCell::Timestamp(v) => presence(v@),
        ArrayCell::TimestampTz(v) => presence(v@),
        ArrayCell::Uuid(v) => presence(v@),
        ArrayCell::Json(v) => presence(v@),
        ArrayCell::Bytes(v) => presence(v@),
    }
}

/// Which values are present.
pub open spec fn presence<T>(values: Seq<Option<T>>) -> Seq<bool> {
    values.map_values(|value: Option<T>| value is Some)
}

/// Which items are present.
pub open spec fn present_items(items: Seq<Item>) -> Seq<bool> {
    items.map_values(|item: Item| item != Item::Null)
}

/// Every column has an Arrow type that cells are encoded in, or lists of such a type.
pub proof fn columns_are_encoded(column: ColumnSchema)
    ensures
        array::is_column_type(postgres_arrow_field(column).data_type),
{
}

/// A list of a Postgres array type has elements of the Arrow type for them, or is written as texts
/// where that is the Arrow type.
proof fn lists_of_type_have_elements(typ: PgType, array_cell: ArrayCell)
    requires
        schema::is_array(typ),
        is_list_of_type(typ, array_cell),
    ensures
        match typed_elements(postgres_element_arrow_type(typ), array_cell) {
            Some(elements) => present_items(elements) == present_elements(array_cell),
            None => postgres_element_arrow_type(typ) is Utf8 && present_items(
                text_elements(array_cell),
            ) == present_elements(array_cell),
        },
{
    match typed_elements(postgres_element_arrow_type(typ), array_cell) {
        Some(elements) => {
            assert(present_items(elements) =~= present_elements(array_cell));
        },
        None => {
            assert(present_items(text_elements(array_cell)) =~= present_elements(array_cell));
        },
    }
}

/// A value of the type of a column is stored in it, and of a list exactly those elements that are
/// present.
pub proof fn values_of_type_are_stored(column: ColumnSchema, cell: Cell)
    requires
        is_cell_of_type(column.typ, cell),
    ensures
        expr::cell_value(column, cell) != Item::Null,
        cell matches Cell::Array(array_cell) ==> (expr::cell_value(column, cell) matches Item::List(
            elements,
        ) && present_items(elements) == present_elements(array_cell)),
{
    if let Cell::Array(array_cell) = cell {
        let element = postgres_element_arrow_type(column.typ);
        lists_of_type_have_elements(column.typ, array_cell);
        assert(seq![cell][0] == cell);
        assert(encoding::lists_fit(element, seq![cell]) == typed_elements(
            element,
            array_cell,
        ) is Some);
    }
}

/// The cells of a column are encoded in the type of the column.
proof fn cells_keep_the_type(column: ColumnSchema, cells: Seq<Cell>)
    requires
        forall|i: int| 0 <= i < cells.len() ==> is_cell_of_column(column, #[trigger] cells[i]),
    ensures
        encoding::column_type(postgres_arrow_field(column).data_type, cells)
            == postgres_arrow_field(column).data_type,
        !column.nullable ==> !encoding::column_items(
            postgres_arrow_field(column).data_type,
            cells,
        ).contains(Item::Null),
{
    let data_type = postgres_arrow_field(column).data_type;
    let items = encoding::column_items(data_type, cells);
    if schema::is_array(column.typ) {
        let field = postgres_element_field(column.typ);
        assert forall|i: int| 0 <= i < cells.len() implies (
        #[trigger] cells[i] matches Cell::Array(array_cell) ==> typed_elements(
            field.data_type,
            array_cell,
        ) is Some || field.data_type is Utf8) by {
            assert(is_cell_of_column(column, cells[i]));
            if let Cell::Array(array_cell) = cells[i] {
                lists_of_type_have_elements(column.typ, array_cell);
            }
        }
        if !encoding::lists_fit(field.data_type, cells) {
            assert(field.data_type is Utf8);
        }
        assert(encoding::list_column_field(field, cells) == field);
    }
    if !column.nullable {
        assert forall|i: int| 0 <= i < items.len() implies #[trigger] items[i] != Item::Null by {
            assert(is_cell_of_column(column, cells[i]));
            values_of_type_are_stored(column, cells[i]);
            assert(seq![cells[i]][0] == cells[i]);
        }
    }
}

/// The key of a row has a value for every cell that can stand in its column.
pub proof fn cells_of_columns_convert(column: ColumnSchema, cell: Cell)
    requires
        is_cell_of_column(column, cell),
    ensures
        expr::cell_converts(column, cell),
{
    cells_keep_the_type(column, seq![cell]);
    let items = encoding::column_items(postgres_arrow_field(column).data_type, seq![cell]);
    assert(items[0] == expr::cell_value(column, cell));
}

/// Rows of a table make a batch with the Arrow schema of the table, if it has a column.
pub proof fn rows_of_tables_make_batches<R: Row>(columns: Seq<ColumnSchema>, rows: Seq<R>)
    requires
        columns.len() > 0,
        forall|i: int, k: int|
            #![trigger columns[i], rows[k]]
            0 <= i < columns.len() && 0 <= k < rows.len() ==> is_cell_of_column(
                columns[i],
                rows[k].row().values@[i],
            ),
    ensures
        encoding::rows_make_batch(rows, postgres_arrow_fields(columns)),
{
    let fields = postgres_arrow_fields(columns);
    assert forall|i: int| 0 <= i < fields.len() implies {
        &&& encoding::column_type((#[trigger] fields[i]).data_type, cells::cells(rows, i))
            == fields[i].data_type
        &&& fields[i].nullable || !encoding::column_items(
            fields[i].data_type,
            cells::cells(rows, i),
        ).contains(Item::Null)
    } by {
        let column = cells::cells(rows, i);
        assert forall|k: int| 0 <= k < column.len() implies is_cell_of_column(
            columns[i],
            #[trigger] column[k],
        ) by {
            assert(column[k] == rows[k].row().values@[i]);
        }
        cells_keep_the_type(columns[i], column);
    }
}

} // verus!
