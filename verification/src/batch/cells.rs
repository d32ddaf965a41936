//! Single cells as values of Arrow arrays.

use vstd::prelude::*;

use crate::batch::array::Item;
use crate::batch::data_type::{TimeUnit, TypeView};
use crate::types::temporal;
use crate::types::{ArrayCell, Cell, Row};

verus! {

/// The number of bytes of an identifier.
pub const UUID_BYTE_WIDTH: i32 = 16;

/// The truth value of a cell.
pub open spec fn bool_of(cell: Cell) -> Option<bool> {
    match cell {
        Cell::Bool(value) => Some(value),
        _ => None,
    }
}

/// The value of a cell with an integer of at most 32 bits.
pub open spec fn i32_of(cell: Cell) -> Option<i32> {
    match cell {
        Cell::I16(value) => Some(value as i32),
        Cell::I32(value) => Some(value),
        _ => None,
    }
}

/// The value of a cell with a 64-bit integer or an unsigned 32-bit integer.
pub open spec fn i64_of(cell: Cell) -> Option<i64> {
    match cell {
        Cell::I64(value) => Some(value),
        Cell::U32(value) => Some(value as i64),
        _ => None,
    }
}

/// The bits of a 32-bit float.
pub open spec fn f32_of(cell: Cell) -> Option<u32> {
    match cell {
        Cell::F32(bits) => Some(bits),
        _ => None,
    }
}

/// The bits of a 64-bit float.
pub open spec fn f64_of(cell: Cell) -> Option<u64> {
    match cell {
        Cell::F64(bits) => Some(bits),
        _ => None,
    }
}

/// The days from the start of 1970 to a date.
pub open spec fn days_of(cell: Cell) -> Option<int> {
    match cell {
        Cell::Date(date) => Some(date.number() - temporal::day_number(1970, 1, 1)),
        _ => None,
    }
}

/// The microseconds from midnight to a time.
pub open spec fn time_of(cell: Cell) -> Option<int> {
    match cell {
        Cell::Time(time) => Some(time.micros()),
        _ => None,
    }
}

/// The microseconds from the start of 1970 to a timestamp without a time zone.
pub open spec fn timestamp_of(cell: Cell) -> Option<int> {
    match cell {
        Cell::Timestamp(timestamp) => Some(timestamp.micros()),
        _ => None,
    }
}

/// The microseconds from the start of 1970 to an instant.
pub open spec fn timestamptz_of(cell: Cell) -> Option<int> {
    match cell {
        Cell::TimestampTz(timestamp) => Some(timestamp.micros()),
        _ => None,
    }
}

/// The bytes of an identifier.
pub open spec fn uuid_of(cell: Cell) -> Option<Seq<u8>> {
    match cell {
        Cell::Uuid(uuid) => Some(uuid.bytes@),
        _ => None,
    }
}

/// The raw bytes of a cell.
pub open spec fn bytes_of(cell: Cell) -> Option<Seq<u8>> {
    match cell {
        Cell::Bytes(bytes) => Some(bytes@),
        _ => None,
    }
}

/// The text of a cell that holds a text, a number of any size or a JSON value. No other cell has
/// one.
pub open spec fn text_of(cell: Cell) -> Option<Seq<char>> {
    match cell {
        Cell::String(text) => Some(text@),
        Cell::Numeric(number) => Some(number.text@),
        Cell::Json(json) => Some(json.text@),
        _ => None,
    }
}

/// Whether two optional numbers are the same.
pub open spec fn same_number(number: Option<i64>, expected: Option<int>) -> bool {
    match (number, expected) {
        (Some(n), Some(e)) => n == e,
        (None, None) => true,
        _ => false,
    }
}

/// The truth value of a cell.
pub fn cell_to_bool(cell: &Cell) -> (value: Option<bool>)
    ensures
        value == bool_of(*cell),
{
    match cell {
        Cell::Bool(value) => Some(*value),
        _ => None,
    }
}

/// The value of a cell with an integer of at most 32 bits.
pub fn cell_to_i32(cell: &Cell) -> (value: Option<i32>)
    ensures
        value == i32_of(*cell),
{
    match cell {
        Cell::I16(value) => Some(*value as i32),
        Cell::I32(value) => Some(*value),
        _ => None,
    }
}

/// The value of a cell with a 64-bit integer or an unsigned 32-bit integer.
pub fn cell_to_i64(cell: &Cell) -> (value: Option<i64>)
    ensures
        value == i64_of(*cell),
{
    match cell {
        Cell::I64(value) => Some(*value),
        Cell::U32(value) => Some(*value as i64),
        _ => None,
    }
}

/// The bits of a 32-bit float.
pub fn cell_to_f32(cell: &Cell) -> (bits: Option<u32>)
    ensures
        bits == f32_of(*cell),
{
    match cell {
        Cell::F32(bits) => Some(*bits),
        _ => None,
    }
}

/// The bits of a 64-bit float.
pub fn cell_to_f64(cell: &Cell) -> (bits: Option<u64>)
    ensures
        bits == f64_of(*cell),
{
    match cell {
        Cell::F64(bits) => Some(*bits),
        _ => None,
    }
}

/// The raw bytes of a cell.
pub fn cell_to_bytes(cell: &Cell) -> (bytes: Option<Vec<u8>>)
    ensures
        bytes is Some <==> bytes_of(*cell) is Some,
        bytes matches Some(b) ==> bytes_of(*cell) == Some(b@),
{
    match cell {
        Cell::Bytes(bytes) => {
            let copy = bytes.clone();
            assert(copy@ =~= bytes@);
            Some(copy)
        },
        _ => None,
    }
}

/// The days from the start of 1970 to a date.
pub fn cell_to_date32(cell: &Cell) -> (days: Option<i32>)
    ensures
        days is Some <==> days_of(*cell) is Some,
        days matches Some(d) ==> days_of(*cell) == Some(d as int),
{
    match cell {
        Cell::Date(date) => Some(date.days_since_epoch()),
        _ => None,
    }
}

/// The microseconds from midnight to a time.
pub fn cell_to_time64(cell: &Cell) -> (micros: Option<i64>)
    ensures
        same_number(micros, time_of(*cell)),
{
    match cell {
        Cell::Time(time) => time.micros_since_midnight(),
        _ => None,
    }
}

/// The microseconds from the start of 1970 to a timestamp without a time zone, taken as UTC.
pub fn cell_to_timestamp(cell: &Cell) -> (micros: Option<i64>)
    ensures
        same_number(micros, timestamp_of(*cell)),
{
    match cell {
        Cell::Timestamp(timestamp) => Some(timestamp.timestamp_micros()),
        _ => None,
    }
}

/// The microseconds from the start of 1970 to an instant.
pub fn cell_to_timestamptz(cell: &Cell) -> (micros: Option<i64>)
    ensures
        same_number(micros, timestamptz_of(*cell)),
{
    match cell {
        Cell::TimestampTz(timestamp) => Some(timestamp.timestamp_micros()),
        _ => None,
    }
}

/// The bytes of an identifier.
pub fn cell_to_uuid(cell: &Cell) -> (bytes: Option<&[u8; 16]>)
    ensures
        bytes is Some <==> uuid_of(*cell) is Some,
        bytes matches Some(b) ==> uuid_of(*cell) == Some(b@),
{
    match cell {
        Cell::Uuid(uuid) => Some(&uuid.bytes),
        _ => None,
    }
}

pub(crate) fn cell_to_uuid_bytes(cell: &Cell) -> (bytes: Option<[u8; 16]>)
    ensures
        bytes is Some <==> uuid_of(*cell) is Some,
        bytes matches Some(b) ==> uuid_of(*cell) == Some(b@),
{
    match cell_to_uuid(cell) {
        Some(bytes) => Some(*bytes),
        None => None,
    }
}

/// The text of a cell that holds a text, a number of any size or a JSON value.
pub fn cell_to_string(cell: &Cell) -> (text: Option<String>)
    ensures
        text is Some <==> text_of(*cell) is Some,
        text matches Some(t) ==> text_of(*cell) == Some(t@),
{
    match cell {
        Cell::Null => None,
        Cell::Bool(_) => None,
        Cell::String(s) => Some(s.clone()),
        Cell::I16(_) => None,
        Cell::I32(_) => None,
        Cell::U32(_) => None,
        Cell::I64(_) => None,
        Cell::F32(_) => None,
        Cell::F64(_) => None,
        Cell::Numeric(n) => Some(n.text.clone()),
        Cell::Date(_) => None,
        Cell::Time(_) => None,
        Cell::Timestamp(_) => None,
        Cell::TimestampTz(_) => None,
        Cell::Uuid(_) => None,
        Cell::Json(j) => Some(j.text.clone()),
        Cell::Bytes(_) => None,
        Cell::Array(_) => None,
    }
}

/// The list that a cell holds.
pub fn cell_to_array_cell(cell: &Cell) -> (array_cell: Option<&ArrayCell>)
    ensures
        match *cell {
            Cell::Array(expected) => array_cell == Some(&expected),
            _ => array_cell is None,
        },
{
    match cell {
        Cell::Array(array_cell) => Some(array_cell),
        _ => None,
    }
}

/// The item of an optional number.
pub open spec fn number_item(number: Option<int>) -> Item {
    match number {
        Some(n) => Item::Int(n),
        None => Item::Null,
    }
}

/// The item of optional bytes.
pub open spec fn optional_bytes_item(bytes: Option<Seq<u8>>) -> Item {
    match bytes {
        Some(b) => Item::Bytes(b),
        None => Item::Null,
    }
}

/// The types that cells and elements of lists are encoded in as they are. Every other type is
/// replaced by text.
pub open spec fn is_encoded(data_type: TypeView) -> bool {
    match data_type {
        TypeView::Boolean
        | TypeView::Int32
        | TypeView::Int64
        | TypeView::Float32
        | TypeView::Float64
        | TypeView::Utf8
        | TypeView::LargeBinary
        | TypeView::Date32
        | TypeView::Time64(TimeUnit::Microsecond)
        | TypeView::Timestamp(TimeUnit::Microsecond, _) => true,
        TypeView::FixedSizeBinary(width) => width == UUID_BYTE_WIDTH,
        _ => false,
    }
}

/// The item for a cell in a column that is not a list. A cell that does not fit the type is
/// missing.
pub open spec fn scalar_item(data_type: TypeView, cell: Cell) -> Item {
    match data_type {
        TypeView::Boolean => match bool_of(cell) {
            Some(value) => Item::Bool(value),
            None => Item::Null,
        },
        TypeView::Int32 => match i32_of(cell) {
            Some(value) => Item::Int(value as int),
            None => Item::Null,
        },
        TypeView::Int64 => match i64_of(cell) {
            Some(value) => Item::Int(value as int),
            None => Item::Null,
        },
        TypeView::Float32 => match f32_of(cell) {
            Some(bits) => Item::Bits(bits as nat),
            None => Item::Null,
        },
        TypeView::Float64 => match f64_of(cell) {
            Some(bits) => Item::Bits(bits as nat),
            None => Item::Null,
        },
        TypeView::LargeBinary => optional_bytes_item(bytes_of(cell)),
        TypeView::Date32 => number_item(days_of(cell)),
        TypeView::Time64(TimeUnit::Microsecond) => number_item(time_of(cell)),
        TypeView::Timestamp(TimeUnit::Microsecond, Some(_)) => number_item(timestamptz_of(cell)),
        TypeView::Timestamp(TimeUnit::Microsecond, None) => number_item(timestamp_of(cell)),
        TypeView::FixedSizeBinary(width) => if width == UUID_BYTE_WIDTH {
            optional_bytes_item(uuid_of(cell))
        } else {
            text_or_null(cell)
        },
        _ => text_or_null(cell),
    }
}

/// The item for a cell in a column of texts.
pub open spec fn text_or_null(cell: Cell) -> Item {
    match text_of(cell) {
        Some(text) => Item::Text(text),
        None => Item::Null,
    }
}

/// Whether every row reaches a column.
pub open spec fn rows_reach<R: Row>(rows: Seq<R>, field_idx: int) -> bool {
    forall|i: int| 0 <= i < rows.len() ==> 0 <= field_idx < (#[trigger] rows[i]).row().values@.len()
}

/// The cells of a column.
pub open spec fn cells<R: Row>(rows: Seq<R>, field_idx: int) -> Seq<Cell> {
    Seq::new(rows.len(), |i: int| rows[i].row().values@[field_idx])
}

/// The items of a column that is not a list.
pub open spec fn scalar_items(data_type: TypeView, cells: Seq<Cell>) -> Seq<Item> {
    Seq::new(cells.len(), |i: int| scalar_item(data_type, cells[i]))
}

} // verus!
