//! Batches of rows keep the values of the rows.

use vstd::prelude::*;

use crate::batch::array;
use crate::batch::array::{EncodedBatch, Item};
use crate::batch::cells;
use crate::batch::data_type::{Schema, TimeUnit, TypeView};
use crate::batch::elements;
use crate::batch::encoding;
use crate::batch::encoding::{BatchError, rows_to_record_batch};
use crate::laws::texts::tells;
use crate::types::temporal::day_number;
use crate::types::{ArrayCell, Cell, Row, Timestamp};

verus! {

/// Whether a number of microseconds is that of a timestamp: the days since the start of 1970, and
/// the whole microseconds since midnight.
pub open spec fn counts(micros: int, timestamp: Timestamp) -> bool {
    let days = timestamp.date.number() - day_number(1970, 1, 1);
    let nanos = 1000000000 * timestamp.time.seconds() + timestamp.time.nanos();
    let rest = micros - 86400000000 * days;
    1000 * rest <= nanos < 1000 * (rest + 1)
}

/// Whether an item stands for the value of a cell: a number for the same number, a text for the
/// same text, bits and bytes for the same ones.
pub open spec fn stands_for(item: Item, cell: Cell) -> bool {
    match (item, cell) {
        (Item::Bool(b), Cell::Bool(value)) => b == value,
        (Item::Int(n), Cell::I16(value)) => n == value,
        (Item::Int(n), Cell::I32(value)) => n == value,
        (Item::Int(n), Cell::I64(value)) => n == value,
        (Item::Int(n), Cell::U32(value)) => n == value,
        (Item::Int(n), Cell::Date(date)) => n == date.number() - day_number(1970, 1, 1),
        (Item::Int(n), Cell::Time(time)) => 1000 * n <= 1000000000 * time.seconds() + time.nanos()
            && 1000000000 * time.seconds() + time.nanos() < 1000 * (n + 1),
        (Item::Int(n), Cell::Timestamp(timestamp)) => counts(n, timestamp),
        (Item::Int(n), Cell::TimestampTz(timestamp)) => counts(n, timestamp),
        (Item::Bits(n), Cell::F32(bits)) => n == bits,
        (Item::Bits(n), Cell::F64(bits)) => n == bits,
        (Item::Text(whole), Cell::String(value)) => whole == value@,
        (Item::Text(whole), Cell::Numeric(number)) => whole == number.text@,
        (Item::Text(whole), Cell::Json(json)) => whole == json.text@,
        (Item::Bytes(bytes), Cell::Bytes(value)) => bytes == value@,
        (Item::Bytes(bytes), Cell::Uuid(uuid)) => bytes == uuid.bytes@,
        _ => false,
    }
}

/// Whether a type is one whose values can stand for a cell.
pub open spec fn can_hold(data_type: TypeView, cell: Cell) -> bool {
    match cell {
        Cell::Bool(_) => data_type is Boolean,
        Cell::I16(_) | Cell::I32(_) => data_type is Int32,
        Cell::U32(_) | Cell::I64(_) => data_type is Int64,
        Cell::F32(_) => data_type is Float32,
        Cell::F64(_) => data_type is Float64,
        Cell::String(_) | Cell::Numeric(_) | Cell::Json(_) => data_type is Utf8,
        Cell::Bytes(_) => data_type is LargeBinary,
        Cell::Date(_) => data_type is Date32,
        Cell::Time(_) => data_type == TypeView::Time64(TimeUnit::Microsecond),
        Cell::Timestamp(_) => data_type == TypeView::Timestamp(TimeUnit::Microsecond, None),
        Cell::TimestampTz(_) => data_type matches TypeView::Timestamp(
            TimeUnit::Microsecond,
            Some(_),
        ),
        Cell::Uuid(_) => data_type == TypeView::FixedSizeBinary(16),
        _ => false,
    }
}

/// The elements of a list as cells. A missing element is a cell without a value.
pub open spec fn element_cells(list: ArrayCell) -> Seq<Cell> {
    match list {
        ArrayCell::Bool(v) => Seq::new(
            v@.len(),
            |i: int|
                match v@[i] {
                    Some(value) => Cell::Bool(value),
                    None => Cell::Null,
                },
        ),
        ArrayCell::String(v) => Seq::new(
            v@.len(),
            |i: int|
                match v@[i] {
                    Some(value) => Cell::String(value),
                    None => Cell::Null,
                },
        ),
        ArrayCell::I16(v) => Seq::new(
            v@.len(),
            |i: int|
                match v@[i] {
                    Some(value) => Cell::I16(value),
                    None => Cell::Null,
                },
        ),
        ArrayCell::I32(v) => Seq::new(
            v@.len(),
            |i: int|
                match v@[i] {
                    Some(value) => Cell::I32(value),
                    None => Cell::Null,
                },
        ),
        ArrayCell::U32(v) => Seq::new(
            v@.len(),
            |i: int|
                match v@[i] {
                    Some(value) => Cell::U32(value),
                    None => Cell::Null,
                },
        ),
        ArrayCell::I64(v) => Seq::new(
            v@.len(),
            |i: int|
                match v@[i] {
                    Some(value) => Cell::I64(value),
                    None => Cell::Null,
                },
        ),
        ArrayCell::F32(v) => Seq::new(
            v@.len(),
            |i: int|
                match v@[i] {
                    Some(value) => Cell::F32(value),
                    None => Cell::Null,
                },
        ),
        ArrayCell::F64(v) => Seq::new(
            v@.len(),
            |i: int|
                match v@[i] {
                    Some(value) => Cell::F64(value),
                    None => Cell::Null,
                },
        ),
        ArrayCell::Numeric(v) => Seq::new(
            v@.len(),
            |i: int|
                match v@[i] {
                    Some(value) => Cell::Numeric(value),
                    None => Cell::Null,
                },
        ),
        ArrayCell::Date(v) => Seq::new(
            v@.len(),
            |i: int|
                match v@[i] {
                    Some(value) => Cell::Date(value),
                    None => Cell::Null,
                },
        ),
        ArrayCell::Time(v) => Seq::new(
            v@.len(),
            |i: int|
                match v@[i] {
                    Some(value) => Cell::Time(value),
                    None => Cell::Null,
                },
        ),
        ArrayCell::Timestamp(v) => Seq::new(
            v@.len(),
            |i: int|
                match v@[i] {
                    Some(value) => Cell::Timestamp(value),
                    None => Cell::Null,
                },
        ),
        ArrayCell::TimestampTz(v) => Seq::new(
            v@.len(),
            |i: int|
                match v@[i] {
                    Some(value) => Cell::TimestampTz(value),
                    None => Cell::Null,
                },
        ),
        ArrayCell::Uuid(v) => Seq::new(
            v@.len(),
            |i: int|
                match v@[i] {
                    Some(value) => Cell::Uuid(value),
                    None => Cell::Null,
                },
        ),
        ArrayCell::Json(v) => Seq::new(
            v@.len(),
            |i: int|
                match v@[i] {
                    Some(value) => Cell::Json(value),
                    None => Cell::Null,
                },
        ),
        ArrayCell::Bytes(v) => Seq::new(
            v@.len(),
            |i: int|
                match v@[i] {
                    Some(value) => Cell::Bytes(value),
                    None => Cell::Null,
                },
        ),
    }
}

/// A cell gives the truth value, the number or the bits that it holds, to those who ask for its
/// kind.
pub proof fn cells_give_their_numbers(
    cell: &Cell,
    truth: Option<bool>,
    short: Option<i32>,
    long: Option<i64>,
    single: Option<u32>,
    double: Option<u64>,
)
    requires
        call_ensures(cells::cell_to_bool, (cell,), truth),
        call_ensures(cells::cell_to_i32, (cell,), short),
        call_ensures(cells::cell_to_i64, (cell,), long),
        call_ensures(cells::cell_to_f32, (cell,), single),
        call_ensures(cells::cell_to_f64, (cell,), double),
    ensures
        truth is Some <==> can_hold(TypeView::Boolean, *cell),
        truth matches Some(b) ==> stands_for(Item::Bool(b), *cell),
        short is Some <==> can_hold(TypeView::Int32, *cell),
        short matches Some(n) ==> stands_for(Item::Int(n as int), *cell),
        long is Some <==> can_hold(TypeView::Int64, *cell),
        long matches Some(n) ==> stands_for(Item::Int(n as int), *cell),
        single is Some <==> can_hold(TypeView::Float32, *cell),
        single matches Some(bits) ==> stands_for(Item::Bits(bits as nat), *cell),
        double is Some <==> can_hold(TypeView::Float64, *cell),
        double matches Some(bits) ==> stands_for(Item::Bits(bits as nat), *cell),
{
}

/// A cell gives the day, the time or the instant that it holds, to those who ask for its kind.
pub proof fn cells_give_their_times(
    cell: &Cell,
    days: Option<i32>,
    time: Option<i64>,
    local: Option<i64>,
    instant: Option<i64>,
    zone: Seq<char>,
)
    requires
        call_ensures(cells::cell_to_date32, (cell,), days),
        call_ensures(cells::cell_to_time64, (cell,), time),
        call_ensures(cells::cell_to_timestamp, (cell,), local),
        call_ensures(cells::cell_to_timestamptz, (cell,), instant),
    ensures
        days is Some <==> can_hold(TypeView::Date32, *cell),
        days matches Some(n) ==> stands_for(Item::Int(n as int), *cell),
        time is Some <==> can_hold(TypeView::Time64(TimeUnit::Microsecond), *cell),
        time matches Some(n) ==> stands_for(Item::Int(n as int), *cell),
        local is Some <==> can_hold(TypeView::Timestamp(TimeUnit::Microsecond, None), *cell),
        local matches Some(n) ==> stands_for(Item::Int(n as int), *cell),
        instant is Some <==> can_hold(
            TypeView::Timestamp(TimeUnit::Microsecond, Some(zone)),
            *cell,
        ),
        instant matches Some(n) ==> stands_for(Item::Int(n as int), *cell),
{
}

/// A cell gives the text, the bytes, the identifier or the list that it holds, to those who ask for
/// its kind.
pub proof fn cells_give_their_texts(
    cell: &Cell,
    whole: Option<String>,
    bytes: Option<Vec<u8>>,
    uuid: Option<&[u8; 16]>,
    list: Option<&ArrayCell>,
)
    requires
        call_ensures(cells::cell_to_string, (cell,), whole),
        call_ensures(cells::cell_to_bytes, (cell,), bytes),
        call_ensures(cells::cell_to_uuid, (cell,), uuid),
        call_ensures(cells::cell_to_array_cell, (cell,), list),
    ensures
        whole is Some <==> can_hold(TypeView::Utf8, *cell),
        whole matches Some(t) ==> stands_for(Item::Text(t@), *cell),
        bytes is Some <==> can_hold(TypeView::LargeBinary, *cell),
        bytes matches Some(b) ==> stands_for(Item::Bytes(b@), *cell),
        uuid is Some <==> can_hold(TypeView::FixedSizeBinary(16), *cell),
        uuid matches Some(b) ==> stands_for(Item::Bytes(b@), *cell),
        list is Some <==> *cell is Array,
        list matches Some(l) ==> *cell == Cell::Array(*l),
{
}

/// The elements of a list are appended to other texts as texts that tell them, in order.
pub proof fn lists_are_appended_as_texts(
    state: &mut Vec<Option<String>>,
    after: Vec<Option<String>>,
    list: &ArrayCell,
)
    requires
        after == *final(state),
        call_ensures(elements::append_array_cell_as_strings, (state, list), ()),
    ensures
        after@.len() == old(state)@.len() + element_cells(*list).len(),
        forall|i: int|
            #![trigger after@[old(state)@.len() + i]]
            0 <= i < element_cells(*list).len() ==> is_element(
                TypeView::Utf8,
                element_cells(*list)[i],
                match after@[old(state)@.len() + i] {
                    Some(whole) => Item::Text(whole@),
                    None => Item::Null,
                },
            ),
        forall|i: int|
            #![trigger after@[i]]
            0 <= i < old(state)@.len() ==> (after@[i] is Some <==> old(state)@[i] is Some) && (
            after@[i] is Some ==> after@[i]->0@ == old(state)@[i]->0@),
{
    let before = old(state)@;
    let texts = array::items(after@, array::text_item());
    let earlier = array::items(before, array::text_item());
    text_elements_tell_cells(*list);
    let appended = elements::text_elements(*list);
    assert(texts == earlier + appended);
    assert(texts.len() == after@.len());
    assert(earlier.len() == before.len());
    assert forall|i: int|
        #![trigger after@[before.len() + i]]
        0 <= i < element_cells(*list).len() implies is_element(
        TypeView::Utf8,
        element_cells(*list)[i],
        match after@[before.len() + i] {
            Some(whole) => Item::Text(whole@),
            None => Item::Null,
        },
    ) by {
        assert(texts[before.len() + i] == appended[i]);
    }
    assert forall|i: int| #![trigger after@[i]] 0 <= i < before.len() implies (after@[i] is Some
        <==> before[i] is Some) && (after@[i] is Some ==> after@[i]->0@ == before[i]->0@) by {
        assert(texts[i] == earlier[i]);
    }
}

/// What stands in a batch for a cell in a column of single values: the value of the cell where the
/// type of the column can hold it, and nothing otherwise.
pub proof fn batches_hold_the_values_of_rows<R: Row>(
    rows: &[R],
    schema: Schema,
    batch: EncodedBatch,
    r: int,
    c: int,
)
    requires
        call_ensures(rows_to_record_batch::<R>, (rows, schema), Ok::<_, BatchError>(batch)),
        0 <= r < rows@.len(),
        0 <= c < schema@.len(),
        !(schema@[c].data_type is List),
    ensures
        batch.fields() == schema@,
        batch.columns().len() == schema@.len(),
        batch.columns()[c].len() == rows@.len(),
        ({
            let cell = rows@[r].row().values@[c];
            let item = batch.columns()[c][r];
            if can_hold(schema@[c].data_type, cell) {
                stands_for(item, cell)
            } else {
                item == Item::Null
            }
        }),
{
    let column = cells::cells(rows@, c);
    assert(column[r] == rows@[r].row().values@[c]);
    assert(batch.columns()[c] == encoding::column_items(schema@[c].data_type, column));
    assert(encoding::column_type(schema@[c].data_type, column) == schema@[c].data_type);
}

/// What stands in a batch for a cell in a column of lists: for a list as many elements as it has,
/// each with its value, and nothing for a missing element. A cell that is no list is missing. The
/// elements have the type of the column where it can hold all elements of all lists in it; a column
/// of texts holds the texts of all others, but nothing for raw bytes.
pub proof fn batches_hold_the_elements_of_lists<R: Row>(
    rows: &[R],
    schema: Schema,
    batch: EncodedBatch,
    r: int,
    c: int,
)
    requires
        call_ensures(rows_to_record_batch::<R>, (rows, schema), Ok::<_, BatchError>(batch)),
        0 <= r < rows@.len(),
        0 <= c < schema@.len(),
        schema@[c].data_type is List,
    ensures
        batch.columns()[c].len() == rows@.len(),
        ({
            let element = schema@[c].data_type->List_0.data_type;
            match rows@[r].row().values@[c] {
                Cell::Array(list) => {
                    &&& batch.columns()[c][r] matches Item::List(items)
                    &&& items.len() == element_cells(list).len()
                    &&& forall|i: int|
                        0 <= i < items.len() ==> is_element(
                            element,
                            element_cells(list)[i],
                            #[trigger] items[i],
                        )
                },
                _ => batch.columns()[c][r] == Item::Null,
            }
        }),
{
    let column = cells::cells(rows@, c);
    let element = schema@[c].data_type->List_0.data_type;
    assert(column[r] == rows@[r].row().values@[c]);
    assert(batch.columns()[c] == encoding::column_items(schema@[c].data_type, column));
    assert(encoding::column_type(schema@[c].data_type, column) == schema@[c].data_type);
    if let Cell::Array(list) = rows@[r].row().values@[c] {
        if encoding::lists_fit(element, column) {
            assert(elements::typed_elements(element, list) is Some);
            typed_elements_stand_for_cells(element, list);
        } else {
            text_elements_tell_cells(list);
        }
    }
}

/// Whether an item stands for an element of a list: a value of the type of the elements, a text
/// that tells the value, or nothing for a missing element and for raw bytes among texts.
pub open spec fn is_element(element: TypeView, cell: Cell, item: Item) -> bool {
    if cell is Null {
        item == Item::Null
    } else if can_hold(element, cell) {
        stands_for(item, cell)
    } else if element is Utf8 {
        match cell {
            Cell::Bytes(_) => item == Item::Null,
            Cell::TimestampTz(timestamp) => item == Item::Text(
                timestamp.date.text() + seq!['T'] + timestamp.time.text() + "+00:00"@,
            ),
            _ => item matches Item::Text(whole) && tells(whole, cell),
        }
    } else {
        false
    }
}

proof fn typed_elements_stand_for_cells(element: TypeView, list: ArrayCell)
    requires
        elements::typed_elements(element, list) is Some,
    ensures
        elements::typed_elements(element, list)->0.len() == element_cells(list).len(),
        forall|i: int|
            0 <= i < element_cells(list).len() ==> is_element(
                element,
                element_cells(list)[i],
                #[trigger] elements::typed_elements(element, list)->0[i],
            ),
{
}

proof fn text_elements_tell_cells(list: ArrayCell)
    ensures
        elements::text_elements(list).len() == element_cells(list).len(),
        forall|i: int|
            0 <= i < element_cells(list).len() ==> is_element(
                TypeView::Utf8,
                element_cells(list)[i],
                #[trigger] elements::text_elements(list)[i],
            ),
{
}

/// Rows make a batch exactly if every column keeps its type and no value is missing where the
/// column does not allow it: then the batch has a value for every cell of such a column.
pub proof fn required_values_are_there<R: Row>(
    rows: &[R],
    schema: Schema,
    batch: EncodedBatch,
    r: int,
    c: int,
)
    requires
        call_ensures(rows_to_record_batch::<R>, (rows, schema), Ok::<_, BatchError>(batch)),
        0 <= r < rows@.len(),
        0 <= c < schema@.len(),
        !schema@[c].nullable,
    ensures
        batch.columns()[c][r] != Item::Null,
{
    let items = encoding::column_items(schema@[c].data_type, cells::cells(rows@, c));
    assert(batch.columns()[c] == items);
    assert(items.len() == rows@.len());
    assert(items.contains(items[r]));
}

/// Whether a type is one that a column can have: one that holds cells, or lists of such a type.
pub open spec fn is_known(data_type: TypeView) -> bool {
    exists|cell: Cell| #[trigger] can_hold(data_type, cell)
}

/// Rows whose cells their columns can hold make a batch.
pub proof fn fitting_rows_make_a_batch<R: Row>(
    rows: &[R],
    schema: Schema,
    result: Result<EncodedBatch, BatchError>,
)
    requires
        call_ensures(rows_to_record_batch::<R>, (rows, schema), result),
        schema@.len() > 0,
        forall|c: int| 0 <= c < schema@.len() ==> is_known((#[trigger] schema@[c]).data_type),
        forall|c: int, r: int|
            #![trigger schema@[c], rows@[r]]
            0 <= c < schema@.len() && 0 <= r < rows@.len() ==> can_hold(
                schema@[c].data_type,
                rows@[r].row().values@[c],
            ) || schema@[c].nullable,
    ensures
        result is Ok,
{
    assert forall|c: int| 0 <= c < schema@.len() implies {
        &&& encoding::column_type((#[trigger] schema@[c]).data_type, cells::cells(rows@, c))
            == schema@[c].data_type
        &&& schema@[c].nullable || !encoding::column_items(
            schema@[c].data_type,
            cells::cells(rows@, c),
        ).contains(Item::Null)
    } by {
        assert(is_known(schema@[c].data_type));
        let column = cells::cells(rows@, c);
        let items = encoding::column_items(schema@[c].data_type, column);
        if !schema@[c].nullable && items.contains(Item::Null) {
            let r = choose|r: int| 0 <= r < items.len() && items[r] == Item::Null;
            assert(can_hold(schema@[c].data_type, rows@[r].row().values@[c]));
            assert(column[r] == rows@[r].row().values@[c]);
        }
    }
}

/// Rows without a column make no batch.
pub proof fn no_columns_make_no_batch<R: Row>(
    rows: &[R],
    schema: Schema,
    result: Result<EncodedBatch, BatchError>,
)
    requires
        call_ensures(rows_to_record_batch::<R>, (rows, schema), result),
        schema@.len() == 0,
    ensures
        result is Err,
{
}

} // verus!
