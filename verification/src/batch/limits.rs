//! Whether columns can be stored with the offsets of Arrow.

use vstd::prelude::*;
use vstd::string::StringSliceAdditionalSpecFns;
use vstd::utf8::encode_utf8;

use crate::batch::array;
use crate::batch::array::{EncodedBatch, Item, items, text_bytes};
use crate::batch::cells::{UUID_BYTE_WIDTH, cell_to_string, cells, is_encoded, rows_reach, scalar_items};
use crate::batch::data_type::{DataType, Field, Schema, TimeUnit, TypeView};
use crate::batch::elements::{
    array_cell_to_bools, array_cell_to_byte_strings, array_cell_to_dates, array_cell_to_f32s,
    array_cell_to_f64s, array_cell_to_i32s, array_cell_to_i64s, array_cell_to_strings,
    array_cell_to_texts, array_cell_to_times, array_cell_to_timestamps, array_cell_to_timestamptzs,
    array_cell_to_uuids, is_list_of, typed_elements,
};
use crate::batch::encoding;
use crate::batch::encoding::{
    BatchError, collect_lists, column_fits, converted_column, list_column_fits, rows_fit,
    rows_to_record_batch, text_list_items, text_lists_fit,
};
use crate::batch::lists;
use crate::text;
use crate::types::{ArrayCell, Cell, Row};

verus! {

broadcast use text::take_one_more;

/// The greatest number that a 32-bit offset can count.
const MAX_OFFSET: usize = 2147483647;

/// The greatest number of identifiers whose bytes a 32-bit offset can count.
const MAX_UUIDS: usize = 134217727;

proof fn text_bytes_of_prefix(items: Seq<Item>, n: int)
    requires
        0 <= n <= items.len(),
    ensures
        text_bytes(items.take(n)) <= text_bytes(items),
    decreases items.len(),
{
    if n == items.len() {
        assert(items.take(n) =~= items);
    } else {
        text_bytes_of_prefix(items.drop_last(), n);
        assert(items.drop_last().take(n) =~= items.take(n));
    }
}

/// Items that are not texts take no bytes.
pub proof fn no_texts_have_no_bytes(items: Seq<Item>)
    requires
        forall|i: int| 0 <= i < items.len() ==> !(#[trigger] items[i] is Text),
    ensures
        text_bytes(items) == 0,
    decreases items.len(),
{
    if items.len() > 0 {
        assert(!(items[items.len() - 1] is Text));
        assert forall|i: int| 0 <= i < items.drop_last().len() implies !(
        #[trigger] items.drop_last()[i] is Text) by {
            assert(items.drop_last()[i] == items[i]);
        }
        no_texts_have_no_bytes(items.drop_last());
    }
}

/// Whether the bytes of the texts can be counted.
pub(crate) fn texts_fit(values: &Vec<Option<String>>) -> (fit: bool)
    ensures
        fit == (text_bytes(items(values@, array::text_item())) <= i32::MAX),
{
    let ghost whole = items(values@, array::text_item());
    let mut total: usize = 0;
    let mut i: usize = 0;
    assert(whole.take(0) =~= Seq::empty());
    while i < values.len()
        invariant
            i <= values@.len(),
            whole == items(values@, array::text_item()),
            total == text_bytes(whole.take(i as int)),
            total <= MAX_OFFSET,
        decreases values@.len() - i,
    {
        proof {
            assert(whole.take(i as int + 1).drop_last() =~= whole.take(i as int));
            text_bytes_of_prefix(whole, i as int + 1);
        }
        match &values[i] {
            Some(text) => {
                let len: usize = text.as_str().as_bytes().len();
                assert(len == encode_utf8(text@).len());
                if len > MAX_OFFSET - total {
                    return false;
                }
                total += len;
            },
            None => {},
        }
        i += 1;
    }
    assert(whole.take(i as int) =~= whole);
    true
}

/// Whether the values can be counted, and none is missing unless that is allowed.
fn values_fit<T>(
    values: &Vec<Option<T>>,
    nullable: bool,
    limit: usize,
    item: Ghost<spec_fn(T) -> Item>,
) -> (fit: bool)
    requires
        forall|value: T| #[trigger] item@(value) != Item::Null,
    ensures
        fit == (values@.len() <= limit && (nullable || !items(values@, item@).contains(Item::Null))),
{
    if values.len() > limit {
        return false;
    }
    if nullable {
        return true;
    }
    let ghost whole = items(values@, item@);
    let mut i: usize = 0;
    while i < values.len()
        invariant
            i <= values@.len(),
            !nullable,
            whole == items(values@, item@),
            forall|value: T| #[trigger] item@(value) != Item::Null,
            forall|k: int| 0 <= k < i ==> #[trigger] whole[k] != Item::Null,
        decreases values@.len() - i,
    {
        if values[i].is_none() {
            assert(whole[i as int] == Item::Null);
            return false;
        }
        i += 1;
    }
    true
}

fn text_lists_can_be_stored<R: Row>(rows: &[R], field_idx: usize, field: &Field) -> (fit: bool)
    requires
        rows_reach(rows@, field_idx as int),
    ensures
        fit == text_lists_fit(field@, cells(rows@, field_idx as int)),
{
    let ghost column = cells(rows@, field_idx as int);
    let collected = collect_lists(rows, field_idx, array_cell_to_texts);
    assert(collected is Some) by {
        if collected is None {
            let i = choose|i: int|
                0 <= i < rows@.len() && (#[trigger] column[i] matches Cell::Array(array_cell)
                    && array_cell_to_texts.ensures((&array_cell,), None));
            assert(column[i] is Array);
        }
    }
    let (layout, values) = collected.unwrap();
    let item: Ghost<spec_fn(String) -> Item> = Ghost(array::text_item());
    proof {
        encoding::text_lists_are_items(column, layout.lists@);
    }
    values_fit(&values, field.nullable, MAX_OFFSET, item) && texts_fit(&values)
}

/// Whether a column of lists can be stored, where the elements have no texts.
fn typed_lists_can_be_stored<R: Row, T, F: Fn(&ArrayCell) -> Option<Vec<Option<T>>>>(
    rows: &[R],
    field_idx: usize,
    field: &Field,
    converter: F,
    limit: usize,
    item: Ghost<spec_fn(T) -> Item>,
) -> (fit: bool)
    requires
        rows_reach(rows@, field_idx as int),
        is_encoded(field@.data_type),
        limit == if field@.data_type == TypeView::FixedSizeBinary(UUID_BYTE_WIDTH) {
            MAX_UUIDS
        } else {
            MAX_OFFSET
        },
        forall|value: T| #[trigger] item@(value) != Item::Null && !(item@(value) is Text),
        forall|array_cell: &ArrayCell| converter.requires((array_cell,)),
        forall|array_cell: &ArrayCell, list: Option<Vec<Option<T>>>| #[trigger]
            converter.ensures((array_cell,), list) ==> is_list_of(
                list,
                item@,
                typed_elements(field@.data_type, *array_cell),
            ),
    ensures
        fit == list_column_fits(field@, cells(rows@, field_idx as int)),
{
    let ghost column = cells(rows@, field_idx as int);
    match collect_lists(rows, field_idx, converter) {
        Some((layout, values)) => {
            proof {
                encoding::typed_lists_are_items(
                    field@.data_type,
                    column,
                    layout.lists@,
                    item@,
                );
                no_texts_have_no_bytes(items(values@, item@));
            }
            values_fit(&values, field.nullable, limit, item)
        },
        None => {
            proof {
                encoding::unfit_lists_become_texts(field@, column);
            }
            text_lists_can_be_stored(rows, field_idx, field)
        },
    }
}

fn string_lists_can_be_stored<R: Row>(rows: &[R], field_idx: usize, field: &Field) -> (fit: bool)
    requires
        rows_reach(rows@, field_idx as int),
        field@.data_type == TypeView::Utf8,
    ensures
        fit == list_column_fits(field@, cells(rows@, field_idx as int)),
{
    let ghost column = cells(rows@, field_idx as int);
    let item: Ghost<spec_fn(String) -> Item> = Ghost(array::text_item());
    match collect_lists(rows, field_idx, array_cell_to_strings) {
        Some((layout, values)) => {
            proof {
                encoding::typed_lists_are_items(
                    field@.data_type,
                    column,
                    layout.lists@,
                    item@,
                );
            }
            values_fit(&values, field.nullable, MAX_OFFSET, item) && texts_fit(&values)
        },
        None => {
            proof {
                encoding::unfit_lists_become_texts(field@, column);
            }
            text_lists_can_be_stored(rows, field_idx, field)
        },
    }
}

/// Whether a column of lists can be stored.
pub fn list_column_can_be_stored<R: Row>(rows: &[R], field_idx: usize, field: &Field) -> (fit: bool)
    requires
        rows_reach(rows@, field_idx as int),
    ensures
        fit == list_column_fits(field@, cells(rows@, field_idx as int)),
{
    let bools: Ghost<spec_fn(bool) -> Item> = Ghost(array::bool_item());
    let ints32: Ghost<spec_fn(i32) -> Item> = Ghost(array::int32_item());
    let ints64: Ghost<spec_fn(i64) -> Item> = Ghost(array::int64_item());
    let bits32: Ghost<spec_fn(u32) -> Item> = Ghost(array::bits32_item());
    let bits64: Ghost<spec_fn(u64) -> Item> = Ghost(array::bits64_item());
    let bytes: Ghost<spec_fn(Vec<u8>) -> Item> = Ghost(array::bytes_item());
    let uuids: Ghost<spec_fn([u8; 16]) -> Item> = Ghost(array::uuid_item());
    match &field.data_type {
        DataType::Boolean => typed_lists_can_be_stored(
            rows,
            field_idx,
            field,
            array_cell_to_bools,
            MAX_OFFSET,
            bools,
        ),
        DataType::Int32 => typed_lists_can_be_stored(
            rows,
            field_idx,
            field,
            array_cell_to_i32s,
            MAX_OFFSET,
            ints32,
        ),
        DataType::Int64 => typed_lists_can_be_stored(
            rows,
            field_idx,
            field,
            array_cell_to_i64s,
            MAX_OFFSET,
            ints64,
        ),
        DataType::Float32 => typed_lists_can_be_stored(
            rows,
            field_idx,
            field,
            array_cell_to_f32s,
            MAX_OFFSET,
            bits32,
        ),
        DataType::Float64 => typed_lists_can_be_stored(
            rows,
            field_idx,
            field,
            array_cell_to_f64s,
            MAX_OFFSET,
            bits64,
        ),
        DataType::Utf8 => string_lists_can_be_stored(rows, field_idx, field),
        DataType::LargeBinary => typed_lists_can_be_stored(
            rows,
            field_idx,
            field,
            array_cell_to_byte_strings,
            MAX_OFFSET,
            bytes,
        ),
        DataType::Date32 => typed_lists_can_be_stored(
            rows,
            field_idx,
            field,
            array_cell_to_dates,
            MAX_OFFSET,
            ints32,
        ),
        DataType::Time64(TimeUnit::Microsecond) => typed_lists_can_be_stored(
            rows,
            field_idx,
            field,
            array_cell_to_times,
            MAX_OFFSET,
            ints64,
        ),
        DataType::Timestamp(TimeUnit::Microsecond, None) => typed_lists_can_be_stored(
            rows,
            field_idx,
            field,
            array_cell_to_timestamps,
            MAX_OFFSET,
            ints64,
        ),
        DataType::Timestamp(TimeUnit::Microsecond, Some(_)) => typed_lists_can_be_stored(
            rows,
            field_idx,
            field,
            array_cell_to_timestamptzs,
            MAX_OFFSET,
            ints64,
        ),
        DataType::FixedSizeBinary(UUID_BYTE_WIDTH) => typed_lists_can_be_stored(
            rows,
            field_idx,
            field,
            array_cell_to_uuids,
            MAX_UUIDS,
            uuids,
        ),
        _ => {
            proof {
                encoding::unfit_lists_become_texts(field@, cells(rows@, field_idx as int));
            }
            text_lists_can_be_stored(rows, field_idx, field)
        },
    }
}

/// Whether a column can be stored.
pub fn column_can_be_stored<R: Row>(rows: &[R], field_idx: usize, data_type: &DataType) -> (fit: bool)
    requires
        rows_reach(rows@, field_idx as int),
    ensures
        fit == column_fits(data_type@, cells(rows@, field_idx as int)),
{
    let ghost column = cells(rows@, field_idx as int);
    match data_type {
        DataType::List(field) => list_column_can_be_stored(rows, field_idx, field),
        DataType::Boolean
        | DataType::Int32
        | DataType::Int64
        | DataType::Float32
        | DataType::Float64
        | DataType::LargeBinary
        | DataType::Date32
        | DataType::Time64(TimeUnit::Microsecond)
        | DataType::Timestamp(TimeUnit::Microsecond, _) => {
            proof {
                no_texts_have_no_bytes(scalar_items(data_type@, column));
            }
            true
        },
        DataType::FixedSizeBinary(UUID_BYTE_WIDTH) => {
            proof {
                no_texts_have_no_bytes(scalar_items(data_type@, column));
            }
            rows.len() <= MAX_UUIDS
        },
        _ => {
            let values = converted_column(rows, field_idx, cell_to_string);
            assert(items(values@, array::text_item()) =~= scalar_items(data_type@, column));
            texts_fit(&values)
        },
    }
}

/// Whether every row has a cell for every column of a schema, and every column can be stored.
pub fn rows_can_be_stored<R: Row>(rows: &[R], schema: &Schema) -> (fit: bool)
    ensures
        fit == rows_fit(rows@, schema@),
{
    let mut i: usize = 0;
    while i < rows.len()
        invariant
            i <= rows@.len(),
            forall|k: int|
                0 <= k < i ==> (#[trigger] rows@[k]).row().values@.len() >= schema.fields@.len(),
        decreases rows@.len() - i,
    {
        if rows[i].as_row().values.len() < schema.fields.len() {
            proof {
                let last = schema@.len() - 1;
                if rows_fit(rows@, schema@) {
                    assert(rows_reach(rows@, last) && column_fits(
                        schema@[last].data_type,
                        cells(rows@, last),
                    ));
                    assert(rows@[i as int].row().values@.len() > last);
                }
            }
            return false;
        }
        i += 1;
    }
    let mut i: usize = 0;
    while i < schema.fields.len()
        invariant
            i <= schema.fields@.len(),
            forall|k: int|
                0 <= k < rows@.len() ==> (#[trigger] rows@[k]).row().values@.len()
                    >= schema.fields@.len(),
            forall|k: int|
                0 <= k < i ==> rows_reach(rows@, k) && column_fits(
                    (#[trigger] schema@[k]).data_type,
                    cells(rows@, k),
                ),
        decreases schema.fields@.len() - i,
    {
        assert(schema@[i as int] == schema.fields@[i as int]@);
        if !column_can_be_stored(rows, i, &schema.fields[i].data_type) {
            return false;
        }
        i += 1;
    }
    true
}

/// Rows as a batch of columns, for any rows: nothing if a row ends before a column of the schema,
/// or if a column cannot be stored.
pub fn try_rows_to_record_batch<R: Row>(rows: &[R], schema: Schema) -> (batch: Option<
    Result<EncodedBatch, BatchError>,
>)
    ensures
        batch is Some <==> rows_fit(rows@, schema@),
        batch matches Some(result) ==> {
            &&& result is Ok <==> encoding::rows_make_batch(rows@, schema@)
            &&& result matches Ok(b) ==> {
                &&& b.fields() == schema@
                &&& b.columns() == encoding::batch_items(rows@, schema@)
            }
        },
{
    if rows_can_be_stored(rows, &schema) {
        Some(rows_to_record_batch(rows, schema))
    } else {
        None
    }
}

} // verus!
