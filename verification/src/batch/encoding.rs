//! Rows as columns of Arrow arrays.

use arrow::array::ArrayData;
use vstd::prelude::*;

use crate::batch::array;
use crate::batch::array::{EncodedBatch, Item, array_items, array_type, items};
use crate::batch::cells::{
    UUID_BYTE_WIDTH, cell_to_array_cell, cell_to_bool, cell_to_bytes, cell_to_date32, cell_to_f32,
    cell_to_f64, cell_to_i32, cell_to_i64, cell_to_string, cell_to_time64, cell_to_timestamp,
    cell_to_timestamptz, cell_to_uuid_bytes, cells, is_encoded, rows_reach, scalar_items,
};
use crate::batch::data_type;
use crate::batch::data_type::{DataType, Field, FieldView, Schema, TimeUnit, TypeView};
use crate::batch::elements::{
    array_cell_to_bools, array_cell_to_byte_strings, array_cell_to_dates, array_cell_to_f32s,
    array_cell_to_f64s, array_cell_to_i32s, array_cell_to_i64s, array_cell_to_strings,
    array_cell_to_texts, array_cell_to_times, array_cell_to_timestamps, array_cell_to_timestamptzs,
    array_cell_to_uuids, is_list_of, text_elements, typed_elements,
};
use crate::batch::lists;
use crate::batch::lists::ListLayout;
use crate::text;
use crate::types::{ArrayCell, Cell, Row};

verus! {

broadcast use text::take_one_more;

/// What a converter makes of the cells of a column.
pub(crate) fn converted_column<R: Row, T, F: Fn(&Cell) -> Option<T>>(
    rows: &[R],
    field_idx: usize,
    converter: F,
) -> (values: Vec<Option<T>>)
    requires
        rows_reach(rows@, field_idx as int),
        forall|cell: &Cell| converter.requires((cell,)),
    ensures
        values@.len() == rows@.len(),
        forall|i: int|
            0 <= i < rows@.len() ==> converter.ensures(
                (&cells(rows@, field_idx as int)[i],),
                #[trigger] values@[i],
            ),
{
    let mut values: Vec<Option<T>> = Vec::new();
    let mut i: usize = 0;
    while i < rows.len()
        invariant
            i <= rows@.len(),
            rows_reach(rows@, field_idx as int),
            forall|cell: &Cell| converter.requires((cell,)),
            values@.len() == i,
            forall|k: int|
                0 <= k < i ==> converter.ensures(
                    (&cells(rows@, field_idx as int)[k],),
                    #[trigger] values@[k],
                ),
        decreases rows@.len() - i,
    {
        values.push(converter(&rows[i].as_row().values[field_idx]));
        i += 1;
    }
    values
}

/// Whether all lists of a column fit the type of its elements.
pub open spec fn lists_fit(element: TypeView, cells: Seq<Cell>) -> bool {
    &&& is_encoded(element)
    &&& forall|i: int|
        0 <= i < cells.len() ==> (#[trigger] cells[i] matches Cell::Array(array_cell)
            ==> typed_elements(element, array_cell) is Some)
}

/// The item for a cell in a column of lists. A cell that is not a list is missing.
pub open spec fn list_cell_item(element: TypeView, typed: bool, cell: Cell) -> Item {
    match cell {
        Cell::Array(array_cell) => Item::List(
            if typed {
                typed_elements(element, array_cell)->0
            } else {
                text_elements(array_cell)
            },
        ),
        _ => Item::Null,
    }
}

/// The items of a column of lists: if one list does not fit the type of the elements, all lists
/// become lists of texts.
pub open spec fn list_column_items(element: TypeView, cells: Seq<Cell>) -> Seq<Item> {
    Seq::new(
        cells.len(),
        |i: int| list_cell_item(element, lists_fit(element, cells), cells[i]),
    )
}

/// The same field for texts.
pub open spec fn text_field(field: FieldView) -> FieldView {
    FieldView { data_type: TypeView::Utf8, ..field }
}

/// The field of the elements of a column of lists.
pub open spec fn list_column_field(field: FieldView, cells: Seq<Cell>) -> FieldView {
    if lists_fit(field.data_type, cells) {
        field
    } else {
        text_field(field)
    }
}

/// Whether values of a type are not too many for the 32-bit offsets that they are stored with.
pub open spec fn offsets_suffice(data_type: TypeView, items: Seq<Item>) -> bool {
    &&& array::text_bytes(items) <= i32::MAX
    &&& data_type == TypeView::FixedSizeBinary(UUID_BYTE_WIDTH) ==> items.len() * 16 <= i32::MAX
}

/// Whether a column of lists can be stored: the elements are not too many, and none is missing
/// unless the field of the elements allows it.
pub open spec fn list_column_fits(field: FieldView, cells: Seq<Cell>) -> bool {
    let elements = lists::flat_items(list_column_items(field.data_type, cells));
    &&& elements.len() <= i32::MAX
    &&& offsets_suffice(list_column_field(field, cells).data_type, elements)
    &&& field.nullable || !elements.contains(Item::Null)
}

/// Whether an array is the column of lists of some cells.
pub open spec fn is_list_column(array: ArrayData, field: FieldView, cells: Seq<Cell>) -> bool {
    &&& array_type(array) == TypeView::List(Box::new(list_column_field(field, cells)))
    &&& array_items(array) == list_column_items(field.data_type, cells)
}

/// The lists of a column, laid out one after the other, and their values: nothing if the
/// converter refuses one of them. A cell that is not a list is a missing list.
pub(crate) fn collect_lists<R: Row, T, F: Fn(&ArrayCell) -> Option<Vec<Option<T>>>>(
    rows: &[R],
    field_idx: usize,
    converter: F,
) -> (lists: Option<(ListLayout<T>, Vec<Option<T>>)>)
    requires
        rows_reach(rows@, field_idx as int),
        forall|array_cell: &ArrayCell| converter.requires((array_cell,)),
    ensures
        match lists {
            Some((layout, values)) => {
                &&& layout.is_valid()
                &&& values@ == lists::flat_values(layout.lists@)
                &&& layout.lists@.len() == rows@.len()
                &&& forall|i: int|
                    0 <= i < rows@.len() ==> match cells(rows@, field_idx as int)[i] {
                        Cell::Array(array_cell) => (#[trigger] layout.lists@[i]) is Some
                            && converter.ensures((&array_cell,), layout.lists@[i]),
                        _ => layout.lists@[i] is None,
                    }
            },
            None => exists|i: int|
                0 <= i < rows@.len() && (#[trigger] cells(rows@, field_idx as int)[i] matches Cell::Array(
                    array_cell,
                ) && converter.ensures((&array_cell,), None)),
        },
{
    let mut layout: ListLayout<T> = ListLayout::new();
    let mut values: Vec<Option<T>> = Vec::new();
    let mut i: usize = 0;
    while i < rows.len()
        invariant
            i <= rows@.len(),
            rows_reach(rows@, field_idx as int),
            forall|array_cell: &ArrayCell| converter.requires((array_cell,)),
            layout.is_valid(),
            values@ == lists::flat_values(layout.lists@),
            layout.lists@.len() == i,
            forall|k: int|
                0 <= k < i ==> match cells(rows@, field_idx as int)[k] {
                    Cell::Array(array_cell) => (#[trigger] layout.lists@[k]) is Some
                        && converter.ensures((&array_cell,), layout.lists@[k]),
                    _ => layout.lists@[k] is None,
                },
        decreases rows@.len() - i,
    {
        assert(cells(rows@, field_idx as int)[i as int] == rows@[i as int].row().values@[field_idx as int]);
        match cell_to_array_cell(&rows[i].as_row().values[field_idx]) {
            Some(array_cell) => {
                match converter(array_cell) {
                    Some(list) => layout.push(Some(list), &mut values),
                    None => return None,
                }
            },
            None => layout.push(None, &mut values),
        }
        i += 1;
    }
    Some((layout, values))
}

/// Lists that were converted by the type of the elements make the items of the column.
pub proof fn typed_lists_are_items<T>(
    element: TypeView,
    cells: Seq<Cell>,
    lists: Seq<Option<Vec<Option<T>>>>,
    item: spec_fn(T) -> Item,
)
    requires
        is_encoded(element),
        lists.len() == cells.len(),
        forall|i: int|
            0 <= i < cells.len() ==> match cells[i] {
                Cell::Array(array_cell) => (#[trigger] lists[i]) is Some && is_list_of(
                    lists[i],
                    item,
                    typed_elements(element, array_cell),
                ),
                _ => lists[i] is None,
            },
    ensures
        lists_fit(element, cells),
        lists::list_items(lists, item) == list_column_items(element, cells),
        items(lists::flat_values(lists), item) == lists::flat_items(
            list_column_items(element, cells),
        ),
{
    assert forall|i: int| 0 <= i < cells.len() implies (#[trigger] cells[i] matches Cell::Array(
        array_cell,
    ) ==> typed_elements(element, array_cell) is Some) by {
        assert(lists[i] is Some || lists[i] is None);
    }
    assert(lists::list_items(lists, item) =~= list_column_items(element, cells)) by {
        assert forall|i: int| 0 <= i < cells.len() implies #[trigger] lists::list_items(
            lists,
            item,
        )[i] == list_column_items(element, cells)[i] by {
            assert(lists[i] is Some || lists[i] is None);
        }
    }
    lists::items_of_flat_values(lists, item);
}

/// Lists that were converted to texts make the items of a column of lists of texts.
pub proof fn text_lists_are_items(cells: Seq<Cell>, lists: Seq<Option<Vec<Option<String>>>>)
    requires
        lists.len() == cells.len(),
        forall|i: int|
            0 <= i < cells.len() ==> match cells[i] {
                Cell::Array(array_cell) => (#[trigger] lists[i]) is Some && is_list_of(
                    lists[i],
                    array::text_item(),
                    Some(text_elements(array_cell)),
                ),
                _ => lists[i] is None,
            },
    ensures
        lists::list_items(lists, array::text_item()) == text_list_items(cells),
        items(lists::flat_values(lists), array::text_item()) == lists::flat_items(
            text_list_items(cells),
        ),
{
    let item = array::text_item();
    assert(lists::list_items(lists, item) =~= text_list_items(cells)) by {
        assert forall|i: int| 0 <= i < cells.len() implies #[trigger] lists::list_items(
            lists,
            item,
        )[i] == text_list_items(cells)[i] by {
            assert(lists[i] is Some || lists[i] is None);
        }
    }
    lists::items_of_flat_values(lists, item);
}

/// The same field for texts.
fn to_text_field(field: &Field) -> (text_field: Field)
    ensures
        text_field@ == self::text_field(field@),
{
    let mut metadata: Vec<(String, String)> = Vec::new();
    let mut i: usize = 0;
    while i < field.metadata.len()
        invariant
            i <= field.metadata@.len(),
            metadata@ == field.metadata@.take(i as int),
        decreases field.metadata@.len() - i,
    {
        let note = &field.metadata[i];
        metadata.push((note.0.clone(), note.1.clone()));
        assert(metadata@ =~= field.metadata@.take(i as int + 1));
        i += 1;
    }
    assert(field.metadata@.take(i as int) =~= field.metadata@);
    Field {
        name: field.name.clone(),
        data_type: DataType::Utf8,
        nullable: field.nullable,
        metadata,
    }
}

/// A column of lists of texts, whatever the lists hold.
pub fn build_list_array_for_strings<R: Row>(rows: &[R], field_idx: usize, field: &Field) -> (array:
    ArrayData)
    requires
        rows_reach(rows@, field_idx as int),
        text_lists_fit(field@, cells(rows@, field_idx as int)),
    ensures
        array_type(array) == TypeView::List(Box::new(text_field(field@))),
        array_items(array) == text_list_items(cells(rows@, field_idx as int)),
{
    let ghost column = cells(rows@, field_idx as int);
    let collected = collect_lists(rows, field_idx, array_cell_to_texts);
    assert(collected is Some) by {
        if collected is None {
            let i = choose|i: int|
                0 <= i < rows@.len() && (#[trigger] column[i] matches Cell::Array(array_cell)
                    && array_cell_to_texts.ensures((&array_cell,), None));
            assert(column[i] is Array);
        }
    }
    let (layout, values) = collected.unwrap();
    let item: Ghost<spec_fn(String) -> Item> = Ghost(array::text_item());
    proof {
        text_lists_are_items(column, layout.lists@);
    }
    lists::finish_lists(&to_text_field(field), layout, array::utf8_array(values), item)
}

/// The items of a column of lists of texts.
pub open spec fn text_list_items(cells: Seq<Cell>) -> Seq<Item> {
    Seq::new(cells.len(), |i: int| list_cell_item(TypeView::Utf8, false, cells[i]))
}

/// Whether a column of lists of texts can be stored.
pub open spec fn text_lists_fit(field: FieldView, cells: Seq<Cell>) -> bool {
    let elements = lists::flat_items(text_list_items(cells));
    &&& elements.len() <= i32::MAX
    &&& array::text_bytes(elements) <= i32::MAX
    &&& field.nullable || !elements.contains(Item::Null)
}

/// A column of lists that do not fit the type of the elements is a column of lists of texts.
pub proof fn unfit_lists_become_texts(field: FieldView, cells: Seq<Cell>)
    requires
        !lists_fit(field.data_type, cells),
    ensures
        list_column_items(field.data_type, cells) == text_list_items(cells),
        list_column_field(field, cells) == text_field(field),
        list_column_fits(field, cells) ==> text_lists_fit(field, cells),
{
    assert(list_column_items(field.data_type, cells) =~= text_list_items(cells));
}

/// A column of lists of truth values.
pub fn build_boolean_list_array<R: Row>(rows: &[R], field_idx: usize, field: &Field) -> (array: ArrayData)
    requires
        rows_reach(rows@, field_idx as int),
        field@.data_type == TypeView::Boolean,
        list_column_fits(field@, cells(rows@, field_idx as int)),
    ensures
        is_list_column(array, field@, cells(rows@, field_idx as int)),
{
    let ghost column = cells(rows@, field_idx as int);
    let item: Ghost<spec_fn(bool) -> Item> = Ghost(array::bool_item());
    match collect_lists(rows, field_idx, array_cell_to_bools) {
        Some((layout, values)) => {
            proof {
                typed_lists_are_items(field@.data_type, column, layout.lists@, item@);
            }
            lists::finish_lists(field, layout, array::boolean_array(values), item)
        },
        None => {
            proof {
                unfit_lists_become_texts(field@, column);
            }
            build_list_array_for_strings(rows, field_idx, field)
        },
    }
}

/// A column of lists of 32-bit integers.
pub fn build_int32_list_array<R: Row>(rows: &[R], field_idx: usize, field: &Field) -> (array: ArrayData)
    requires
        rows_reach(rows@, field_idx as int),
        field@.data_type == TypeView::Int32,
        list_column_fits(field@, cells(rows@, field_idx as int)),
    ensures
        is_list_column(array, field@, cells(rows@, field_idx as int)),
{
    let ghost column = cells(rows@, field_idx as int);
    let item: Ghost<spec_fn(i32) -> Item> = Ghost(array::int32_item());
    match collect_lists(rows, field_idx, array_cell_to_i32s) {
        Some((layout, values)) => {
            proof {
                typed_lists_are_items(field@.data_type, column, layout.lists@, item@);
            }
            lists::finish_lists(field, layout, array::int32_array(values), item)
        },
        None => {
            proof {
                unfit_lists_become_texts(field@, column);
            }
            build_list_array_for_strings(rows, field_idx, field)
        },
    }
}

/// A column of lists of 64-bit integers.
pub fn build_int64_list_array<R: Row>(rows: &[R], field_idx: usize, field: &Field) -> (array: ArrayData)
    requires
        rows_reach(rows@, field_idx as int),
        field@.data_type == TypeView::Int64,
        list_column_fits(field@, cells(rows@, field_idx as int)),
    ensures
        is_list_column(array, field@, cells(rows@, field_idx as int)),
{
    let ghost column = cells(rows@, field_idx as int);
    let item: Ghost<spec_fn(i64) -> Item> = Ghost(array::int64_item());
    match collect_lists(rows, field_idx, array_cell_to_i64s) {
        Some((layout, values)) => {
            proof {
                typed_lists_are_items(field@.data_type, column, layout.lists@, item@);
            }
            lists::finish_lists(field, layout, array::int64_array(values), item)
        },
        None => {
            proof {
                unfit_lists_become_texts(field@, column);
            }
            build_list_array_for_strings(rows, field_idx, field)
        },
    }
}

/// A column of lists of 32-bit floats.
pub fn build_float32_list_array<R: Row>(rows: &[R], field_idx: usize, field: &Field) -> (array: ArrayData)
    requires
        rows_reach(rows@, field_idx as int),
        field@.data_type == TypeView::Float32,
        list_column_fits(field@, cells(rows@, field_idx as int)),
    ensures
        is_list_column(array, field@, cells(rows@, field_idx as int)),
{
    let ghost column = cells(rows@, field_idx as int);
    let item: Ghost<spec_fn(u32) -> Item> = Ghost(array::bits32_item());
    match collect_lists(rows, field_idx, array_cell_to_f32s) {
        Some((layout, values)) => {
            proof {
                typed_lists_are_items(field@.data_type, column, layout.lists@, item@);
            }
            lists::finish_lists(field, layout, array::float32_array(values), item)
        },
        None => {
            proof {
                unfit_lists_become_texts(field@, column);
            }
            build_list_array_for_strings(rows, field_idx, field)
        },
    }
}

/// A column of lists of 64-bit floats.
pub fn build_float64_list_array<R: Row>(rows: &[R], field_idx: usize, field: &Field) -> (array: ArrayData)
    requires
        rows_reach(rows@, field_idx as int),
        field@.data_type == TypeView::Float64,
        list_column_fits(field@, cells(rows@, field_idx as int)),
    ensures
        is_list_column(array, field@, cells(rows@, field_idx as int)),
{
    let ghost column = cells(rows@, field_idx as int);
    let item: Ghost<spec_fn(u64) -> Item> = Ghost(array::bits64_item());
    match collect_lists(rows, field_idx, array_cell_to_f64s) {
        Some((layout, values)) => {
            proof {
                typed_lists_are_items(field@.data_type, column, layout.lists@, item@);
            }
            lists::finish_lists(field, layout, array::float64_array(values), item)
        },
        None => {
            proof {
                unfit_lists_become_texts(field@, column);
            }
            build_list_array_for_strings(rows, field_idx, field)
        },
    }
}

/// A column of lists of texts. Lists of texts, numbers of any size and JSON values fit it.
pub fn build_string_list_array<R: Row>(rows: &[R], field_idx: usize, field: &Field) -> (array: ArrayData)
    requires
        rows_reach(rows@, field_idx as int),
        field@.data_type == TypeView::Utf8,
        list_column_fits(field@, cells(rows@, field_idx as int)),
    ensures
        is_list_column(array, field@, cells(rows@, field_idx as int)),
{
    let ghost column = cells(rows@, field_idx as int);
    let item: Ghost<spec_fn(String) -> Item> = Ghost(array::text_item());
    match collect_lists(rows, field_idx, array_cell_to_strings) {
        Some((layout, values)) => {
            proof {
                typed_lists_are_items(field@.data_type, column, layout.lists@, item@);
            }
            lists::finish_lists(field, layout, array::utf8_array(values), item)
        },
        None => {
            proof {
                unfit_lists_become_texts(field@, column);
            }
            build_list_array_for_strings(rows, field_idx, field)
        },
    }
}

/// A column of lists of raw bytes.
pub fn build_binary_list_array<R: Row>(rows: &[R], field_idx: usize, field: &Field) -> (array: ArrayData)
    requires
        rows_reach(rows@, field_idx as int),
        field@.data_type == TypeView::LargeBinary,
        list_column_fits(field@, cells(rows@, field_idx as int)),
    ensures
        is_list_column(array, field@, cells(rows@, field_idx as int)),
{
    let ghost column = cells(rows@, field_idx as int);
    let item: Ghost<spec_fn(Vec<u8>) -> Item> = Ghost(array::bytes_item());
    match collect_lists(rows, field_idx, array_cell_to_byte_strings) {
        Some((layout, values)) => {
            proof {
                typed_lists_are_items(field@.data_type, column, layout.lists@, item@);
            }
            lists::finish_lists(field, layout, array::large_binary_array(values), item)
        },
        None => {
            proof {
                unfit_lists_become_texts(field@, column);
            }
            build_list_array_for_strings(rows, field_idx, field)
        },
    }
}

/// A column of lists of days.
pub fn build_date32_list_array<R: Row>(rows: &[R], field_idx: usize, field: &Field) -> (array: ArrayData)
    requires
        rows_reach(rows@, field_idx as int),
        field@.data_type == TypeView::Date32,
        list_column_fits(field@, cells(rows@, field_idx as int)),
    ensures
        is_list_column(array, field@, cells(rows@, field_idx as int)),
{
    let ghost column = cells(rows@, field_idx as int);
    let item: Ghost<spec_fn(i32) -> Item> = Ghost(array::int32_item());
    match collect_lists(rows, field_idx, array_cell_to_dates) {
        Some((layout, values)) => {
            proof {
                typed_lists_are_items(field@.data_type, column, layout.lists@, item@);
            }
            lists::finish_lists(field, layout, array::date32_array(values), item)
        },
        None => {
            proof {
                unfit_lists_become_texts(field@, column);
            }
            build_list_array_for_strings(rows, field_idx, field)
        },
    }
}

/// A column of lists of times of day.
pub fn build_time64_list_array<R: Row>(rows: &[R], field_idx: usize, field: &Field) -> (array: ArrayData)
    requires
        rows_reach(rows@, field_idx as int),
        field@.data_type == TypeView::Time64(TimeUnit::Microsecond),
        list_column_fits(field@, cells(rows@, field_idx as int)),
    ensures
        is_list_column(array, field@, cells(rows@, field_idx as int)),
{
    let ghost column = cells(rows@, field_idx as int);
    let item: Ghost<spec_fn(i64) -> Item> = Ghost(array::int64_item());
    match collect_lists(rows, field_idx, array_cell_to_times) {
        Some((layout, values)) => {
            proof {
                typed_lists_are_items(field@.data_type, column, layout.lists@, item@);
            }
            lists::finish_lists(field, layout, array::time64_array(values), item)
        },
        None => {
            proof {
                unfit_lists_become_texts(field@, column);
            }
            build_list_array_for_strings(rows, field_idx, field)
        },
    }
}

/// A column of lists of timestamps without a time zone.
pub fn build_timestamp_list_array<R: Row>(rows: &[R], field_idx: usize, field: &Field) -> (array: ArrayData)
    requires
        rows_reach(rows@, field_idx as int),
        field@.data_type == TypeView::Timestamp(TimeUnit::Microsecond, None),
        list_column_fits(field@, cells(rows@, field_idx as int)),
    ensures
        is_list_column(array, field@, cells(rows@, field_idx as int)),
{
    let ghost column = cells(rows@, field_idx as int);
    let item: Ghost<spec_fn(i64) -> Item> = Ghost(array::int64_item());
    match collect_lists(rows, field_idx, array_cell_to_timestamps) {
        Some((layout, values)) => {
            proof {
                typed_lists_are_items(field@.data_type, column, layout.lists@, item@);
            }
            lists::finish_lists(field, layout, array::timestamp_array(values, None), item)
        },
        None => {
            proof {
                unfit_lists_become_texts(field@, column);
            }
            build_list_array_for_strings(rows, field_idx, field)
        },
    }
}

/// A column of lists of identifiers.
pub fn build_uuid_list_array<R: Row>(rows: &[R], field_idx: usize, field: &Field) -> (array: ArrayData)
    requires
        rows_reach(rows@, field_idx as int),
        field@.data_type == TypeView::FixedSizeBinary(UUID_BYTE_WIDTH),
        list_column_fits(field@, cells(rows@, field_idx as int)),
    ensures
        is_list_column(array, field@, cells(rows@, field_idx as int)),
{
    let ghost column = cells(rows@, field_idx as int);
    let item: Ghost<spec_fn([u8; 16]) -> Item> = Ghost(array::uuid_item());
    match collect_lists(rows, field_idx, array_cell_to_uuids) {
        Some((layout, values)) => {
            proof {
                typed_lists_are_items(field@.data_type, column, layout.lists@, item@);
            }
            lists::finish_lists(field, layout, array::uuid_array(values, UUID_BYTE_WIDTH), item)
        },
        None => {
            proof {
                unfit_lists_become_texts(field@, column);
            }
            build_list_array_for_strings(rows, field_idx, field)
        },
    }
}

/// A column of lists of instants.
pub fn build_timestamptz_list_array<R: Row>(rows: &[R], field_idx: usize, field: &Field) -> (array:
    ArrayData)
    requires
        rows_reach(rows@, field_idx as int),
        field@.data_type matches TypeView::Timestamp(TimeUnit::Microsecond, Some(_)),
        list_column_fits(field@, cells(rows@, field_idx as int)),
    ensures
        is_list_column(array, field@, cells(rows@, field_idx as int)),
{
    let ghost column = cells(rows@, field_idx as int);
    let item: Ghost<spec_fn(i64) -> Item> = Ghost(array::int64_item());
    let zone = match &field.data_type {
        DataType::Timestamp(_, Some(zone)) => Some(zone),
        _ => None,
    };
    match collect_lists(rows, field_idx, array_cell_to_timestamptzs) {
        Some((layout, values)) => {
            proof {
                typed_lists_are_items(field@.data_type, column, layout.lists@, item@);
            }
            lists::finish_lists(field, layout, array::timestamp_array(values, zone), item)
        },
        None => {
            proof {
                unfit_lists_become_texts(field@, column);
            }
            build_list_array_for_strings(rows, field_idx, field)
        },
    }
}

/// A column of lists.
pub fn build_list_array<R: Row>(rows: &[R], field_idx: usize, field: &Field) -> (array: ArrayData)
    requires
        rows_reach(rows@, field_idx as int),
        list_column_fits(field@, cells(rows@, field_idx as int)),
    ensures
        is_list_column(array, field@, cells(rows@, field_idx as int)),
{
    match &field.data_type {
        DataType::Boolean => build_boolean_list_array(rows, field_idx, field),
        DataType::Int32 => build_int32_list_array(rows, field_idx, field),
        DataType::Int64 => build_int64_list_array(rows, field_idx, field),
        DataType::Float32 => build_float32_list_array(rows, field_idx, field),
        DataType::Float64 => build_float64_list_array(rows, field_idx, field),
        DataType::Utf8 => build_string_list_array(rows, field_idx, field),
        DataType::LargeBinary => build_binary_list_array(rows, field_idx, field),
        DataType::Date32 => build_date32_list_array(rows, field_idx, field),
        DataType::Time64(TimeUnit::Microsecond) => build_time64_list_array(rows, field_idx, field),
        DataType::Timestamp(TimeUnit::Microsecond, None) => build_timestamp_list_array(
            rows,
            field_idx,
            field,
        ),
        DataType::Timestamp(TimeUnit::Microsecond, Some(_)) => build_timestamptz_list_array(
            rows,
            field_idx,
            field,
        ),
        DataType::FixedSizeBinary(UUID_BYTE_WIDTH) => build_uuid_list_array(rows, field_idx, field),
        _ => {
            proof {
                unfit_lists_become_texts(field@, cells(rows@, field_idx as int));
            }
            build_list_array_for_strings(rows, field_idx, field)
        },
    }
}

/// The items of a column.
pub open spec fn column_items(data_type: TypeView, cells: Seq<Cell>) -> Seq<Item> {
    match data_type {
        TypeView::List(element) => list_column_items(element.data_type, cells),
        _ => scalar_items(data_type, cells),
    }
}

/// The type that a column is encoded in.
pub open spec fn column_type(data_type: TypeView, cells: Seq<Cell>) -> TypeView {
    match data_type {
        TypeView::List(element) => TypeView::List(Box::new(list_column_field(*element, cells))),
        _ => if is_encoded(data_type) {
            data_type
        } else {
            TypeView::Utf8
        },
    }
}

/// Whether a column can be stored.
pub open spec fn column_fits(data_type: TypeView, cells: Seq<Cell>) -> bool {
    match data_type {
        TypeView::List(element) => list_column_fits(*element, cells),
        _ => offsets_suffice(column_type(data_type, cells), scalar_items(data_type, cells)),
    }
}

/// A column of truth values.
pub fn build_boolean_array<R: Row>(rows: &[R], field_idx: usize) -> (array: ArrayData)
    requires
        rows_reach(rows@, field_idx as int),
    ensures
        array_type(array) == TypeView::Boolean,
        array_items(array) == scalar_items(TypeView::Boolean, cells(rows@, field_idx as int)),
{
    let array = array::boolean_array(converted_column(rows, field_idx, cell_to_bool));
    assert(array_items(array) =~= scalar_items(TypeView::Boolean, cells(rows@, field_idx as int)));
    array
}

/// A column of texts.
pub fn build_string_array<R: Row>(rows: &[R], field_idx: usize) -> (array: ArrayData)
    requires
        rows_reach(rows@, field_idx as int),
        array::text_bytes(scalar_items(TypeView::Utf8, cells(rows@, field_idx as int))) <= i32::MAX,
    ensures
        array_type(array) == TypeView::Utf8,
        array_items(array) == scalar_items(TypeView::Utf8, cells(rows@, field_idx as int)),
{
    let values = converted_column(rows, field_idx, cell_to_string);
    assert(items(values@, array::text_item()) =~= scalar_items(
        TypeView::Utf8,
        cells(rows@, field_idx as int),
    ));
    array::utf8_array(values)
}

/// A column of raw bytes.
pub fn build_binary_array<R: Row>(rows: &[R], field_idx: usize) -> (array: ArrayData)
    requires
        rows_reach(rows@, field_idx as int),
    ensures
        array_type(array) == TypeView::LargeBinary,
        array_items(array) == scalar_items(TypeView::LargeBinary, cells(rows@, field_idx as int)),
{
    let array = array::large_binary_array(converted_column(rows, field_idx, cell_to_bytes));
    assert(array_items(array) =~= scalar_items(
        TypeView::LargeBinary,
        cells(rows@, field_idx as int),
    ));
    array
}

/// A column of instants, with the name of a time zone.
pub fn build_timestamptz_array<R: Row>(rows: &[R], field_idx: usize, tz: &String) -> (array: ArrayData)
    requires
        rows_reach(rows@, field_idx as int),
    ensures
        array_type(array) == TypeView::Timestamp(TimeUnit::Microsecond, Some(tz@)),
        array_items(array) == scalar_items(
            TypeView::Timestamp(TimeUnit::Microsecond, Some(tz@)),
            cells(rows@, field_idx as int),
        ),
{
    let values = converted_column(rows, field_idx, cell_to_timestamptz);
    assert(items(values@, array::int64_item()) =~= scalar_items(
        TypeView::Timestamp(TimeUnit::Microsecond, Some(tz@)),
        cells(rows@, field_idx as int),
    ));
    array::timestamp_array(values, Some(tz))
}

/// A column of identifiers.
pub fn build_uuid_array<R: Row>(rows: &[R], field_idx: usize) -> (array: ArrayData)
    requires
        rows_reach(rows@, field_idx as int),
        rows@.len() * 16 <= i32::MAX,
    ensures
        array_type(array) == TypeView::FixedSizeBinary(UUID_BYTE_WIDTH),
        array_items(array) == scalar_items(
            TypeView::FixedSizeBinary(UUID_BYTE_WIDTH),
            cells(rows@, field_idx as int),
        ),
{
    let values = converted_column(rows, field_idx, cell_to_uuid_bytes);
    assert(items(values@, array::uuid_item()) =~= scalar_items(
        TypeView::FixedSizeBinary(UUID_BYTE_WIDTH),
        cells(rows@, field_idx as int),
    ));
    array::uuid_array(values, UUID_BYTE_WIDTH)
}

/// A column of a type. A cell that does not fit the type is missing. A type that is not encoded
/// is replaced by text.
pub fn build_array_for_field<R: Row>(rows: &[R], field_idx: usize, data_type: &DataType) -> (array:
    ArrayData)
    requires
        rows_reach(rows@, field_idx as int),
        column_fits(data_type@, cells(rows@, field_idx as int)),
    ensures
        array_type(array) == column_type(data_type@, cells(rows@, field_idx as int)),
        array_items(array) == column_items(data_type@, cells(rows@, field_idx as int)),
{
    let array = match data_type {
        DataType::Boolean => build_boolean_array(rows, field_idx),
        DataType::Int32 => array::int32_array(converted_column(rows, field_idx, cell_to_i32)),
        DataType::Int64 => array::int64_array(converted_column(rows, field_idx, cell_to_i64)),
        DataType::Float32 => array::float32_array(converted_column(rows, field_idx, cell_to_f32)),
        DataType::Float64 => array::float64_array(converted_column(rows, field_idx, cell_to_f64)),
        DataType::Utf8 => build_string_array(rows, field_idx),
        DataType::LargeBinary => build_binary_array(rows, field_idx),
        DataType::Date32 => array::date32_array(converted_column(rows, field_idx, cell_to_date32)),
        DataType::Time64(TimeUnit::Microsecond) => array::time64_array(
            converted_column(rows, field_idx, cell_to_time64),
        ),
        DataType::Timestamp(TimeUnit::Microsecond, Some(tz)) => build_timestamptz_array(
            rows,
            field_idx,
            tz,
        ),
        DataType::Timestamp(TimeUnit::Microsecond, None) => array::timestamp_array(
            converted_column(rows, field_idx, cell_to_timestamp),
            None,
        ),
        DataType::FixedSizeBinary(UUID_BYTE_WIDTH) => build_uuid_array(rows, field_idx),
        DataType::List(field) => build_list_array(rows, field_idx, field),
        _ => {
            assert(scalar_items(TypeView::Utf8, cells(rows@, field_idx as int)) =~= scalar_items(
                data_type@,
                cells(rows@, field_idx as int),
            ));
            build_string_array(rows, field_idx)
        },
    };
    assert(array_items(array) =~= column_items(data_type@, cells(rows@, field_idx as int)));
    array
}

/// The reason for which rows make no batch: the text of Arrow's `InvalidArgumentError`.
#[derive(Debug, Clone, PartialEq, Eq)]
pub struct BatchError {
    /// What Arrow says.
    pub message: String,
}

/// The types of the columns that rows make.
pub open spec fn batch_types<R: Row>(rows: Seq<R>, schema: Seq<FieldView>) -> Seq<TypeView> {
    Seq::new(schema.len(), |i: int| column_type(schema[i].data_type, cells(rows, i)))
}

/// The columns that rows make.
pub open spec fn batch_items<R: Row>(rows: Seq<R>, schema: Seq<FieldView>) -> Seq<Seq<Item>> {
    Seq::new(schema.len(), |i: int| column_items(schema[i].data_type, cells(rows, i)))
}

/// Whether rows have a cell for every column of a schema, and the columns can be stored.
pub open spec fn rows_fit<R: Row>(rows: Seq<R>, schema: Seq<FieldView>) -> bool {
    forall|i: int|
        0 <= i < schema.len() ==> rows_reach(rows, i) && column_fits(
            (#[trigger] schema[i]).data_type,
            cells(rows, i),
        )
}

/// Whether rows make a batch with a schema: every column has the type of its field, no value is
/// missing in a column that does not allow it, and there is a column.
pub open spec fn rows_make_batch<R: Row>(rows: Seq<R>, schema: Seq<FieldView>) -> bool {
    &&& schema.len() > 0
    &&& forall|i: int|
        0 <= i < schema.len() ==> {
            &&& column_type((#[trigger] schema[i]).data_type, cells(rows, i)) == schema[i].data_type
            &&& schema[i].nullable || !column_items(schema[i].data_type, cells(rows, i)).contains(
                Item::Null,
            )
        }
}

/// Rows as a batch of columns.
pub fn rows_to_record_batch<R: Row>(rows: &[R], schema: Schema) -> (batch: Result<
    EncodedBatch,
    BatchError,
>)
    requires
        rows_fit(rows@, schema@),
    ensures
        batch is Ok <==> rows_make_batch(rows@, schema@),
        batch matches Ok(b) ==> {
            &&& b.fields() == schema@
            &&& b.columns() == batch_items(rows@, schema@)
        },
{
    let mut arrays: Vec<ArrayData> = Vec::new();
    let mut fields: Vec<arrow::datatypes::Field> = Vec::new();
    let mut i: usize = 0;
    while i < schema.fields.len()
        invariant
            i <= schema.fields@.len(),
            rows_fit(rows@, schema@),
            array::fields_held(fields@) == schema@.take(i as int),
            array::array_types(arrays@) == batch_types(rows@, schema@).take(i as int),
            array::array_columns(arrays@) == batch_items(rows@, schema@).take(i as int),
        decreases schema.fields@.len() - i,
    {
        let field = &schema.fields[i];
        assert(schema@[i as int] == field@);
        let array = build_array_for_field(rows, i, &field.data_type);
        let arrow_field = data_type::arrow_field(field);
        proof {
            assert(array::fields_held(fields@.push(arrow_field)) =~= array::fields_held(
                fields@,
            ).push(field@));
            assert(array::array_types(arrays@.push(array)) =~= array::array_types(arrays@).push(
                array_type(array),
            ));
            assert(array::array_columns(arrays@.push(array)) =~= array::array_columns(
                arrays@,
            ).push(array_items(array)));
        }
        arrays.push(array);
        fields.push(arrow_field);
        i += 1;
    }
    proof {
        assert(schema@.take(i as int) =~= schema@);
        assert(batch_types(rows@, schema@).take(i as int) =~= batch_types(rows@, schema@));
        assert(batch_items(rows@, schema@).take(i as int) =~= batch_items(rows@, schema@));
        rows_make_batch_of_columns(rows@, schema@);
        assert forall|k: int| 0 <= k < arrays@.len() implies array::is_column_type(
            array_type(#[trigger] arrays@[k]),
        ) by {
            assert(array::array_types(arrays@)[k] == batch_types(rows@, schema@)[k]);
        }
    }
    match EncodedBatch::try_new(fields, arrays) {
        Ok(batch) => Ok(batch),
        Err(message) => Err(BatchError { message }),
    }
}

/// Every column that rows make has one item for each row.
pub proof fn columns_are_as_long_as_rows<R: Row>(rows: Seq<R>, schema: Seq<FieldView>, i: int)
    requires
        0 <= i < schema.len(),
    ensures
        batch_items(rows, schema)[i].len() == rows.len(),
{
}

proof fn rows_make_batch_of_columns<R: Row>(rows: Seq<R>, schema: Seq<FieldView>)
    ensures
        rows_make_batch(rows, schema) <==> array::makes_batch(
            schema,
            batch_types(rows, schema),
            batch_items(rows, schema),
        ),
{
    let columns = batch_items(rows, schema);
    if array::makes_batch(schema, batch_types(rows, schema), columns) {
        assert forall|i: int| 0 <= i < schema.len() implies {
            &&& column_type((#[trigger] schema[i]).data_type, cells(rows, i)) == schema[i].data_type
            &&& schema[i].nullable || !column_items(schema[i].data_type, cells(rows, i)).contains(
                Item::Null,
            )
        } by {
            assert(columns[i].len() == columns[0].len());
        }
    }
    if rows_make_batch(rows, schema) {
        assert forall|i: int| 0 <= i < columns.len() implies {
            &&& #[trigger] columns[i].len() == columns[0].len()
            &&& schema[i].data_type == batch_types(rows, schema)[i]
            &&& schema[i].nullable || !columns[i].contains(Item::Null)
        } by {
            assert(column_type(schema[i].data_type, cells(rows, i)) == schema[i].data_type);
        }
    }
}

} // verus!
