//! Which rows can be stored, and how columns are stored that cannot have their type.

use arrow::array::ArrayData;
use vstd::prelude::*;
use vstd::utf8::encode_utf8;

use crate::batch::array;
use crate::batch::array::{EncodedBatch, Item, array_items, array_type};
use crate::batch::cells;
use crate::batch::data_type::{DataType, Field, Schema, TimeUnit, TypeView};
use crate::batch::elements;
use crate::batch::encoding;
use crate::batch::encoding::{BatchError, build_array_for_field, rows_to_record_batch};
use crate::batch::limits::{
    column_can_be_stored, list_column_can_be_stored, rows_can_be_stored, try_rows_to_record_batch,
};
use crate::batch::lists;
use crate::delta::encoding as delta_encoding;
use crate::delta::encoding::TableRowEncoder;
use crate::laws::batches::{can_hold, element_cells, is_element, is_known, stands_for};
use crate::types::{ArrayCell, Cell, Row, TableSchema};

verus! {

/// The texts among items have as many bytes as they have one by one.
pub proof fn bytes_of_texts_are_counted(left: Seq<Item>, right: Seq<Item>, item: Item)
    ensures
        array::text_bytes(left + right) == array::text_bytes(left) + array::text_bytes(right),
        array::text_bytes(seq![item]) == match item {
            Item::Text(whole) => encode_utf8(whole).len() as int,
            _ => 0,
        },
        array::text_bytes(Seq::empty()) == 0,
    decreases right.len(),
{
    reveal_with_fuel(array::text_bytes, 2);
    assert(seq![item].drop_last() =~= Seq::empty());
    if right.len() == 0 {
        assert(left + right =~= left);
    } else {
        bytes_of_texts_are_counted(left, right.drop_last(), item);
        assert((left + right).drop_last() =~= left + right.drop_last());
    }
}

/// A column of single values can be stored unless its texts take more bytes than 32 bits with a
/// sign can count, or so do the sixteen bytes of each of its identifiers.
pub proof fn columns_are_stored_up_to_their_limit<R: Row>(
    rows: &[R],
    field_idx: usize,
    data_type: &DataType,
    fit: bool,
)
    requires
        call_ensures(column_can_be_stored::<R>, (rows, field_idx, data_type), fit),
        !(data_type@ is List),
    ensures
        ({
            let items = encoding::column_items(data_type@, cells::cells(rows@, field_idx as int));
            &&& items.len() == rows@.len()
            &&& fit <==> array::text_bytes(items) <= 0x7fff_ffff && (data_type@
                == TypeView::FixedSizeBinary(16) ==> 16 * rows@.len() <= 0x7fff_ffff)
        }),
{
}

/// The elements of lists stand one list after the other.
pub proof fn elements_stand_one_list_after_the_other(lists: Seq<Item>, list: Item)
    ensures
        lists::flat_items(lists.push(list)) == lists::flat_items(lists) + match list {
            Item::List(elements) => elements,
            _ => Seq::empty(),
        },
        lists::flat_items(Seq::empty()) == Seq::<Item>::empty(),
{
    assert(lists.push(list).drop_last() =~= lists);
}

/// A column of lists can be stored unless its elements are more than 32 bits with a sign can count,
/// or so are the bytes of their texts or of their identifiers, or an element is missing where none
/// may be.
pub proof fn list_columns_are_stored_up_to_their_limit<R: Row>(
    rows: &[R],
    field_idx: usize,
    field: &Field,
    fit: bool,
)
    requires
        call_ensures(list_column_can_be_stored::<R>, (rows, field_idx, field), fit),
    ensures
        ({
            let column = cells::cells(rows@, field_idx as int);
            let elements = lists::flat_items(
                encoding::list_column_items(field@.data_type, column),
            );
            let uuids = field@.data_type == TypeView::FixedSizeBinary(16) && forall|i: int|
                0 <= i < column.len() ==> (#[trigger] column[i] matches Cell::Array(list)
                    ==> list is Uuid);
            &&& fit ==> elements.len() <= 0x7fff_ffff && array::text_bytes(elements) <= 0x7fff_ffff
            &&& fit && !field@.nullable ==> forall|i: int|
                0 <= i < elements.len() ==> #[trigger] elements[i] != Item::Null
            &&& fit && uuids ==> 16 * elements.len() <= 0x7fff_ffff
            &&& elements.len() <= 0x7fff_ffff && array::text_bytes(elements) <= 0x7fff_ffff
                && field@.nullable && (!uuids || 16 * elements.len() <= 0x7fff_ffff) ==> fit
            &&& elements.len() <= 0x7fff_ffff && array::text_bytes(elements) <= 0x7fff_ffff && (
            forall|i: int| 0 <= i < elements.len() ==> #[trigger] elements[i] != Item::Null) && (
            !uuids || 16 * elements.len() <= 0x7fff_ffff) ==> fit
        }),
{
    let column = cells::cells(rows@, field_idx as int);
    let elements = lists::flat_items(encoding::list_column_items(field@.data_type, column));
    let uuids = field@.data_type == TypeView::FixedSizeBinary(16) && forall|i: int|
        0 <= i < column.len() ==> (#[trigger] column[i] matches Cell::Array(list) ==> list is Uuid);
    if uuids {
        assert forall|i: int| 0 <= i < column.len() implies (#[trigger] column[i] matches Cell::Array(
            list,
        ) ==> elements::typed_elements(field@.data_type, list) is Some) by {}
        assert(encoding::lists_fit(field@.data_type, column));
    } else if field@.data_type == TypeView::FixedSizeBinary(16) {
        let i = choose|i: int|
            0 <= i < column.len() && !(#[trigger] column[i] matches Cell::Array(list) ==> list
                is Uuid);
        assert(elements::typed_elements(
            field@.data_type,
            column[i]->Array_0,
        ) is None);
        assert(!encoding::lists_fit(field@.data_type, column));
    }
    if fit && !field@.nullable {
        assert forall|i: int| 0 <= i < elements.len() implies #[trigger] elements[i]
            != Item::Null by {
            assert(elements.contains(elements[i]));
        }
    }
    if elements.contains(Item::Null) {
        let i = choose|i: int| 0 <= i < elements.len() && elements[i] == Item::Null;
        assert(elements[i] == Item::Null);
    }
}

/// Rows can be stored exactly if they have a cell for every column, and every column can be stored.
pub proof fn rows_are_stored_column_by_column<R: Row>(
    rows: &[R],
    schema: &Schema,
    fit: bool,
    column: int,
    column_fit: bool,
)
    requires
        call_ensures(rows_can_be_stored::<R>, (rows, schema), fit),
        0 <= column < schema@.len() <= usize::MAX,
        call_ensures(
            column_can_be_stored::<R>,
            (rows, column as usize, &schema.fields@[column].data_type),
            column_fit,
        ),
    ensures
        fit ==> column_fit,
        fit ==> forall|r: int| 0 <= r < rows@.len() ==> column < (#[trigger] rows@[r]).row().values@.len(),
        schema@.len() == 1 ==> (fit <==> column_fit && forall|r: int|
            0 <= r < rows@.len() ==> column < (#[trigger] rows@[r]).row().values@.len()),
{
    assert(schema@[column] == schema.fields@[column]@);
    if fit {
        assert(cells::rows_reach(rows@, column));
    }
}

/// Rows that can be stored are encoded as they are, and no others are.
pub proof fn rows_that_can_be_stored_are_encoded<R: Row>(
    rows: &[R],
    schema: Schema,
    fit: bool,
    tried: Option<Result<EncodedBatch, BatchError>>,
    encoded: Result<EncodedBatch, BatchError>,
)
    requires
        call_ensures(rows_can_be_stored::<R>, (rows, &schema), fit),
        call_ensures(try_rows_to_record_batch::<R>, (rows, schema), tried),
        call_ensures(rows_to_record_batch::<R>, (rows, schema), encoded),
    ensures
        tried is Some <==> fit,
        tried matches Some(result) ==> {
            &&& result is Ok <==> encoded is Ok
            &&& (result is Ok && encoded is Ok) ==> {
                &&& result->Ok_0.fields() == encoded->Ok_0.fields()
                &&& result->Ok_0.columns() == encoded->Ok_0.columns()
            }
        },
{
}

/// Rows can be stored for the kernel exactly if they have a cell for every column and the texts of
/// no column take more bytes than 32 bits with a sign can count.
pub proof fn rows_are_stored_for_the_kernel<R: Row>(
    table_schema: &TableSchema,
    table_rows: &Vec<R>,
    fit: bool,
)
    requires
        call_ensures(TableRowEncoder::rows_can_be_stored::<R>, (table_schema, table_rows), fit),
    ensures
        fit <==> forall|c: int|
            0 <= c < table_schema.column_schemas@.len() ==> #[trigger] column_is_stored(
                table_rows@,
                c,
            ),
{
    assert forall|c: int| 0 <= c < table_schema.column_schemas@.len() implies (
    #[trigger] column_is_stored(table_rows@, c) <==> delta_encoding::column_fits(
        table_rows@,
        c,
    )) by {}
    if fit {
        assert forall|c: int|
            0 <= c < table_schema.column_schemas@.len() implies #[trigger] column_is_stored(
            table_rows@,
            c,
        ) by {
            assert(delta_encoding::column_fits(table_rows@, c));
        }
    } else {
        let c = choose|c: int|
            0 <= c < table_schema.column_schemas@.len()
                && !#[trigger] delta_encoding::column_fits(table_rows@, c);
        assert(!column_is_stored(table_rows@, c));
    }
}

/// Whether every row has a cell for a column, and the texts of the column can be counted.
pub open spec fn column_is_stored<R: Row>(rows: Seq<R>, c: int) -> bool {
    &&& forall|r: int| 0 <= r < rows.len() ==> 0 <= c < (#[trigger] rows[r]).row().values@.len()
    &&& array::text_bytes(delta_encoding::column_items(cells::cells(rows, c)))
        <= 0x7fff_ffff
}

/// A column of single values has its type if that is one that cells are encoded in, and is a column
/// of texts otherwise. It holds the cells that its type can hold.
pub proof fn columns_have_their_type_or_are_texts<R: Row>(
    rows: &[R],
    field_idx: usize,
    data_type: &DataType,
    array: ArrayData,
    r: int,
)
    requires
        call_ensures(build_array_for_field::<R>, (rows, field_idx, data_type), array),
        !(data_type@ is List),
        0 <= r < rows@.len(),
    ensures
        is_encoded_type(data_type@) ==> array_type(array) == data_type@,
        !is_encoded_type(data_type@) ==> array_type(array) is Utf8,
        array_items(array).len() == rows@.len(),
        ({
            let cell = rows@[r].row().values@[field_idx as int];
            if can_hold(array_type(array), cell) {
                stands_for(array_items(array)[r], cell)
            } else {
                array_items(array)[r] == Item::Null
            }
        }),
{
    let column = cells::cells(rows@, field_idx as int);
    assert(column[r] == rows@[r].row().values@[field_idx as int]);
}

/// The types that cells are encoded in: those that some cell can be held by.
pub open spec fn is_encoded_type(data_type: TypeView) -> bool {
    match data_type {
        TypeView::Int16 | TypeView::Binary | TypeView::Decimal128(_, _) | TypeView::List(_) => false,
        TypeView::Time64(unit) => unit is Microsecond,
        TypeView::Timestamp(unit, _) => unit is Microsecond,
        TypeView::FixedSizeBinary(width) => width == 16,
        _ => true,
    }
}

/// A type that holds some cell is one that cells are encoded in.
pub proof fn known_types_are_encoded(data_type: TypeView)
    requires
        is_known(data_type),
    ensures
        is_encoded_type(data_type),
{
}

/// Whether the elements of a list are of the kind that a type holds.
pub open spec fn holds_elements(data_type: TypeView, list: ArrayCell) -> bool {
    match list {
        ArrayCell::Bool(_) => data_type is Boolean,
        ArrayCell::I16(_) | ArrayCell::I32(_) => data_type is Int32,
        ArrayCell::U32(_) | ArrayCell::I64(_) => data_type is Int64,
        ArrayCell::F32(_) => data_type is Float32,
        ArrayCell::F64(_) => data_type is Float64,
        ArrayCell::String(_) | ArrayCell::Numeric(_) | ArrayCell::Json(_) => data_type is Utf8,
        ArrayCell::Bytes(_) => data_type is LargeBinary,
        ArrayCell::Date(_) => data_type is Date32,
        ArrayCell::Time(_) => data_type == TypeView::Time64(TimeUnit::Microsecond),
        ArrayCell::Timestamp(_) => data_type == TypeView::Timestamp(TimeUnit::Microsecond, None),
        ArrayCell::TimestampTz(_) => data_type matches TypeView::Timestamp(
            TimeUnit::Microsecond,
            Some(_),
        ),
        ArrayCell::Uuid(_) => data_type == TypeView::FixedSizeBinary(16),
    }
}

/// A column of lists has its type if that holds the elements of all lists in it, and is a column of
/// lists of texts otherwise. The field of the elements keeps its name, its nullability and its
/// notes.
pub proof fn lists_have_their_type_or_are_lists_of_texts<R: Row>(
    rows: &[R],
    field_idx: usize,
    data_type: &DataType,
    array: ArrayData,
    r: int,
)
    requires
        call_ensures(build_array_for_field::<R>, (rows, field_idx, data_type), array),
        data_type@ is List,
        is_encoded_type(data_type@->List_0.data_type),
        0 <= r < rows@.len(),
    ensures
        array_items(array).len() == rows@.len(),
        array_type(array) is List,
        ({
            let field = data_type@->List_0;
            let element = array_type(array)->List_0;
            &&& element.name == field.name
            &&& element.nullable == field.nullable
            &&& element.metadata == field.metadata
            &&& element.data_type == field.data_type || element.data_type is Utf8
            &&& (forall|i: int|
                0 <= i < rows@.len() ==> ((
                #[trigger] rows@[i]).row().values@[field_idx as int] matches Cell::Array(list)
                    ==> holds_elements(field.data_type, list))) ==> element.data_type
                == field.data_type
            &&& match rows@[r].row().values@[field_idx as int] {
                Cell::Array(list) => {
                    &&& array_items(array)[r] matches Item::List(items)
                    &&& items.len() == element_cells(list).len()
                    &&& forall|i: int|
                        0 <= i < items.len() ==> is_element(
                            element.data_type,
                            element_cells(list)[i],
                            #[trigger] items[i],
                        )
                },
                _ => array_items(array)[r] == Item::Null,
            }
        }),
{
    let column = cells::cells(rows@, field_idx as int);
    let field = *data_type@->List_0;
    assert(column[r] == rows@[r].row().values@[field_idx as int]);
    if forall|i: int|
        0 <= i < rows@.len() ==> ((
        #[trigger] rows@[i]).row().values@[field_idx as int] matches Cell::Array(list)
            ==> holds_elements(field.data_type, list)) {
        assert forall|i: int| 0 <= i < column.len() implies (#[trigger] column[i] matches Cell::Array(
            list,
        ) ==> elements::typed_elements(field.data_type, list) is Some) by {
            assert(rows@[i].row().values@[field_idx as int] == column[i]);
        }
    }
    if let Cell::Array(list) = column[r] {
        if encoding::lists_fit(field.data_type, column) {
            assert(elements::typed_elements(field.data_type, list) is Some);
        }
    }
}

} // verus!
