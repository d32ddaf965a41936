//! Arrow arrays and batches, and what they hold.

use std::sync::Arc;

use arrow::array::{
    ArrayData, ArrowPrimitiveType, BooleanArray, Date32Array, FixedSizeBinaryArray, Float32Array,
    Float64Array, Int32Array, Int64Array, LargeBinaryArray, ListArray, RecordBatch, StringArray,
    StructArray, Time64MicrosecondArray, TimestampMicrosecondArray, make_array,
};
use arrow::buffer::{NullBuffer, OffsetBuffer};
use arrow::datatypes::{Field as ArrowField, Float32Type, Float64Type, Schema as ArrowSchema};
use vstd::prelude::*;
use vstd::utf8::encode_utf8;

use crate::batch::cells::is_encoded;
use crate::batch::data_type;
use crate::batch::data_type::{FieldView, TimeUnit, TypeView};

verus! {

/// Declares `arrow::array::ArrayData`, a column of values.
#[verifier::external_type_specification]
#[verifier::external_body]
pub struct ExArrayData(ArrayData);

/// A value in a column.
pub enum Item {
    /// No value.
    Null,
    /// A truth value.
    Bool(bool),
    /// A number.
    Int(int),
    /// The bits of a float.
    Bits(nat),
    /// A text.
    Text(Seq<char>),
    /// Raw bytes.
    Bytes(Seq<u8>),
    /// A list of values.
    List(Seq<Item>),
}

/// The values of an array, in order.
pub uninterp spec fn array_items(array: ArrayData) -> Seq<Item>;

/// The type of an array.
pub uninterp spec fn array_type(array: ArrayData) -> TypeView;

/// Whether an array is a struct array, so that its columns are as long as itself.
pub uninterp spec fn is_struct(array: ArrayData) -> bool;

/// The columns of a struct array, in order.
pub uninterp spec fn struct_columns(array: ArrayData) -> Seq<Seq<Item>>;

/// The fields of a struct array, in order.
pub uninterp spec fn struct_fields(array: ArrayData) -> Seq<FieldView>;

/// The items for some values, of which some may be missing.
pub open spec fn items<T>(values: Seq<Option<T>>, item: spec_fn(T) -> Item) -> Seq<Item> {
    Seq::new(
        values.len(),
        |i: int|
            match values[i] {
                Some(value) => item(value),
                None => Item::Null,
            },
    )
}

/// The item for a truth value.
pub open spec fn bool_item() -> spec_fn(bool) -> Item {
    |value: bool| Item::Bool(value)
}

/// The item for a 32-bit integer.
pub open spec fn int32_item() -> spec_fn(i32) -> Item {
    |value: i32| Item::Int(value as int)
}

/// The item for a 64-bit integer.
pub open spec fn int64_item() -> spec_fn(i64) -> Item {
    |value: i64| Item::Int(value as int)
}

/// The item for the bits of a 32-bit float.
pub open spec fn bits32_item() -> spec_fn(u32) -> Item {
    |value: u32| Item::Bits(value as nat)
}

/// The item for the bits of a 64-bit float.
pub open spec fn bits64_item() -> spec_fn(u64) -> Item {
    |value: u64| Item::Bits(value as nat)
}

/// The item for a text.
pub open spec fn text_item() -> spec_fn(String) -> Item {
    |value: String| Item::Text(value@)
}

/// The item for raw bytes.
pub open spec fn bytes_item() -> spec_fn(Vec<u8>) -> Item {
    |value: Vec<u8>| Item::Bytes(value@)
}

/// The item for an identifier: its bytes.
pub open spec fn uuid_item() -> spec_fn([u8; 16]) -> Item {
    |value: [u8; 16]| Item::Bytes(value@)
}

/// The number of bytes that the texts among the items take.
pub open spec fn text_bytes(items: Seq<Item>) -> nat
    decreases items.len(),
{
    if items.len() == 0 {
        0
    } else {
        text_bytes(items.drop_last()) + match items.last() {
            Item::Text(text) => encode_utf8(text).len(),
            _ => 0,
        }
    }
}

/// Makes a `BooleanArray` of the values.
#[verifier::external_body]
pub(crate) fn boolean_array(values: Vec<Option<bool>>) -> (array: ArrayData)
    ensures
        array_type(array) == TypeView::Boolean,
        array_items(array) == items(values@, bool_item()),
{
    BooleanArray::from(values).into()
}

/// Makes an `Int32Array` of the values.
#[verifier::external_body]
pub(crate) fn int32_array(values: Vec<Option<i32>>) -> (array: ArrayData)
    ensures
        array_type(array) == TypeView::Int32,
        array_items(array) == items(values@, int32_item()),
{
    Int32Array::from(values).into()
}

/// Makes an `Int64Array` of the values.
#[verifier::external_body]
pub(crate) fn int64_array(values: Vec<Option<i64>>) -> (array: ArrayData)
    ensures
        array_type(array) == TypeView::Int64,
        array_items(array) == items(values@, int64_item()),
{
    Int64Array::from(values).into()
}

/// Makes a `Float32Array` of the floats with these bits.
#[verifier::external_body]
pub(crate) fn float32_array(values: Vec<Option<u32>>) -> (array: ArrayData)
    ensures
        array_type(array) == TypeView::Float32,
        array_items(array) == items(values@, bits32_item()),
{
    let from_bits = <Float32Type as ArrowPrimitiveType>::Native::from_bits;
    values.into_iter().map(|bits| bits.map(from_bits)).collect::<Float32Array>().into()
}

/// Makes a `Float64Array` of the floats with these bits.
#[verifier::external_body]
pub(crate) fn float64_array(values: Vec<Option<u64>>) -> (array: ArrayData)
    ensures
        array_type(array) == TypeView::Float64,
        array_items(array) == items(values@, bits64_item()),
{
    let from_bits = <Float64Type as ArrowPrimitiveType>::Native::from_bits;
    values.into_iter().map(|bits| bits.map(from_bits)).collect::<Float64Array>().into()
}

/// Makes a `StringArray` of the texts. It has 32-bit offsets, so that all texts together must not
/// take more bytes than such an offset can count.
#[verifier::external_body]
pub(crate) fn utf8_array(values: Vec<Option<String>>) -> (array: ArrayData)
    requires
        text_bytes(items(values@, text_item())) <= i32::MAX,
    ensures
        array_type(array) == TypeView::Utf8,
        array_items(array) == items(values@, text_item()),
{
    StringArray::from(values).into()
}

/// Makes a `LargeBinaryArray` of the bytes.
#[verifier::external_body]
pub(crate) fn large_binary_array(values: Vec<Option<Vec<u8>>>) -> (array: ArrayData)
    ensures
        array_type(array) == TypeView::LargeBinary,
        array_items(array) == items(values@, bytes_item()),
{
    values.into_iter().collect::<LargeBinaryArray>().into()
}

/// Makes a `Date32Array` of the days.
#[verifier::external_body]
pub(crate) fn date32_array(values: Vec<Option<i32>>) -> (array: ArrayData)
    ensures
        array_type(array) == TypeView::Date32,
        array_items(array) == items(values@, int32_item()),
{
    Date32Array::from(values).into()
}

/// Makes a `Time64MicrosecondArray` of the times.
#[verifier::external_body]
pub(crate) fn time64_array(values: Vec<Option<i64>>) -> (array: ArrayData)
    ensures
        array_type(array) == TypeView::Time64(TimeUnit::Microsecond),
        array_items(array) == items(values@, int64_item()),
{
    Time64MicrosecondArray::from(values).into()
}

/// Makes a `TimestampMicrosecondArray` of the times, with the time zone if there is one.
#[verifier::external_body]
pub(crate) fn timestamp_array(values: Vec<Option<i64>>, zone: Option<&String>) -> (array: ArrayData)
    ensures
        array_type(array) == TypeView::Timestamp(
            TimeUnit::Microsecond,
            match zone {
                Some(name) => Some(name@),
                None => None,
            },
        ),
        array_items(array) == items(values@, int64_item()),
{
    TimestampMicrosecondArray::from(values).with_timezone_opt(zone.map(|name| name.as_str())).into()
}

/// Makes a `FixedSizeBinaryArray` of the bytes of the identifiers. It has 32-bit offsets, so that
/// all identifiers together must not take more bytes than such an offset can count.
#[verifier::external_body]
pub(crate) fn uuid_array(values: Vec<Option<[u8; 16]>>, width: i32) -> (array: ArrayData)
    requires
        width == 16,
        values@.len() * 16 <= i32::MAX,
    ensures
        array_type(array) == TypeView::FixedSizeBinary(width),
        array_items(array) == items(values@, uuid_item()),
{
    FixedSizeBinaryArray::try_from_sparse_iter_with_size(values.into_iter(), width).unwrap().into()
}

/// The sum of the first `n` lengths.
pub open spec fn offset(lengths: Seq<usize>, n: nat) -> nat
    decreases n,
{
    if n == 0 {
        0
    } else {
        offset(lengths, (n - 1) as nat) + lengths[n - 1] as nat
    }
}

/// Makes a `ListArray` with `ListArray::new`: list `i` takes the next `lengths[i]` values, and is
/// missing where `present[i]` is not true. The offsets have 32 bits, the values have the type of
/// the field, which is that of encoded cells, and none of them is missing unless the field allows
/// it.
#[verifier::external_body]
pub(crate) fn list_array(
    field: ArrowField,
    lengths: Vec<usize>,
    present: Vec<bool>,
    values: ArrayData,
) -> (array: ArrayData)
    requires
        lengths@.len() == present@.len(),
        offset(lengths@, lengths@.len()) == array_items(values).len(),
        array_items(values).len() <= i32::MAX,
        is_encoded(array_type(values)),
        data_type::field_held(field).data_type == array_type(values),
        data_type::field_held(field).nullable || !array_items(values).contains(Item::Null),
    ensures
        array_type(array) == TypeView::List(Box::new(data_type::field_held(field))),
        array_items(array) == Seq::new(
            lengths@.len(),
            |i: int|
                if present@[i] {
                    Item::List(
                        array_items(values).subrange(
                            offset(lengths@, i as nat) as int,
                            offset(lengths@, i as nat) + lengths@[i],
                        ),
                    )
                } else {
                    Item::Null
                },
        ),
{
    let offsets = OffsetBuffer::from_lengths(lengths);
    let nulls = Some(NullBuffer::from(present));
    ListArray::new(Arc::new(field), offsets, make_array(values), nulls).into()
}

/// Whether `RecordBatch::try_new` takes the columns for the fields: there is a column, every
/// field has a column of its type, the columns have one length, and no value is missing in a
/// column that does not allow it.
pub open spec fn makes_batch(
    fields: Seq<FieldView>,
    types: Seq<TypeView>,
    columns: Seq<Seq<Item>>,
) -> bool {
    &&& columns.len() > 0
    &&& fields.len() == columns.len()
    &&& forall|i: int|
        0 <= i < columns.len() ==> {
            &&& #[trigger] columns[i].len() == columns[0].len()
            &&& fields[i].data_type == types[i]
            &&& fields[i].nullable || !columns[i].contains(Item::Null)
        }
}

/// Whether a type is one that columns are made of: that of encoded cells, or of lists of them. In
/// an array of such a type exactly the values that are marked as missing are missing.
pub open spec fn is_column_type(data_type: TypeView) -> bool {
    match data_type {
        TypeView::List(element) => is_encoded(element.data_type),
        _ => is_encoded(data_type),
    }
}

/// Whether arrays have types that columns are made of.
pub open spec fn are_columns(arrays: Seq<ArrayData>) -> bool {
    forall|i: int| 0 <= i < arrays.len() ==> is_column_type(array_type(#[trigger] arrays[i]))
}

/// The types of arrays.
pub open spec fn array_types(arrays: Seq<ArrayData>) -> Seq<TypeView> {
    arrays.map_values(|array: ArrayData| array_type(array))
}

/// The values of arrays.
pub open spec fn array_columns(arrays: Seq<ArrayData>) -> Seq<Seq<Item>> {
    arrays.map_values(|array: ArrayData| array_items(array))
}

/// The fields that Arrow fields stand for.
pub open spec fn fields_held(fields: Seq<ArrowField>) -> Seq<FieldView> {
    fields.map_values(|field: ArrowField| data_type::field_held(field))
}

/// Calls `RecordBatch::try_new`: a batch of columns of encoded cells, if they match the fields, as
/// the struct array that `StructArray::from` makes of it. Where they do not match, the error is
/// always an `InvalidArgumentError`, and its text is returned. Which text that is stays open: it
/// can hold the notes of a field, in any order.
#[verifier::external_body]
fn try_new_batch(fields: Vec<ArrowField>, columns: Vec<ArrayData>) -> (batch: Result<
    ArrayData,
    String,
>)
    requires
        are_columns(columns@),
    ensures
        batch is Ok <==> makes_batch(
            fields_held(fields@),
            array_types(columns@),
            array_columns(columns@),
        ),
        batch matches Ok(b) ==> {
            &&& is_struct(b)
            &&& struct_fields(b) == fields_held(fields@)
            &&& struct_columns(b) == array_columns(columns@)
        },
{
    let schema = Arc::new(ArrowSchema::new(fields));
    let columns = columns.into_iter().map(|column| make_array(column)).collect();
    match RecordBatch::try_new(schema, columns) {
        Ok(batch) => Ok(StructArray::from(batch).into()),
        Err(error) => Err(error.to_string()),
    }
}

/// Calls `ArrayData::len` on a struct array: the length of its columns.
#[verifier::external_body]
fn struct_len(array: &ArrayData) -> (rows: usize)
    requires
        is_struct(*array),
    ensures
        forall|i: int|
            0 <= i < struct_columns(*array).len() ==> #[trigger] struct_columns(*array)[i].len()
                == rows,
{
    array.len()
}

/// Calls `ArrayData::child_data` on a struct array: one array for each column, with its values
/// and its type.
#[verifier::external_body]
fn struct_children(array: &ArrayData) -> (columns: &[ArrayData])
    requires
        is_struct(*array),
    ensures
        array_columns(columns@) == struct_columns(*array),
        array_types(columns@) == struct_fields(*array).map_values(
            |field: FieldView| field.data_type,
        ),
{
    array.child_data()
}

/// A batch of rows: columns of one length, each with its field. It holds the struct array that
/// an Arrow record batch is.
#[derive(Debug)]
pub struct EncodedBatch {
    data: ArrayData,
}

impl EncodedBatch {
    #[verifier::type_invariant]
    spec fn has_columns(self) -> bool {
        is_struct(self.data) && struct_columns(self.data).len() > 0
    }

    /// The columns, in order.
    pub closed spec fn columns(&self) -> Seq<Seq<Item>> {
        struct_columns(self.data)
    }

    /// The fields, in order.
    pub closed spec fn fields(&self) -> Seq<FieldView> {
        struct_fields(self.data)
    }

    /// A batch of the columns, or why they do not match the fields.
    pub fn try_new(fields: Vec<ArrowField>, columns: Vec<ArrayData>) -> (batch: Result<
        EncodedBatch,
        String,
    >)
        requires
            are_columns(columns@),
        ensures
            batch is Ok <==> makes_batch(
                fields_held(fields@),
                array_types(columns@),
                array_columns(columns@),
            ),
            batch matches Ok(b) ==> {
                &&& b.fields() == fields_held(fields@)
                &&& b.columns() == array_columns(columns@)
            },
    {
        match try_new_batch(fields, columns) {
            Ok(data) => Ok(EncodedBatch { data }),
            Err(message) => Err(message),
        }
    }

    /// The number of rows.
    pub fn num_rows(&self) -> (rows: usize)
        ensures
            self.columns().len() > 0,
            forall|i: int|
                0 <= i < self.columns().len() ==> #[trigger] self.columns()[i].len() == rows,
    {
        proof {
            use_type_invariant(self);
        }
        struct_len(&self.data)
    }

    /// The number of columns, of which there is one at least.
    pub fn num_columns(&self) -> (columns: usize)
        ensures
            columns == self.columns().len(),
            columns > 0,
    {
        proof {
            use_type_invariant(self);
        }
        let columns = struct_children(&self.data);
        assert(array_columns(columns@).len() == columns@.len());
        columns.len()
    }

    /// A column.
    pub fn column(&self, index: usize) -> (column: &ArrayData)
        requires
            index < self.columns().len(),
        ensures
            array_items(*column) == self.columns()[index as int],
            index < self.fields().len(),
            array_type(*column) == self.fields()[index as int].data_type,
    {
        proof {
            use_type_invariant(self);
        }
        let columns = struct_children(&self.data);
        let ghost types = array_types(columns@);
        let ghost fields = self.fields();
        assert(array_columns(columns@).len() == columns@.len());
        assert(types.len() == columns@.len());
        assert(types.len() == fields.len());
        assert(types[index as int] == fields[index as int].data_type);
        assert(array_columns(columns@)[index as int] == array_items(columns@[index as int]));
        &columns[index]
    }

    /// The struct array that holds the batch.
    pub fn into_data(self) -> (data: ArrayData)
        ensures
            is_struct(data),
            struct_columns(data) == self.columns(),
            struct_fields(data) == self.fields(),
    {
        proof {
            use_type_invariant(&self);
        }
        self.data
    }
}

} // verus!
