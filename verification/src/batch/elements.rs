//! The elements of lists as values of Arrow arrays.

use vstd::prelude::*;

use crate::batch::array;
use crate::batch::array::{Item, items};
use crate::batch::cells::UUID_BYTE_WIDTH;
use crate::batch::data_type::{TimeUnit, TypeView};
use crate::text;
use crate::types::cell;
use crate::types::temporal;
use crate::types::{ArrayCell, Date, Json, PgNumeric, Time, Timestamp, Uuid};

verus! {

/// The elements of a list in a column of lists of texts. Raw bytes have no text.
pub open spec fn text_elements(array_cell: ArrayCell) -> Seq<Item> {
    match array_cell {
        ArrayCell::Bool(v) => items(v@, |b: bool| Item::Text(text::bool_word(b))),
        ArrayCell::String(v) => items(v@, array::text_item()),
        ArrayCell::I16(v) => items(v@, |i: i16| Item::Text(text::signed_decimal(i as int))),
        ArrayCell::I32(v) => items(v@, |i: i32| Item::Text(text::signed_decimal(i as int))),
        ArrayCell::U32(v) => items(v@, |u: u32| Item::Text(text::decimal(u as nat))),
        ArrayCell::I64(v) => items(v@, |i: i64| Item::Text(text::signed_decimal(i as int))),
        ArrayCell::F32(v) => items(v@, |bits: u32| Item::Text(cell::float32_text(bits))),
        ArrayCell::F64(v) => items(v@, |bits: u64| Item::Text(cell::float64_text(bits))),
        ArrayCell::Numeric(v) => items(v@, |n: PgNumeric| Item::Text(n.text@)),
        ArrayCell::Date(v) => items(v@, |d: Date| Item::Text(d.text())),
        ArrayCell::Time(v) => items(v@, |t: Time| Item::Text(t.text())),
        ArrayCell::Timestamp(v) => items(v@, |ts: Timestamp| Item::Text(ts.text_with(' '))),
        ArrayCell::TimestampTz(v) => items(
            v@,
            |ts: Timestamp| Item::Text(ts.text_with('T') + "+00:00"@),
        ),
        ArrayCell::Uuid(v) => items(v@, |u: Uuid| Item::Text(cell::uuid_text(u.bytes@))),
        ArrayCell::Json(v) => items(v@, |j: Json| Item::Text(j.text@)),
        ArrayCell::Bytes(v) => Seq::new(v@.len(), |i: int| Item::Null),
    }
}

/// The elements of a list in a column of lists of an encoded type, if the list fits the type.
pub open spec fn typed_elements(element: TypeView, array_cell: ArrayCell) -> Option<Seq<Item>> {
    match (element, array_cell) {
        (TypeView::Boolean, ArrayCell::Bool(v)) => Some(items(v@, array::bool_item())),
        (TypeView::Int32, ArrayCell::I16(v)) => Some(items(v@, |i: i16| Item::Int(i as int))),
        (TypeView::Int32, ArrayCell::I32(v)) => Some(items(v@, array::int32_item())),
        (TypeView::Int64, ArrayCell::I64(v)) => Some(items(v@, array::int64_item())),
        (TypeView::Int64, ArrayCell::U32(v)) => Some(items(v@, |u: u32| Item::Int(u as int))),
        (TypeView::Float32, ArrayCell::F32(v)) => Some(items(v@, array::bits32_item())),
        (TypeView::Float64, ArrayCell::F64(v)) => Some(items(v@, array::bits64_item())),
        (TypeView::Utf8, ArrayCell::String(_)) => Some(text_elements(array_cell)),
        (TypeView::Utf8, ArrayCell::Numeric(_)) => Some(text_elements(array_cell)),
        (TypeView::Utf8, ArrayCell::Json(_)) => Some(text_elements(array_cell)),
        (TypeView::LargeBinary, ArrayCell::Bytes(v)) => Some(items(v@, array::bytes_item())),
        (TypeView::Date32, ArrayCell::Date(v)) => Some(
            items(v@, |d: Date| Item::Int(d.number() - temporal::day_number(1970, 1, 1))),
        ),
        (TypeView::Time64(TimeUnit::Microsecond), ArrayCell::Time(v)) => Some(
            items(v@, |t: Time| Item::Int(t.micros())),
        ),
        (TypeView::Timestamp(TimeUnit::Microsecond, None), ArrayCell::Timestamp(v)) => Some(
            items(v@, |ts: Timestamp| Item::Int(ts.micros())),
        ),
        (TypeView::Timestamp(TimeUnit::Microsecond, Some(_)), ArrayCell::TimestampTz(v)) => Some(
            items(v@, |ts: Timestamp| Item::Int(ts.micros())),
        ),
        (TypeView::FixedSizeBinary(width), ArrayCell::Uuid(v)) => if width == UUID_BYTE_WIDTH {
            Some(items(v@, |u: Uuid| Item::Bytes(u.bytes@)))
        } else {
            None
        },
        _ => None,
    }
}

/// The values of a list, converted.
fn converted<T, U, F: Fn(&T) -> U>(values: &Vec<Option<T>>, convert: F) -> (converted: Vec<Option<U>>)
    requires
        forall|value: &T| convert.requires((value,)),
    ensures
        converted@.len() == values@.len(),
        forall|i: int|
            0 <= i < values@.len() ==> match values@[i] {
                Some(value) => (#[trigger] converted@[i]) is Some && convert.ensures(
                    (&value,),
                    converted@[i]->0,
                ),
                None => converted@[i] is None,
            },
{
    let mut converted: Vec<Option<U>> = Vec::new();
    let mut i: usize = 0;
    while i < values.len()
        invariant
            i <= values@.len(),
            forall|value: &T| convert.requires((value,)),
            converted@.len() == i,
            forall|k: int|
                0 <= k < i ==> match values@[k] {
                    Some(value) => (#[trigger] converted@[k]) is Some && convert.ensures(
                        (&value,),
                        converted@[k]->0,
                    ),
                    None => converted@[k] is None,
                },
        decreases values@.len() - i,
    {
        match &values[i] {
            Some(value) => converted.push(Some(convert(value))),
            None => converted.push(None),
        }
        i += 1;
    }
    converted
}

/// Whether a converted list stands for the expected elements.
pub open spec fn is_list_of<T>(
    list: Option<Vec<Option<T>>>,
    item: spec_fn(T) -> Item,
    expected: Option<Seq<Item>>,
) -> bool {
    match (list, expected) {
        (Some(values), Some(elements)) => items(values@, item) == elements,
        (None, None) => true,
        _ => false,
    }
}

fn copied<T: Copy>(value: &T) -> (copy: T)
    ensures
        copy == *value,
{
    *value
}

fn widened_i16(value: &i16) -> (wide: i32)
    ensures
        wide == *value,
{
    *value as i32
}

fn widened_u32(value: &u32) -> (wide: i64)
    ensures
        wide == *value,
{
    *value as i64
}

fn cloned_text(value: &String) -> (text: String)
    ensures
        text@ == value@,
{
    value.clone()
}

fn numeric_text(value: &PgNumeric) -> (text: String)
    ensures
        text@ == value.text@,
{
    value.text.clone()
}

fn json_value_text(value: &Json) -> (text: String)
    ensures
        text@ == value.text@,
{
    value.text.clone()
}

fn cloned_bytes(value: &Vec<u8>) -> (bytes: Vec<u8>)
    ensures
        bytes@ == value@,
{
    let bytes = value.clone();
    assert(bytes@ =~= value@);
    bytes
}

fn time_micros(value: &Time) -> (micros: i64)
    ensures
        micros == value.micros(),
{
    value.micros_since_midnight().unwrap()
}

fn uuid_bytes(value: &Uuid) -> (bytes: [u8; 16])
    ensures
        bytes@ == value.bytes@,
{
    value.bytes
}

fn bool_value_text(value: &bool) -> (text: String)
    ensures
        text@ == text::bool_word(*value),
{
    text::bool_text(*value)
}

fn i16_text(value: &i16) -> (text: String)
    ensures
        text@ == text::signed_decimal(*value as int),
{
    text::signed_text(*value as i64)
}

fn i32_text(value: &i32) -> (text: String)
    ensures
        text@ == text::signed_decimal(*value as int),
{
    text::signed_text(*value as i64)
}

fn u32_text(value: &u32) -> (text: String)
    ensures
        text@ == text::decimal(*value as nat),
{
    text::unsigned_text(*value as u64)
}

fn i64_text(value: &i64) -> (text: String)
    ensures
        text@ == text::signed_decimal(*value as int),
{
    text::signed_text(*value)
}

fn f32_text(bits: &u32) -> (text: String)
    ensures
        text@ == cell::float32_text(*bits),
{
    cell::float32_to_text(*bits)
}

fn f64_text(bits: &u64) -> (text: String)
    ensures
        text@ == cell::float64_text(*bits),
{
    cell::float64_to_text(*bits)
}

pub(crate) fn array_cell_to_bools(array_cell: &ArrayCell) -> (list: Option<Vec<Option<bool>>>)
    ensures
        is_list_of(list, array::bool_item(), typed_elements(TypeView::Boolean, *array_cell)),
{
    match array_cell {
        ArrayCell::Bool(values) => {
            let list = converted(values, copied::<bool>);
            assert(items(list@, array::bool_item()) =~= typed_elements(TypeView::Boolean, *array_cell)->0);
            Some(list)
        },
        _ => None,
    }
}

pub(crate) fn array_cell_to_i32s(array_cell: &ArrayCell) -> (list: Option<Vec<Option<i32>>>)
    ensures
        is_list_of(list, array::int32_item(), typed_elements(TypeView::Int32, *array_cell)),
{
    match array_cell {
        ArrayCell::I16(values) => {
            let list = converted(values, widened_i16);
            assert(items(list@, array::int32_item()) =~= typed_elements(TypeView::Int32, *array_cell)->0);
            Some(list)
        },
        ArrayCell::I32(values) => {
            let list = converted(values, copied::<i32>);
            assert(items(list@, array::int32_item()) =~= typed_elements(TypeView::Int32, *array_cell)->0);
            Some(list)
        },
        _ => None,
    }
}

pub(crate) fn array_cell_to_i64s(array_cell: &ArrayCell) -> (list: Option<Vec<Option<i64>>>)
    ensures
        is_list_of(list, array::int64_item(), typed_elements(TypeView::Int64, *array_cell)),
{
    match array_cell {
        ArrayCell::I64(values) => {
            let list = converted(values, copied::<i64>);
            assert(items(list@, array::int64_item()) =~= typed_elements(TypeView::Int64, *array_cell)->0);
            Some(list)
        },
        ArrayCell::U32(values) => {
            let list = converted(values, widened_u32);
            assert(items(list@, array::int64_item()) =~= typed_elements(TypeView::Int64, *array_cell)->0);
            Some(list)
        },
        _ => None,
    }
}

pub(crate) fn array_cell_to_f32s(array_cell: &ArrayCell) -> (list: Option<Vec<Option<u32>>>)
    ensures
        is_list_of(list, array::bits32_item(), typed_elements(TypeView::Float32, *array_cell)),
{
    match array_cell {
        ArrayCell::F32(values) => {
            let list = converted(values, copied::<u32>);
            assert(items(list@, array::bits32_item()) =~= typed_elements(TypeView::Float32, *array_cell)->0);
            Some(list)
        },
        _ => None,
    }
}

pub(crate) fn array_cell_to_f64s(array_cell: &ArrayCell) -> (list: Option<Vec<Option<u64>>>)
    ensures
        is_list_of(list, array::bits64_item(), typed_elements(TypeView::Float64, *array_cell)),
{
    match array_cell {
        ArrayCell::F64(values) => {
            let list = converted(values, copied::<u64>);
            assert(items(list@, array::bits64_item()) =~= typed_elements(TypeView::Float64, *array_cell)->0);
            Some(list)
        },
        _ => None,
    }
}

pub(crate) fn array_cell_to_strings(array_cell: &ArrayCell) -> (list: Option<Vec<Option<String>>>)
    ensures
        is_list_of(list, array::text_item(), typed_elements(TypeView::Utf8, *array_cell)),
{
    match array_cell {
        ArrayCell::String(values) => {
            let list = converted(values, cloned_text);
            assert(items(list@, array::text_item()) =~= typed_elements(TypeView::Utf8, *array_cell)->0);
            Some(list)
        },
        ArrayCell::Numeric(values) => {
            let list = converted(values, numeric_text);
            assert(items(list@, array::text_item()) =~= typed_elements(TypeView::Utf8, *array_cell)->0);
            Some(list)
        },
        ArrayCell::Json(values) => {
            let list = converted(values, json_value_text);
            assert(items(list@, array::text_item()) =~= typed_elements(TypeView::Utf8, *array_cell)->0);
            Some(list)
        },
        _ => None,
    }
}

pub(crate) fn array_cell_to_byte_strings(array_cell: &ArrayCell) -> (list: Option<Vec<Option<Vec<u8>>>>)
    ensures
        is_list_of(list, array::bytes_item(), typed_elements(TypeView::LargeBinary, *array_cell)),
{
    match array_cell {
        ArrayCell::Bytes(values) => {
            let list = converted(values, cloned_bytes);
            assert(items(list@, array::bytes_item()) =~= typed_elements(TypeView::LargeBinary, *array_cell)->0);
            Some(list)
        },
        _ => None,
    }
}

pub(crate) fn array_cell_to_dates(array_cell: &ArrayCell) -> (list: Option<Vec<Option<i32>>>)
    ensures
        is_list_of(list, array::int32_item(), typed_elements(TypeView::Date32, *array_cell)),
{
    match array_cell {
        ArrayCell::Date(values) => {
            let list = converted(values, Date::days_since_epoch);
            assert(items(list@, array::int32_item()) =~= typed_elements(TypeView::Date32, *array_cell)->0);
            Some(list)
        },
        _ => None,
    }
}

pub(crate) fn array_cell_to_times(array_cell: &ArrayCell) -> (list: Option<Vec<Option<i64>>>)
    ensures
        is_list_of(list, array::int64_item(), typed_elements(TypeView::Time64(TimeUnit::Microsecond), *array_cell)),
{
    match array_cell {
        ArrayCell::Time(values) => {
            let list = converted(values, time_micros);
            assert(items(list@, array::int64_item()) =~= typed_elements(TypeView::Time64(TimeUnit::Microsecond), *array_cell)->0);
            Some(list)
        },
        _ => None,
    }
}

pub(crate) fn array_cell_to_timestamps(array_cell: &ArrayCell) -> (list: Option<Vec<Option<i64>>>)
    ensures
        is_list_of(list, array::int64_item(), typed_elements(TypeView::Timestamp(TimeUnit::Microsecond, None), *array_cell)),
{
    match array_cell {
        ArrayCell::Timestamp(values) => {
            let list = converted(values, Timestamp::timestamp_micros);
            assert(items(list@, array::int64_item()) =~= typed_elements(TypeView::Timestamp(TimeUnit::Microsecond, None), *array_cell)->0);
            Some(list)
        },
        _ => None,
    }
}

pub(crate) fn array_cell_to_timestamptzs(array_cell: &ArrayCell) -> (list: Option<Vec<Option<i64>>>)
    ensures
        forall|zone: Seq<char>|
            is_list_of(
                list,
                array::int64_item(),
                #[trigger] typed_elements(
                    TypeView::Timestamp(TimeUnit::Microsecond, Some(zone)),
                    *array_cell,
                ),
            ),
{
    match array_cell {
        ArrayCell::TimestampTz(values) => {
            let list = converted(values, Timestamp::timestamp_micros);
            assert(items(list@, array::int64_item()) =~= items(
                values@,
                |ts: Timestamp| Item::Int(ts.micros()),
            ));
            Some(list)
        },
        _ => None,
    }
}

pub(crate) fn array_cell_to_uuids(array_cell: &ArrayCell) -> (list: Option<Vec<Option<[u8; 16]>>>)
    ensures
        is_list_of(list, array::uuid_item(), typed_elements(TypeView::FixedSizeBinary(UUID_BYTE_WIDTH), *array_cell)),
{
    match array_cell {
        ArrayCell::Uuid(values) => {
            let list = converted(values, uuid_bytes);
            assert(items(list@, array::uuid_item()) =~= typed_elements(TypeView::FixedSizeBinary(UUID_BYTE_WIDTH), *array_cell)->0);
            Some(list)
        },
        _ => None,
    }
}

/// Appends the text of every value.
fn append_texts<T, F: Fn(&T) -> String>(
    texts: &mut Vec<Option<String>>,
    values: &Vec<Option<T>>,
    to_text: F,
    item: Ghost<spec_fn(T) -> Item>,
)
    requires
        forall|value: &T| to_text.requires((value,)),
        forall|value: &T, text: String| #[trigger]
            to_text.ensures((value,), text) ==> item@(*value) == Item::Text(text@),
    ensures
        items(final(texts)@, array::text_item()) == items(old(texts)@, array::text_item()) + items(
            values@,
            item@,
        ),
{
    let converted = converted(values, to_text);
    let ghost appended = items(converted@, array::text_item());
    assert(appended =~= items(values@, item@)) by {
        assert forall|i: int| 0 <= i < values@.len() implies #[trigger] appended[i] == items(
            values@,
            item@,
        )[i] by {
            match values@[i] {
                Some(value) => {
                    assert(converted@[i] is Some && to_text.ensures((&value,), converted@[i]->0));
                },
                None => {},
            }
        }
    }
    let ghost before = texts@;
    let mut converted = converted;
    texts.append(&mut converted);
    assert(items(texts@, array::text_item()) =~= items(before, array::text_item()) + appended);
}

/// Appends the elements of a list as texts. Raw bytes have no text and become missing.
pub fn append_array_cell_as_strings(texts: &mut Vec<Option<String>>, array_cell: &ArrayCell)
    ensures
        items(final(texts)@, array::text_item()) == items(old(texts)@, array::text_item())
            + text_elements(*array_cell),
{
    match array_cell {
        ArrayCell::Bool(values) => append_texts(
            texts,
            values,
            bool_value_text,
            Ghost(|b: bool| Item::Text(text::bool_word(b))),
        ),
        ArrayCell::String(values) => append_texts(
            texts,
            values,
            cloned_text,
            Ghost(array::text_item()),
        ),
        ArrayCell::I16(values) => append_texts(
            texts,
            values,
            i16_text,
            Ghost(|i: i16| Item::Text(text::signed_decimal(i as int))),
        ),
        ArrayCell::I32(values) => append_texts(
            texts,
            values,
            i32_text,
            Ghost(|i: i32| Item::Text(text::signed_decimal(i as int))),
        ),
        ArrayCell::U32(values) => append_texts(
            texts,
            values,
            u32_text,
            Ghost(|u: u32| Item::Text(text::decimal(u as nat))),
        ),
        ArrayCell::I64(values) => append_texts(
            texts,
            values,
            i64_text,
            Ghost(|i: i64| Item::Text(text::signed_decimal(i as int))),
        ),
        ArrayCell::F32(values) => append_texts(
            texts,
            values,
            f32_text,
            Ghost(|bits: u32| Item::Text(cell::float32_text(bits))),
        ),
        ArrayCell::F64(values) => append_texts(
            texts,
            values,
            f64_text,
            Ghost(|bits: u64| Item::Text(cell::float64_text(bits))),
        ),
        ArrayCell::Numeric(values) => append_texts(
            texts,
            values,
            numeric_text,
            Ghost(|n: PgNumeric| Item::Text(n.text@)),
        ),
        ArrayCell::Date(values) => append_texts(
            texts,
            values,
            Date::to_text,
            Ghost(|d: Date| Item::Text(d.text())),
        ),
        ArrayCell::Time(values) => append_texts(
            texts,
            values,
            Time::to_text,
            Ghost(|t: Time| Item::Text(t.text())),
        ),
        ArrayCell::Timestamp(values) => append_texts(
            texts,
            values,
            Timestamp::to_text,
            Ghost(|ts: Timestamp| Item::Text(ts.text_with(' '))),
        ),
        ArrayCell::TimestampTz(values) => append_texts(
            texts,
            values,
            Timestamp::to_rfc3339,
            Ghost(|ts: Timestamp| Item::Text(ts.text_with('T') + "+00:00"@)),
        ),
        ArrayCell::Uuid(values) => append_texts(
            texts,
            values,
            Uuid::hyphenated,
            Ghost(|u: Uuid| Item::Text(cell::uuid_text(u.bytes@))),
        ),
        ArrayCell::Json(values) => append_texts(
            texts,
            values,
            json_value_text,
            Ghost(|j: Json| Item::Text(j.text@)),
        ),
        ArrayCell::Bytes(values) => {
            let ghost before = items(texts@, array::text_item());
            let mut i: usize = 0;
            assert(items(texts@, array::text_item()) =~= before + Seq::new(0, |k: int| Item::Null));
            while i < values.len()
                invariant
                    i <= values@.len(),
                    items(texts@, array::text_item()) == before + Seq::new(
                        i as nat,
                        |k: int| Item::Null,
                    ),
                decreases values@.len() - i,
            {
                let ghost so_far = texts@;
                texts.push(None);
                assert(items(texts@, array::text_item()) =~= items(
                    so_far,
                    array::text_item(),
                ).push(Item::Null));
                assert(items(texts@, array::text_item()) =~= before + Seq::new(
                    (i + 1) as nat,
                    |k: int| Item::Null,
                ));
                i += 1;
            }
        },
    }
    assert(items(texts@, array::text_item()) =~= items(old(texts)@, array::text_item())
        + text_elements(*array_cell));
}

pub(crate) fn array_cell_to_texts(array_cell: &ArrayCell) -> (list: Option<Vec<Option<String>>>)
    ensures
        is_list_of(list, array::text_item(), Some(text_elements(*array_cell))),
{
    let mut texts: Vec<Option<String>> = Vec::new();
    append_array_cell_as_strings(&mut texts, array_cell);
    assert(items(Seq::<Option<String>>::empty(), array::text_item()) =~= Seq::empty());
    assert(items(texts@, array::text_item()) =~= text_elements(*array_cell));
    Some(texts)
}

} // verus!
