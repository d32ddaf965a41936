//! The debug texts of values.

use vstd::prelude::*;

use crate::text;
use crate::types::cell;
use crate::types::{ArrayCell, Date, Json, PgNumeric, Time, Timestamp, Uuid};

verus! {

broadcast use {text::texts_of_push, text::take_one_more};

/// The debug text of a value that may be missing.
pub open spec fn optional_text<T>(value: Option<T>, text: spec_fn(T) -> Seq<char>) -> Seq<char> {
    match value {
        Some(v) => "Some("@ + text(v) + ")"@,
        None => "None"@,
    }
}

/// The debug text of a list, from those of its elements.
pub open spec fn list_text(elements: Seq<Seq<char>>) -> Seq<char> {
    "["@ + text::joined(elements, ", "@) + "]"@
}

/// The debug text of a list of values that may be missing, after the name of its type.
pub open spec fn variant_text<T>(
    name: Seq<char>,
    values: Seq<Option<T>>,
    text: spec_fn(T) -> Seq<char>,
) -> Seq<char> {
    name + "("@ + list_text(
        Seq::new(values.len(), |i: int| optional_text(values[i], text)),
    ) + ")"@
}

/// The debug text of raw bytes: their numbers.
pub open spec fn bytes_text(bytes: Seq<u8>) -> Seq<char> {
    list_text(Seq::new(bytes.len(), |i: int| text::decimal(bytes[i] as nat)))
}

/// The debug text of a list of values.
pub open spec fn array_text(array_cell: ArrayCell) -> Seq<char> {
    match array_cell {
        ArrayCell::Bool(v) => variant_text("Bool"@, v@, |b: bool| text::bool_word(b)),
        ArrayCell::String(v) => variant_text("String"@, v@, |s: String| cell::quoted_text(s@)),
        ArrayCell::I16(v) => variant_text("I16"@, v@, |i: i16| text::signed_decimal(i as int)),
        ArrayCell::I32(v) => variant_text("I32"@, v@, |i: i32| text::signed_decimal(i as int)),
        ArrayCell::U32(v) => variant_text("U32"@, v@, |u: u32| text::decimal(u as nat)),
        ArrayCell::I64(v) => variant_text("I64"@, v@, |i: i64| text::signed_decimal(i as int)),
        ArrayCell::F32(v) => variant_text("F32"@, v@, |bits: u32| cell::float32_debug_text(bits)),
        ArrayCell::F64(v) => variant_text("F64"@, v@, |bits: u64| cell::float64_debug_text(bits)),
        ArrayCell::Numeric(v) => variant_text("Numeric"@, v@, |n: PgNumeric| n.debug@),
        ArrayCell::Date(v) => variant_text("Date"@, v@, |d: Date| d.text()),
        ArrayCell::Time(v) => variant_text("Time"@, v@, |t: Time| t.text()),
        ArrayCell::Timestamp(v) => variant_text(
            "Timestamp"@,
            v@,
            |ts: Timestamp| ts.text_with('T'),
        ),
        ArrayCell::TimestampTz(v) => variant_text(
            "TimestampTz"@,
            v@,
            |ts: Timestamp| ts.text_with('T') + "Z"@,
        ),
        ArrayCell::Uuid(v) => variant_text("Uuid"@, v@, |u: Uuid| cell::uuid_text(u.bytes@)),
        ArrayCell::Json(v) => variant_text("Json"@, v@, |j: Json| j.debug@),
        ArrayCell::Bytes(v) => variant_text("Bytes"@, v@, |b: Vec<u8>| bytes_text(b@)),
    }
}

fn list_of(elements: &Vec<String>) -> (text: String)
    ensures
        text@ == list_text(text::texts(elements@)),
{
    let mut text = "[".to_string();
    text.append(text::joined_text(elements.as_slice(), ", ").as_str());
    text.append("]");
    text
}

fn variant_of<T, F: Fn(&T) -> String>(
    name: &str,
    values: &Vec<Option<T>>,
    to_text: F,
    text: Ghost<spec_fn(T) -> Seq<char>>,
) -> (debug: String)
    requires
        forall|value: &T| to_text.requires((value,)),
        forall|value: &T, s: String| #[trigger]
            to_text.ensures((value,), s) ==> s@ == text@(*value),
    ensures
        debug@ == variant_text(name@, values@, text@),
{
    let ghost whole = Seq::new(values@.len(), |i: int| optional_text(values@[i], text@));
    let mut elements: Vec<String> = Vec::new();
    let mut i: usize = 0;
    assert(text::texts(elements@) =~= whole.take(0));
    while i < values.len()
        invariant
            i <= values@.len(),
            whole == Seq::new(values@.len(), |i: int| optional_text(values@[i], text@)),
            forall|value: &T| to_text.requires((value,)),
            forall|value: &T, s: String| #[trigger]
                to_text.ensures((value,), s) ==> s@ == text@(*value),
            text::texts(elements@) == whole.take(i as int),
        decreases values@.len() - i,
    {
        match &values[i] {
            Some(value) => {
                let mut element = "Some(".to_string();
                element.append(to_text(value).as_str());
                element.append(")");
                elements.push(element);
            },
            None => elements.push("None".to_string()),
        }
        i += 1;
    }
    assert(whole.take(i as int) =~= whole);
    let mut debug = name.to_string();
    debug.append("(");
    debug.append(list_of(&elements).as_str());
    debug.append(")");
    debug
}

/// The debug text of raw bytes: their numbers.
pub fn bytes_debug_text(bytes: &Vec<u8>) -> (debug: String)
    ensures
        debug@ == bytes_text(bytes@),
{
    let ghost whole = Seq::new(bytes@.len(), |i: int| text::decimal(bytes@[i] as nat));
    let mut elements: Vec<String> = Vec::new();
    let mut i: usize = 0;
    assert(text::texts(elements@) =~= whole.take(0));
    while i < bytes.len()
        invariant
            i <= bytes@.len(),
            whole == Seq::new(bytes@.len(), |i: int| text::decimal(bytes@[i] as nat)),
            text::texts(elements@) == whole.take(i as int),
        decreases bytes@.len() - i,
    {
        elements.push(text::unsigned_text(bytes[i] as u64));
        i += 1;
    }
    assert(whole.take(i as int) =~= whole);
    list_of(&elements)
}

fn bool_debug(value: &bool) -> (debug: String)
    ensures
        debug@ == text::bool_word(*value),
{
    text::bool_text(*value)
}

fn string_debug(value: &String) -> (debug: String)
    ensures
        debug@ == cell::quoted_text(value@),
{
    cell::quoted(value.as_str())
}

fn i16_debug(value: &i16) -> (debug: String)
    ensures
        debug@ == text::signed_decimal(*value as int),
{
    text::signed_text(*value as i64)
}

fn i32_debug(value: &i32) -> (debug: String)
    ensures
        debug@ == text::signed_decimal(*value as int),
{
    text::signed_text(*value as i64)
}

fn u32_debug(value: &u32) -> (debug: String)
    ensures
        debug@ == text::decimal(*value as nat),
{
    text::unsigned_text(*value as u64)
}

fn i64_debug(value: &i64) -> (debug: String)
    ensures
        debug@ == text::signed_decimal(*value as int),
{
    text::signed_text(*value)
}

fn f32_debug(bits: &u32) -> (debug: String)
    ensures
        debug@ == cell::float32_debug_text(*bits),
{
    cell::float32_to_debug_text(*bits)
}

fn f64_debug(bits: &u64) -> (debug: String)
    ensures
        debug@ == cell::float64_debug_text(*bits),
{
    cell::float64_to_debug_text(*bits)
}

fn numeric_debug(value: &PgNumeric) -> (debug: String)
    ensures
        debug@ == value.debug@,
{
    value.debug.clone()
}

fn json_debug(value: &Json) -> (debug: String)
    ensures
        debug@ == value.debug@,
{
    value.debug.clone()
}

/// The debug text of a list of values.
pub fn array_debug_text(array_cell: &ArrayCell) -> (debug: String)
    ensures
        debug@ == array_text(*array_cell),
{
    match array_cell {
        ArrayCell::Bool(v) => variant_of(
            "Bool",
            v,
            bool_debug,
            Ghost(|b: bool| text::bool_word(b)),
        ),
        ArrayCell::String(v) => variant_of(
            "String",
            v,
            string_debug,
            Ghost(|s: String| cell::quoted_text(s@)),
        ),
        ArrayCell::I16(v) => variant_of(
            "I16",
            v,
            i16_debug,
            Ghost(|i: i16| text::signed_decimal(i as int)),
        ),
        ArrayCell::I32(v) => variant_of(
            "I32",
            v,
            i32_debug,
            Ghost(|i: i32| text::signed_decimal(i as int)),
        ),
        ArrayCell::U32(v) => variant_of(
            "U32",
            v,
            u32_debug,
            Ghost(|u: u32| text::decimal(u as nat)),
        ),
        ArrayCell::I64(v) => variant_of(
            "I64",
            v,
            i64_debug,
            Ghost(|i: i64| text::signed_decimal(i as int)),
        ),
        ArrayCell::F32(v) => variant_of(
            "F32",
            v,
            f32_debug,
            Ghost(|bits: u32| cell::float32_debug_text(bits)),
        ),
        ArrayCell::F64(v) => variant_of(
            "F64",
            v,
            f64_debug,
            Ghost(|bits: u64| cell::float64_debug_text(bits)),
        ),
        ArrayCell::Numeric(v) => variant_of(
            "Numeric",
            v,
            numeric_debug,
            Ghost(|n: PgNumeric| n.debug@),
        ),
        ArrayCell::Date(v) => variant_of("Date", v, Date::to_text, Ghost(|d: Date| d.text())),
        ArrayCell::Time(v) => variant_of("Time", v, Time::to_text, Ghost(|t: Time| t.text())),
        ArrayCell::Timestamp(v) => variant_of(
            "Timestamp",
            v,
            Timestamp::to_debug_text,
            Ghost(|ts: Timestamp| ts.text_with('T')),
        ),
        ArrayCell::TimestampTz(v) => variant_of(
            "TimestampTz",
            v,
            Timestamp::to_utc_debug_text,
            Ghost(|ts: Timestamp| ts.text_with('T') + "Z"@),
        ),
        ArrayCell::Uuid(v) => variant_of(
            "Uuid",
            v,
            Uuid::hyphenated,
            Ghost(|u: Uuid| cell::uuid_text(u.bytes@)),
        ),
        ArrayCell::Json(v) => variant_of("Json", v, json_debug, Ghost(|j: Json| j.debug@)),
        ArrayCell::Bytes(v) => variant_of(
            "Bytes",
            v,
            bytes_debug_text,
            Ghost(|b: Vec<u8>| bytes_text(b@)),
        ),
    }
}

} // verus!
