//! The values of a row.

use arrow::datatypes::{ArrowPrimitiveType, Float32Type, Float64Type};
use vstd::prelude::*;

use crate::text;
use crate::types::temporal::{Date, Time, Timestamp};

verus! {

/// The text that `serde_json` writes for the value that it reads in a text, if it reads one.
pub uninterp spec fn json_text(source: Seq<char>) -> Option<Seq<char>>;

/// The debug text of the value that `serde_json` reads in a text, if it reads one.
pub uninterp spec fn json_debug_text(source: Seq<char>) -> Option<Seq<char>>;

/// The debug text of a string: quoted, with the escapes of Rust.
pub uninterp spec fn quoted_text(source: Seq<char>) -> Seq<char>;

/// The text of the 32-bit float with these bits.
pub uninterp spec fn float32_text(bits: u32) -> Seq<char>;

/// The debug text of the 32-bit float with these bits.
pub uninterp spec fn float32_debug_text(bits: u32) -> Seq<char>;

/// The text of the 64-bit float with these bits.
pub uninterp spec fn float64_text(bits: u64) -> Seq<char>;

/// The debug text of the 64-bit float with these bits.
pub uninterp spec fn float64_debug_text(bits: u64) -> Seq<char>;

/// Calls `serde_json::from_str` and writes the value with `Value::to_string`. Which text that
/// is depends on the source text alone.
#[verifier::external_body]
fn written_json(source: &str) -> (text: Option<String>)
    ensures
        text is Some <==> json_text(source@) is Some,
        text matches Some(t) ==> json_text(source@) == Some(t@),
{
    serde_json::from_str::<serde_json::Value>(source).ok().map(|value| value.to_string())
}

/// Calls `serde_json::from_str` and writes the value with its `Debug` formatting. Which text
/// that is depends on the source text alone.
#[verifier::external_body]
fn debugged_json(source: &str) -> (text: Option<String>)
    ensures
        text is Some <==> json_debug_text(source@) is Some,
        text matches Some(t) ==> json_debug_text(source@) == Some(t@),
{
    serde_json::from_str::<serde_json::Value>(source).ok().map(|value| format!("{value:?}"))
}

/// Calls the `Debug` formatting of a string. Which text that is depends on the string alone.
#[verifier::external_body]
pub(crate) fn quoted(source: &str) -> (text: String)
    ensures
        text@ == quoted_text(source@),
{
    format!("{source:?}")
}

/// Calls `to_string` on the 32-bit float with these bits. Which text that is depends on the
/// bits alone.
#[verifier::external_body]
pub(crate) fn float32_to_text(bits: u32) -> (text: String)
    ensures
        text@ == float32_text(bits),
{
    <Float32Type as ArrowPrimitiveType>::Native::from_bits(bits).to_string()
}

/// Calls the `Debug` formatting of the 32-bit float with these bits. Which text that is depends
/// on the bits alone.
#[verifier::external_body]
pub(crate) fn float32_to_debug_text(bits: u32) -> (text: String)
    ensures
        text@ == float32_debug_text(bits),
{
    format!("{:?}", <Float32Type as ArrowPrimitiveType>::Native::from_bits(bits))
}

/// Calls `to_string` on the 64-bit float with these bits. Which text that is depends on the
/// bits alone.
#[verifier::external_body]
pub(crate) fn float64_to_text(bits: u64) -> (text: String)
    ensures
        text@ == float64_text(bits),
{
    <Float64Type as ArrowPrimitiveType>::Native::from_bits(bits).to_string()
}

/// Calls the `Debug` formatting of the 64-bit float with these bits. Which text that is depends
/// on the bits alone.
#[verifier::external_body]
pub(crate) fn float64_to_debug_text(bits: u64) -> (text: String)
    ensures
        text@ == float64_debug_text(bits),
{
    format!("{:?}", <Float64Type as ArrowPrimitiveType>::Native::from_bits(bits))
}

/// A JSON value, by the texts that are written for it.
#[derive(Debug, Clone, PartialEq, Eq)]
pub struct Json {
    /// The value in JSON.
    pub text: String,
    /// The value in debug output.
    pub debug: String,
}

impl Json {
    /// The value that a JSON text stands for, if it stands for one.
    pub fn parse(source: &str) -> (json: Option<Json>)
        ensures
            json is Some <==> json_text(source@) is Some && json_debug_text(source@) is Some,
            json matches Some(j) ==> json_text(source@) == Some(j.text@) && json_debug_text(source@)
                == Some(j.debug@),
    {
        match (written_json(source), debugged_json(source)) {
            (Some(text), Some(debug)) => Some(Json { text, debug }),
            _ => None,
        }
    }
}

/// A number of any size and precision, by the texts that are written for it.
#[derive(Debug, Clone, PartialEq, Eq)]
pub struct PgNumeric {
    /// The number in decimal.
    pub text: String,
    /// The number in debug output.
    pub debug: String,
}

/// A universally unique identifier.
#[derive(Debug, Clone, Copy, PartialEq, Eq)]
pub struct Uuid {
    /// The sixteen bytes, first byte first.
    pub bytes: [u8; 16],
}

/// The text of an identifier: its bytes in hexadecimal, in groups of four, two, two, two and
/// six bytes with hyphens between them.
pub open spec fn uuid_text(bytes: Seq<u8>) -> Seq<char> {
    text::hex(bytes.subrange(0, 4)) + seq!['-'] + text::hex(bytes.subrange(4, 6)) + seq!['-']
        + text::hex(bytes.subrange(6, 8)) + seq!['-'] + text::hex(bytes.subrange(8, 10)) + seq!['-']
        + text::hex(bytes.subrange(10, 16))
}

impl Uuid {
    /// Calls `uuid::Uuid::to_string`: the hyphenated form in lower case.
    #[verifier::external_body]
    pub(crate) fn hyphenated(&self) -> (text: String)
        ensures
            text@ == uuid_text(self.bytes@),
    {
        uuid::Uuid::from_bytes(self.bytes).to_string()
    }
}

/// A value of a row.
#[derive(Debug, Clone, PartialEq)]
pub enum Cell {
    /// No value.
    Null,
    /// A truth value.
    Bool(bool),
    /// A text.
    String(String),
    /// A 16-bit integer.
    I16(i16),
    /// A 32-bit integer.
    I32(i32),
    /// A 32-bit unsigned integer.
    U32(u32),
    /// A 64-bit integer.
    I64(i64),
    /// A 32-bit float, by its bits.
    F32(u32),
    /// A 64-bit float, by its bits.
    F64(u64),
    /// A number of any size.
    Numeric(PgNumeric),
    /// A day.
    Date(Date),
    /// A time of day.
    Time(Time),
    /// A date and a time without a time zone.
    Timestamp(Timestamp),
    /// An instant, in UTC.
    TimestampTz(Timestamp),
    /// An identifier.
    Uuid(Uuid),
    /// A JSON value.
    Json(Json),
    /// Raw bytes.
    Bytes(Vec<u8>),
    /// A list of values.
    Array(ArrayCell),
}

/// A list of values of one type, each of which may be missing.
#[derive(Debug, Clone, PartialEq)]
pub enum ArrayCell {
    /// Truth values.
    Bool(Vec<Option<bool>>),
    /// Texts.
    String(Vec<Option<String>>),
    /// 16-bit integers.
    I16(Vec<Option<i16>>),
    /// 32-bit integers.
    I32(Vec<Option<i32>>),
    /// 32-bit unsigned integers.
    U32(Vec<Option<u32>>),
    /// 64-bit integers.
    I64(Vec<Option<i64>>),
    /// 32-bit floats, by their bits.
    F32(Vec<Option<u32>>),
    /// 64-bit floats, by their bits.
    F64(Vec<Option<u64>>),
    /// Numbers of any size.
    Numeric(Vec<Option<PgNumeric>>),
    /// Days.
    Date(Vec<Option<Date>>),
    /// Times of day.
    Time(Vec<Option<Time>>),
    /// Dates and times without a time zone.
    Timestamp(Vec<Option<Timestamp>>),
    /// Instants, in UTC.
    TimestampTz(Vec<Option<Timestamp>>),
    /// Identifiers.
    Uuid(Vec<Option<Uuid>>),
    /// JSON values.
    Json(Vec<Option<Json>>),
    /// Raw bytes.
    Bytes(Vec<Option<Vec<u8>>>),
}

/// A row of a table.
#[derive(Debug, Clone, PartialEq)]
pub struct TableRow {
    /// The values, in the order of the table's columns.
    pub values: Vec<Cell>,
}

impl TableRow {
    /// A row with these values.
    pub fn new(values: Vec<Cell>) -> (row: TableRow)
        ensures
            row.values == values,
    {
        TableRow { values }
    }
}

/// A row, or a reference to one.
pub trait Row {
    /// The row.
    spec fn row(&self) -> TableRow;

    /// The row.
    fn as_row(&self) -> (row: &TableRow)
        ensures
            *row == self.row(),
    ;
}

impl Row for TableRow {
    open spec fn row(&self) -> TableRow {
        *self
    }

    fn as_row(&self) -> (row: &TableRow) {
        self
    }
}

impl<'a> Row for &'a TableRow {
    open spec fn row(&self) -> TableRow {
        **self
    }

    fn as_row(&self) -> (row: &TableRow) {
        self
    }
}

} // verus!
