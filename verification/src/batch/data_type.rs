//! The types of Arrow columns.

use arrow::datatypes::{DataType as ArrowDataType, Field as ArrowField, TimeUnit as ArrowTimeUnit};
use vstd::prelude::*;

verus! {

/// A unit of time.
#[derive(Debug, Clone, Copy, PartialEq, Eq, Structural)]
pub enum TimeUnit {
    /// A second.
    Second,
    /// A thousandth of a second.
    Millisecond,
    /// A millionth of a second.
    Microsecond,
    /// A billionth of a second.
    Nanosecond,
}

/// The type of a column.
#[derive(Debug, PartialEq, Eq)]
pub enum DataType {
    /// Truth values.
    Boolean,
    /// 16-bit integers.
    Int16,
    /// 32-bit integers.
    Int32,
    /// 64-bit integers.
    Int64,
    /// 32-bit floats.
    Float32,
    /// 64-bit floats.
    Float64,
    /// Texts.
    Utf8,
    /// Bytes with 32-bit offsets.
    Binary,
    /// Bytes with 64-bit offsets.
    LargeBinary,
    /// Days since the start of 1970.
    Date32,
    /// Times since midnight.
    Time64(TimeUnit),
    /// Times since the start of 1970, with the name of a time zone.
    Timestamp(TimeUnit, Option<String>),
    /// Bytes of a fixed length.
    FixedSizeBinary(i32),
    /// Decimal numbers with so many digits, of which so many are behind the point.
    Decimal128(u8, i8),
    /// Lists of values of one type.
    List(Box<Field>),
}

/// A column: its name, its type and whether values may be missing.
#[derive(Debug, PartialEq, Eq)]
pub struct Field {
    /// The name of the column.
    pub name: String,
    /// The type of its values.
    pub data_type: DataType,
    /// Whether values may be missing.
    pub nullable: bool,
    /// What else is noted of the column. Of two notes under one key the later one counts.
    pub metadata: Vec<(String, String)>,
}

/// The columns of a batch.
#[derive(Debug, PartialEq, Eq)]
pub struct Schema {
    /// The columns, in order.
    pub fields: Vec<Field>,
}

/// A type of a column, as a mathematical value.
pub enum TypeView {
    /// Truth values.
    Boolean,
    /// 16-bit integers.
    Int16,
    /// 32-bit integers.
    Int32,
    /// 64-bit integers.
    Int64,
    /// 32-bit floats.
    Float32,
    /// 64-bit floats.
    Float64,
    /// Texts.
    Utf8,
    /// Bytes with 32-bit offsets.
    Binary,
    /// Bytes with 64-bit offsets.
    LargeBinary,
    /// Days since the start of 1970.
    Date32,
    /// Times since midnight.
    Time64(TimeUnit),
    /// Times since the start of 1970, with the name of a time zone.
    Timestamp(TimeUnit, Option<Seq<char>>),
    /// Bytes of a fixed length.
    FixedSizeBinary(i32),
    /// Decimal numbers.
    Decimal128(u8, i8),
    /// Lists of values of one type.
    List(Box<FieldView>),
}

/// A column, as a mathematical value.
pub struct FieldView {
    /// The name of the column.
    pub name: Seq<char>,
    /// The type of its values.
    pub data_type: TypeView,
    /// Whether values may be missing.
    pub nullable: bool,
    /// What else is noted of the column.
    pub metadata: Map<Seq<char>, Seq<char>>,
}

/// Notes under their keys, of two under one key the later one.
pub open spec fn metadata_map(notes: Seq<(String, String)>) -> Map<Seq<char>, Seq<char>>
    decreases notes.len(),
{
    if notes.len() == 0 {
        Map::empty()
    } else {
        metadata_map(notes.drop_last()).insert(notes.last().0@, notes.last().1@)
    }
}

/// The name of a time zone, if there is one.
pub open spec fn zone_name(zone: Option<String>) -> Option<Seq<char>> {
    match zone {
        Some(name) => Some(name@),
        None => None,
    }
}

/// What a type of a column stands for.
pub open spec fn type_view(data_type: DataType) -> TypeView
    decreases data_type,
{
    match data_type {
        DataType::Boolean => TypeView::Boolean,
        DataType::Int16 => TypeView::Int16,
        DataType::Int32 => TypeView::Int32,
        DataType::Int64 => TypeView::Int64,
        DataType::Float32 => TypeView::Float32,
        DataType::Float64 => TypeView::Float64,
        DataType::Utf8 => TypeView::Utf8,
        DataType::Binary => TypeView::Binary,
        DataType::LargeBinary => TypeView::LargeBinary,
        DataType::Date32 => TypeView::Date32,
        DataType::Time64(unit) => TypeView::Time64(unit),
        DataType::Timestamp(unit, zone) => TypeView::Timestamp(unit, zone_name(zone)),
        DataType::FixedSizeBinary(width) => TypeView::FixedSizeBinary(width),
        DataType::Decimal128(precision, scale) => TypeView::Decimal128(precision, scale),
        DataType::List(element) => TypeView::List(Box::new(field_view(*element))),
    }
}

/// What a column stands for.
pub open spec fn field_view(field: Field) -> FieldView
    decreases field,
{
    FieldView {
        name: field.name@,
        data_type: type_view(field.data_type),
        nullable: field.nullable,
        metadata: metadata_map(field.metadata@),
    }
}

impl View for DataType {
    type V = TypeView;

    open spec fn view(&self) -> TypeView {
        type_view(*self)
    }
}

impl View for Field {
    type V = FieldView;

    open spec fn view(&self) -> FieldView {
        field_view(*self)
    }
}

impl View for Schema {
    type V = Seq<FieldView>;

    open spec fn view(&self) -> Seq<FieldView> {
        self.fields@.map_values(|field: Field| field@)
    }
}

impl Field {
    /// A column without notes.
    pub fn new(name: &str, data_type: DataType, nullable: bool) -> (field: Field)
        ensures
            field@ == (FieldView {
                name: name@,
                data_type: data_type@,
                nullable,
                metadata: Map::empty(),
            }),
            field.data_type == data_type,
    {
        Field { name: name.to_string(), data_type, nullable, metadata: Vec::new() }
    }
}

impl Schema {
    /// A schema with these columns.
    pub fn new(fields: Vec<Field>) -> (schema: Schema)
        ensures
            schema.fields == fields,
    {
        Schema { fields }
    }
}

/// Declares `arrow::datatypes::DataType`, the type of an Arrow array.
#[verifier::external_type_specification]
#[verifier::external_body]
pub struct ExArrowDataType(ArrowDataType);

/// Declares `arrow::datatypes::Field`, a column of an Arrow schema.
#[verifier::external_type_specification]
#[verifier::external_body]
pub struct ExArrowField(ArrowField);

/// What an Arrow type stands for.
pub uninterp spec fn type_held(data_type: ArrowDataType) -> TypeView;

/// What an Arrow field stands for.
pub uninterp spec fn field_held(field: ArrowField) -> FieldView;

/// Makes the variants of `arrow::datatypes::DataType` that have no parameters.
#[verifier::external_body]
fn plain_type(data_type: &DataType) -> (arrow_type: Option<ArrowDataType>)
    ensures
        arrow_type is None <==> {
            ||| data_type is Time64
            ||| data_type is Timestamp
            ||| data_type is FixedSizeBinary
            ||| data_type is Decimal128
            ||| data_type is List
        },
        arrow_type matches Some(t) ==> type_held(t) == data_type@,
{
    Some(match data_type {
        DataType::Boolean => ArrowDataType::Boolean,
        DataType::Int16 => ArrowDataType::Int16,
        DataType::Int32 => ArrowDataType::Int32,
        DataType::Int64 => ArrowDataType::Int64,
        DataType::Float32 => ArrowDataType::Float32,
        DataType::Float64 => ArrowDataType::Float64,
        DataType::Utf8 => ArrowDataType::Utf8,
        DataType::Binary => ArrowDataType::Binary,
        DataType::LargeBinary => ArrowDataType::LargeBinary,
        DataType::Date32 => ArrowDataType::Date32,
        _ => return None,
    })
}

/// Makes `arrow::datatypes::DataType::Time64`.
#[verifier::external_body]
fn time64_type(unit: TimeUnit) -> (arrow_type: ArrowDataType)
    ensures
        type_held(arrow_type) == TypeView::Time64(unit),
{
    ArrowDataType::Time64(match unit {
        TimeUnit::Second => ArrowTimeUnit::Second,
        TimeUnit::Millisecond => ArrowTimeUnit::Millisecond,
        TimeUnit::Microsecond => ArrowTimeUnit::Microsecond,
        TimeUnit::Nanosecond => ArrowTimeUnit::Nanosecond,
    })
}

/// Makes `arrow::datatypes::DataType::Timestamp`.
#[verifier::external_body]
fn timestamp_type(unit: TimeUnit, zone: &Option<String>) -> (arrow_type: ArrowDataType)
    ensures
        type_held(arrow_type) == TypeView::Timestamp(unit, zone_name(*zone)),
{
    let unit = match unit {
        TimeUnit::Second => ArrowTimeUnit::Second,
        TimeUnit::Millisecond => ArrowTimeUnit::Millisecond,
        TimeUnit::Microsecond => ArrowTimeUnit::Microsecond,
        TimeUnit::Nanosecond => ArrowTimeUnit::Nanosecond,
    };
    ArrowDataType::Timestamp(unit, zone.as_deref().map(|name| name.into()))
}

/// Makes `arrow::datatypes::DataType::FixedSizeBinary`.
#[verifier::external_body]
fn fixed_size_binary_type(width: i32) -> (arrow_type: ArrowDataType)
    ensures
        type_held(arrow_type) == TypeView::FixedSizeBinary(width),
{
    ArrowDataType::FixedSizeBinary(width)
}

/// Makes `arrow::datatypes::DataType::Decimal128`.
#[verifier::external_body]
fn decimal128_type(precision: u8, scale: i8) -> (arrow_type: ArrowDataType)
    ensures
        type_held(arrow_type) == TypeView::Decimal128(precision, scale),
{
    ArrowDataType::Decimal128(precision, scale)
}

/// Makes `arrow::datatypes::DataType::List`.
#[verifier::external_body]
fn list_type(element: ArrowField) -> (arrow_type: ArrowDataType)
    ensures
        type_held(arrow_type) == TypeView::List(Box::new(field_held(element))),
{
    ArrowDataType::List(std::sync::Arc::new(element))
}

/// Calls `arrow::datatypes::Field::new` and `Field::with_metadata`: a field with this name, type
/// and nullability and with these notes.
#[verifier::external_body]
fn field_of(
    name: &String,
    data_type: ArrowDataType,
    nullable: bool,
    metadata: &Vec<(String, String)>,
) -> (field: ArrowField)
    ensures
        field_held(field) == (FieldView {
            name: name@,
            data_type: type_held(data_type),
            nullable,
            metadata: metadata_map(metadata@),
        }),
{
    ArrowField::new(name, data_type, nullable).with_metadata(metadata.iter().cloned().collect())
}

/// The Arrow field for a column.
pub(crate) fn arrow_field(field: &Field) -> (arrow_field: ArrowField)
    ensures
        field_held(arrow_field) == field@,
    decreases field,
{
    let data_type = arrow_data_type(&field.data_type);
    field_of(&field.name, data_type, field.nullable, &field.metadata)
}

fn arrow_data_type(data_type: &DataType) -> (arrow_type: ArrowDataType)
    ensures
        type_held(arrow_type) == data_type@,
    decreases data_type,
{
    match data_type {
        DataType::Time64(unit) => time64_type(*unit),
        DataType::Timestamp(unit, zone) => timestamp_type(*unit, zone),
        DataType::FixedSizeBinary(width) => fixed_size_binary_type(*width),
        DataType::Decimal128(precision, scale) => decimal128_type(*precision, *scale),
        DataType::List(element) => list_type(arrow_field(element)),
        _ => plain_type(data_type).unwrap(),
    }
}

} // verus!
