//! Postgres tables as Delta tables, and as Arrow schemas.

use vstd::prelude::*;

use crate::batch::cells::UUID_BYTE_WIDTH;
use crate::batch::data_type::{DataType, Field, FieldView, Schema, TimeUnit, TypeView};
use crate::kernel;
use crate::kernel::{
    ArrayType, DecimalType, KernelType, PrimitiveType, StructField, StructFieldView, StructType,
};
use crate::types::schema;
use crate::types::{ColumnSchema, PgType, TableSchema, is_array_type};

verus! {

/// The number of digits where a numeric type gives none.
pub const DEFAULT_NUMERIC_PRECISION: u8 = 38;

/// The number of digits behind the point where a numeric type gives none.
pub const DEFAULT_NUMERIC_SCALE: u8 = 18;

/// The number of digits in the modifier of a numeric type: it stands in the upper half of the
/// modifier less four.
pub open spec fn numeric_precision(modifier: i32) -> u8 {
    if modifier == -1 {
        DEFAULT_NUMERIC_PRECISION
    } else {
        let precision = (modifier - 4) / 65536 % 65536;
        if precision < kernel::MAX_DECIMAL_PRECISION {
            precision as u8
        } else {
            kernel::MAX_DECIMAL_PRECISION
        }
    }
}

/// The number of digits behind the point in the modifier of a numeric type: it stands in the
/// lower half of the modifier less four.
pub open spec fn numeric_scale(modifier: i32) -> u8 {
    if modifier == -1 {
        DEFAULT_NUMERIC_SCALE
    } else {
        let scale = (modifier - 4) % 65536;
        if scale < kernel::MAX_DECIMAL_PRECISION {
            scale as u8
        } else {
            kernel::MAX_DECIMAL_PRECISION
        }
    }
}

/// The number of digits in the modifier of a numeric type.
pub fn extract_numeric_precision(modifier: i32) -> (precision: u8)
    ensures
        precision == numeric_precision(modifier),
{
    if modifier == -1 {
        return DEFAULT_NUMERIC_PRECISION;
    }
    let precision: u64 = (modifier as i64 - 4 + 4294967296) as u64 / 65536 % 65536;
    if precision < kernel::MAX_DECIMAL_PRECISION as u64 {
        precision as u8
    } else {
        kernel::MAX_DECIMAL_PRECISION
    }
}

/// The number of digits behind the point in the modifier of a numeric type.
pub fn extract_numeric_scale(modifier: i32) -> (scale: u8)
    ensures
        scale == numeric_scale(modifier),
{
    if modifier == -1 {
        return DEFAULT_NUMERIC_SCALE;
    }
    let scale: u64 = (modifier as i64 - 4 + 4294967296) as u64 % 65536;
    if scale < kernel::MAX_DECIMAL_PRECISION as u64 {
        scale as u8
    } else {
        kernel::MAX_DECIMAL_PRECISION
    }
}

/// Whether a type is that of single values of a Postgres type. A numeric type becomes a type of
/// decimal numbers with its digits, or text if there is no such type.
pub open spec fn is_scalar_type(primitive: PrimitiveType, typ: PgType, modifier: i32) -> bool {
    match typ {
        PgType::Bool => primitive == PrimitiveType::Boolean,
        PgType::Int2 | PgType::Int4 => primitive == PrimitiveType::Integer,
        PgType::Int8 | PgType::Oid => primitive == PrimitiveType::Long,
        PgType::Float4 => primitive == PrimitiveType::Float,
        PgType::Float8 => primitive == PrimitiveType::Double,
        PgType::Numeric => {
            let precision = numeric_precision(modifier);
            let scale = numeric_scale(modifier);
            if kernel::is_decimal(precision, scale) {
                primitive matches PrimitiveType::Decimal(decimal) && decimal.precision_of()
                    == precision && decimal.scale_of() == scale
            } else {
                primitive == PrimitiveType::String
            }
        },
        PgType::Date => primitive == PrimitiveType::Date,
        PgType::Time | PgType::Timestamp => primitive == PrimitiveType::Timestamp,
        PgType::Timestamptz => primitive == PrimitiveType::TimestampNtz,
        PgType::Bytea => primitive == PrimitiveType::Binary,
        _ => primitive == PrimitiveType::String,
    }
}

/// The type for the elements of a Postgres array type.
pub open spec fn element_type(typ: PgType) -> PrimitiveType {
    match typ {
        PgType::BoolArray => PrimitiveType::Boolean,
        PgType::Int2Array | PgType::Int4Array => PrimitiveType::Integer,
        PgType::Int8Array | PgType::OidArray => PrimitiveType::Long,
        PgType::Float4Array => PrimitiveType::Float,
        PgType::Float8Array => PrimitiveType::Double,
        PgType::DateArray => PrimitiveType::Date,
        PgType::TimeArray | PgType::TimestampArray => PrimitiveType::Timestamp,
        PgType::TimestamptzArray => PrimitiveType::TimestampNtz,
        PgType::ByteaArray => PrimitiveType::Binary,
        _ => PrimitiveType::String,
    }
}

/// Whether a column of a Delta table is that for a column of a Postgres table.
pub open spec fn is_delta_field(field: StructFieldView, column: ColumnSchema) -> bool {
    &&& field.name == column.name@
    &&& field.nullable == column.nullable
    &&& if schema::is_array(column.typ) {
        field.data_type == KernelType::Array(
            ArrayType { element_type: element_type(column.typ), contains_null: true },
        )
    } else {
        field.data_type matches KernelType::Primitive(primitive) && is_scalar_type(
            primitive,
            column.typ,
            column.modifier,
        )
    }
}

/// Whether the columns of a Delta table are those for the columns of a Postgres table.
pub open spec fn are_delta_fields(fields: Seq<StructFieldView>, columns: Seq<ColumnSchema>) -> bool {
    &&& fields.len() == columns.len()
    &&& forall|i: int| 0 <= i < fields.len() ==> is_delta_field(#[trigger] fields[i], columns[i])
}

/// Whether no two columns of a Postgres table have the same name.
pub open spec fn column_names_differ(columns: Seq<ColumnSchema>) -> bool {
    forall|i: int, j: int|
        0 <= i < j < columns.len() ==> (#[trigger] columns[i]).name@ != (
        #[trigger] columns[j]).name@
}

/// Whether a name is that of the first column that has the name of an earlier one.
pub open spec fn is_repeated_name(columns: Seq<ColumnSchema>, name: Seq<char>) -> bool {
    exists|i: int, j: int|
        {
            &&& 0 <= i < j < columns.len()
            &&& name == #[trigger] columns[i].name@
            &&& name == #[trigger] columns[j].name@
            &&& column_names_differ(columns.take(j))
        }
}

fn create_delta_list_type(element_type: PrimitiveType) -> (data_type: KernelType)
    ensures
        data_type == KernelType::Array(ArrayType { element_type, contains_null: true }),
{
    KernelType::Array(ArrayType::new(element_type, true))
}

/// The type for arrays of a Postgres array type. Elements may be missing.
pub fn postgres_array_type_to_delta_type(typ: &PgType) -> (data_type: KernelType)
    ensures
        data_type == KernelType::Array(
            ArrayType { element_type: element_type(*typ), contains_null: true },
        ),
{
    match typ {
        PgType::BoolArray => create_delta_list_type(PrimitiveType::Boolean),
        PgType::CharArray
        | PgType::BpcharArray
        | PgType::VarcharArray
        | PgType::NameArray
        | PgType::TextArray => create_delta_list_type(PrimitiveType::String),
        PgType::Int2Array | PgType::Int4Array => create_delta_list_type(PrimitiveType::Integer),
        PgType::Int8Array => create_delta_list_type(PrimitiveType::Long),
        PgType::Float4Array => create_delta_list_type(PrimitiveType::Float),
        PgType::Float8Array => create_delta_list_type(PrimitiveType::Double),
        PgType::NumericArray => create_delta_list_type(PrimitiveType::String),
        PgType::DateArray => create_delta_list_type(PrimitiveType::Date),
        PgType::TimeArray => create_delta_list_type(PrimitiveType::Timestamp),
        PgType::TimestampArray => create_delta_list_type(PrimitiveType::Timestamp),
        PgType::TimestamptzArray => create_delta_list_type(PrimitiveType::TimestampNtz),
        PgType::UuidArray => create_delta_list_type(PrimitiveType::String),
        PgType::JsonArray | PgType::JsonbArray => create_delta_list_type(PrimitiveType::String),
        PgType::OidArray => create_delta_list_type(PrimitiveType::Long),
        PgType::ByteaArray => create_delta_list_type(PrimitiveType::Binary),
        _ => create_delta_list_type(PrimitiveType::String),
    }
}

/// The type for single values of a Postgres type.
pub fn postgres_scalar_type_to_delta_type(typ: &PgType, modifier: i32) -> (data_type: KernelType)
    ensures
        data_type matches KernelType::Primitive(primitive) && is_scalar_type(
            primitive,
            *typ,
            modifier,
        ),
{
    KernelType::Primitive(
        match typ {
            PgType::Bool => PrimitiveType::Boolean,
            PgType::Char | PgType::Bpchar | PgType::Varchar | PgType::Name | PgType::Text =>
                PrimitiveType::String,
            PgType::Int2 | PgType::Int4 => PrimitiveType::Integer,
            PgType::Int8 => PrimitiveType::Long,
            PgType::Float4 => PrimitiveType::Float,
            PgType::Float8 => PrimitiveType::Double,
            PgType::Numeric => {
                let precision = extract_numeric_precision(modifier);
                let scale = extract_numeric_scale(modifier);
                match DecimalType::try_new(precision, scale) {
                    Some(decimal) => PrimitiveType::Decimal(decimal),
                    None => PrimitiveType::String,
                }
            },
            PgType::Date => PrimitiveType::Date,
            PgType::Time => PrimitiveType::Timestamp,
            PgType::Timestamp => PrimitiveType::Timestamp,
            PgType::Timestamptz => PrimitiveType::TimestampNtz,
            PgType::Uuid => PrimitiveType::String,
            PgType::Json | PgType::Jsonb => PrimitiveType::String,
            PgType::Oid => PrimitiveType::Long,
            PgType::Bytea => PrimitiveType::Binary,
            _ => PrimitiveType::String,
        },
    )
}

/// The column of a Delta table for a column of a Postgres table.
fn postgres_to_delta_field(column: &ColumnSchema) -> (field: StructField)
    ensures
        is_delta_field(field@, *column),
{
    let field_type = if is_array_type(&column.typ) {
        postgres_array_type_to_delta_type(&column.typ)
    } else {
        postgres_scalar_type_to_delta_type(&column.typ, column.modifier)
    };
    StructField::new(&column.name, field_type, column.nullable)
}

/// The columns of a Delta table for a Postgres table, or the first name that occurs again.
pub fn postgres_to_delta_schema(table_schema: &TableSchema) -> (delta_schema: Result<
    StructType,
    String,
>)
    ensures
        delta_schema is Ok <==> column_names_differ(table_schema.column_schemas@),
        delta_schema matches Ok(s) ==> are_delta_fields(s@, table_schema.column_schemas@),
        delta_schema matches Err(name) ==> is_repeated_name(table_schema.column_schemas@, name@),
{
    let columns = &table_schema.column_schemas;
    let mut fields: Vec<StructField> = Vec::new();
    let mut i: usize = 0;
    while i < columns.len()
        invariant
            i <= columns@.len(),
            fields@.len() == i,
            forall|k: int| 0 <= k < i ==> is_delta_field((#[trigger] fields@[k])@, columns@[k]),
        decreases columns@.len() - i,
    {
        fields.push(postgres_to_delta_field(&columns[i]));
        i += 1;
    }
    let ghost views = kernel::field_views(fields@);
    proof {
        assert forall|k: int| 0 <= k < views.len() implies is_delta_field(
            #[trigger] views[k],
            columns@[k],
        ) by {
            assert(views[k] == fields@[k]@);
        }
        if kernel::names_differ(views) {
            assert forall|i: int, j: int| 0 <= i < j < columns@.len() implies (
            #[trigger] columns@[i]).name@ != (#[trigger] columns@[j]).name@ by {
                assert(views[i].name != views[j].name);
            }
        }
        if column_names_differ(columns@) {
            assert forall|i: int, j: int| 0 <= i < j < views.len() implies (
            #[trigger] views[i]).name != (#[trigger] views[j]).name by {
                assert(columns@[i].name@ != columns@[j].name@);
            }
        }
    }
    match StructType::try_new(fields) {
        Ok(schema) => Ok(schema),
        Err(name) => {
            proof {
                let (i, j) = choose|i: int, j: int|
                    {
                        &&& 0 <= i < j < fields@.len()
                        &&& name@ == #[trigger] fields@[i].name@
                        &&& name@ == #[trigger] fields@[j].name@
                        &&& kernel::names_differ(views.take(j))
                    };
                assert(is_delta_field(fields@[i]@, columns@[i]));
                assert(is_delta_field(fields@[j]@, columns@[j]));
                let before = columns@.take(j);
                assert forall|a: int, b: int| 0 <= a < b < before.len() implies (
                #[trigger] before[a]).name@ != (#[trigger] before[b]).name@ by {
                    assert(views.take(j)[a].name != views.take(j)[b].name);
                    assert(is_delta_field(views[a], columns@[a]));
                    assert(is_delta_field(views[b], columns@[b]));
                }
                assert(name@ == columns@[i].name@ && name@ == columns@[j].name@);
            }
            Err(name)
        },
    }
}

/// The Arrow type for single values of a Postgres type. It is one that the cells of the Postgres
/// type are encoded in: numbers of any size are texts, identifiers are sixteen bytes, and times of
/// day are microseconds.
pub open spec fn postgres_scalar_arrow_type(typ: PgType) -> TypeView {
    match typ {
        PgType::Bool => TypeView::Boolean,
        PgType::Int2 | PgType::Int4 => TypeView::Int32,
        PgType::Int8 | PgType::Oid => TypeView::Int64,
        PgType::Float4 => TypeView::Float32,
        PgType::Float8 => TypeView::Float64,
        PgType::Date => TypeView::Date32,
        PgType::Time => TypeView::Time64(TimeUnit::Microsecond),
        PgType::Timestamp => TypeView::Timestamp(TimeUnit::Microsecond, None),
        PgType::Timestamptz => TypeView::Timestamp(TimeUnit::Microsecond, Some("UTC"@)),
        PgType::Uuid => TypeView::FixedSizeBinary(UUID_BYTE_WIDTH),
        PgType::Bytea => TypeView::LargeBinary,
        _ => TypeView::Utf8,
    }
}

/// The Arrow type for the elements of a Postgres array type. It is one that lists of the Postgres
/// type are encoded in: numbers of any size and identifiers are texts.
pub open spec fn postgres_element_arrow_type(typ: PgType) -> TypeView {
    match typ {
        PgType::BoolArray => TypeView::Boolean,
        PgType::Int2Array | PgType::Int4Array => TypeView::Int32,
        PgType::Int8Array | PgType::OidArray => TypeView::Int64,
        PgType::Float4Array => TypeView::Float32,
        PgType::Float8Array => TypeView::Float64,
        PgType::DateArray => TypeView::Date32,
        PgType::TimeArray => TypeView::Time64(TimeUnit::Microsecond),
        PgType::TimestampArray => TypeView::Timestamp(TimeUnit::Microsecond, None),
        PgType::TimestamptzArray => TypeView::Timestamp(TimeUnit::Microsecond, Some("UTC"@)),
        PgType::ByteaArray => TypeView::LargeBinary,
        _ => TypeView::Utf8,
    }
}

/// The Arrow field for the elements of a Postgres array type. Elements may be missing.
pub open spec fn postgres_element_field(typ: PgType) -> FieldView {
    FieldView {
        name: "element"@,
        data_type: postgres_element_arrow_type(typ),
        nullable: true,
        metadata: Map::empty(),
    }
}

/// The Arrow field for a column of a Postgres table.
pub open spec fn postgres_arrow_field(column: ColumnSchema) -> FieldView {
    FieldView {
        name: column.name@,
        data_type: if schema::is_array(column.typ) {
            TypeView::List(Box::new(postgres_element_field(column.typ)))
        } else {
            postgres_scalar_arrow_type(column.typ)
        },
        nullable: column.nullable,
        metadata: Map::empty(),
    }
}

/// The Arrow fields for the columns of a Postgres table.
pub open spec fn postgres_arrow_fields(columns: Seq<ColumnSchema>) -> Seq<FieldView> {
    columns.map_values(|column: ColumnSchema| postgres_arrow_field(column))
}

/// The Arrow type for single values of a Postgres type.
fn postgres_scalar_type_to_arrow_type(typ: &PgType) -> (data_type: DataType)
    ensures
        data_type@ == postgres_scalar_arrow_type(*typ),
{
    match typ {
        PgType::Bool => DataType::Boolean,
        PgType::Int2 | PgType::Int4 => DataType::Int32,
        PgType::Int8 | PgType::Oid => DataType::Int64,
        PgType::Float4 => DataType::Float32,
        PgType::Float8 => DataType::Float64,
        PgType::Date => DataType::Date32,
        PgType::Time => DataType::Time64(TimeUnit::Microsecond),
        PgType::Timestamp => DataType::Timestamp(TimeUnit::Microsecond, None),
        PgType::Timestamptz => DataType::Timestamp(TimeUnit::Microsecond, Some("UTC".to_string())),
        PgType::Uuid => DataType::FixedSizeBinary(UUID_BYTE_WIDTH),
        PgType::Bytea => DataType::LargeBinary,
        _ => DataType::Utf8,
    }
}

/// The Arrow type for the elements of a Postgres array type.
fn postgres_array_type_to_arrow_type(typ: &PgType) -> (data_type: DataType)
    ensures
        data_type@ == postgres_element_arrow_type(*typ),
{
    match typ {
        PgType::BoolArray => DataType::Boolean,
        PgType::Int2Array | PgType::Int4Array => DataType::Int32,
        PgType::Int8Array | PgType::OidArray => DataType::Int64,
        PgType::Float4Array => DataType::Float32,
        PgType::Float8Array => DataType::Float64,
        PgType::DateArray => DataType::Date32,
        PgType::TimeArray => DataType::Time64(TimeUnit::Microsecond),
        PgType::TimestampArray => DataType::Timestamp(TimeUnit::Microsecond, None),
        PgType::TimestamptzArray => DataType::Timestamp(
            TimeUnit::Microsecond,
            Some("UTC".to_string()),
        ),
        PgType::ByteaArray => DataType::LargeBinary,
        _ => DataType::Utf8,
    }
}

/// The Arrow field for a column of a Postgres table.
pub fn postgres_to_arrow_field(column: &ColumnSchema) -> (field: Field)
    ensures
        field@ == postgres_arrow_field(*column),
{
    let data_type = if is_array_type(&column.typ) {
        let element_type = postgres_array_type_to_arrow_type(&column.typ);
        DataType::List(Box::new(Field::new("element", element_type, true)))
    } else {
        postgres_scalar_type_to_arrow_type(&column.typ)
    };
    Field::new(column.name.as_str(), data_type, column.nullable)
}

/// The Arrow fields for the columns of a Postgres table.
pub fn postgres_to_arrow_fields(table_schema: &TableSchema) -> (schema: Schema)
    ensures
        schema@ == postgres_arrow_fields(table_schema.column_schemas@),
{
    let columns = &table_schema.column_schemas;
    let mut fields: Vec<Field> = Vec::new();
    let mut i: usize = 0;
    while i < columns.len()
        invariant
            i <= columns@.len(),
            fields@.len() == i,
            forall|k: int|
                0 <= k < i ==> (#[trigger] fields@[k])@ == postgres_arrow_field(columns@[k]),
        decreases columns@.len() - i,
    {
        fields.push(postgres_to_arrow_field(&columns[i]));
        i += 1;
    }
    let schema = Schema::new(fields);
    assert(schema@ =~= postgres_arrow_fields(columns@));
    schema
}

/// The Arrow schema for a Postgres table, or the first name that occurs again.
pub fn postgres_to_arrow_schema(table_schema: &TableSchema) -> (schema: Result<Schema, String>)
    ensures
        schema is Ok <==> column_names_differ(table_schema.column_schemas@),
        schema matches Ok(s) ==> s@ == postgres_arrow_fields(table_schema.column_schemas@),
        schema matches Err(name) ==> is_repeated_name(table_schema.column_schemas@, name@),
{
    match postgres_to_delta_schema(table_schema) {
        Ok(_) => Ok(postgres_to_arrow_fields(table_schema)),
        Err(name) => Err(name),
    }
}

/// The Arrow schema of a table has the columns of the table: as many, in the same order, with
/// the same names and the same nullability.
pub proof fn arrow_schema_keeps_columns(columns: Seq<ColumnSchema>)
    ensures
        postgres_arrow_fields(columns).len() == columns.len(),
        forall|i: int|
            0 <= i < columns.len() ==> {
                &&& (#[trigger] postgres_arrow_fields(columns)[i]).name == columns[i].name@
                &&& postgres_arrow_fields(columns)[i].nullable == columns[i].nullable
            },
{
}

} // verus!
