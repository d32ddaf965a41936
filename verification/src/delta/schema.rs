//! Postgres tables as Delta tables, with the types that encoded rows have.

use vstd::prelude::*;

use crate::kernel;
use crate::kernel::{ArrayType, KernelType, PrimitiveType, StructField, StructFieldView, StructType};
use crate::types::schema;
use crate::types::{ColumnSchema, PgType, TableSchema, is_array_type};

verus! {

/// The type for single values of a Postgres type. A number of any size has no type of its own and
/// becomes a text, as does everything without a counterpart. A time of day becomes a timestamp.
pub open spec fn scalar_type(typ: PgType) -> PrimitiveType {
    match typ {
        PgType::Bool => PrimitiveType::Boolean,
        PgType::Int2 => PrimitiveType::Short,
        PgType::Int4 | PgType::Oid => PrimitiveType::Integer,
        PgType::Int8 => PrimitiveType::Long,
        PgType::Float4 => PrimitiveType::Float,
        PgType::Float8 => PrimitiveType::Double,
        PgType::Date => PrimitiveType::Date,
        PgType::Time | PgType::Timestamp => PrimitiveType::TimestampNtz,
        PgType::Timestamptz => PrimitiveType::Timestamp,
        PgType::Bytea => PrimitiveType::Binary,
        _ => PrimitiveType::String,
    }
}

/// The type for the elements of a Postgres array type.
pub open spec fn element_type(typ: PgType) -> PrimitiveType {
    match typ {
        PgType::BoolArray => PrimitiveType::Boolean,
        PgType::Int2Array => PrimitiveType::Short,
        PgType::Int4Array | PgType::OidArray => PrimitiveType::Integer,
        PgType::Int8Array => PrimitiveType::Long,
        PgType::Float4Array => PrimitiveType::Float,
        PgType::Float8Array => PrimitiveType::Double,
        PgType::DateArray => PrimitiveType::Date,
        PgType::TimeArray | PgType::TimestampArray => PrimitiveType::TimestampNtz,
        PgType::TimestamptzArray => PrimitiveType::Timestamp,
        PgType::ByteaArray => PrimitiveType::Binary,
        _ => PrimitiveType::String,
    }
}

/// The column of a Delta table for a column of a Postgres table.
pub open spec fn delta_field(column: ColumnSchema) -> StructFieldView {
    StructFieldView {
        name: column.name@,
        data_type: if schema::is_array(column.typ) {
            KernelType::Array(
                ArrayType { element_type: element_type(column.typ), contains_null: true },
            )
        } else {
            KernelType::Primitive(scalar_type(column.typ))
        },
        nullable: column.nullable,
    }
}

/// The columns of a Delta table for the columns of a Postgres table.
pub open spec fn delta_fields(columns: Seq<ColumnSchema>) -> Seq<StructFieldView> {
    columns.map_values(|column: ColumnSchema| delta_field(column))
}

/// The type for single values of a Postgres type.
pub fn postgres_scalar_type_to_delta(typ: &PgType) -> (data_type: KernelType)
    ensures
        data_type == KernelType::Primitive(scalar_type(*typ)),
{
    KernelType::Primitive(
        match typ {
            PgType::Bool => PrimitiveType::Boolean,
            PgType::Char | PgType::Bpchar | PgType::Varchar | PgType::Name | PgType::Text =>
                PrimitiveType::String,
            PgType::Int2 => PrimitiveType::Short,
            PgType::Int4 => PrimitiveType::Integer,
            PgType::Int8 => PrimitiveType::Long,
            PgType::Float4 => PrimitiveType::Float,
            PgType::Float8 => PrimitiveType::Double,
            PgType::Numeric => PrimitiveType::String,
            PgType::Date => PrimitiveType::Date,
            PgType::Time => PrimitiveType::TimestampNtz,
            PgType::Timestamp => PrimitiveType::TimestampNtz,
            PgType::Timestamptz => PrimitiveType::Timestamp,
            PgType::Uuid => PrimitiveType::String,
            PgType::Json | PgType::Jsonb => PrimitiveType::String,
            PgType::Oid => PrimitiveType::Integer,
            PgType::Bytea => PrimitiveType::Binary,
            _ => PrimitiveType::String,
        },
    )
}

/// The type for arrays of a Postgres array type. Elements may be missing.
pub fn postgres_array_type_to_delta(typ: &PgType) -> (data_type: KernelType)
    ensures
        data_type == KernelType::Array(
            ArrayType { element_type: element_type(*typ), contains_null: true },
        ),
{
    let element_type = match typ {
        PgType::BoolArray => PrimitiveType::Boolean,
        PgType::CharArray
        | PgType::BpcharArray
        | PgType::VarcharArray
        | PgType::NameArray
        | PgType::TextArray => PrimitiveType::String,
        PgType::Int2Array => PrimitiveType::Short,
        PgType::Int4Array => PrimitiveType::Integer,
        PgType::Int8Array => PrimitiveType::Long,
        PgType::Float4Array => PrimitiveType::Float,
        PgType::Float8Array => PrimitiveType::Double,
        PgType::NumericArray => PrimitiveType::String,
        PgType::DateArray => PrimitiveType::Date,
        PgType::TimeArray => PrimitiveType::TimestampNtz,
        PgType::TimestampArray => PrimitiveType::TimestampNtz,
        PgType::TimestamptzArray => PrimitiveType::Timestamp,
        PgType::UuidArray => PrimitiveType::String,
        PgType::JsonArray | PgType::JsonbArray => PrimitiveType::String,
        PgType::OidArray => PrimitiveType::Integer,
        PgType::ByteaArray => PrimitiveType::Binary,
        _ => PrimitiveType::String,
    };
    KernelType::Array(ArrayType::new(element_type, true))
}

/// The columns of a Delta table for a Postgres table. Of two columns with one name the later one
/// counts.
pub fn postgres_to_delta_schema(table_schema: &TableSchema) -> (delta_schema: StructType)
    ensures
        delta_schema@ == kernel::collected(delta_fields(table_schema.column_schemas@)),
{
    let columns = &table_schema.column_schemas;
    let mut fields: Vec<StructField> = Vec::new();
    let mut i: usize = 0;
    while i < columns.len()
        invariant
            i <= columns@.len(),
            kernel::field_views(fields@) == delta_fields(columns@).take(i as int),
        decreases columns@.len() - i,
    {
        let column = &columns[i];
        let data_type = if is_array_type(&column.typ) {
            postgres_array_type_to_delta(&column.typ)
        } else {
            postgres_scalar_type_to_delta(&column.typ)
        };
        let field = StructField::new(&column.name, data_type, column.nullable);
        assert(kernel::field_views(fields@.push(field)) =~= kernel::field_views(fields@).push(
            field@,
        ));
        assert(delta_fields(columns@).take(i as int + 1) =~= delta_fields(columns@).take(
            i as int,
        ).push(delta_field(columns@[i as int])));
        fields.push(field);
        i += 1;
    }
    assert(delta_fields(columns@).take(i as int) =~= delta_fields(columns@));
    StructType::new(fields)
}

/// A Postgres table whose columns have different names becomes a Delta table with the same
/// columns: as many, in the same order, with the same names and the same nullability.
pub proof fn delta_schema_keeps_columns(table_schema: TableSchema)
    requires
        forall|i: int, j: int|
            0 <= i < j < table_schema.column_schemas@.len()
                ==> (#[trigger] table_schema.column_schemas@[i]).name@ != (
            #[trigger] table_schema.column_schemas@[j]).name@,
    ensures
        ({
            let fields = kernel::collected(delta_fields(table_schema.column_schemas@));
            &&& fields.len() == table_schema.column_schemas@.len()
            &&& forall|i: int|
                0 <= i < fields.len() ==> {
                    &&& (#[trigger] fields[i]).name == table_schema.column_schemas@[i].name@
                    &&& fields[i].nullable == table_schema.column_schemas@[i].nullable
                }
        }),
{
    let columns = table_schema.column_schemas@;
    let fields = delta_fields(columns);
    assert forall|i: int, j: int| 0 <= i < j < fields.len() implies (#[trigger] fields[i]).name != (
    #[trigger] fields[j]).name by {
        assert(columns[i].name@ != columns[j].name@);
    }
    kernel::different_fields_are_kept(fields);
}

} // verus!
