//! Columns have types that hold their values.

use vstd::prelude::*;

use crate::batch::data_type::{Field, Schema, TimeUnit, TypeView};
use crate::delta;
use crate::deltalake;
use crate::kernel;
use crate::kernel::{KernelType, PrimitiveType, StructField, StructType};
use crate::types::schema;
use crate::types::{ColumnSchema, PgType, TableSchema, is_array_type};

verus! {

/// The least and the greatest number of a Postgres type of integers.
pub open spec fn postgres_range(typ: PgType) -> Option<(int, int)> {
    match typ {
        PgType::Int2 => Some((-0x8000, 0x7fff)),
        PgType::Int4 => Some((-0x8000_0000, 0x7fff_ffff)),
        PgType::Int8 => Some((-0x8000_0000_0000_0000, 0x7fff_ffff_ffff_ffff)),
        PgType::Oid => Some((0, 0xffff_ffff)),
        _ => None,
    }
}

/// The least and the greatest number of a Delta type of integers.
pub open spec fn delta_range(primitive: PrimitiveType) -> Option<(int, int)> {
    match primitive {
        PrimitiveType::Short => Some((-0x8000, 0x7fff)),
        PrimitiveType::Integer => Some((-0x8000_0000, 0x7fff_ffff)),
        PrimitiveType::Long => Some((-0x8000_0000_0000_0000, 0x7fff_ffff_ffff_ffff)),
        _ => None,
    }
}

/// The number of bits of a Postgres type of floats.
pub open spec fn postgres_float_bits(typ: PgType) -> Option<int> {
    match typ {
        PgType::Float4 => Some(32),
        PgType::Float8 => Some(64),
        _ => None,
    }
}

/// The number of bits of a Delta type of floats.
pub open spec fn delta_float_bits(primitive: PrimitiveType) -> Option<int> {
    match primitive {
        PrimitiveType::Float => Some(32),
        PrimitiveType::Double => Some(64),
        _ => None,
    }
}

/// Whether one range of numbers lies within another.
pub open spec fn lies_within(inner: (int, int), outer: (int, int)) -> bool {
    outer.0 <= inner.0 && inner.1 <= outer.1
}

/// Whether a Delta type is written with the values of an Arrow type: integers and floats of as many
/// bits, truth values, days, microseconds, raw bytes, and texts. Identifiers and decimal numbers
/// are read as texts.
pub open spec fn is_written_from(primitive: PrimitiveType, data_type: TypeView) -> bool {
    match data_type {
        TypeView::Boolean => primitive is Boolean,
        TypeView::Int16 => primitive is Short,
        TypeView::Int32 => primitive is Integer,
        TypeView::Int64 => primitive is Long,
        TypeView::Float32 => primitive is Float,
        TypeView::Float64 => primitive is Double,
        TypeView::Date32 => primitive is Date,
        TypeView::Time64(unit) => unit is Microsecond && primitive is Timestamp,
        TypeView::Timestamp(unit, None) => unit is Microsecond && primitive is Timestamp,
        TypeView::Timestamp(unit, Some(_)) => unit is Microsecond && primitive is TimestampNtz,
        TypeView::LargeBinary => primitive is Binary,
        TypeView::FixedSizeBinary(_) => primitive is String,
        TypeView::Utf8 => primitive is String || primitive is Decimal,
        _ => false,
    }
}

/// The Postgres type of the elements of an array type. An array type that is not known has elements
/// of a type that is not known.
pub open spec fn single(typ: PgType) -> Option<PgType> {
    match typ {
        PgType::BoolArray => Some(PgType::Bool),
        PgType::CharArray => Some(PgType::Char),
        PgType::BpcharArray => Some(PgType::Bpchar),
        PgType::VarcharArray => Some(PgType::Varchar),
        PgType::NameArray => Some(PgType::Name),
        PgType::TextArray => Some(PgType::Text),
        PgType::Int2Array => Some(PgType::Int2),
        PgType::Int4Array => Some(PgType::Int4),
        PgType::Int8Array => Some(PgType::Int8),
        PgType::Float4Array => Some(PgType::Float4),
        PgType::Float8Array => Some(PgType::Float8),
        PgType::NumericArray => Some(PgType::Numeric),
        PgType::DateArray => Some(PgType::Date),
        PgType::TimeArray => Some(PgType::Time),
        PgType::TimestampArray => Some(PgType::Timestamp),
        PgType::TimestamptzArray => Some(PgType::Timestamptz),
        PgType::UuidArray => Some(PgType::Uuid),
        PgType::JsonArray => Some(PgType::Json),
        PgType::JsonbArray => Some(PgType::Jsonb),
        PgType::OidArray => Some(PgType::Oid),
        PgType::ByteaArray => Some(PgType::Bytea),
        PgType::OtherArray(oid) => Some(PgType::Other(oid)),
        _ => None,
    }
}

/// Array types are those with a type of elements.
pub proof fn arrays_have_elements(typ: &PgType, array: bool)
    requires
        call_ensures(is_array_type, (typ,), array),
    ensures
        array <==> single(*typ) is Some,
        single(*typ) matches Some(element) ==> single(element) is None,
{
}

/// A column of a Delta table holds every value of its Postgres type: a type of integers has a range
/// that holds all of them, a type of floats as many bits, and every other value a type of its kind.
pub proof fn delta_columns_hold_postgres_values(typ: &PgType, modifier: i32, data_type: KernelType)
    requires
        call_ensures(
            deltalake::schema::postgres_scalar_type_to_delta_type,
            (typ, modifier),
            data_type,
        ),
    ensures
        data_type is Primitive,
        ({
            let primitive = data_type->Primitive_0;
            &&& (postgres_range(*typ) matches Some(inner) ==> (delta_range(primitive) matches Some(
                outer,
            ) && lies_within(inner, outer)))
            &&& delta_range(primitive) is Some ==> postgres_range(*typ) is Some
            &&& postgres_float_bits(*typ) == delta_float_bits(primitive)
            &&& primitive is Boolean <==> *typ is Bool
            &&& primitive is Date <==> *typ is Date
            &&& primitive is Timestamp <==> (*typ is Time || *typ is Timestamp)
            &&& primitive is TimestampNtz <==> *typ is Timestamptz
            &&& primitive is Binary <==> *typ is Bytea
            &&& primitive is Decimal ==> *typ is Numeric
        }),
{
}

/// The Delta type of a column is written with the Arrow type that the rows are encoded in: what a
/// column of a table holds is what the table takes.
pub proof fn delta_columns_take_encoded_rows(
    column: &ColumnSchema,
    field: Field,
    data_type: KernelType,
)
    requires
        call_ensures(deltalake::schema::postgres_to_arrow_field, (column,), field),
        schema::is_array(column.typ) ==> call_ensures(
            deltalake::schema::postgres_array_type_to_delta_type,
            (&column.typ,),
            data_type,
        ),
        !schema::is_array(column.typ) ==> call_ensures(
            deltalake::schema::postgres_scalar_type_to_delta_type,
            (&column.typ, column.modifier),
            data_type,
        ),
    ensures
        field@.name == column.name@,
        field@.nullable == column.nullable,
        field@.metadata == Map::<Seq<char>, Seq<char>>::empty(),
        match data_type {
            KernelType::Primitive(primitive) => is_written_from(primitive, field@.data_type),
            KernelType::Array(array) => {
                &&& array.contains_null
                &&& field@.data_type matches TypeView::List(element)
                &&& element.nullable
                &&& is_written_from(array.element_type, element.data_type)
            },
        },
{
}

/// Encoded rows keep the values of their Postgres types: the Arrow type of a column has a range
/// that holds all its integers, and floats of as many bits. Times are counted in microseconds,
/// instants in universal time, and an identifier takes sixteen bytes.
pub proof fn arrow_columns_hold_postgres_values(column: &ColumnSchema, field: Field)
    requires
        call_ensures(deltalake::schema::postgres_to_arrow_field, (column,), field),
        single(column.typ) is None,
    ensures
        ({
            let typ = column.typ;
            let data_type = field@.data_type;
            &&& data_type is Boolean <==> typ is Bool
            &&& data_type is Int32 <==> (postgres_range(typ) matches Some(inner) && lies_within(
                inner,
                (i32::MIN as int, i32::MAX as int),
            ))
            &&& data_type is Int64 <==> (postgres_range(typ) matches Some(inner) && !lies_within(
                inner,
                (i32::MIN as int, i32::MAX as int),
            ))
            &&& data_type is Float32 <==> postgres_float_bits(typ) == Some(32int)
            &&& data_type is Float64 <==> postgres_float_bits(typ) == Some(64int)
            &&& data_type is Date32 <==> typ is Date
            &&& data_type == TypeView::Time64(TimeUnit::Microsecond) <==> typ is Time
            &&& data_type == TypeView::Timestamp(TimeUnit::Microsecond, None) <==> typ is Timestamp
            &&& data_type == TypeView::Timestamp(TimeUnit::Microsecond, Some("UTC"@)) <==> typ
                is Timestamptz
            &&& data_type == TypeView::FixedSizeBinary(16) <==> typ is Uuid
            &&& data_type is LargeBinary <==> typ is Bytea
            &&& data_type is Utf8 <==> (typ is Numeric || typ is Json || typ is Jsonb || typ is Char
                || typ is Bpchar || typ is Varchar || typ is Name || typ is Text || typ is Other)
        }),
{
}

/// The elements of an array have the Delta type that single values of their type have. Numbers of
/// any size are texts in an array.
pub proof fn elements_have_the_type_of_single_values(
    typ: &PgType,
    element: &PgType,
    modifier: i32,
    array: KernelType,
    value: KernelType,
)
    requires
        single(*typ) == Some(*element),
        call_ensures(deltalake::schema::postgres_array_type_to_delta_type, (typ,), array),
        call_ensures(
            deltalake::schema::postgres_scalar_type_to_delta_type,
            (element, modifier),
            value,
        ),
    ensures
        array is Array && array->Array_0.contains_null,
        *element is Numeric ==> array->Array_0.element_type is String,
        !(*element is Numeric) ==> value == KernelType::Primitive(array->Array_0.element_type),
{
}

/// The elements of an array have the Arrow type that single values of their type have. Identifiers
/// are texts in an array. The field of the elements has their usual name.
pub proof fn elements_are_encoded_like_single_values(
    column: &ColumnSchema,
    element: &ColumnSchema,
    array: Field,
    value: Field,
)
    requires
        single(column.typ) == Some(element.typ),
        call_ensures(deltalake::schema::postgres_to_arrow_field, (column,), array),
        call_ensures(deltalake::schema::postgres_to_arrow_field, (element,), value),
    ensures
        array@.data_type matches TypeView::List(field) && {
            &&& field.name == "element"@
            &&& field.nullable
            &&& field.metadata == Map::<Seq<char>, Seq<char>>::empty()
            &&& element.typ is Uuid ==> field.data_type is Utf8
            &&& !(element.typ is Uuid) ==> field.data_type == value@.data_type
        },
{
}

/// The digits in the modifier of a numeric type are those that it was declared with: the modifier
/// is four more than the digits in all, shifted by sixteen bits, and those behind the point, in 32
/// bits. There are never more than 38.
pub proof fn digits_are_as_declared(
    precision: int,
    scale: int,
    modifier: i32,
    digits: u8,
    behind: u8,
)
    requires
        0 <= precision < 0x1_0000,
        0 <= scale < 0x1_0000,
        modifier != -1,
        (precision * 0x1_0000 + scale + 4 - modifier) % 0x1_0000_0000 == 0,
        call_ensures(deltalake::schema::extract_numeric_precision, (modifier,), digits),
        call_ensures(deltalake::schema::extract_numeric_scale, (modifier,), behind),
    ensures
        precision <= 38 ==> digits == precision,
        precision > 38 ==> digits == 38,
        scale <= 38 ==> behind == scale,
        scale > 38 ==> behind == 38,
{
}

/// A numeric type without a modifier has 38 digits, of which 18 stand behind the point.
pub proof fn undeclared_numbers_have_all_digits(digits: u8, behind: u8)
    requires
        call_ensures(deltalake::schema::extract_numeric_precision, (-1i32,), digits),
        call_ensures(deltalake::schema::extract_numeric_scale, (-1i32,), behind),
    ensures
        digits == 38,
        behind == 18,
{
}

/// A column of numbers is a column of decimal numbers with the digits of its type, or of texts
/// where no such type exists.
pub proof fn numbers_keep_their_digits(
    modifier: i32,
    digits: u8,
    behind: u8,
    data_type: KernelType,
)
    requires
        call_ensures(deltalake::schema::extract_numeric_precision, (modifier,), digits),
        call_ensures(deltalake::schema::extract_numeric_scale, (modifier,), behind),
        call_ensures(
            deltalake::schema::postgres_scalar_type_to_delta_type,
            (&PgType::Numeric, modifier),
            data_type,
        ),
    ensures
        digits <= 38 && behind <= 38,
        1 <= digits && behind <= digits ==> (data_type matches KernelType::Primitive(
            PrimitiveType::Decimal(decimal),
        ) && decimal.precision_of() == digits && decimal.scale_of() == behind),
        digits == 0 || behind > digits ==> data_type == KernelType::Primitive(PrimitiveType::String),
{
}

/// Whether a column is the first that has the name of an earlier one.
pub open spec fn repeats_first(
    columns: Seq<ColumnSchema>,
    column: ColumnSchema,
    j: int,
    name: Seq<char>,
) -> bool {
    &&& column.name@ == name
    &&& exists|i: int| 0 <= i < j && (#[trigger] columns[i]).name@ == name
    &&& forall|a: int, b: int|
        0 <= a < b < j ==> (#[trigger] columns[a]).name@ != (#[trigger] columns[b]).name@
}

/// A Delta table has the columns of the Postgres table, in order, with their names, their
/// nullability and the types that the encoded rows are written to. Two columns with one name are
/// refused with the first name that occurs again.
pub proof fn tables_keep_their_columns(
    table_schema: &TableSchema,
    result: Result<StructType, String>,
    encoded: Result<Schema, String>,
)
    requires
        call_ensures(deltalake::schema::postgres_to_delta_schema, (table_schema,), result),
        call_ensures(deltalake::schema::postgres_to_arrow_schema, (table_schema,), encoded),
    ensures
        ({
            let columns = table_schema.column_schemas@;
            &&& result is Ok <==> encoded is Ok
            &&& result is Ok <==> forall|i: int, j: int|
                0 <= i < columns.len() && 0 <= j < columns.len() && (#[trigger] columns[i]).name@ == (
                #[trigger] columns[j]).name@ ==> i == j
            &&& (result matches Ok(delta) && encoded matches Ok(arrow)) ==> {
                let delta = result->Ok_0@;
                let arrow = encoded->Ok_0@;
                &&& delta.len() == columns.len()
                &&& arrow.len() == columns.len()
                &&& forall|i: int|
                    #![trigger columns[i]]
                    0 <= i < columns.len() ==> {
                        &&& delta[i].name == columns[i].name@ && arrow[i].name == columns[i].name@
                        &&& delta[i].nullable == columns[i].nullable && arrow[i].nullable
                            == columns[i].nullable
                        &&& match delta[i].data_type {
                            KernelType::Primitive(primitive) => single(columns[i].typ) is None
                                && is_written_from(primitive, arrow[i].data_type),
                            KernelType::Array(array) => single(columns[i].typ) is Some
                                && array.contains_null && (arrow[i].data_type matches TypeView::List(
                                element,
                            ) && is_written_from(array.element_type, element.data_type)),
                        }
                    }
            }
            &&& result matches Err(name) ==> exists|j: int|
                0 <= j < columns.len() && repeats_first(columns, #[trigger] columns[j], j, name@)
            &&& encoded matches Err(name) ==> exists|j: int|
                0 <= j < columns.len() && repeats_first(columns, #[trigger] columns[j], j, name@)
        }),
{
    let columns = table_schema.column_schemas@;
    if deltalake::schema::column_names_differ(columns) {
        assert forall|i: int, j: int|
            0 <= i < columns.len() && 0 <= j < columns.len() && (#[trigger] columns[i]).name@ == (
            #[trigger] columns[j]).name@ implies i == j by {}
    } else {
        let (i, j) = choose|i: int, j: int|
            0 <= i < j < columns.len() && (#[trigger] columns[i]).name@ == (
            #[trigger] columns[j]).name@;
        assert(columns[i].name@ == columns[j].name@);
    }
    if let Err(name) = result {
        first_repetition_is_found(columns, name@);
    }
    if let Err(name) = encoded {
        first_repetition_is_found(columns, name@);
    }
    if let (Ok(delta), Ok(arrow)) = (result, encoded) {
        assert(deltalake::schema::are_delta_fields(delta@, columns));
        assert forall|i: int|
            #![trigger columns[i]]
            0 <= i < columns.len() implies {
            &&& delta@[i].name == columns[i].name@ && arrow@[i].name == columns[i].name@
            &&& delta@[i].nullable == columns[i].nullable && arrow@[i].nullable
                == columns[i].nullable
            &&& match delta@[i].data_type {
                KernelType::Primitive(primitive) => single(columns[i].typ) is None
                    && is_written_from(primitive, arrow@[i].data_type),
                KernelType::Array(array) => single(columns[i].typ) is Some && array.contains_null && (
                arrow@[i].data_type matches TypeView::List(element) && is_written_from(
                    array.element_type,
                    element.data_type,
                )),
            }
        } by {
            assert(deltalake::schema::is_delta_field(delta@[i], columns[i]));
            assert(arrow@[i] == deltalake::schema::postgres_arrow_field(columns[i]));
        }
    }
}

proof fn first_repetition_is_found(columns: Seq<ColumnSchema>, name: Seq<char>)
    requires
        deltalake::schema::is_repeated_name(columns, name),
    ensures
        exists|j: int|
            0 <= j < columns.len() && repeats_first(columns, #[trigger] columns[j], j, name),
{
    let (i, j) = choose|i: int, j: int|
        {
            &&& 0 <= i < j < columns.len()
            &&& name == #[trigger] columns[i].name@
            &&& name == #[trigger] columns[j].name@
            &&& deltalake::schema::column_names_differ(columns.take(j))
        };
    let before = columns.take(j);
    assert(columns[i].name@ == name);
    assert forall|a: int, b: int| 0 <= a < b < j implies (#[trigger] columns[a]).name@ != (
    #[trigger] columns[b]).name@ by {
        assert(before[a].name@ != before[b].name@);
    }
    assert(repeats_first(columns, columns[j], j, name));
}

/// A table of the Delta kernel holds every value of a Postgres type: a type of signed integers has
/// exactly its range, a type of floats as many bits, and every other value a type of its kind. An
/// object identifier has 32 bits there too, with a sign.
pub proof fn kernel_columns_hold_postgres_values(typ: &PgType, data_type: KernelType)
    requires
        call_ensures(delta::schema::postgres_scalar_type_to_delta, (typ,), data_type),
    ensures
        data_type is Primitive,
        ({
            let primitive = data_type->Primitive_0;
            &&& *typ is Oid ==> primitive is Integer
            &&& !(*typ is Oid) ==> delta_range(primitive) == postgres_range(*typ)
            &&& postgres_float_bits(*typ) == delta_float_bits(primitive)
            &&& primitive is Boolean <==> *typ is Bool
            &&& primitive is Date <==> *typ is Date
            &&& primitive is TimestampNtz <==> (*typ is Time || *typ is Timestamp)
            &&& primitive is Timestamp <==> *typ is Timestamptz
            &&& primitive is Binary <==> *typ is Bytea
            &&& !(primitive is Decimal)
        }),
{
}

/// The elements of an array have the type that single values have in a table of the Delta kernel.
pub proof fn kernel_elements_have_the_type_of_single_values(
    typ: &PgType,
    element: &PgType,
    array: KernelType,
    value: KernelType,
)
    requires
        single(*typ) == Some(*element),
        call_ensures(delta::schema::postgres_array_type_to_delta, (typ,), array),
        call_ensures(delta::schema::postgres_scalar_type_to_delta, (element,), value),
    ensures
        array is Array && array->Array_0.contains_null,
        value == KernelType::Primitive(array->Array_0.element_type),
{
}

/// A table of the Delta kernel has the columns of a Postgres table whose columns have different
/// names, in order, with the types of their values.
pub proof fn kernel_tables_keep_their_columns(
    table_schema: &TableSchema,
    result: StructType,
    i: int,
    data_type: KernelType,
)
    requires
        call_ensures(delta::schema::postgres_to_delta_schema, (table_schema,), result),
        forall|a: int, b: int|
            0 <= a < b < table_schema.column_schemas@.len()
                ==> (#[trigger] table_schema.column_schemas@[a]).name@ != (
            #[trigger] table_schema.column_schemas@[b]).name@,
        0 <= i < table_schema.column_schemas@.len(),
        single(table_schema.column_schemas@[i].typ) is Some ==> call_ensures(
            delta::schema::postgres_array_type_to_delta,
            (&table_schema.column_schemas@[i].typ,),
            data_type,
        ),
        single(table_schema.column_schemas@[i].typ) is None ==> call_ensures(
            delta::schema::postgres_scalar_type_to_delta,
            (&table_schema.column_schemas@[i].typ,),
            data_type,
        ),
    ensures
        result@.len() == table_schema.column_schemas@.len(),
        result@[i].name == table_schema.column_schemas@[i].name@,
        result@[i].nullable == table_schema.column_schemas@[i].nullable,
        result@[i].data_type == data_type,
{
    let columns = table_schema.column_schemas@;
    let fields = delta::schema::delta_fields(columns);
    assert forall|a: int, b: int| 0 <= a < b < fields.len() implies (#[trigger] fields[a]).name != (
    #[trigger] fields[b]).name by {
        assert(columns[a].name@ != columns[b].name@);
    }
    kernel::different_fields_are_kept(fields);
    assert(fields[i] == delta::schema::delta_field(columns[i]));
}

/// One more column takes the place of the one with its name, and the last place if there is none.
/// Every other column stays where it is.
pub proof fn later_columns_take_the_place_of_earlier_ones(
    fields: Vec<StructField>,
    field: StructField,
    more: Vec<StructField>,
    before: StructType,
    after: StructType,
)
    requires
        more@ == fields@.push(field),
        call_ensures(StructType::new, (fields,), before),
        call_ensures(StructType::new, (more,), after),
    ensures
        fields@.len() == 0 ==> before@.len() == 0,
        (forall|i: int| 0 <= i < before@.len() ==> (#[trigger] before@[i]).name != field.name@)
            ==> after@ == before@.push(field@),
        (exists|i: int| 0 <= i < before@.len() && (#[trigger] before@[i]).name == field.name@) ==> {
            &&& after@.len() == before@.len()
            &&& exists|i: int|
                0 <= i < before@.len() && (#[trigger] before@[i]).name == field.name@ && after@
                    == before@.update(i, field@)
        },
{
    let views = kernel::field_views(fields@);
    let wider = kernel::field_views(more@);
    assert(wider =~= views.push(field@));
    assert(wider.drop_last() =~= views);
    assert(after@ == kernel::with_field(before@, field@));
    kernel::position_is_first(before@, field.name@);
    let at = kernel::position(before@, field.name@);
    if at < before@.len() {
        assert(before@[at].name == field.name@);
    } else if exists|i: int| 0 <= i < before@.len() && (#[trigger] before@[i]).name == field.name@ {
        let i = choose|i: int|
            0 <= i < before@.len() && (#[trigger] before@[i]).name == field.name@;
        assert(before@[i].name != field.name@);
    }
}

/// Columns with different names are taken as they are, and others are refused.
pub proof fn only_different_columns_are_taken(
    fields: Vec<StructField>,
    result: Result<StructType, String>,
)
    requires
        call_ensures(StructType::try_new, (fields,), result),
    ensures
        result is Ok <==> forall|i: int, j: int|
            0 <= i < j < fields@.len() ==> (#[trigger] fields@[i]).name@ != (
            #[trigger] fields@[j]).name@,
        result matches Ok(taken) ==> {
            &&& taken@.len() == fields@.len()
            &&& forall|i: int| 0 <= i < fields@.len() ==> taken@[i] == (#[trigger] fields@[i])@
        },
        result matches Err(name) ==> exists|i: int, j: int|
            0 <= i < j < fields@.len() && (#[trigger] fields@[i]).name@ == name@ && (
            #[trigger] fields@[j]).name@ == name@,
{
    let views = kernel::field_views(fields@);
    if kernel::names_differ(views) {
        assert forall|i: int, j: int| 0 <= i < j < fields@.len() implies (
        #[trigger] fields@[i]).name@ != (#[trigger] fields@[j]).name@ by {
            assert(views[i].name != views[j].name);
        }
    } else {
        let (i, j) = choose|i: int, j: int|
            0 <= i < j < views.len() && (#[trigger] views[i]).name == (#[trigger] views[j]).name;
        assert(fields@[i].name@ == fields@[j].name@);
    }
}

/// Decimal numbers have from one to 38 digits, of which any number can stand behind the point.
pub proof fn decimals_have_their_digits(
    precision: u8,
    scale: u8,
    decimal: Option<kernel::DecimalType>,
)
    requires
        call_ensures(kernel::DecimalType::try_new, (precision, scale), decimal),
    ensures
        decimal is Some <==> 1 <= precision <= 38 && scale <= precision,
        decimal matches Some(d) ==> d.precision_of() == precision && d.scale_of() == scale,
{
}

} // verus!
