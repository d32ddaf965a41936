use etl_destinations::delta::schema::{
    postgres_array_type_to_delta, postgres_scalar_type_to_delta, postgres_to_delta_schema,
};
use etl_destinations::kernel::{KernelType, PrimitiveType};
use etl_destinations::types::{ColumnSchema, PgType, TableId, TableName, TableSchema};

#[test]
fn test_scalar_mappings() {
    assert!(matches!(
        postgres_scalar_type_to_delta(&PgType::Bool),
        KernelType::Primitive(PrimitiveType::Boolean)
    ));
    assert!(matches!(
        postgres_scalar_type_to_delta(&PgType::Text),
        KernelType::Primitive(PrimitiveType::String)
    ));
    assert!(matches!(
        postgres_scalar_type_to_delta(&PgType::Int2),
        KernelType::Primitive(PrimitiveType::Short)
    ));
    assert!(matches!(
        postgres_scalar_type_to_delta(&PgType::Int4),
        KernelType::Primitive(PrimitiveType::Integer)
    ));
    assert!(matches!(
        postgres_scalar_type_to_delta(&PgType::Int8),
        KernelType::Primitive(PrimitiveType::Long)
    ));
    assert!(matches!(
        postgres_scalar_type_to_delta(&PgType::Float4),
        KernelType::Primitive(PrimitiveType::Float)
    ));
    assert!(matches!(
        postgres_scalar_type_to_delta(&PgType::Float8),
        KernelType::Primitive(PrimitiveType::Double)
    ));
    assert!(matches!(
        postgres_scalar_type_to_delta(&PgType::Date),
        KernelType::Primitive(PrimitiveType::Date)
    ));
    assert!(matches!(
        postgres_scalar_type_to_delta(&PgType::Bytea),
        KernelType::Primitive(PrimitiveType::Binary)
    ));
}

#[test]
fn test_array_mappings() {
    let dt = postgres_array_type_to_delta(&PgType::Int4Array);
    if let KernelType::Array(array_type) = dt {
        assert!(matches!(array_type.element_type, PrimitiveType::Integer));
        assert!(array_type.contains_null);
    } else {
        panic!("Expected Array type, got: {:?}", dt);
    }
}

#[test]
fn test_timestamp_mappings() {
    assert!(matches!(
        postgres_scalar_type_to_delta(&PgType::Timestamp),
        KernelType::Primitive(PrimitiveType::TimestampNtz)
    ));
    assert!(matches!(
        postgres_scalar_type_to_delta(&PgType::Timestamptz),
        KernelType::Primitive(PrimitiveType::Timestamp)
    ));
}

#[test]
fn test_string_mappings() {
    assert!(matches!(
        postgres_scalar_type_to_delta(&PgType::Uuid),
        KernelType::Primitive(PrimitiveType::String)
    ));
    assert!(matches!(
        postgres_scalar_type_to_delta(&PgType::Json),
        KernelType::Primitive(PrimitiveType::String)
    ));
    assert!(matches!(
        postgres_scalar_type_to_delta(&PgType::Jsonb),
        KernelType::Primitive(PrimitiveType::String)
    ));
}

#[test]
fn delta_tables_keep_the_columns() {
    let schema = TableSchema::new(
        TableId(1),
        TableName::new("public".to_string(), "t".to_string()),
        vec![
            ColumnSchema::new("id".to_string(), PgType::Int8, -1, false, true),
            ColumnSchema::new("tags".to_string(), PgType::TextArray, -1, true, false),
        ],
    );
    let delta = postgres_to_delta_schema(&schema);
    let fields = delta.fields();
    assert_eq!(fields.len(), 2);
    assert_eq!(fields[0].name, "id");
    assert!(!fields[0].nullable);
    assert_eq!(fields[0].data_type, KernelType::Primitive(PrimitiveType::Long));
    assert_eq!(fields[1].name, "tags");
    assert!(fields[1].nullable);
    assert!(matches!(fields[1].data_type, KernelType::Array(array)
        if array.element_type == PrimitiveType::String && array.contains_null));
}
