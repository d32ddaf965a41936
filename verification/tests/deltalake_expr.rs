use arrow::array::{Array, Int32Array, ListArray};
use arrow::datatypes::Int32Type;
use datafusion_common::ScalarValue;
use etl_destinations::deltalake::expr::{
    Column, Expr, Operator, build_pk_expr, qualify_primary_keys, try_build_pk_expr,
};
use etl_destinations::deltalake::operations::source_qualified_column_expr;
use etl_destinations::error::ErrorKind;
use etl_destinations::types::{
    ArrayCell, Cell, ColumnSchema, Date, PgNumeric, PgType, TableId, TableName, TableRow,
    TableSchema, Time, Timestamp, Uuid,
};

/// Create a test table schema with various column types.
fn create_test_schema() -> TableSchema {
    TableSchema {
        id: TableId(1),
        name: TableName::new("public".to_string(), "test_table".to_string()),
        column_schemas: vec![
            ColumnSchema::new("id".to_string(), PgType::Int8, -1, false, true), // Primary key
            ColumnSchema::new("name".to_string(), PgType::Text, -1, true, false),
            ColumnSchema::new("age".to_string(), PgType::Int4, -1, true, false),
            ColumnSchema::new("is_active".to_string(), PgType::Bool, -1, true, false),
            ColumnSchema::new("created_at".to_string(), PgType::Timestamp, -1, true, false),
        ],
    }
}

/// Create a test table schema with multiple primary key columns.
fn create_composite_pk_schema() -> TableSchema {
    TableSchema {
        id: TableId(2),
        name: TableName::new("public".to_string(), "composite_pk_table".to_string()),
        column_schemas: vec![
            ColumnSchema::new("tenant_id".to_string(), PgType::Int4, -1, false, true), // Primary key 1
            ColumnSchema::new("user_id".to_string(), PgType::Int8, -1, false, true), // Primary key 2
            ColumnSchema::new("data".to_string(), PgType::Text, -1, true, false),
        ],
    }
}

fn timestamp() -> Timestamp {
    Timestamp {
        date: Date::from_ymd_opt(2024, 6, 15).unwrap(),
        time: Time::from_hms_opt(12, 30, 45).unwrap(),
    }
}

/// Create a test row matching the test schema.
fn create_test_row() -> TableRow {
    TableRow::new(vec![
        Cell::I64(12345),
        Cell::String("John Doe".to_string()),
        Cell::I32(30),
        Cell::Bool(true),
        Cell::Timestamp(timestamp()),
    ])
}

/// Create a test row for composite primary key schema.
fn create_composite_pk_row() -> TableRow {
    TableRow::new(vec![
        Cell::I32(1),                          // tenant_id
        Cell::I64(42),                         // user_id
        Cell::String("test data".to_string()), // data
    ])
}

fn col(name: &str) -> Expr {
    Expr::Column(Column { relation: None, name: name.to_string() })
}

fn bare(relation: &str, name: &str) -> Expr {
    Expr::Column(Column { relation: Some(vec![relation.to_string()]), name: name.to_string() })
}

fn lit(value: ScalarValue) -> Expr {
    Expr::Literal(value)
}

fn binary(left: Expr, op: Operator, right: Expr) -> Expr {
    Expr::BinaryExpr { left: Box::new(left), op, right: Box::new(right) }
}

#[test]
fn test_build_pk_expr_single_primary_key() {
    let schema = create_test_schema();
    let row = create_test_row();

    let pk_expr = build_pk_expr(&schema, &row).unwrap();

    assert_eq!(
        pk_expr,
        binary(col("id"), Operator::Eq, lit(ScalarValue::Int64(Some(12345))))
    );
}

fn composite_expr() -> Expr {
    binary(
        binary(col("tenant_id"), Operator::Eq, lit(ScalarValue::Int32(Some(1)))),
        Operator::And,
        binary(col("user_id"), Operator::Eq, lit(ScalarValue::Int64(Some(42)))),
    )
}

#[test]
fn test_build_pk_expr_composite_primary_key() {
    let schema = create_composite_pk_schema();
    let row = create_composite_pk_row();

    let pk_expr = build_pk_expr(&schema, &row).unwrap();

    assert_eq!(pk_expr, composite_expr());
}

#[test]
fn test_build_pk_expr_no_primary_keys() {
    // Create schema with no primary key columns
    let schema = TableSchema {
        id: TableId(4),
        name: TableName::new("public".to_string(), "no_pk_table".to_string()),
        column_schemas: vec![
            ColumnSchema::new("col1".to_string(), PgType::Text, -1, true, false),
            ColumnSchema::new("col2".to_string(), PgType::Int4, -1, true, false),
        ],
    };
    let row = TableRow::new(vec![Cell::String("test".to_string()), Cell::I32(42)]);

    let result = build_pk_expr(&schema, &row);
    assert!(result.is_err());
    let error = result.unwrap_err();
    assert_eq!(error.kind, ErrorKind::ConversionError);
    assert_eq!(error.description, "Table has no primary key columns");
    assert_eq!(error.detail, None);
}

#[test]
fn test_build_pk_expr_with_nulls_in_primary_key() {
    let schema = create_test_schema();
    let row_with_null_pk = TableRow::new(vec![
        Cell::Null, // NULL in primary key column
        Cell::String("John Doe".to_string()),
        Cell::I32(30),
        Cell::Bool(true),
        Cell::Timestamp(timestamp()),
    ]);

    let pk_expr = build_pk_expr(&schema, &row_with_null_pk);
    assert!(pk_expr.is_err());
    let error = pk_expr.unwrap_err();
    assert_eq!(error.kind, ErrorKind::ConversionError);
    assert_eq!(error.description, "Failed to convert row to Arrow array");
    assert!(error.detail.is_some());
}

#[test]
fn test_build_pk_expr_expression_structure() {
    let schema = create_composite_pk_schema();
    let row = create_composite_pk_row();

    let pk_expr = build_pk_expr(&schema, &row).unwrap();

    assert_eq!(pk_expr, composite_expr());
}

#[test]
fn test_qualify_primary_keys_single_column() {
    let primary_keys = vec![col("id")];
    let result = qualify_primary_keys(primary_keys, "source", "target");

    assert_eq!(
        result,
        Some(binary(bare("source", "id"), Operator::Eq, bare("target", "id")))
    );
}

#[test]
fn test_qualify_primary_keys_composite_columns() {
    let primary_keys = vec![col("tenant_id"), col("user_id")];
    let result = qualify_primary_keys(primary_keys, "src", "tgt");

    assert_eq!(
        result,
        Some(binary(
            binary(bare("src", "tenant_id"), Operator::Eq, bare("tgt", "tenant_id")),
            Operator::And,
            binary(bare("src", "user_id"), Operator::Eq, bare("tgt", "user_id")),
        ))
    );
}

#[test]
fn test_qualify_primary_keys_multiple_columns() {
    let primary_keys = vec![col("a"), col("b"), col("c")];
    let result = qualify_primary_keys(primary_keys, "s", "t").unwrap();

    assert_eq!(
        result,
        binary(
            binary(
                binary(bare("s", "a"), Operator::Eq, bare("t", "a")),
                Operator::And,
                binary(bare("s", "b"), Operator::Eq, bare("t", "b")),
            ),
            Operator::And,
            binary(bare("s", "c"), Operator::Eq, bare("t", "c")),
        )
    );
}

#[test]
fn test_qualify_primary_keys_empty_list() {
    let primary_keys: Vec<Expr> = vec![];

    let res = qualify_primary_keys(primary_keys, "source", "target");
    assert!(res.is_none());
}

#[test]
fn test_qualify_primary_keys_invalid_expression() {
    // Pass a literal instead of a column expression
    let primary_keys = vec![lit(ScalarValue::Int32(Some(42)))];
    let res = qualify_primary_keys(primary_keys, "source", "target");
    assert!(res.is_none());
}

#[test]
fn source_qualified_column_expr_preserves_case_and_alias() {
    let expr = source_qualified_column_expr("CASESensitivecolumn", "source");

    assert_eq!(expr, bare("source", "CASESensitivecolumn"));
}

#[test]
fn source_qualified_column_expr_handles_lowercase() {
    let expr = source_qualified_column_expr("lowercasecolumn", "source");

    assert_eq!(expr, bare("source", "lowercasecolumn"));
}

#[test]
fn expressions_among_the_keys_are_skipped() {
    let keys = vec![lit(ScalarValue::Int32(Some(1))), col("id")];
    assert_eq!(
        qualify_primary_keys(keys, "source", "target"),
        Some(binary(bare("source", "id"), Operator::Eq, bare("target", "id")))
    );
}

#[test]
fn aliases_are_read_like_names_of_tables() {
    let column = Column::new("Catalog.\"Schema\".Table", "Id");
    let parts = vec!["catalog".to_string(), "Schema".to_string(), "table".to_string()];
    assert_eq!(column, Column { relation: Some(parts), name: "Id".to_string() });
    assert_eq!(Column::new("A", "b").relation, Some(vec!["a".to_string()]));
    assert_eq!(Column::new("a()", "b").relation, Some(vec!["a()".to_string()]));
}

fn key_value(typ: PgType, nullable: bool, cell: Cell) -> ScalarValue {
    let schema = TableSchema::new(
        TableId(1),
        TableName::new("public".to_string(), "t".to_string()),
        vec![ColumnSchema::new("k".to_string(), typ, -1, nullable, true)],
    );
    let expr = build_pk_expr(&schema, &TableRow::new(vec![cell])).unwrap();
    let Expr::BinaryExpr { right, .. } = expr else {
        panic!("not a comparison");
    };
    let Expr::Literal(value) = *right else {
        panic!("not a value");
    };
    value
}

#[test]
fn key_values_have_the_type_of_their_column() {
    assert_eq!(
        key_value(PgType::Bool, false, Cell::Bool(true)),
        ScalarValue::Boolean(Some(true))
    );
    assert_eq!(
        key_value(PgType::Text, false, Cell::String("a".to_string())),
        ScalarValue::Utf8(Some("a".to_string()))
    );
    assert_eq!(
        key_value(PgType::Float4, false, Cell::F32(0.5f32.to_bits())),
        ScalarValue::Float32(Some(0.5))
    );
    assert_eq!(
        key_value(PgType::Float8, false, Cell::F64(f64::to_bits(-0.25))),
        ScalarValue::Float64(Some(-0.25))
    );
    assert_eq!(
        key_value(PgType::Date, false, Cell::Date(Date::from_ymd_opt(1970, 1, 11).unwrap())),
        ScalarValue::Date32(Some(10))
    );
    assert_eq!(
        key_value(PgType::Timestamp, false, Cell::Timestamp(timestamp())),
        ScalarValue::TimestampMicrosecond(Some(1_718_454_645_000_000), None)
    );
    assert_eq!(
        key_value(PgType::Timestamptz, false, Cell::TimestampTz(timestamp())),
        ScalarValue::TimestampMicrosecond(Some(1_718_454_645_000_000), Some("UTC".into()))
    );
    assert_eq!(
        key_value(PgType::Time, false, Cell::Time(timestamp().time)),
        ScalarValue::Time64Microsecond(Some(45_045_000_000))
    );
    assert_eq!(
        key_value(PgType::Uuid, false, Cell::Uuid(Uuid { bytes: [7; 16] })),
        ScalarValue::FixedSizeBinary(16, Some(vec![7; 16]))
    );
    assert_eq!(
        key_value(PgType::Bytea, false, Cell::Bytes(vec![1, 2])),
        ScalarValue::LargeBinary(Some(vec![1, 2]))
    );
    let numeric = PgNumeric { text: "12345.67".to_string(), debug: "12345.67".to_string() };
    assert_eq!(
        key_value(PgType::Numeric, false, Cell::Numeric(numeric)),
        ScalarValue::Utf8(Some("12345.67".to_string()))
    );
    assert_eq!(key_value(PgType::Int4, true, Cell::Null), ScalarValue::Int32(None));
    let ScalarValue::List(list) = key_value(
        PgType::Int4Array,
        false,
        Cell::Array(ArrayCell::I32(vec![Some(1), None])),
    ) else {
        panic!("not a list");
    };
    let expected = Int32Array::from(vec![Some(1), None]);
    assert_eq!(list.len(), 1);
    assert_eq!(list.value(0).as_any().downcast_ref::<Int32Array>().unwrap(), &expected);
    let other = ListArray::from_iter_primitive::<Int32Type, _, _>(vec![Some(vec![Some(1)])]);
    assert_ne!(list.value(0).len(), other.value(0).len());
}

#[test]
fn rows_that_end_before_the_key_have_no_predicate() {
    let schema = create_composite_pk_schema();
    assert!(try_build_pk_expr(&schema, &TableRow::new(vec![Cell::I32(1)])).is_none());
    let expr = try_build_pk_expr(&schema, &create_composite_pk_row());
    assert_eq!(expr.unwrap().unwrap(), composite_expr());
}

#[test]
fn predicates_differ_exactly_where_keys_do() {
    let schema = create_composite_pk_schema();
    let row = |tenant, user, data: &str| {
        TableRow::new(vec![Cell::I32(tenant), Cell::I64(user), Cell::String(data.to_string())])
    };
    let expr = |row: &TableRow| build_pk_expr(&schema, row).unwrap();
    assert_eq!(expr(&row(1, 2, "a")), expr(&row(1, 2, "b")));
    assert_ne!(expr(&row(1, 2, "a")), expr(&row(1, 3, "a")));
    assert_ne!(expr(&row(1, 2, "a")), expr(&row(2, 1, "a")));
}
