use arrow::array::{Array, ArrayRef, BooleanArray, Int32Array, StringArray, make_array};
use etl_destinations::batch::EncodedBatch;
use etl_destinations::batch::{DataType, TimeUnit};
use etl_destinations::delta::TableRowEncoder;
use etl_destinations::delta::schema::postgres_to_delta_schema;
use etl_destinations::types::{
    ArrayCell, Cell, ColumnSchema, Date, Json, PgNumeric, PgType, TableId, TableName, TableRow,
    TableSchema, Time, Timestamp, Uuid,
};

fn create_test_schema() -> TableSchema {
    TableSchema {
        id: TableId(1),
        name: TableName::new("public".to_string(), "test_table".to_string()),
        column_schemas: vec![ColumnSchema::new("id".to_string(), PgType::Int4, -1, false, true)],
    }
}

fn nullable_schema(columns: usize) -> TableSchema {
    TableSchema {
        id: TableId(1),
        name: TableName::new("public".to_string(), "test_table".to_string()),
        column_schemas: (0..columns)
            .map(|i| ColumnSchema::new(format!("c{i}"), PgType::Text, -1, true, false))
            .collect(),
    }
}

fn column(cells: Vec<Cell>) -> ArrayRef {
    let rows: Vec<TableRow> = cells.into_iter().map(|cell| TableRow::new(vec![cell])).collect();
    let mut batches = TableRowEncoder::encode_table_rows(&nullable_schema(1), rows).unwrap();
    assert_eq!(batches.len(), 1);
    let batch: EncodedBatch = batches.remove(0);
    make_array(batch.column(0).clone())
}

fn texts(cells: Vec<Cell>) -> Vec<Option<String>> {
    let column = column(cells);
    let texts = column.as_any().downcast_ref::<StringArray>().unwrap();
    texts.iter().map(|text| text.map(|text| text.to_string())).collect()
}

fn text(cell: Cell) -> String {
    texts(vec![cell]).remove(0).unwrap()
}

#[test]
fn test_empty_table_rows() {
    let schema = create_test_schema();
    let result = TableRowEncoder::encode_table_rows(&schema, Vec::<TableRow>::new());
    assert!(result.is_ok());
    assert!(result.unwrap().is_empty());
}

#[test]
fn test_chunk_table_rows() {
    let rows = vec![
        TableRow::new(vec![Cell::I32(1)]),
        TableRow::new(vec![Cell::I32(2)]),
        TableRow::new(vec![Cell::I32(3)]),
    ];

    let chunks = TableRowEncoder::chunk_table_rows(rows, 1);
    assert!(!chunks.is_empty());
}

#[test]
fn chunks_have_their_size_and_keep_the_order() {
    let rows: Vec<TableRow> =
        (0..25_000).map(|i| TableRow::new(vec![Cell::I32(i)])).collect();
    let chunks = TableRowEncoder::chunk_table_rows(rows.clone(), 1);
    let lengths: Vec<usize> = chunks.iter().map(|chunk| chunk.len()).collect();
    assert_eq!(lengths, vec![10_485, 10_485, 4_030]);
    assert_eq!(chunks.concat(), rows);

    let rows: Vec<TableRow> = (0..3).map(|i| TableRow::new(vec![Cell::I32(i)])).collect();
    let chunks = TableRowEncoder::chunk_table_rows(rows, 0);
    let lengths: Vec<usize> = chunks.iter().map(|chunk| chunk.len()).collect();
    assert_eq!(lengths, vec![1, 1, 1]);

    assert!(TableRowEncoder::chunk_table_rows(vec![], 1).is_empty());
    assert!(TableRowEncoder::chunk_table_rows(vec![], usize::MAX).is_empty());
}

#[test]
fn first_value_decides_on_the_type_of_a_column() {
    let column = column(vec![Cell::Null, Cell::Bool(true), Cell::I32(1), Cell::Bool(false)]);
    let values = column.as_any().downcast_ref::<BooleanArray>().unwrap();
    assert!(values.is_null(0));
    assert!(values.value(1));
    assert!(values.is_null(2));
    assert!(!values.value(3));
}

#[test]
fn columns_that_start_with_an_integer_take_smaller_ones() {
    let column = column(vec![
        Cell::I32(7),
        Cell::I16(-3),
        Cell::U32(5),
        Cell::U32(u32::MAX),
        Cell::U32(2_147_483_648),
        Cell::I64(9),
    ]);
    let values = column.as_any().downcast_ref::<Int32Array>().unwrap();
    assert_eq!(values.values()[..5].to_vec(), vec![7, -3, 5, -1, i32::MIN]);
    assert!(values.is_null(5));
}

#[test]
fn columns_that_start_with_a_small_integer_take_no_unsigned_ones() {
    let column = column(vec![Cell::I16(1), Cell::I32(2), Cell::U32(3)]);
    let values = column.as_any().downcast_ref::<Int32Array>().unwrap();
    assert_eq!(values.value(0), 1);
    assert_eq!(values.value(1), 2);
    assert!(values.is_null(2));
}

#[test]
fn everything_else_is_encoded_as_text() {
    assert_eq!(
        texts(vec![
            Cell::Null,
            Cell::String("a".to_string()),
            Cell::Bool(true),
            Cell::I64(-5),
            Cell::U32(6),
        ]),
        vec![
            None,
            Some("a".to_string()),
            Some("true".to_string()),
            Some("-5".to_string()),
            Some("6".to_string()),
        ]
    );
    assert_eq!(texts(vec![Cell::Null, Cell::Null]), vec![None, None]);
    assert_eq!(text(Cell::F32(1.5f32.to_bits())), "1.5");
    assert_eq!(text(Cell::F64(0.1f64.to_bits())), "0.1");
    assert_eq!(
        text(Cell::Numeric(PgNumeric { text: "1.20".to_string(), debug: String::new() })),
        "1.20"
    );
    assert_eq!(text(Cell::Uuid(Uuid { bytes: [0x1f; 16] })), "1f1f1f1f-1f1f-1f1f-1f1f-1f1f1f1f1f1f");
    assert_eq!(text(Cell::Json(Json::parse("{\"b\": 1}").unwrap())), "{\"b\":1}");
    let date = Date::from_ymd_opt(2024, 2, 29).unwrap();
    let time = Time::from_hms_opt(1, 2, 3).unwrap();
    assert_eq!(text(Cell::Date(date)), "2024-02-29");
    assert_eq!(text(Cell::Time(time)), "01:02:03");
    assert_eq!(text(Cell::Timestamp(Timestamp { date, time })), "2024-02-29 01:02:03");
}

#[test]
fn bytes_and_lists_have_their_debug_text() {
    let bytes = vec![0u8, 10, 255];
    assert_eq!(text(Cell::Bytes(bytes.clone())), format!("{bytes:?}"));
    assert_eq!(text(Cell::Bytes(vec![])), "[]");
    assert_eq!(
        text(Cell::Array(ArrayCell::I32(vec![Some(1), None, Some(-2)]))),
        "I32([Some(1), None, Some(-2)])"
    );
    assert_eq!(text(Cell::Array(ArrayCell::Bool(vec![]))), "Bool([])");
    assert_eq!(
        text(Cell::Array(ArrayCell::String(vec![Some("a\"b\n".to_string())]))),
        "String([Some(\"a\\\"b\\n\")])"
    );
    assert_eq!(
        text(Cell::Array(ArrayCell::F64(vec![Some(1.0f64.to_bits())]))),
        "F64([Some(1.0)])"
    );
    assert_eq!(
        text(Cell::Array(ArrayCell::F32(vec![Some(2.5f32.to_bits())]))),
        "F32([Some(2.5)])"
    );
    assert_eq!(
        text(Cell::Array(ArrayCell::Bytes(vec![Some(vec![1, 2])]))),
        "Bytes([Some([1, 2])])"
    );
    assert_eq!(
        text(Cell::Array(ArrayCell::Date(vec![Date::from_ymd_opt(2024, 2, 29)]))),
        "Date([Some(2024-02-29)])"
    );
    assert_eq!(
        text(Cell::Array(ArrayCell::Uuid(vec![Some(Uuid { bytes: [0; 16] })]))),
        "Uuid([Some(00000000-0000-0000-0000-000000000000)])"
    );
    assert_eq!(
        text(Cell::Array(ArrayCell::Json(vec![Json::parse("{\"a\": [1, null]}")]))),
        "Json([Some(Object {\"a\": Array [Number(1), Null]})])"
    );
}

#[test]
fn batches_have_the_columns_of_the_table() {
    let schema = TableSchema {
        id: TableId(1),
        name: TableName::new("public".to_string(), "t".to_string()),
        column_schemas: vec![
            ColumnSchema::new("id".to_string(), PgType::Int4, -1, false, true),
            ColumnSchema::new("flag".to_string(), PgType::Bool, -1, true, false),
        ],
    };
    let rows = vec![
        TableRow::new(vec![Cell::I32(1), Cell::Bool(true)]),
        TableRow::new(vec![Cell::I32(2), Cell::Null]),
    ];
    let mut batches = TableRowEncoder::encode_table_rows(&schema, rows).unwrap();
    let batch = batches.remove(0);
    assert_eq!(batch.num_rows(), 2);
    assert_eq!(batch.num_columns(), 2);
    assert_eq!(TableRowEncoder::estimate_record_batch_size(&batch), 32);
    let data = batch.into_data();
    let arrow::datatypes::DataType::Struct(fields) = data.data_type() else {
        panic!("not a struct");
    };
    assert_eq!(fields[0].name(), "id");
    assert_eq!(fields[0].data_type(), &arrow::datatypes::DataType::Int32);
    assert!(!fields[0].is_nullable());
    assert_eq!(fields[1].name(), "flag");
    assert_eq!(fields[1].data_type(), &arrow::datatypes::DataType::Boolean);
    assert!(fields[1].is_nullable());
}

#[test]
fn missing_value_in_required_column_is_refused() {
    let rows = vec![TableRow::new(vec![Cell::Null])];
    assert!(TableRowEncoder::encode_table_rows(&create_test_schema(), rows).is_err());
}

#[test]
fn rows_without_a_cell_for_a_column_are_not_encoded() {
    let rows = vec![TableRow::new(vec![Cell::I32(1)]), TableRow::new(vec![])];
    assert!(TableRowEncoder::try_encode_table_rows(&create_test_schema(), rows).is_none());
    let rows = vec![TableRow::new(vec![Cell::I32(1)])];
    let batches = TableRowEncoder::try_encode_table_rows(&create_test_schema(), rows);
    assert_eq!(batches.unwrap().unwrap().len(), 1);
    let batches = TableRowEncoder::try_encode_table_rows(&create_test_schema(), Vec::<TableRow>::new());
    assert!(batches.unwrap().unwrap().is_empty());
}

#[test]
fn delta_types_have_arrow_types() {
    let column = |name: &str, typ| ColumnSchema::new(name.to_string(), typ, -1, true, false);
    let schema = TableSchema {
        id: TableId(1),
        name: TableName::new("public".to_string(), "t".to_string()),
        column_schemas: vec![
            column("bool", PgType::Bool),
            column("int2", PgType::Int2),
            column("int8", PgType::Int8),
            column("timestamp", PgType::Timestamp),
            column("timestamptz", PgType::Timestamptz),
            column("bytea", PgType::Bytea),
            column("uuid", PgType::Uuid),
            column("ints", PgType::Int4Array),
        ],
    };
    let arrow = TableRowEncoder::delta_schema_to_arrow(&postgres_to_delta_schema(&schema));
    let types: Vec<&DataType> = arrow.fields.iter().map(|field| &field.data_type).collect();
    assert_eq!(
        types,
        vec![
            &DataType::Boolean,
            &DataType::Int16,
            &DataType::Int64,
            &DataType::Timestamp(TimeUnit::Microsecond, None),
            &DataType::Timestamp(TimeUnit::Microsecond, Some("UTC".to_string())),
            &DataType::Binary,
            &DataType::Utf8,
            &DataType::Utf8,
        ]
    );
    assert_eq!(arrow.fields[0].name, "bool");
    assert!(arrow.fields[0].nullable);
}

#[test]
fn columns_of_one_type_take_no_other_cells() {
    let text = Cell::String("a".to_string());
    let list = Cell::Array(ArrayCell::Bool(vec![Some(true)]));
    let cells = [&text, &Cell::Null, &Cell::I32(4), &list, &Cell::Bool(true), &Cell::I16(1)];
    let references = cells.to_vec();

    let array = make_array(TableRowEncoder::convert_string_column(&references));
    let texts = array.as_any().downcast_ref::<StringArray>().unwrap();
    let found: Vec<Option<&str>> = texts.iter().collect();
    assert_eq!(found, vec![Some("a"), None, None, None, None, None]);

    let array = make_array(TableRowEncoder::convert_int32_column(&references));
    let numbers = array.as_any().downcast_ref::<Int32Array>().unwrap();
    let found: Vec<Option<i32>> = numbers.iter().collect();
    assert_eq!(found, vec![None, None, Some(4), None, None, None]);

    let array = make_array(TableRowEncoder::convert_bool_column(&references));
    let values = array.as_any().downcast_ref::<BooleanArray>().unwrap();
    let found: Vec<Option<bool>> = values.iter().collect();
    assert_eq!(found, vec![None, None, None, None, Some(true), None]);

    let array = make_array(TableRowEncoder::convert_array_column(&references).unwrap());
    let texts = array.as_any().downcast_ref::<StringArray>().unwrap();
    let found: Vec<Option<&str>> = texts.iter().collect();
    assert_eq!(found, vec![None, None, None, Some("Bool([Some(true)])"), None, None]);
}
