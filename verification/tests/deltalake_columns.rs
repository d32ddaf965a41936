use std::sync::Arc;

use arrow::array::{Array, ListArray, make_array};
use datafusion_common::ScalarValue;
use etl_destinations::batch::DataType;
use etl_destinations::deltalake::config::DeltaTableConfig;
use etl_destinations::deltalake::destination::{
    WritePlan, encode_table_rows, process_table_events, try_encode_table_rows,
};
use etl_destinations::deltalake::operations::merge_to_table;
use etl_destinations::deltalake::schema::postgres_to_arrow_schema;
use etl_destinations::types::{
    ArrayCell, Cell, ColumnSchema, Date, Event, InsertEvent, Json, PgLsn, PgNumeric, PgType,
    TableId, TableName, TableRow, TableSchema, Time, Timestamp, Uuid,
};

fn numeric(text: &str) -> PgNumeric {
    PgNumeric { text: text.to_string(), debug: text.to_string() }
}

fn text(value: &str) -> ScalarValue {
    ScalarValue::Utf8(Some(value.to_string()))
}

fn texts(values: &[&str]) -> Vec<ScalarValue> {
    values.iter().map(|value| text(value)).collect()
}

fn strings(values: &[&str]) -> Cell {
    Cell::Array(ArrayCell::String(values.iter().map(|value| Some(value.to_string())).collect()))
}

fn json(source: &str) -> Json {
    Json::parse(source).unwrap()
}

fn uuid(last: u8) -> Uuid {
    let mut bytes = [0; 16];
    bytes[15] = last;
    Uuid { bytes }
}

fn date(year: i32, month: u32, day: u32) -> Date {
    Date::from_ymd_opt(year, month, day).unwrap()
}

fn timestamp(date: Date, hour: u32, minute: u32, second: u32) -> Timestamp {
    Timestamp { date, time: Time::from_hms_opt(hour, minute, second).unwrap() }
}

fn table(columns: Vec<ColumnSchema>) -> TableSchema {
    TableSchema::new(
        TableId(7),
        TableName::new("public".to_string(), "types".to_string()),
        columns,
    )
}

/// A table with one column for each type, none of which may be missing, and the row with the cells.
fn table_of(cells: Vec<(PgType, Cell)>) -> (TableSchema, TableRow) {
    let mut columns = vec![];
    let mut values = vec![];
    for (i, (typ, cell)) in cells.into_iter().enumerate() {
        columns.push(ColumnSchema::new(format!("column_{i}"), typ, -1, false, i == 0));
        values.push(cell);
    }
    (table(columns), TableRow::new(values))
}

#[test]
fn values_of_every_type_are_stored() {
    let noon = timestamp(date(2023, 1, 1), 12, 0, 0);
    let noon_micros = Some(1_672_574_400_000_000);
    let time = Time::from_num_seconds_from_midnight_opt(36672, 123_456_000).unwrap();
    let cases = vec![
        (PgType::Int8, Cell::I64(1), ScalarValue::Int64(Some(1))),
        (PgType::Bool, Cell::Bool(true), ScalarValue::Boolean(Some(true))),
        (PgType::Bpchar, Cell::String("fixed".to_string()), text("fixed")),
        (PgType::Varchar, Cell::String("varchar sample".to_string()), text("varchar sample")),
        (PgType::Name, Cell::String("pg_name_value".to_string()), text("pg_name_value")),
        (PgType::Text, Cell::String("text".to_string()), text("text")),
        (PgType::Int2, Cell::I16(42), ScalarValue::Int32(Some(42))),
        (PgType::Int4, Cell::I32(4242), ScalarValue::Int32(Some(4242))),
        (PgType::Float4, Cell::F32(1.25f32.to_bits()), ScalarValue::Float32(Some(1.25))),
        (PgType::Float8, Cell::F64(9.875f64.to_bits()), ScalarValue::Float64(Some(9.875))),
        (PgType::Numeric, Cell::Numeric(numeric("12345.67")), text("12345.67")),
        (PgType::Date, Cell::Date(date(1993, 1, 15)), ScalarValue::Date32(Some(8415))),
        (PgType::Time, Cell::Time(time), ScalarValue::Time64Microsecond(Some(36_672_123_456))),
        (
            PgType::Timestamp,
            Cell::Timestamp(noon),
            ScalarValue::TimestampMicrosecond(noon_micros, None),
        ),
        (
            PgType::Timestamptz,
            Cell::TimestampTz(noon),
            ScalarValue::TimestampMicrosecond(noon_micros, Some(Arc::from("UTC"))),
        ),
        (
            PgType::Uuid,
            Cell::Uuid(uuid(1)),
            ScalarValue::FixedSizeBinary(16, Some(uuid(1).bytes.to_vec())),
        ),
        (PgType::Json, Cell::Json(json("{\"kind\":\"json\"}")), text("{\"kind\":\"json\"}")),
        (PgType::Jsonb, Cell::Json(json("{\"kind\":\"jsonb\"}")), text("{\"kind\":\"jsonb\"}")),
        (PgType::Oid, Cell::U32(424_242), ScalarValue::Int64(Some(424_242))),
        (
            PgType::Bytea,
            Cell::Bytes(b"Hello Delta".to_vec()),
            ScalarValue::LargeBinary(Some(b"Hello Delta".to_vec())),
        ),
    ];
    let expected: Vec<ScalarValue> = cases.iter().map(|(_, _, value)| value.clone()).collect();
    let cells = cases.into_iter().map(|(typ, cell, _)| (typ, cell)).collect();
    let (schema, row) = table_of(cells);
    let batch = encode_table_rows(&schema, &[row]).unwrap();
    for (i, value) in expected.iter().enumerate() {
        let column = make_array(batch.column(i).clone());
        assert_eq!(&ScalarValue::try_from_array(&column, 0).unwrap(), value);
    }
}

#[test]
fn lists_of_every_type_are_stored() {
    let first = timestamp(date(2021, 3, 14), 1, 59, 26);
    let second = timestamp(date(2022, 6, 30), 23, 0, 0);
    let micros = [Some(1_615_687_166_000_000), Some(1_656_630_000_000_000)];
    let times = vec![
        Some(Time::from_hms_opt(1, 2, 3).unwrap()),
        Some(Time::from_num_seconds_from_midnight_opt(14706, 789_000_000).unwrap()),
    ];
    let int64 = |value| ScalarValue::Int64(Some(value));
    let int32 = |value| ScalarValue::Int32(Some(value));
    let cases: Vec<(PgType, Cell, Vec<ScalarValue>)> = vec![
        (
            PgType::BoolArray,
            Cell::Array(ArrayCell::Bool(vec![Some(true), None])),
            vec![ScalarValue::Boolean(Some(true)), ScalarValue::Boolean(None)],
        ),
        (PgType::BpcharArray, strings(&["one", "two"]), texts(&["one", "two"])),
        (PgType::TextArray, strings(&["text one"]), texts(&["text one"])),
        (
            PgType::Int2Array,
            Cell::Array(ArrayCell::I16(vec![Some(1), Some(2)])),
            vec![int32(1), int32(2)],
        ),
        (PgType::Int4Array, Cell::Array(ArrayCell::I32(vec![Some(10)])), vec![int32(10)]),
        (PgType::Int8Array, Cell::Array(ArrayCell::I64(vec![Some(100)])), vec![int64(100)]),
        (
            PgType::Float4Array,
            Cell::Array(ArrayCell::F32(vec![Some(1.5f32.to_bits())])),
            vec![ScalarValue::Float32(Some(1.5))],
        ),
        (
            PgType::Float8Array,
            Cell::Array(ArrayCell::F64(vec![Some(3.5f64.to_bits())])),
            vec![ScalarValue::Float64(Some(3.5))],
        ),
        (
            PgType::NumericArray,
            Cell::Array(ArrayCell::Numeric(vec![Some(numeric("10.10")), Some(numeric("20.20"))])),
            texts(&["10.10", "20.20"]),
        ),
        (
            PgType::DateArray,
            Cell::Array(ArrayCell::Date(vec![Some(date(2020, 1, 1))])),
            vec![ScalarValue::Date32(Some(18262))],
        ),
        (
            PgType::TimeArray,
            Cell::Array(ArrayCell::Time(times)),
            vec![
                ScalarValue::Time64Microsecond(Some(3_723_000_000)),
                ScalarValue::Time64Microsecond(Some(14_706_789_000)),
            ],
        ),
        (
            PgType::TimestampArray,
            Cell::Array(ArrayCell::Timestamp(vec![Some(first), Some(second)])),
            micros.iter().map(|m| ScalarValue::TimestampMicrosecond(*m, None)).collect(),
        ),
        (
            PgType::TimestamptzArray,
            Cell::Array(ArrayCell::TimestampTz(vec![Some(first), Some(second)])),
            micros
                .iter()
                .map(|m| ScalarValue::TimestampMicrosecond(*m, Some(Arc::from("UTC"))))
                .collect(),
        ),
        (
            PgType::UuidArray,
            Cell::Array(ArrayCell::Uuid(vec![Some(uuid(1)), None])),
            vec![text("00000000-0000-0000-0000-000000000001"), ScalarValue::Utf8(None)],
        ),
        (
            PgType::JsonbArray,
            Cell::Array(ArrayCell::Json(vec![Some(json("{\"code\":\"a\"}"))])),
            texts(&["{\"code\":\"a\"}"]),
        ),
        (
            PgType::OidArray,
            Cell::Array(ArrayCell::U32(vec![Some(7_000), Some(7_001)])),
            vec![int64(7_000), int64(7_001)],
        ),
        (
            PgType::ByteaArray,
            Cell::Array(ArrayCell::Bytes(vec![Some(b"bytes1".to_vec()), None])),
            vec![
                ScalarValue::LargeBinary(Some(b"bytes1".to_vec())),
                ScalarValue::LargeBinary(None),
            ],
        ),
    ];
    let expected: Vec<Vec<ScalarValue>> = cases.iter().map(|(_, _, list)| list.clone()).collect();
    let cells = cases.into_iter().map(|(typ, cell, _)| (typ, cell)).collect();
    let (schema, row) = table_of(cells);
    let batch = try_encode_table_rows(&schema, &[row]).unwrap().unwrap();
    for (i, elements) in expected.iter().enumerate() {
        let column = make_array(batch.column(i).clone());
        let list = column.as_any().downcast_ref::<ListArray>().unwrap().value(0);
        assert_eq!(list.len(), elements.len());
        for (k, element) in elements.iter().enumerate() {
            assert_eq!(&ScalarValue::try_from_array(&list, k).unwrap(), element);
        }
    }
}

#[test]
fn missing_values_are_stored_where_columns_allow_them() {
    let types = vec![PgType::Numeric, PgType::Timestamp, PgType::Uuid, PgType::ByteaArray];
    for typ in types {
        let columns = |nullable| {
            table(vec![ColumnSchema::new("a".to_string(), typ.clone(), -1, nullable, false)])
        };
        let row = TableRow::new(vec![Cell::Null]);
        let batch = encode_table_rows(&columns(true), &[row.clone()]).unwrap();
        assert!(make_array(batch.column(0).clone()).is_null(0));
        assert!(encode_table_rows(&columns(false), &[row]).is_err());
        assert_eq!(encode_table_rows::<TableRow>(&columns(false), &[]).unwrap().num_rows(), 0);
    }
}

#[test]
fn decimal_columns_are_merged_and_are_keys() {
    // The modifiers of numeric(10, 2) and numeric(5, 4).
    let schema = table(vec![
        ColumnSchema::new("price".to_string(), PgType::Numeric, (10 << 16) + 6, false, true),
        ColumnSchema::new("share".to_string(), PgType::Numeric, (5 << 16) + 8, false, false),
    ]);
    let row = |price: &str, share: &str| {
        TableRow::new(vec![Cell::Numeric(numeric(price)), Cell::Numeric(numeric(share))])
    };
    let rows = vec![row("123.45", "0.9876"), row("999.99", "0.0001")];
    let plan = merge_to_table(&DeltaTableConfig::default(), &schema, &rows, None).unwrap();
    assert_eq!(plan.batch.num_rows(), 2);
    let shares = make_array(plan.batch.column(1).clone());
    assert_eq!(ScalarValue::try_from_array(&shares, 1).unwrap(), text("0.0001"));

    let events: Vec<Event> = [row("123.45", "0.1"), row("123.45", "0.2"), row("7", "0.3")]
        .into_iter()
        .enumerate()
        .map(|(i, table_row)| {
            Event::Insert(InsertEvent {
                start_lsn: PgLsn(i as u64),
                commit_lsn: PgLsn(1),
                table_id: TableId(7),
                table_row,
            })
        })
        .collect();
    let config = DeltaTableConfig::default();
    let plan = process_table_events(&config, &schema, &events).unwrap();
    let WritePlan::Merge { rows, .. } = plan else {
        panic!("not merged");
    };
    assert_eq!(rows, vec![&row("123.45", "0.2"), &row("7", "0.3")]);
}

#[test]
fn arrow_columns_have_types_that_are_encoded() {
    let column = |typ| ColumnSchema::new("a".to_string(), typ, -1, true, false);
    let types = |typ| {
        let mut schema = postgres_to_arrow_schema(&table(vec![column(typ)])).unwrap();
        schema.fields.remove(0).data_type
    };
    assert_eq!(types(PgType::Numeric), DataType::Utf8);
    assert_eq!(types(PgType::Bytea), DataType::LargeBinary);
    assert_eq!(types(PgType::Uuid), DataType::FixedSizeBinary(16));
    let DataType::List(element) = types(PgType::ByteaArray) else {
        panic!("not a list");
    };
    assert_eq!(element.name, "element");
    assert_eq!(element.data_type, DataType::LargeBinary);
    assert!(element.nullable);
}
