use etl_destinations::delta::{DeltaLakeClient, KeySet};
use etl_destinations::types::{
    ArrayCell, Cell, ColumnSchema, Date, Json, PgNumeric, PgType, TableId, TableName, TableRow,
    TableSchema, Time, Timestamp, Uuid,
};

fn create_test_schema() -> TableSchema {
    TableSchema::new(
        TableId(1),
        TableName::new("public".to_string(), "test_table".to_string()),
        vec![
            ColumnSchema::new("id".to_string(), PgType::Int4, -1, false, true),
            ColumnSchema::new("name".to_string(), PgType::Text, -1, true, false),
        ],
    )
}

fn create_test_row(id: i32, name: &str) -> TableRow {
    TableRow::new(vec![Cell::I32(id), Cell::String(name.to_string())])
}

fn strings(values: &[&str]) -> Vec<String> {
    values.iter().map(|value| value.to_string()).collect()
}

#[test]
fn test_extract_primary_key_single_column() {
    let client = DeltaLakeClient::new(None);
    let schema = create_test_schema();
    let row = create_test_row(42, "test");

    let result = client.extract_primary_key(&row, &schema);
    assert!(result.is_ok());
    assert_eq!(result.unwrap(), "42");
}

#[test]
fn test_extract_primary_key_composite() {
    let client = DeltaLakeClient::new(None);
    let mut schema = create_test_schema();
    // Make both columns primary keys
    schema.column_schemas[1].primary = true;

    let row = create_test_row(42, "test");

    let result = client.extract_primary_key(&row, &schema);
    assert!(result.is_ok());
    assert_eq!(result.unwrap(), "42::test");
}

#[test]
fn test_build_pk_predicate_single_column() {
    let client = DeltaLakeClient::new(None);
    let mut keys = KeySet::new();
    keys.insert("42".to_string());
    keys.insert("43".to_string());

    let pk_columns = vec!["id".to_string()];
    let predicate = client.build_pk_predicate(&keys, &pk_columns);

    assert!(predicate.contains("`id` IN"));
    assert!(predicate.contains("'42'"));
    assert!(predicate.contains("'43'"));
    assert_eq!(predicate, "`id` IN ('42', '43')");
}

#[test]
fn test_build_pk_predicate_composite() {
    let client = DeltaLakeClient::new(None);
    let mut keys = KeySet::new();
    keys.insert("42::test".to_string());
    keys.insert("43::hello".to_string());

    let pk_columns = vec!["id".to_string(), "name".to_string()];
    let predicate = client.build_pk_predicate(&keys, &pk_columns);

    assert!(predicate.contains("`id` = '42' AND `name` = 'test'"));
    assert!(predicate.contains("`id` = '43' AND `name` = 'hello'"));
    assert!(predicate.contains(" OR "));
    assert_eq!(
        predicate,
        "(`id` = '42' AND `name` = 'test') OR (`id` = '43' AND `name` = 'hello')"
    );
}

#[test]
fn test_build_pk_predicate_empty() {
    let client = DeltaLakeClient::new(None);
    let keys = KeySet::new();
    let pk_columns = vec!["id".to_string()];

    let predicate = client.build_pk_predicate(&keys, &pk_columns);
    assert_eq!(predicate, "false");
}

#[test]
fn test_composite_key_escape() {
    let parts = vec!["value::with::delimiter".to_string(), "normal".to_string()];
    let composite = DeltaLakeClient::join_composite_key(&parts);
    assert_eq!(composite, "value::::with::::delimiter::normal");

    let split_parts = DeltaLakeClient::split_composite_key(&composite);
    assert_eq!(split_parts, parts);
}

#[test]
fn test_escape_identifier() {
    assert_eq!(DeltaLakeClient::escape_identifier("normal"), "`normal`");
    assert_eq!(DeltaLakeClient::escape_identifier("with`backtick"), "`with``backtick`");
}

#[test]
fn test_escape_string_literal() {
    assert_eq!(DeltaLakeClient::escape_string_literal("normal"), "'normal'");
    assert_eq!(DeltaLakeClient::escape_string_literal("with'quote"), "'with''quote'");
}

#[test]
fn malformed_composite_keys_are_left_out() {
    let client = DeltaLakeClient::default();
    let mut keys = KeySet::new();
    keys.insert("only".to_string());
    let columns = strings(&["a", "b"]);
    assert_eq!(client.build_pk_predicate(&keys, &columns), "false");
    keys.insert("1::it's".to_string());
    assert_eq!(client.build_pk_predicate(&keys, &columns), "(`a` = '1' AND `b` = 'it''s')");
    assert_eq!(client.build_pk_predicate(&keys, &[]), "false");
}

#[test]
fn a_key_set_holds_each_key_once() {
    let mut keys = KeySet::new();
    assert!(keys.is_empty());
    assert!(keys.insert("a".to_string()));
    assert!(keys.insert("b".to_string()));
    assert!(!keys.insert("a".to_string()));
    assert_eq!(keys.keys(), &strings(&["a", "b"]));
    assert!(keys.contains(&"b".to_string()));
    assert!(!keys.contains(&"c".to_string()));
}

#[test]
fn composite_keys_split_where_parts_are_recoverable() {
    for parts in [
        strings(&["a", "b", "c"]),
        strings(&["", "b"]),
        strings(&["a", ""]),
        strings(&[":", "x"][1..]),
        strings(&["::::", "b:c"]),
        strings(&["a::", "b:"]),
    ] {
        let key = DeltaLakeClient::join_composite_key(&parts);
        assert_eq!(DeltaLakeClient::split_composite_key(&key), parts, "{key}");
    }
}

#[test]
fn composite_keys_do_not_split_where_parts_run_together() {
    for parts in [
        strings(&["a:", "b"]),
        strings(&["a", ":b"]),
        strings(&["a", "", "b"]),
        strings(&[""]),
    ] {
        let key = DeltaLakeClient::join_composite_key(&parts);
        assert_ne!(DeltaLakeClient::split_composite_key(&key), parts, "{key}");
    }
}

#[test]
fn three_colons_take_the_next_character_with_them() {
    assert_eq!(DeltaLakeClient::split_composite_key("a:::bc"), strings(&["a::c"]));
    assert_eq!(DeltaLakeClient::split_composite_key("a:::"), strings(&["a::"]));
    assert_eq!(DeltaLakeClient::split_composite_key(""), strings(&[]));
    assert_eq!(DeltaLakeClient::split_composite_key("a:b"), strings(&["a:b"]));
}

#[test]
fn a_row_without_a_key_is_refused() {
    let client = DeltaLakeClient::new(None);
    let mut schema = create_test_schema();
    let short = TableRow::new(vec![]);
    assert_eq!(
        client.extract_primary_key(&short, &schema),
        Err("Primary key column index 0 out of bounds for row with 0 columns".to_string())
    );
    schema.column_schemas[1].primary = true;
    let short = TableRow::new(vec![Cell::I32(1)]);
    assert_eq!(
        client.extract_primary_key(&short, &schema),
        Err("Primary key column index 1 out of bounds for row with 1 columns".to_string())
    );
    schema.column_schemas[0].primary = false;
    schema.column_schemas[1].primary = false;
    assert_eq!(
        client.extract_primary_key(&short, &schema),
        Err("No primary key columns found in table schema".to_string())
    );
}

#[test]
fn every_cell_has_a_key_text() {
    let date = Date::from_ymd_opt(2023, 5, 15).unwrap();
    let time = Time::from_num_seconds_from_midnight_opt(45045, 250_000_000).unwrap();
    let leap = Time::from_num_seconds_from_midnight_opt(86399, 1_000_000_001).unwrap();
    let timestamp = Timestamp { date, time };
    let bytes = [
        0x67, 0xe5, 0x50, 0x44, 0x10, 0xb1, 0x42, 0x6f, 0x92, 0x47, 0xbb, 0x68, 0x0e, 0x5f, 0xe0,
        0xc8,
    ];
    let numeric = PgNumeric { text: "123.45".to_string(), debug: "Numeric".to_string() };
    for (cell, text) in [
        (Cell::Null, "NULL"),
        (Cell::Bool(true), "true"),
        (Cell::Bool(false), "false"),
        (Cell::String("x:y".to_string()), "x:y"),
        (Cell::I16(-7), "-7"),
        (Cell::I32(i32::MIN), "-2147483648"),
        (Cell::I64(i64::MIN), "-9223372036854775808"),
        (Cell::U32(u32::MAX), "4294967295"),
        (Cell::F32(2.5f32.to_bits()), "2.5"),
        (Cell::F64((-3.0f64).to_bits()), "-3"),
        (Cell::Numeric(numeric), "123.45"),
        (Cell::Date(date), "2023-05-15"),
        (Cell::Date(Date::from_ymd_opt(-5, 1, 2).unwrap()), "-0005-01-02"),
        (Cell::Date(Date::from_ymd_opt(12345, 11, 30).unwrap()), "+12345-11-30"),
        (Cell::Time(time), "12:30:45.250"),
        (Cell::Time(leap), "23:59:60.000000001"),
        (Cell::Timestamp(timestamp), "2023-05-15 12:30:45.250"),
        (Cell::TimestampTz(timestamp), "2023-05-15 12:30:45.250 UTC"),
        (Cell::Uuid(Uuid { bytes }), "67e55044-10b1-426f-9247-bb680e5fe0c8"),
        (Cell::Json(Json::parse("{ \"b\": 1 }").unwrap()), "{\"b\":1}"),
        (Cell::Bytes(vec![0, 171, 255]), "\\x00abff"),
        (Cell::Array(ArrayCell::I32(vec![Some(1)])), "[ARRAY]"),
    ] {
        assert_eq!(DeltaLakeClient::cell_to_string(&cell), text);
    }
    assert!(Json::parse("{").is_none());
}

#[test]
fn transaction_ids_name_the_write() {
    let client = DeltaLakeClient::new(None);
    assert_eq!(client.generate_app_transaction_id("p", "t", 0), "etl-p-t-0");
    assert_eq!(
        client.generate_app_transaction_id("p", "t", u64::MAX),
        "etl-p-t-18446744073709551615"
    );
}

#[test]
fn primary_key_columns_are_named_in_order() {
    let mut schema = create_test_schema();
    assert_eq!(DeltaLakeClient::get_primary_key_columns(&schema), strings(&["id"]));
    schema.column_schemas[1].primary = true;
    assert_eq!(DeltaLakeClient::get_primary_key_columns(&schema), strings(&["id", "name"]));
}

#[test]
fn rows_that_differ_in_their_key_columns_have_different_keys() {
    let client = DeltaLakeClient::new(None);
    let mut schema = create_test_schema();
    let key = |schema: &TableSchema, id: Cell, name: Cell| {
        client.extract_primary_key(&TableRow::new(vec![id, name]), schema).unwrap()
    };
    let day = |day: u32| Cell::Date(Date::from_ymd_opt(2024, 2, day).unwrap());
    let second = |nanos: u32| {
        Cell::Time(Time::from_num_seconds_from_midnight_opt(59, nanos).unwrap())
    };
    for (left, right) in [
        (Cell::I32(1), Cell::I32(-1)),
        (Cell::Null, Cell::I32(0)),
        (day(28), day(29)),
        (second(0), second(1_000_000_000)),
        (Cell::Bytes(vec![0]), Cell::Bytes(vec![0, 0])),
    ] {
        assert_ne!(key(&schema, left, Cell::Null), key(&schema, right, Cell::Null));
    }

    schema.column_schemas[1].primary = true;
    let text = |text: &str| Cell::String(text.to_string());
    assert_ne!(key(&schema, text("a::b"), text("c")), key(&schema, text("a"), text("b::c")));
    assert_eq!(key(&schema, text("x"), text("::y")), key(&schema, text("x::"), text("y")));
    assert_eq!(key(&schema, Cell::Null, text("c")), key(&schema, text("NULL"), text("c")));
}

#[test]
fn keys_are_joined_again_unless_a_run_of_colons_is_cut() {
    let again = |key: &str| {
        DeltaLakeClient::join_composite_key(&DeltaLakeClient::split_composite_key(key))
    };
    for key in ["", "a", "a::", "::", ":", "a::b", "a::::b::c", ":::::", "::::::a", "a:b:::: c"] {
        assert_eq!(again(key), key);
    }
    assert!(DeltaLakeClient::split_composite_key("").is_empty());
    assert_eq!(DeltaLakeClient::split_composite_key("a::"), strings(&["a", ""]));
    for key in [":::", "a:::b", ":::::::", "a::b:::"] {
        assert_ne!(again(key), key);
    }
}

#[test]
fn one_key_column_tells_rows_apart() {
    let client = DeltaLakeClient::new(None);
    let mut schema = create_test_schema();
    schema.column_schemas[1].primary = true;
    let texts = ["", ":", "::", ":::", "a", "a:", "::a", "NULL:"];
    let key = |first: &str, second: &str| {
        let cells = vec![Cell::String(first.to_string()), Cell::String(second.to_string())];
        client.extract_primary_key(&TableRow::new(cells), &schema).unwrap()
    };
    for same in texts {
        for left in texts {
            for right in texts {
                assert_eq!(key(left, same) == key(right, same), left == right);
                assert_eq!(key(same, left) == key(same, right), left == right);
            }
        }
    }
    // Keys differ where colons stand on one side of their delimiters only.
    assert_ne!(key("a:", "b"), key("a", "b:"));
    assert_ne!(key("a::", "b"), key("a:", "c"));
    assert_ne!(key("a", "::b"), key("a::b", "c"));
    assert_ne!(key("a", ":b"), key("", "::b"));
}
