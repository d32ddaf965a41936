use std::collections::HashMap;
use std::sync::Arc;

use arrow::array::{Array, Int32Array, Int64Array, StringArray, make_array};
use datafusion_common::ScalarValue;
use etl_destinations::batch::DataType;
use etl_destinations::deltalake::config::{
    CommitCount, Compression, DeltaTableConfig, TableConfigs, WriterProperties, WriterVersion,
};
use etl_destinations::deltalake::destination::{
    DeltaLakeDestination, WriteKind, WriteOutcome, WritePlan, combine_predicates,
    encode_table_rows, execute_delete_append_transaction_expr, finish_write,
    maybe_schedule_maintenance, process_table_events, require_schema_of_events,
    try_encode_table_rows, try_process_table_events, write_table_rows_internal,
};
use etl_destinations::deltalake::expr::{Column, Expr, Operator};
use etl_destinations::deltalake::maintenance::{
    MaintenanceAction, MaintenanceEvent, TableMaintenanceState,
};
use etl_destinations::deltalake::opening::{
    DeltaDestinationConfig, OpenAction, OpenEvent, OpenState, get_or_create_table,
};
use etl_destinations::deltalake::operations::merge::try_merge_to_table;
use etl_destinations::deltalake::operations::{MergeError, merge_to_table};
use etl_destinations::deltalake::schema::{
    extract_numeric_precision, extract_numeric_scale, postgres_scalar_type_to_delta_type,
    postgres_to_arrow_schema, postgres_to_delta_schema,
};
use etl_destinations::error::{EtlError, ErrorKind};
use etl_destinations::kernel::{KernelType, PrimitiveType};
use etl_destinations::types::{
    Cell, ColumnSchema, DeleteEvent, Event, InsertEvent, PgLsn, PgType, TableId, TableName,
    TableRow, TableSchema,
};

fn table_schema() -> TableSchema {
    TableSchema::new(
        TableId(7),
        TableName::new("public".to_string(), "users".to_string()),
        vec![
            ColumnSchema::new("id".to_string(), PgType::Int8, -1, false, true),
            ColumnSchema::new("Name".to_string(), PgType::Text, -1, true, false),
        ],
    )
}

fn row(id: i64, name: &str) -> TableRow {
    TableRow::new(vec![Cell::I64(id), Cell::String(name.to_string())])
}

fn insert(lsn: u64, row: TableRow) -> Event {
    Event::Insert(InsertEvent {
        start_lsn: PgLsn(lsn),
        commit_lsn: PgLsn(lsn),
        table_id: TableId(7),
        table_row: row,
    })
}

fn delete(lsn: u64, row: TableRow) -> Event {
    Event::Delete(DeleteEvent {
        start_lsn: PgLsn(lsn),
        commit_lsn: PgLsn(lsn),
        table_id: TableId(7),
        old_table_row: Some((true, row)),
    })
}

fn column(name: &str) -> Expr {
    Expr::Column(Column { relation: None, name: name.to_string() })
}

fn id_is(id: i64) -> Expr {
    Expr::BinaryExpr {
        left: Box::new(column("id")),
        op: Operator::Eq,
        right: Box::new(Expr::Literal(ScalarValue::Int64(Some(id)))),
    }
}

fn or(left: Expr, right: Expr) -> Expr {
    Expr::BinaryExpr { left: Box::new(left), op: Operator::Or, right: Box::new(right) }
}

fn config_with(append_only: bool) -> DeltaDestinationConfig {
    let mut table_config = TableConfigs::new();
    table_config.insert(
        "users".to_string(),
        Arc::new(DeltaTableConfig { append_only, ..Default::default() }),
    );
    DeltaDestinationConfig {
        base_uri: "s3://bucket/warehouse".to_string(),
        storage_options: Some(HashMap::from([("a".to_string(), "b".to_string())])),
        table_config,
    }
}

#[test]
fn tables_without_configuration_have_the_default() {
    let default = DeltaTableConfig::default();
    assert!(!default.append_only);
    assert_eq!(default.parquet_version, WriterVersion::Parquet1);
    assert_eq!(default.compression, Compression::Snappy);
    assert!(default.z_order_columns.is_none());
    assert_eq!(default.compact_after_commits.map(|commits| commits.get()), Some(100));
    assert!(default.z_order_after_commits.is_none());

    let destination: DeltaLakeDestination<(), (), ()> =
        DeltaLakeDestination::new((), config_with(true));
    assert!(destination.config_for_table_name("users").append_only);
    assert!(!destination.config_for_table_name("orders").append_only);
    assert_eq!(destination.config().base_uri, "s3://bucket/warehouse");
    assert_eq!(DeltaLakeDestination::<(), (), ()>::name(), "deltalake");
}

#[test]
fn files_are_written_as_configured() {
    let config = DeltaTableConfig {
        parquet_version: WriterVersion::Parquet2,
        compression: Compression::Zstd(3),
        ..Default::default()
    };
    let expected = WriterProperties {
        writer_version: WriterVersion::Parquet2,
        compression: Compression::Zstd(3),
    };
    assert_eq!(WriterProperties::from(&config), expected);
    assert_eq!(WriterProperties::from(config), expected);
}

#[test]
fn counts_of_commits_are_positive() {
    assert!(CommitCount::new(0).is_none());
    assert_eq!(CommitCount::new(5).unwrap().get(), 5);
}

#[test]
fn open_tables_are_kept() {
    let mut destination: DeltaLakeDestination<&str, String, ()> =
        DeltaLakeDestination::new("store", config_with(false));
    assert_eq!(*destination.store(), "store");
    assert!(destination.cached_table(TableId(1)).is_none());
    assert_eq!(destination.table_handle(TableId(1), "first".to_string()), "first");
    assert_eq!(destination.table_handle(TableId(1), "second".to_string()), "first");
    assert_eq!(destination.table_handle(TableId(2), "third".to_string()), "third");
    destination.table_handle(TableId(1), String::new()).push_str(" again");
    assert_eq!(destination.cached_table(TableId(1)).unwrap(), "first again");
    assert_eq!(destination.cached_table(TableId(2)).unwrap(), "third");
    assert!(destination.cached_table(TableId(3)).is_none());
}

#[test]
fn maintenance_starts_at_the_version_of_the_table() {
    let mut destination: DeltaLakeDestination<(), (), u8> =
        DeltaLakeDestination::new((), config_with(false));
    let state = destination.maintenance_state_for(TableId(1), 5);
    assert_eq!(state.inner.last_compacted_version, 5);
    assert_eq!(state.inner.last_zordered_version, 5);
    state.inner.last_compacted_version = 9;
    let state = destination.maintenance_state_for(TableId(1), 20);
    assert_eq!(state.inner.last_compacted_version, 9);
    assert_eq!(state.inner.last_zordered_version, 5);
}

#[test]
fn maintenance_is_scheduled_where_it_is_configured() {
    let mut config = DeltaTableConfig::default();
    assert!(maybe_schedule_maintenance(0, &config));
    config.compact_after_commits = None;
    assert!(!maybe_schedule_maintenance(0, &config));
    config.z_order_after_commits = CommitCount::new(1);
    assert!(maybe_schedule_maintenance(3, &config));
}

#[test]
fn tables_are_compacted_after_so_many_commits() {
    let config = DeltaTableConfig {
        compact_after_commits: CommitCount::new(3),
        ..Default::default()
    };
    let mut state: TableMaintenanceState<u8> = TableMaintenanceState::new(10);
    let action = state.maybe_run_compaction(&config, 12, MaintenanceEvent::Requested);
    assert!(matches!(action, MaintenanceAction::Done));
    let action = state.maybe_run_compaction(&config, 13, MaintenanceEvent::Requested);
    assert!(matches!(action, MaintenanceAction::Compact));
    let action = state.maybe_run_compaction(&config, 13, MaintenanceEvent::Spawned(1));
    assert!(matches!(action, MaintenanceAction::Done));
    assert_eq!(state.inner.compaction_task, Some(1));
    // The task is waited for before another one starts.
    let action = state.maybe_run_compaction(&config, 20, MaintenanceEvent::Requested);
    assert!(matches!(action, MaintenanceAction::Join(1)));
    state.maybe_run_compaction(&config, 13, MaintenanceEvent::Finished(Some(14)));
    assert_eq!(state.inner.last_compacted_version, 14);
    let action = state.maybe_run_compaction(&config, 16, MaintenanceEvent::Joined);
    assert!(matches!(action, MaintenanceAction::Done));
    let action = state.maybe_run_compaction(&config, 17, MaintenanceEvent::Joined);
    assert!(matches!(action, MaintenanceAction::Compact));
    state.maybe_run_compaction(&config, 17, MaintenanceEvent::Finished(None));
    assert_eq!(state.inner.last_compacted_version, 17);
    state.maybe_run_compaction(&config, 30, MaintenanceEvent::Failed);
    assert_eq!(state.inner.last_compacted_version, 17);
    assert_eq!(state.inner.last_zordered_version, 10);
}

#[test]
fn numbers_that_are_no_versions_are_never_reached() {
    let config = DeltaTableConfig {
        compact_after_commits: CommitCount::new(u64::MAX),
        ..Default::default()
    };
    let mut state: TableMaintenanceState<u8> = TableMaintenanceState::new(i64::MIN);
    let action = state.maybe_run_compaction(&config, i64::MAX, MaintenanceEvent::Requested);
    assert!(matches!(action, MaintenanceAction::Done));
    let config = DeltaTableConfig {
        compact_after_commits: CommitCount::new(i64::MAX as u64),
        ..Default::default()
    };
    let action = state.maybe_run_compaction(&config, i64::MAX, MaintenanceEvent::Requested);
    assert!(matches!(action, MaintenanceAction::Compact));
}

#[test]
fn tables_are_ordered_by_their_columns() {
    let mut config = DeltaTableConfig {
        z_order_columns: Some(vec!["a".to_string(), "b".to_string()]),
        z_order_after_commits: CommitCount::new(2),
        ..Default::default()
    };
    let mut state: TableMaintenanceState<u8> = TableMaintenanceState::new(0);
    let action = state.maybe_run_zorder(&config, 1, MaintenanceEvent::Requested);
    assert!(matches!(action, MaintenanceAction::Done));
    let MaintenanceAction::ZOrder(columns) =
        state.maybe_run_zorder(&config, 2, MaintenanceEvent::Requested)
    else {
        panic!("not ordered");
    };
    assert_eq!(columns, vec!["a".to_string(), "b".to_string()]);
    state.maybe_run_zorder(&config, 2, MaintenanceEvent::Spawned(4));
    let action = state.maybe_run_zorder(&config, 2, MaintenanceEvent::Requested);
    assert!(matches!(action, MaintenanceAction::Join(4)));
    state.maybe_run_zorder(&config, 2, MaintenanceEvent::Finished(Some(3)));
    assert_eq!(state.inner.last_zordered_version, 3);
    assert_eq!(state.inner.last_compacted_version, 0);

    config.z_order_columns = Some(vec![]);
    let action = state.maybe_run_zorder(&config, 100, MaintenanceEvent::Joined);
    assert!(matches!(action, MaintenanceAction::Done));
    config.z_order_columns = None;
    let action = state.maybe_run_zorder(&config, 100, MaintenanceEvent::Joined);
    assert!(matches!(action, MaintenanceAction::Done));
}

fn step(state: OpenState, event: OpenEvent) -> (OpenState, OpenAction) {
    get_or_create_table(&config_with(true), TableId(7), state, event)
}

fn failed(message: &str, not_a_table: bool) -> OpenEvent {
    OpenEvent::Failed { not_a_table, message: message.to_string() }
}

fn error_of(action: OpenAction) -> EtlError {
    match action {
        OpenAction::Fail(error) => error,
        _ => panic!("no error"),
    }
}

#[test]
fn tables_are_loaded_where_they_exist() {
    let (state, action) = step(OpenState::Schema, OpenEvent::SchemaRead(Some(table_schema())));
    let OpenAction::ParsePath(path) = action else {
        panic!("no path");
    };
    assert_eq!(path, "s3://bucket/warehouse/users");
    let (state, action) = step(state, OpenEvent::Succeeded);
    assert!(matches!(action, OpenAction::MakeBuilder));
    let (state, action) = step(state, OpenEvent::Succeeded);
    assert!(matches!(action, OpenAction::Build));
    let (state, action) = step(state, OpenEvent::Succeeded);
    assert!(matches!(action, OpenAction::Load));
    let (state, action) = step(state, OpenEvent::Succeeded);
    assert!(matches!(action, OpenAction::Use));
    assert!(matches!(state, OpenState::Ended));
}

#[test]
fn tables_are_created_where_there_are_none() {
    let (state, action) = step(OpenState::Load(table_schema()), failed("gone", true));
    let OpenAction::Create(creation) = action else {
        panic!("not created");
    };
    assert!(creation.append_only);
    let names: Vec<&str> = creation.columns.iter().map(|column| column.name.as_str()).collect();
    assert_eq!(names, vec!["id", "Name"]);
    assert_eq!(creation.columns[0].data_type, KernelType::Primitive(PrimitiveType::Long));
    assert!(!creation.columns[0].nullable);
    assert!(matches!(state, OpenState::Create));
    let (_, action) = step(state, OpenEvent::Succeeded);
    assert!(matches!(action, OpenAction::Use));
}

#[test]
fn failures_to_open_are_told() {
    let (_, action) = step(OpenState::Schema, OpenEvent::SchemaRead(None));
    let error = error_of(action);
    assert_eq!(error.kind, ErrorKind::MissingTableSchema);
    assert_eq!(error.description, "Table schema not found");
    assert_eq!(error.detail.unwrap(), "Schema for table 7 not found in store");

    let cases = vec![
        (OpenState::Path(table_schema()), "Failed to parse table path"),
        (OpenState::Builder(table_schema()), "Failed to create Delta table builder"),
        (OpenState::Build(table_schema()), "Failed to build Delta table"),
        (OpenState::Load(table_schema()), "Failed to load Delta table"),
        (OpenState::Create, "Failed to create Delta table"),
    ];
    for (state, description) in cases {
        let (state, action) = step(state, failed("why", false));
        assert!(matches!(state, OpenState::Ended));
        let error = error_of(action);
        assert_eq!(error.kind, ErrorKind::DestinationError);
        assert_eq!(error.description, description);
        assert_eq!(error.detail.unwrap(), "why");
    }

    let mut schema = table_schema();
    schema.column_schemas[1].name = "id".to_string();
    let (_, action) = step(OpenState::Load(schema), failed("gone", true));
    let error = error_of(action);
    assert_eq!(error.kind, ErrorKind::ConversionError);
    assert_eq!(error.description, "Failed to convert table schema to Delta schema");
    assert!(error.detail.is_some());
}

#[test]
fn predicates_are_combined() {
    assert!(combine_predicates(vec![]).is_none());
    assert_eq!(combine_predicates(vec![id_is(1)]), Some(id_is(1)));
    assert_eq!(
        combine_predicates(vec![id_is(1), id_is(2), id_is(3)]),
        Some(or(or(id_is(1), id_is(2)), id_is(3)))
    );
}

#[test]
fn writes_depend_on_what_there_is_to_do() {
    let rows = vec![row(1, "a")];
    assert!(matches!(
        execute_delete_append_transaction_expr(vec![], vec![]),
        WritePlan::Nothing
    ));
    assert!(matches!(
        execute_delete_append_transaction_expr(vec![], vec![id_is(1)]),
        WritePlan::Delete(predicate) if predicate == id_is(1)
    ));
    assert!(matches!(
        execute_delete_append_transaction_expr(vec![&rows[0]], vec![id_is(2), id_is(3)]),
        WritePlan::Merge { rows: merged, delete_predicate: Some(predicate) }
            if merged == vec![&rows[0]] && predicate == or(id_is(2), id_is(3))
    ));
    assert!(matches!(
        execute_delete_append_transaction_expr(vec![&rows[0]], vec![]),
        WritePlan::Merge { delete_predicate: None, .. }
    ));
    assert!(matches!(write_table_rows_internal(vec![]), WritePlan::Nothing));
    assert!(matches!(
        write_table_rows_internal(vec![&rows[0]]),
        WritePlan::Append(appended) if appended == vec![&rows[0]]
    ));
}

#[test]
fn events_of_a_table_become_one_write() {
    let events = vec![insert(1, row(1, "a")), insert(2, row(2, "b")), delete(3, row(2, "b"))];
    let config = DeltaTableConfig::default();
    let plan = process_table_events(&config, &table_schema(), &events).unwrap();
    assert!(matches!(
        plan,
        WritePlan::Merge { rows, delete_predicate: Some(predicate) }
            if rows == vec![&row(1, "a")] && predicate == id_is(2)
    ));
    let config = DeltaTableConfig { append_only: true, ..Default::default() };
    let plan = try_process_table_events(&config, &table_schema(), &events).unwrap().unwrap();
    assert!(matches!(
        plan,
        WritePlan::Append(rows) if rows == vec![&row(1, "a"), &row(2, "b")]
    ));
    let events = vec![insert(1, TableRow::new(vec![]))];
    assert!(try_process_table_events(&config, &table_schema(), &events).is_none());
}

#[test]
fn rows_to_add_are_encoded() {
    let batch = encode_table_rows(&table_schema(), &[&row(1, "a"), &row(2, "b")]).unwrap();
    let ids = make_array(batch.column(0).clone());
    let ids = ids.as_any().downcast_ref::<Int64Array>().unwrap();
    assert_eq!(ids.values().to_vec(), vec![1, 2]);
    let names = make_array(batch.column(1).clone());
    let names = names.as_any().downcast_ref::<StringArray>().unwrap();
    assert_eq!(names.value(1), "b");

    let wrong = TableRow::new(vec![Cell::Null, Cell::Null]);
    let error = encode_table_rows(&table_schema(), &[wrong]).unwrap_err();
    assert_eq!(error.kind, ErrorKind::ConversionError);
    assert_eq!(error.description, "Failed to encode table rows");
    assert!(error.detail.unwrap().starts_with("Error converting to Arrow: Invalid argument error"));
    assert!(try_encode_table_rows(&table_schema(), &[TableRow::new(vec![])]).is_none());
    assert!(try_encode_table_rows(&table_schema(), &[row(1, "a")]).unwrap().is_ok());
}

#[test]
fn events_of_unknown_tables_are_an_error() {
    assert_eq!(require_schema_of_events(TableId(7), Some(table_schema())).unwrap(), table_schema());
    let error = require_schema_of_events::<TableSchema>(TableId(7), None).unwrap_err();
    assert_eq!(error.kind, ErrorKind::MissingTableSchema);
    assert_eq!(error.description, "Table schema not found");
    assert_eq!(error.detail.as_deref(), Some("7"));
}

#[test]
fn versions_follow_writes() {
    let finish = |kind, outcome| finish_write(TableId(7), kind, outcome);
    assert_eq!(finish(WriteKind::Merge, WriteOutcome::Written(Some(4))).unwrap(), 4);
    assert_eq!(finish(WriteKind::Append, WriteOutcome::Written(None)).unwrap(), 0);
    assert_eq!(finish(WriteKind::Delete, WriteOutcome::Written(None)).unwrap(), 0);
    let error = finish(WriteKind::Merge, WriteOutcome::Written(None)).unwrap_err();
    assert_eq!(error.kind, ErrorKind::DestinationError);
    assert_eq!(error.description, "Failed to get version from Delta table");
    assert_eq!(error.detail.unwrap(), "Error getting version from table for table_id 7");

    let cases = vec![
        (
            WriteKind::Append,
            "Failed to write to Delta table",
            "Error writing to table for table_id 7: why",
        ),
        (
            WriteKind::Delete,
            "Failed to delete rows from Delta table",
            "Error deleting from table for table_id 7: why",
        ),
        (
            WriteKind::Merge,
            "Failed to append rows to Delta table",
            "Error appending to table for table_id 7: why",
        ),
    ];
    for (kind, description, detail) in cases {
        let error = finish(kind, WriteOutcome::Failed("why".to_string())).unwrap_err();
        assert_eq!(error.kind, ErrorKind::DestinationError);
        assert_eq!(error.description, description);
        assert_eq!(error.detail.unwrap(), detail);
    }
}

fn aliased(alias: &str, name: &str) -> Expr {
    Expr::Column(Column { relation: Some(vec![alias.to_string()]), name: name.to_string() })
}

#[test]
fn merges_match_rows_by_the_primary_key() {
    let config = DeltaTableConfig::default();
    let rows = vec![row(1, "a")];
    let plan = merge_to_table(&config, &table_schema(), &rows, Some(id_is(9))).unwrap();
    assert_eq!(
        plan.predicate,
        Expr::BinaryExpr {
            left: Box::new(aliased("source", "id")),
            op: Operator::Eq,
            right: Box::new(aliased("target", "id")),
        }
    );
    let assignments = vec![
        ("id".to_string(), aliased("source", "id")),
        ("Name".to_string(), aliased("source", "Name")),
    ];
    assert_eq!(plan.inserts, assignments);
    assert_eq!(plan.updates, assignments);
    assert_eq!(plan.delete_predicate, Some(id_is(9)));
    assert_eq!(plan.properties, WriterProperties::from(&config));
    assert_eq!(plan.batch.num_rows(), 1);
    assert_eq!(plan.batch.num_columns(), 2);
}

#[test]
fn merges_that_cannot_be_are_told() {
    let config = DeltaTableConfig::default();
    let rows = vec![row(1, "a")];
    let mut schema = table_schema();
    schema.column_schemas[0].primary = false;
    assert!(matches!(
        merge_to_table(&config, &schema, &rows, None),
        Err(MergeError::NoPrimaryKey("Failed to qualify primary keys"))
    ));
    let wrong = vec![TableRow::new(vec![Cell::Null, Cell::Null])];
    assert!(matches!(
        merge_to_table(&config, &table_schema(), &wrong, None),
        Err(MergeError::Batch(_))
    ));
    let mut schema = table_schema();
    schema.column_schemas[1].name = "id".to_string();
    assert!(matches!(
        merge_to_table(&config, &schema, &rows, None),
        Err(MergeError::Schema(name)) if name == "id"
    ));
    let short = vec![TableRow::new(vec![Cell::I64(1)])];
    assert!(try_merge_to_table(&config, &table_schema(), &short, None).is_none());
    assert!(try_merge_to_table(&config, &table_schema(), &rows, None).unwrap().is_ok());
}

#[test]
fn numeric_columns_have_their_digits() {
    // The modifier of numeric(10, 2).
    let modifier = (10 << 16) + 2 + 4;
    assert_eq!(extract_numeric_precision(modifier), 10);
    assert_eq!(extract_numeric_scale(modifier), 2);
    assert_eq!(extract_numeric_precision(-1), 38);
    assert_eq!(extract_numeric_scale(-1), 18);
    let KernelType::Primitive(PrimitiveType::Decimal(decimal)) =
        postgres_scalar_type_to_delta_type(&PgType::Numeric, modifier)
    else {
        panic!("not a decimal");
    };
    assert_eq!(decimal.precision(), 10);
    assert_eq!(decimal.scale(), 2);
}

#[test]
fn columns_keep_their_place_and_name() {
    let arrow = postgres_to_arrow_schema(&table_schema()).unwrap();
    assert_eq!(arrow.fields.len(), 2);
    assert_eq!(arrow.fields[0].name, "id");
    assert_eq!(arrow.fields[0].data_type, DataType::Int64);
    assert!(!arrow.fields[0].nullable);
    assert_eq!(arrow.fields[1].name, "Name");
    assert_eq!(arrow.fields[1].data_type, DataType::Utf8);
    let mut schema = table_schema();
    schema.column_schemas[1].name = "id".to_string();
    assert_eq!(postgres_to_arrow_schema(&schema).unwrap_err(), "id");
    assert_eq!(postgres_to_delta_schema(&schema).unwrap_err(), "id");
}

#[test]
fn integers_of_both_sizes_share_a_column() {
    let mut schema = table_schema();
    schema.column_schemas[0].typ = PgType::Int2;
    let rows = vec![TableRow::new(vec![Cell::I16(-4), Cell::Null])];
    let batch = encode_table_rows(&schema, &rows).unwrap();
    let ids = make_array(batch.column(0).clone());
    assert_eq!(ids.as_any().downcast_ref::<Int32Array>().unwrap().value(0), -4);
}
