use std::collections::HashMap;

use etl_destinations::delta::destination::{
    DeltaDestinationConfig, DeltaLakeDestination, encode_rows,
    execute_delete_append_transaction, process_table_events, try_encode_rows, write_table_rows,
};
use etl_destinations::delta::steps::{CreateStep, TableStep};
use etl_destinations::delta::{DeltaLakeClient, TableRowEncoder};
use etl_destinations::deltalake::config::CommitCount;
use etl_destinations::error::ErrorKind;
use etl_destinations::types::{
    Cell, ColumnSchema, DeleteEvent, Event, InsertEvent, PgLsn, PgType, TableId, TableName,
    TableRow, TableSchema, TruncateEvent, UpdateEvent,
};

fn table_schema() -> TableSchema {
    TableSchema::new(
        TableId(3),
        TableName::new("public".to_string(), "users".to_string()),
        vec![
            ColumnSchema::new("id".to_string(), PgType::Int4, -1, false, true),
            ColumnSchema::new("name".to_string(), PgType::Text, -1, true, false),
        ],
    )
}

fn row(id: i32, name: &str) -> TableRow {
    TableRow::new(vec![Cell::I32(id), Cell::String(name.to_string())])
}

fn insert(row: TableRow) -> Event {
    Event::Insert(InsertEvent {
        start_lsn: PgLsn(1),
        commit_lsn: PgLsn(1),
        table_id: TableId(3),
        table_row: row,
    })
}

fn update(row: TableRow) -> Event {
    Event::Update(UpdateEvent {
        start_lsn: PgLsn(1),
        commit_lsn: PgLsn(1),
        table_id: TableId(3),
        table_row: row,
        old_table_row: None,
    })
}

fn delete(row: Option<TableRow>) -> Event {
    Event::Delete(DeleteEvent {
        start_lsn: PgLsn(1),
        commit_lsn: PgLsn(1),
        table_id: TableId(3),
        old_table_row: row.map(|row| (true, row)),
    })
}

fn truncate() -> Event {
    Event::Truncate(TruncateEvent {
        start_lsn: PgLsn(1),
        commit_lsn: PgLsn(1),
        options: 0,
        rel_ids: vec![3],
    })
}

fn at(commit: u64, start: u64, event: Event) -> Event {
    let (commit_lsn, start_lsn) = (PgLsn(commit), PgLsn(start));
    match event {
        Event::Insert(e) => Event::Insert(InsertEvent { commit_lsn, start_lsn, ..e }),
        Event::Update(e) => Event::Update(UpdateEvent { commit_lsn, start_lsn, ..e }),
        Event::Delete(e) => Event::Delete(DeleteEvent { commit_lsn, start_lsn, ..e }),
        other => other,
    }
}

#[test]
fn default_configuration() {
    let config = DeltaDestinationConfig::default();
    assert_eq!(config.base_uri, "file:///tmp/delta");
    assert!(config.storage_options.is_none());
    assert!(config.partition_columns.is_none());
    assert!(config.optimize_after_commits.is_none());
}

#[test]
fn last_change_of_a_row_is_kept() {
    let client = DeltaLakeClient::default();
    let events = vec![
        insert(row(1, "a")),
        insert(row(2, "b")),
        update(row(1, "c")),
        delete(Some(row(2, "b"))),
        insert(row(3, "d")),
        delete(None),
        delete(Some(row(4, "e"))),
        delete(Some(row(4, "e"))),
    ];
    let plan = process_table_events(&client, &table_schema(), &events).unwrap();
    assert!(!plan.truncated);
    let keys: Vec<&str> = plan.upserts.iter().map(|(key, _)| key.as_str()).collect();
    assert_eq!(keys, vec!["1", "3"]);
    assert_eq!(plan.deletes.keys(), &vec!["2".to_string(), "4".to_string()]);
    let transaction = execute_delete_append_transaction(&client, &table_schema(), plan);
    assert_eq!(transaction.delete_predicate.unwrap(), "`id` IN ('2', '4', '1', '3')");
    assert_eq!(transaction.rows, vec![&row(1, "c"), &row(3, "d")]);
}

#[test]
fn rows_written_after_their_deletion_are_written() {
    let client = DeltaLakeClient::default();
    let events = vec![insert(row(1, "a")), delete(Some(row(1, "a"))), insert(row(1, "b"))];
    let plan = process_table_events(&client, &table_schema(), &events).unwrap();
    assert_eq!(plan.deletes.keys(), &vec!["1".to_string()]);
    let transaction = execute_delete_append_transaction(&client, &table_schema(), plan);
    assert_eq!(transaction.delete_predicate.unwrap(), "`id` IN ('1')");
    assert_eq!(transaction.rows, vec![&row(1, "b")]);
}

#[test]
fn the_latest_change_is_kept_whenever_it_comes() {
    let client = DeltaLakeClient::default();
    let events = vec![
        at(5, 2, insert(row(1, "late"))),
        at(5, 1, update(row(1, "early"))),
        at(4, 9, delete(Some(row(1, "early")))),
        at(7, 0, delete(Some(row(2, "gone")))),
        at(6, 9, insert(row(2, "back"))),
        at(8, 8, insert(row(3, "first"))),
        at(8, 8, update(row(3, "second"))),
    ];
    let plan = process_table_events(&client, &table_schema(), &events).unwrap();
    let rows: Vec<&TableRow> = plan.upserts.iter().map(|(_, row)| *row).collect();
    assert_eq!(rows, vec![&row(1, "late"), &row(3, "second")]);
    assert_eq!(plan.deletes.keys(), &vec!["2".to_string()]);
}

#[test]
fn only_what_follows_a_truncation_counts() {
    let client = DeltaLakeClient::default();
    let events = vec![
        insert(row(1, "a")),
        delete(Some(row(2, "b"))),
        truncate(),
        insert(row(3, "c")),
        delete(Some(row(4, "d"))),
    ];
    let plan = process_table_events(&client, &table_schema(), &events).unwrap();
    assert!(plan.truncated);
    let keys: Vec<&str> = plan.upserts.iter().map(|(key, _)| key.as_str()).collect();
    assert_eq!(keys, vec!["3"]);
    assert_eq!(plan.deletes.keys(), &vec!["4".to_string()]);
    let transaction = execute_delete_append_transaction(&client, &table_schema(), plan);
    assert_eq!(transaction.delete_predicate.unwrap(), "true");
    assert_eq!(transaction.rows, vec![&row(3, "c")]);

    let events = vec![insert(row(1, "a")), truncate()];
    let plan = process_table_events(&client, &table_schema(), &events).unwrap();
    assert!(plan.truncated && plan.upserts.is_empty() && plan.deletes.is_empty());
}

#[test]
fn no_events_change_nothing() {
    let client = DeltaLakeClient::default();
    let plan = process_table_events(&client, &table_schema(), &[]).unwrap();
    assert!(!plan.truncated);
    let transaction = execute_delete_append_transaction(&client, &table_schema(), plan);
    assert!(transaction.delete_predicate.is_none());
    assert!(transaction.rows.is_empty());
}

#[test]
fn nothing_is_added_for_no_rows() {
    assert!(write_table_rows(Vec::<TableRow>::new()).is_none());
    assert_eq!(write_table_rows(vec![row(1, "a")]), Some(vec![row(1, "a")]));
}

#[test]
fn rows_without_a_primary_key_are_an_error() {
    let client = DeltaLakeClient::default();
    let events = vec![insert(TableRow::new(vec![])), truncate()];
    let error = process_table_events(&client, &table_schema(), &events).err().unwrap();
    assert_eq!(error.kind, ErrorKind::ConversionError);
    assert_eq!(error.description, "Failed to extract primary key");
    assert_eq!(
        error.detail.unwrap(),
        "Primary key column index 0 out of bounds for row with 0 columns"
    );
}

#[test]
fn tables_are_found_by_their_paths() {
    let mut destination: DeltaLakeDestination<&str, u32> =
        DeltaLakeDestination::new("store", DeltaDestinationConfig::default());
    assert_eq!(*destination.store(), "store");
    assert!(destination.client().storage_options().is_none());
    let path = destination.get_table_path(TableId(3), Some(&table_schema())).unwrap();
    assert_eq!(path, "file:///tmp/delta/users");
    let error = destination.get_table_path(TableId(3), None).unwrap_err();
    assert_eq!(error.kind, ErrorKind::MissingTableSchema);
    assert_eq!(error.description, "Table schema not found");
    assert_eq!(error.detail.unwrap(), "Schema for table 3 not found in store");

    assert!(destination.cached_table(&path).is_none());
    let error =
        destination.ensure_table_exists(path.clone(), Err("why".to_string())).unwrap_err();
    assert_eq!(error.kind, ErrorKind::DestinationError);
    assert_eq!(error.description, "Failed to create Delta table");
    assert_eq!(error.detail.unwrap(), "Error creating table at file:///tmp/delta/users: why");
    assert!(destination.cached_table(&path).is_none());
    destination.ensure_table_exists(path.clone(), Ok(1)).unwrap();
    assert_eq!(destination.cached_table(&path), Some(&1));

    let error = destination
        .finish_append(TableId(3), path.clone(), Err("why".to_string()))
        .unwrap_err();
    assert_eq!(error.kind, ErrorKind::DestinationError);
    assert_eq!(error.description, "Failed to write to Delta table");
    assert_eq!(error.detail.unwrap(), "Error writing to table for table_id 3: why");
    assert_eq!(destination.cached_table(&path), Some(&1));
    destination.finish_append(TableId(3), path.clone(), Ok(2)).unwrap();
    assert_eq!(destination.cached_table(&path), Some(&2));
}

#[test]
fn tables_are_optimized_after_so_many_commits() {
    let config = DeltaDestinationConfig {
        optimize_after_commits: CommitCount::new(3),
        ..Default::default()
    };
    let mut destination: DeltaLakeDestination<(), ()> = DeltaLakeDestination::new((), config);
    let mut due = |path: &str| destination.count_commit(path.to_string());
    let dues: Vec<bool> = (0..7).map(|_| due("a")).collect();
    assert_eq!(dues, vec![false, false, true, false, false, true, false]);
    assert!(!due("b"));

    let config = DeltaDestinationConfig {
        optimize_after_commits: CommitCount::new(1),
        ..Default::default()
    };
    let mut destination: DeltaLakeDestination<(), ()> = DeltaLakeDestination::new((), config);
    assert!(destination.count_commit("a".to_string()));
    let mut destination: DeltaLakeDestination<(), ()> =
        DeltaLakeDestination::new((), DeltaDestinationConfig::default());
    assert!(!destination.count_commit("a".to_string()));
}

#[test]
fn rows_that_do_not_encode_are_an_error() {
    let batches = encode_rows(&table_schema(), vec![&row(1, "a"), &row(2, "b")]).unwrap();
    assert_eq!(batches.len(), 1);
    assert_eq!(batches[0].num_rows(), 2);
    let wrong = TableRow::new(vec![Cell::Null, Cell::Null]);
    let error = encode_rows(&table_schema(), vec![wrong]).err().unwrap();
    assert_eq!(error.kind, ErrorKind::ConversionError);
    assert_eq!(error.description, "Failed to encode table rows");
    assert!(error.detail.unwrap().starts_with("Error converting to Arrow: "));
    assert!(try_encode_rows(&table_schema(), vec![TableRow::new(vec![])]).is_none());
    let batches = try_encode_rows(&table_schema(), vec![row(1, "a")]).unwrap().unwrap();
    assert_eq!(batches.len(), 1);
}

#[test]
fn transactions_delete_and_append_at_once() {
    let client = DeltaLakeClient::default();
    let batches = || TableRowEncoder::encode_table_rows(&table_schema(), vec![row(1, "a")]).unwrap();
    let step = client.delete_and_append_transaction(Some("id = 1"), batches(), Some("write-1"));
    let Some(TableStep::DeleteAndAppend(predicate, added)) = step else {
        panic!("not one operation");
    };
    assert_eq!(predicate, "id = 1");
    assert_eq!(added.len(), 1);
    let step = client.delete_and_append_transaction(None, batches(), None);
    assert!(matches!(step, Some(TableStep::Append(added)) if added.len() == 1));
    let step = client.delete_and_append_transaction(Some("id = 1"), vec![], None);
    assert!(matches!(step, Some(TableStep::Delete(predicate)) if predicate == "id = 1"));
    assert!(client.delete_and_append_transaction(None, vec![], None).is_none());
    assert!(client.append_to_table(vec![]).is_none());
    assert!(matches!(client.append_to_table(batches()), Some(TableStep::Append(_))));
    assert!(matches!(client.truncate_table(), TableStep::Delete(predicate) if predicate == "true"));
}

#[test]
fn clients_have_the_options_of_the_destination() {
    let options = HashMap::from([("region".to_string(), "here".to_string())]);
    let config = DeltaDestinationConfig {
        storage_options: Some(options.clone()),
        ..Default::default()
    };
    let destination: DeltaLakeDestination<(), ()> = DeltaLakeDestination::new((), config);
    assert_eq!(destination.client().storage_options(), &Some(options));
}

#[test]
fn tables_that_cannot_be_opened_are_created() {
    let client = DeltaLakeClient::default();
    assert!(matches!(client.create_table_if_missing(true, &table_schema()), CreateStep::Use));
    let CreateStep::Create(columns) = client.create_table_if_missing(false, &table_schema()) else {
        panic!("not created");
    };
    let names: Vec<&str> = columns.iter().map(|column| column.name.as_str()).collect();
    assert_eq!(names, vec!["id", "name"]);
}
