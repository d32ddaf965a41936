use datafusion_common::ScalarValue;
use etl_destinations::deltalake::events::{
    materialize_events, materialize_events_append_only, try_materialize_events,
    try_materialize_events_append_only,
};
use etl_destinations::deltalake::expr::{Column, Expr, Operator};
use etl_destinations::error::ErrorKind;
use etl_destinations::types::{
    ArrayCell, Cell, ColumnSchema, DeleteEvent, Event, InsertEvent, PgLsn, PgType, TableId,
    TableName, TableRow, TableSchema, TruncateEvent, UpdateEvent,
};

fn schema_single_pk(table_id: TableId) -> TableSchema {
    TableSchema::new(
        table_id,
        TableName::new("public".to_string(), "t".to_string()),
        vec![
            ColumnSchema {
                name: "id".to_string(),
                typ: PgType::Int8,
                modifier: -1,
                primary: true,
                nullable: false,
            },
            ColumnSchema {
                name: "name".to_string(),
                typ: PgType::Text,
                modifier: -1,
                primary: false,
                nullable: true,
            },
        ],
    )
}

fn row(id: i64, name: &str) -> TableRow {
    TableRow { values: vec![Cell::I64(id), Cell::String(name.to_string())] }
}

fn schema_composite_pk(table_id: TableId) -> TableSchema {
    TableSchema::new(
        table_id,
        TableName::new("public".to_string(), "t".to_string()),
        vec![
            ColumnSchema {
                name: "tenant_id".to_string(),
                typ: PgType::Int4,
                modifier: -1,
                primary: true,
                nullable: false,
            },
            ColumnSchema {
                name: "user_id".to_string(),
                typ: PgType::Int8,
                modifier: -1,
                primary: true,
                nullable: false,
            },
            ColumnSchema {
                name: "name".to_string(),
                typ: PgType::Text,
                modifier: -1,
                primary: false,
                nullable: true,
            },
        ],
    )
}

fn row_composite(tenant: i32, user: i64, name: &str) -> TableRow {
    TableRow {
        values: vec![Cell::I32(tenant), Cell::I64(user), Cell::String(name.to_string())],
    }
}

fn insert(start: u64, commit: u64, table_id: TableId, table_row: TableRow) -> Event {
    Event::Insert(InsertEvent {
        start_lsn: PgLsn(start),
        commit_lsn: PgLsn(commit),
        table_id,
        table_row,
    })
}

fn update(start: u64, commit: u64, table_id: TableId, table_row: TableRow, old: TableRow) -> Event {
    Event::Update(UpdateEvent {
        start_lsn: PgLsn(start),
        commit_lsn: PgLsn(commit),
        table_id,
        table_row,
        old_table_row: Some((false, old)),
    })
}

fn delete(start: u64, commit: u64, table_id: TableId, old: Option<TableRow>) -> Event {
    Event::Delete(DeleteEvent {
        start_lsn: PgLsn(start),
        commit_lsn: PgLsn(commit),
        table_id,
        old_table_row: old.map(|row| (false, row)),
    })
}

fn id_is(id: i64) -> Expr {
    Expr::BinaryExpr {
        left: Box::new(Expr::Column(Column { relation: None, name: "id".to_string() })),
        op: Operator::Eq,
        right: Box::new(Expr::Literal(ScalarValue::Int64(Some(id)))),
    }
}

#[test]
fn lww_reg_uses_commit_then_start_lsn() {
    let table_id = TableId(1);
    let schema = schema_single_pk(table_id);

    // Earlier commit/start pair
    let e1 = insert(10, 20, table_id, row(1, "a"));
    // Later commit wins
    let e2 = insert(11, 21, table_id, row(1, "b"));

    let events = vec![e1, e2];

    let (deletes, upserts) = materialize_events(&events, &schema, false).unwrap();
    assert!(deletes.is_empty());
    assert_eq!(upserts.len(), 1);
    assert_eq!(upserts[0].values[1], Cell::String("b".to_string()));
}

#[test]
fn delete_overrides_prior_upsert_for_same_pk() {
    let table_id = TableId(1);
    let schema = schema_single_pk(table_id);

    let ins = insert(1, 2, table_id, row(1, "a"));
    let del = delete(3, 4, table_id, Some(row(1, "a")));

    let events = vec![ins, del];

    let (deletes, upserts) = materialize_events(&events, &schema, false).unwrap();
    assert!(upserts.is_empty());
    assert_eq!(deletes.len(), 1);
    assert_eq!(deletes, vec![id_is(1)]);
}

#[test]
fn update_on_append_only_is_ignored() {
    let table_id = TableId(1);
    let schema = schema_single_pk(table_id);
    let ins = insert(1, 2, table_id, row(1, "a"));
    let upd = update(3, 4, table_id, row(1, "b"), row(1, "a"));

    let events = vec![ins, upd];

    // append_only = true, so update ignored, last write stays as insert
    let (_deletes, upserts) = materialize_events(&events, &schema, true).unwrap();
    assert_eq!(upserts.len(), 1);
    assert_eq!(upserts[0].values[1], Cell::String("a".to_string()));
}

#[test]
fn composite_pk_predicate_and_lww() {
    let table_id = TableId(42);
    let schema = schema_composite_pk(table_id);

    // Inserts for two different composite PKs
    let ins1 = insert(1, 2, table_id, row_composite(10, 100, "a"));
    let ins2 = insert(1, 2, table_id, row_composite(10, 101, "b"));

    // Update to the first composite key with later commit/start
    let upd1 =
        update(3, 4, table_id, row_composite(10, 100, "a2"), row_composite(10, 100, "a"));

    // Delete the second composite key with even later lsn
    let del2 = delete(5, 6, table_id, Some(row_composite(10, 101, "b")));

    let events = vec![ins1, ins2, upd1, del2];

    let (deletes, upserts) = materialize_events(&events, &schema, false).unwrap();

    // We expect one delete predicate (for tenant_id=10 AND user_id=101)
    // and one upsert (tenant_id=10 AND user_id=100 with name=a2)
    assert_eq!(deletes.len(), 1);
    assert_eq!(upserts.len(), 1);
    assert_eq!(upserts[0].values[2], Cell::String("a2".to_string()));
}

#[test]
fn order_of_events_does_not_matter() {
    let table_id = TableId(1);
    let schema = schema_single_pk(table_id);
    let events = vec![
        delete(5, 9, table_id, Some(row(1, "a"))),
        insert(4, 9, table_id, row(1, "b")),
        insert(9, 8, table_id, row(1, "c")),
        insert(1, 1, table_id, row(2, "d")),
    ];
    let (deletes, upserts) = materialize_events(&events, &schema, false).unwrap();
    assert_eq!(deletes, vec![id_is(1)]);
    assert_eq!(upserts, vec![&row(2, "d")]);
}

#[test]
fn first_of_two_changes_at_one_place_is_kept() {
    let table_id = TableId(1);
    let schema = schema_single_pk(table_id);
    let events = vec![insert(1, 2, table_id, row(1, "a")), insert(1, 2, table_id, row(1, "b"))];
    let (_, upserts) = materialize_events(&events, &schema, false).unwrap();
    assert_eq!(upserts, vec![&row(1, "a")]);
}

#[test]
fn deletions_on_append_only_are_ignored() {
    let table_id = TableId(1);
    let schema = schema_single_pk(table_id);
    let events = vec![
        insert(1, 2, table_id, row(1, "a")),
        delete(3, 4, table_id, Some(row(1, "a"))),
    ];
    let rows = materialize_events_append_only(&events, &schema).unwrap();
    assert_eq!(rows, vec![&row(1, "a")]);
    let rows = try_materialize_events_append_only(&events, &schema).unwrap().unwrap();
    assert_eq!(rows, vec![&row(1, "a")]);
}

#[test]
fn events_without_rows_change_nothing() {
    let table_id = TableId(1);
    let schema = schema_single_pk(table_id);
    let events = vec![
        delete(1, 1, table_id, None),
        Event::Truncate(TruncateEvent {
            start_lsn: PgLsn(1),
            commit_lsn: PgLsn(1),
            options: 0,
            rel_ids: vec![1],
        }),
        Event::Unsupported,
    ];
    let (deletes, upserts) = materialize_events(&events, &schema, false).unwrap();
    assert!(deletes.is_empty());
    assert!(upserts.is_empty());
}

#[test]
fn table_without_primary_key_is_an_error() {
    let table_id = TableId(1);
    let mut schema = schema_single_pk(table_id);
    schema.column_schemas[0].primary = false;
    let events = vec![insert(1, 2, table_id, row(1, "a"))];
    let error = materialize_events(&events, &schema, false).unwrap_err();
    assert_eq!(error.kind, ErrorKind::MissingTableSchema);
    assert_eq!(error.description, "Table has no primary key columns");
    assert_eq!(error.detail, Some("public.t".to_string()));
    assert!(materialize_events(&[], &schema, false).is_ok());
}

#[test]
fn missing_key_is_an_error() {
    let table_id = TableId(1);
    let schema = schema_single_pk(table_id);
    let events = vec![
        insert(1, 2, table_id, row(1, "a")),
        insert(1, 3, table_id, TableRow::new(vec![Cell::Null, Cell::Null])),
    ];
    let error = materialize_events(&events, &schema, false).unwrap_err();
    assert_eq!(error.kind, ErrorKind::ConversionError);
    assert_eq!(error.description, "Failed to convert row to Arrow array");
}

#[test]
fn rows_that_end_before_the_key_are_not_materialized() {
    let table_id = TableId(1);
    let schema = schema_composite_pk(table_id);
    let events = vec![insert(1, 2, table_id, TableRow::new(vec![Cell::I32(1)]))];
    assert!(try_materialize_events(&events, &schema, false).is_none());
    let events = vec![insert(1, 2, table_id, row_composite(1, 2, "a"))];
    let (deletes, upserts) = try_materialize_events(&events, &schema, false).unwrap().unwrap();
    assert!(deletes.is_empty());
    assert_eq!(upserts, vec![&row_composite(1, 2, "a")]);
}

#[test]
fn lists_are_keys_by_their_elements() {
    let table_id = TableId(1);
    let mut schema = schema_single_pk(table_id);
    schema.column_schemas[0].typ = PgType::Float8Array;
    let row = |elements: Vec<Option<f64>>, name: &str| {
        let bits = elements.into_iter().map(|element| element.map(f64::to_bits)).collect();
        TableRow::new(vec![
            Cell::Array(ArrayCell::F64(bits)),
            Cell::String(name.to_string()),
        ])
    };
    let events = vec![
        insert(1, 1, table_id, row(vec![Some(0.5), None], "a")),
        insert(1, 2, table_id, row(vec![Some(0.5), Some(1.0)], "b")),
        insert(1, 3, table_id, row(vec![Some(0.5), None], "c")),
    ];
    let (_, upserts) = materialize_events(&events, &schema, false).unwrap();
    let names: Vec<&Cell> = upserts.iter().map(|row| &row.values[1]).collect();
    assert_eq!(names, vec![&Cell::String("c".to_string()), &Cell::String("b".to_string())]);
}
