use etl_destinations::types::grouping::group_events_by_table;
use etl_destinations::types::{
    BeginEvent, Cell, Event, InsertEvent, PgLsn, RelationEvent, TableId, TableName, TableRow,
    TableSchema, TruncateEvent,
};

fn insert(table: u32, value: i32) -> Event {
    Event::Insert(InsertEvent {
        start_lsn: PgLsn(1),
        commit_lsn: PgLsn(2),
        table_id: TableId(table),
        table_row: TableRow::new(vec![Cell::I32(value)]),
    })
}

fn truncate(tables: Vec<u32>) -> Event {
    Event::Truncate(TruncateEvent {
        start_lsn: PgLsn(1),
        commit_lsn: PgLsn(2),
        options: 0,
        rel_ids: tables,
    })
}

fn relation(table: u32) -> Event {
    Event::Relation(RelationEvent {
        start_lsn: PgLsn(1),
        commit_lsn: PgLsn(2),
        table_schema: TableSchema::new(
            TableId(table),
            TableName::new("public".to_string(), "t".to_string()),
            vec![],
        ),
    })
}

fn events() -> Vec<Event> {
    vec![
        Event::Begin(BeginEvent { start_lsn: PgLsn(1), commit_lsn: PgLsn(2) }),
        insert(2, 1),
        insert(1, 2),
        truncate(vec![1, 2, 3]),
        relation(4),
        insert(2, 3),
        Event::Unsupported,
    ]
}

#[test]
fn events_are_grouped_by_table_in_order() {
    let all = vec![1, 2, 3];
    assert_eq!(
        group_events_by_table(events(), true),
        vec![
            (TableId(2), vec![insert(2, 1), truncate(all.clone()), insert(2, 3)]),
            (TableId(1), vec![insert(1, 2), truncate(all.clone())]),
            (TableId(3), vec![truncate(all)]),
            (TableId(4), vec![relation(4)]),
        ]
    );
}

#[test]
fn changes_of_shape_count_where_asked_for() {
    let groups = group_events_by_table(events(), false);
    let tables: Vec<TableId> = groups.iter().map(|(table, _)| *table).collect();
    assert_eq!(tables, vec![TableId(2), TableId(1), TableId(3)]);
    assert!(group_events_by_table(vec![], true).is_empty());
    assert!(group_events_by_table(vec![relation(1)], false).is_empty());
}

#[test]
fn tables_that_are_named_twice_are_truncated_twice() {
    let event = truncate(vec![5, 5]);
    assert_eq!(
        group_events_by_table(vec![event.clone()], true),
        vec![(TableId(5), vec![event.clone(), event])]
    );
}
