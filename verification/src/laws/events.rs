//! Of the changes to a row the latest one in the log counts.

use vstd::prelude::*;

use crate::deltalake::events;
use crate::deltalake::events::{
    Entry, Operation, change_key, changes, deleted_keys, event_change, keeps,
    materialize_events, registry, rows_of, upserted_rows,
};
use crate::deltalake::expr;
use crate::deltalake::expr::{Expr, ExprView, expr_views, row_predicate};
use crate::error::EtlError;
use crate::types::{Event, TableRow, TableSchema};

verus! {

/// The row that an event writes.
pub open spec fn written_row(event: Event, append_only: bool) -> Option<TableRow> {
    match event {
        Event::Insert(e) => Some(e.table_row),
        Event::Update(e) => if append_only {
            None
        } else {
            Some(e.table_row)
        },
        _ => None,
    }
}

/// The row that an event removes.
pub open spec fn removed_row(event: Event, append_only: bool) -> Option<TableRow> {
    match event {
        Event::Delete(e) => match e.old_table_row {
            Some((_, row)) => if append_only {
                None
            } else {
                Some(row)
            },
            None => None,
        },
        _ => None,
    }
}

/// Where the transaction of an event that changes a row commits.
pub open spec fn commit_of(event: Event) -> int {
    match event {
        Event::Insert(e) => e.commit_lsn.0 as int,
        Event::Update(e) => e.commit_lsn.0 as int,
        Event::Delete(e) => e.commit_lsn.0 as int,
        _ => -1,
    }
}

/// Where an event that changes a row stands.
pub open spec fn start_of(event: Event) -> int {
    match event {
        Event::Insert(e) => e.start_lsn.0 as int,
        Event::Update(e) => e.start_lsn.0 as int,
        Event::Delete(e) => e.start_lsn.0 as int,
        _ => -1,
    }
}

/// Whether one event stands before another in the log.
pub open spec fn stands_before(left: Event, right: Event) -> bool {
    commit_of(left) < commit_of(right) || (commit_of(left) == commit_of(right) && start_of(left)
        < start_of(right))
}

/// Whether an event writes or removes a row.
pub open spec fn touches(event: Event, append_only: bool, row: TableRow) -> bool {
    written_row(event, append_only) == Some(row) || removed_row(event, append_only) == Some(row)
}

/// Whether two rows have the same values in all columns of the primary key.
pub open spec fn same_key(table_schema: TableSchema, left: TableRow, right: TableRow) -> bool {
    let columns = table_schema.column_schemas@;
    forall|i: int|
        0 <= i < columns.len() && (#[trigger] columns[i]).primary ==> expr::cell_value(
            columns[i],
            left.values@[i],
        ) == expr::cell_value(columns[i], right.values@[i])
}

/// Whether of the events that touch a row with the key of some row none stands behind an event.
/// Of events at the same place the first one counts.
pub open spec fn is_latest(
    table_schema: TableSchema,
    events: Seq<Event>,
    append_only: bool,
    at: int,
    row: TableRow,
) -> bool {
    &&& 0 <= at < events.len()
    &&& touches(events[at], append_only, row)
    &&& forall|i: int, other: TableRow|
        #![trigger touches(events[i], append_only, other)]
        0 <= i < events.len() && touches(events[i], append_only, other) && same_key(
            table_schema,
            row,
            other,
        ) ==> i == at || stands_before(events[i], events[at]) || (!stands_before(
            events[at],
            events[i],
        ) && at < i)
}

pub(crate) proof fn changes_are_of_events(events: Seq<Event>, append_only: bool, i: int)
    requires
        0 <= i < events.len(),
        event_change(events[i], append_only) is Some,
    ensures
        changes(events.take(i), append_only).len() < changes(events, append_only).len(),
        changes(events, append_only)[changes(events.take(i), append_only).len() as int]
            == event_change(events[i], append_only)->0,
    decreases events.len(),
{
    let before = events.drop_last();
    if i == events.len() - 1 {
        assert(events.take(i) =~= before);
    } else {
        changes_are_of_events(before, append_only, i);
        assert(before.take(i) =~= events.take(i));
        let k = changes(events.take(i), append_only).len() as int;
        assert(changes(events, append_only)[k] == changes(before, append_only)[k]);
    }
}

pub(crate) proof fn events_make_changes(events: Seq<Event>, append_only: bool, k: int) -> (i: int)
    requires
        0 <= k < changes(events, append_only).len(),
    ensures
        0 <= i < events.len(),
        event_change(events[i], append_only) == Some(changes(events, append_only)[k]),
        changes(events.take(i), append_only).len() == k,
    decreases events.len(),
{
    let before = events.drop_last();
    let last = events.len() - 1;
    if k < changes(before, append_only).len() {
        let i = events_make_changes(before, append_only, k);
        assert(before.take(i) =~= events.take(i));
        i
    } else {
        assert(events.take(last) =~= before);
        last
    }
}

proof fn changes_keep_the_order(events: Seq<Event>, append_only: bool, i: int, j: int)
    requires
        0 <= i <= j <= events.len(),
    ensures
        changes(events.take(i), append_only).len() <= changes(events.take(j), append_only).len(),
        i < j && event_change(events[i], append_only) is Some ==> changes(
            events.take(i),
            append_only,
        ).len() < changes(events.take(j), append_only).len(),
    decreases j - i,
{
    if i < j {
        changes_keep_the_order(events, append_only, i, j - 1);
        assert(events.take(j).drop_last() =~= events.take(j - 1));
        assert(events.take(j).last() == events[j - 1]);
    }
}

proof fn entries_are_all_there(entries: Seq<Entry>, e: int)
    requires
        0 <= e < entries.len(),
    ensures
        match entries[e].op {
            Operation::Upsert(row) => upserted_rows(entries).contains(row),
            Operation::Delete => deleted_keys(entries).contains(entries[e].key),
        },
    decreases entries.len(),
{
    let before = entries.drop_last();
    let last = entries.len() - 1;
    if e < last {
        entries_are_all_there(before, e);
        assert(before[e] == entries[e]);
        match entries[e].op {
            Operation::Upsert(row) => {
                let k = upserted_rows(before).index_of(row);
                assert(upserted_rows(entries)[k] == row);
            },
            Operation::Delete => {
                let k = deleted_keys(before).index_of(entries[e].key);
                assert(deleted_keys(entries)[k] == entries[e].key);
            },
        }
    } else {
        match entries[e].op {
            Operation::Upsert(row) => {
                let k = upserted_rows(before).len() as int;
                assert(upserted_rows(entries)[k] == row);
            },
            Operation::Delete => {
                let k = deleted_keys(before).len() as int;
                assert(deleted_keys(entries)[k] == entries[e].key);
            },
        }
    }
}

proof fn keys_are_the_same(table_schema: TableSchema, left: TableRow, right: TableRow)
    requires
        expr::has_primary_key(table_schema.column_schemas@),
    ensures
        row_predicate(table_schema.column_schemas@, left) is Some,
        row_predicate(table_schema.column_schemas@, right) is Some,
        row_predicate(table_schema.column_schemas@, left) == row_predicate(
            table_schema.column_schemas@,
            right,
        ) <==> same_key(table_schema, left, right),
{
    let columns = table_schema.column_schemas@;
    expr::predicates_compare_keys(columns, left.values@, right.values@, columns.len());
    expr::predicate_needs_primary_key(columns, left.values@, columns.len());
    expr::predicate_needs_primary_key(columns, right.values@, columns.len());
}

/// The change of the latest event is the one that is kept of its row.
proof fn latest_is_kept(
    table_schema: TableSchema,
    events: Seq<Event>,
    append_only: bool,
    at: int,
    row: TableRow,
) -> (e: int)
    requires
        events::have_keys(table_schema, changes(events, append_only)),
        is_latest(table_schema, events, append_only, at, row),
    ensures
        expr::has_primary_key(table_schema.column_schemas@),
        0 <= e < registry(table_schema, changes(events, append_only)).len(),
        registry(table_schema, changes(events, append_only))[e].key == row_predicate(
            table_schema.column_schemas@,
            row,
        )->0,
        registry(table_schema, changes(events, append_only))[e].op == match written_row(
            events[at],
            append_only,
        ) {
            Some(written) => Operation::Upsert(written),
            None => Operation::Delete,
        },
{
    let all = changes(events, append_only);
    let entries = registry(table_schema, all);
    let k = changes(events.take(at), append_only).len() as int;
    changes_are_of_events(events, append_only, at);
    assert(all[k].row == row);
    assert(events::has_key(table_schema, all[k]));
    events::latest_change_wins(table_schema, all, k);
    let (e, w) = choose|e: int, w: int|
        {
            &&& 0 <= e < entries.len()
            &&& 0 <= w < all.len()
            &&& #[trigger] keeps(table_schema, entries[e], all[w])
            &&& change_key(table_schema, all[w]) == change_key(table_schema, all[k])
            &&& !events::is_before(all[w].marker, all[k].marker)
            &&& all[w].marker == all[k].marker ==> w <= k
        };
    let j = events_make_changes(events, append_only, w);
    let other = all[w].row;
    keys_are_the_same(table_schema, row, other);
    assert(touches(events[j], append_only, other));
    if at < j {
        changes_keep_the_order(events, append_only, at, j);
    } else if j < at {
        changes_keep_the_order(events, append_only, j, at);
    }
    assert(j == at);
    e
}

proof fn kept_rows_are_changed_rows(
    table_schema: TableSchema,
    events: Seq<Event>,
    append_only: bool,
    e: int,
) -> (i: int)
    requires
        0 <= e < registry(table_schema, changes(events, append_only)).len(),
    ensures
        0 <= i < events.len(),
        ({
            let entry = registry(table_schema, changes(events, append_only))[e];
            match entry.op {
                Operation::Upsert(row) => {
                    &&& written_row(events[i], append_only) == Some(row)
                    &&& entry.key == row_predicate(table_schema.column_schemas@, row)->0
                },
                Operation::Delete => {
                    &&& removed_row(events[i], append_only) is Some
                    &&& entry.key == row_predicate(
                        table_schema.column_schemas@,
                        removed_row(events[i], append_only)->0,
                    )->0
                },
            }
        }),
{
    let all = changes(events, append_only);
    events::kept_changes_were_made(table_schema, all, e);
    let w = choose|w: int|
        0 <= w < all.len() && keeps(
            table_schema,
            registry(table_schema, all)[e],
            #[trigger] all[w],
        );
    events_make_changes(events, append_only, w)
}

/// The row that the latest event for its key writes is among the rows to write, as the only one
/// with its key, and the key is not among the keys to delete.
pub proof fn latest_rows_are_written(
    events: &[Event],
    table_schema: TableSchema,
    append_only: bool,
    at: int,
    row: TableRow,
    delete_predicates: Vec<Expr>,
    upsert_rows: Vec<&TableRow>,
)
    requires
        call_ensures(
            materialize_events,
            (events, &table_schema, append_only),
            Ok::<_, EtlError>((delete_predicates, upsert_rows)),
        ),
        is_latest(table_schema, events@, append_only, at, row),
        written_row(events@[at], append_only) == Some(row),
    ensures
        exists|u: int| 0 <= u < upsert_rows@.len() && *(#[trigger] upsert_rows@[u]) == row,
        forall|u: int|
            0 <= u < upsert_rows@.len() && same_key(
                table_schema,
                row,
                *(#[trigger] upsert_rows@[u]),
            ) ==> *upsert_rows@[u] == row,
        forall|d: int|
            0 <= d < delete_predicates@.len() ==> Some((#[trigger] delete_predicates@[d])@)
                != row_predicate(table_schema.column_schemas@, row),
{
    let all = changes(events@, append_only);
    let entries = registry(table_schema, all);
    let e = latest_is_kept(table_schema, events@, append_only, at, row);
    events::each_row_is_kept_once(table_schema, all);
    events::entries_are_deleted_or_written(entries);
    entries_are_all_there(entries, e);
    keys_are_the_same(table_schema, row, row);
    let k = upserted_rows(entries).index_of(row);
    assert(rows_of(upsert_rows@)[k] == *upsert_rows@[k]);
    assert forall|u: int|
        0 <= u < upsert_rows@.len() && same_key(
            table_schema,
            row,
            *(#[trigger] upsert_rows@[u]),
        ) implies *upsert_rows@[u] == row by {
        let other = *upsert_rows@[u];
        assert(rows_of(upsert_rows@)[u] == other);
        let f = choose|f: int|
            0 <= f < entries.len() && (#[trigger] entries[f]).op == Operation::Upsert(
                upserted_rows(entries)[u],
            );
        kept_rows_are_changed_rows(table_schema, events@, append_only, f);
        keys_are_the_same(table_schema, row, other);
        assert(entries[e].key == entries[f].key);
        assert(e == f);
    }
    assert forall|d: int| 0 <= d < delete_predicates@.len() implies Some(
        (#[trigger] delete_predicates@[d])@,
    ) != row_predicate(table_schema.column_schemas@, row) by {
        assert(expr_views(delete_predicates@)[d] == delete_predicates@[d]@);
        let f = choose|f: int|
            0 <= f < entries.len() && (#[trigger] entries[f]).op is Delete && entries[f].key
                == deleted_keys(entries)[d];
        assert(f != e);
        if f < e {
            assert(entries[f].key != entries[e].key);
        } else {
            assert(entries[e].key != entries[f].key);
        }
    }
}

/// The key of the row that the latest event for it removes is among the keys to delete, and no row
/// with that key is among the rows to write.
pub proof fn latest_rows_are_removed(
    events: &[Event],
    table_schema: TableSchema,
    append_only: bool,
    at: int,
    row: TableRow,
    delete_predicates: Vec<Expr>,
    upsert_rows: Vec<&TableRow>,
)
    requires
        call_ensures(
            materialize_events,
            (events, &table_schema, append_only),
            Ok::<_, EtlError>((delete_predicates, upsert_rows)),
        ),
        is_latest(table_schema, events@, append_only, at, row),
        removed_row(events@[at], append_only) == Some(row),
    ensures
        exists|d: int|
            0 <= d < delete_predicates@.len() && Some((#[trigger] delete_predicates@[d])@)
                == row_predicate(table_schema.column_schemas@, row),
        forall|u: int|
            0 <= u < upsert_rows@.len() ==> !same_key(
                table_schema,
                row,
                *(#[trigger] upsert_rows@[u]),
            ),
{
    let all = changes(events@, append_only);
    let entries = registry(table_schema, all);
    let e = latest_is_kept(table_schema, events@, append_only, at, row);
    events::each_row_is_kept_once(table_schema, all);
    events::entries_are_deleted_or_written(entries);
    entries_are_all_there(entries, e);
    keys_are_the_same(table_schema, row, row);
    let k = deleted_keys(entries).index_of(entries[e].key);
    assert(expr_views(delete_predicates@)[k] == delete_predicates@[k]@);
    assert(Some(delete_predicates@[k]@) == row_predicate(table_schema.column_schemas@, row));
    assert forall|u: int| 0 <= u < upsert_rows@.len() implies !same_key(
        table_schema,
        row,
        *(#[trigger] upsert_rows@[u]),
    ) by {
        let other = *upsert_rows@[u];
        assert(rows_of(upsert_rows@)[u] == other);
        let f = choose|f: int|
            0 <= f < entries.len() && (#[trigger] entries[f]).op == Operation::Upsert(
                upserted_rows(entries)[u],
            );
        kept_rows_are_changed_rows(table_schema, events@, append_only, f);
        keys_are_the_same(table_schema, row, other);
        if f < e {
            assert(entries[f].key != entries[e].key);
        } else if e < f {
            assert(entries[e].key != entries[f].key);
        }
    }
}

/// Whether an event removes the row with a key.
pub open spec fn removes_key(
    table_schema: TableSchema,
    event: Event,
    append_only: bool,
    key: ExprView,
) -> bool {
    match removed_row(event, append_only) {
        Some(row) => row_predicate(table_schema.column_schemas@, row)->0 == key,
        None => false,
    }
}

/// Whether one of some events removes the row with a key.
pub open spec fn is_removed_key(
    table_schema: TableSchema,
    events: Seq<Event>,
    append_only: bool,
    key: ExprView,
) -> bool {
    exists|i: int|
        0 <= i < events.len() && #[trigger] removes_key(table_schema, events[i], append_only, key)
}

/// Every row to write is one that an event writes, and every key to delete is that of a row that an
/// event removes.
pub proof fn nothing_else_is_written_or_removed(
    events: &[Event],
    table_schema: TableSchema,
    append_only: bool,
    delete_predicates: Vec<Expr>,
    upsert_rows: Vec<&TableRow>,
)
    requires
        call_ensures(
            materialize_events,
            (events, &table_schema, append_only),
            Ok::<_, EtlError>((delete_predicates, upsert_rows)),
        ),
    ensures
        forall|u: int|
            0 <= u < upsert_rows@.len() ==> exists|i: int|
                0 <= i < events@.len() && written_row(#[trigger] events@[i], append_only) == Some(
                    *(#[trigger] upsert_rows@[u]),
                ),
        forall|d: int|
            0 <= d < delete_predicates@.len() ==> is_removed_key(
                table_schema,
                events@,
                append_only,
                (#[trigger] delete_predicates@[d])@,
            ),
        append_only ==> delete_predicates@.len() == 0,
{
    let all = changes(events@, append_only);
    let entries = registry(table_schema, all);
    events::entries_are_deleted_or_written(entries);
    assert forall|u: int| 0 <= u < upsert_rows@.len() implies exists|i: int|
        0 <= i < events@.len() && written_row(#[trigger] events@[i], append_only) == Some(
            *(#[trigger] upsert_rows@[u]),
        ) by {
        assert(rows_of(upsert_rows@)[u] == *upsert_rows@[u]);
        let f = choose|f: int|
            0 <= f < entries.len() && (#[trigger] entries[f]).op == Operation::Upsert(
                upserted_rows(entries)[u],
            );
        let i = kept_rows_are_changed_rows(table_schema, events@, append_only, f);
        assert(written_row(events@[i], append_only) == Some(*upsert_rows@[u]));
    }
    assert forall|d: int| 0 <= d < delete_predicates@.len() implies is_removed_key(
        table_schema,
        events@,
        append_only,
        (#[trigger] delete_predicates@[d])@,
    ) by {
        assert(expr_views(delete_predicates@)[d] == delete_predicates@[d]@);
        let f = choose|f: int|
            0 <= f < entries.len() && (#[trigger] entries[f]).op is Delete && entries[f].key
                == deleted_keys(entries)[d];
        let i = kept_rows_are_changed_rows(table_schema, events@, append_only, f);
        assert(removes_key(table_schema, events@[i], append_only, delete_predicates@[d]@));
    }
    if append_only && delete_predicates@.len() > 0 {
        let key = delete_predicates@[0]@;
        assert(is_removed_key(table_schema, events@, append_only, key));
        let i = choose|i: int|
            0 <= i < events@.len() && #[trigger] removes_key(
                table_schema,
                events@[i],
                append_only,
                key,
            );
        assert(removed_row(events@[i], append_only) is None);
    }
}

} // verus!
