//! What the events of a table make of it, for the destination that writes encoded rows.

use vstd::prelude::*;

use crate::delta::DeltaLakeClient;
use crate::delta::changes;
use crate::delta::changes::{
    TableChange, change_to, counts, is_winner, position, position_is_first, table_change, with_row,
    without_row,
};
use crate::delta::client::primary_key;
use crate::delta::destination::{
    TablePlan, TableTransaction, execute_delete_append_transaction, keyed_rows,
    process_table_events, write_table_rows,
};
use crate::deltalake::events::event_change;
use crate::error::{EtlError, EtlResult};
use crate::laws::events::{removed_row, stands_before, touches, written_row};
use crate::types::{Event, Row, TableRow, TableSchema};

verus! {

/// Whether an event writes or removes a row with a key.
pub open spec fn touches_key(table_schema: TableSchema, event: Event, key: Seq<char>) -> bool {
    let written = written_row(event, false);
    let removed = removed_row(event, false);
    ||| written is Some && primary_key(written->0, table_schema) == Ok::<Seq<char>, Seq<char>>(key)
    ||| removed is Some && primary_key(removed->0, table_schema) == Ok::<Seq<char>, Seq<char>>(key)
}

/// Whether no event after this one is a truncation.
pub open spec fn is_after_truncations(events: Seq<Event>, at: int) -> bool {
    forall|i: int| at < i < events.len() ==> !(#[trigger] events[i] is Truncate)
}

/// Whether of the events since the last truncation that touch the row with a key none stands behind
/// an event. Of events at the same place the last one counts.
pub open spec fn is_latest(
    table_schema: TableSchema,
    events: Seq<Event>,
    at: int,
    key: Seq<char>,
) -> bool {
    &&& 0 <= at < events.len()
    &&& is_after_truncations(events, at)
    &&& touches_key(table_schema, events[at], key)
    &&& forall|i: int|
        0 <= i < events.len() && is_after_truncations(events, i) && #[trigger] touches_key(
            table_schema,
            events[i],
            key,
        ) ==> i == at || stands_before(events[i], events[at]) || (!stands_before(
            events[at],
            events[i],
        ) && i < at)
}

proof fn latest_wins(
    table_schema: TableSchema,
    events: Seq<Event>,
    at: int,
    key: Seq<char>,
)
    requires
        is_latest(table_schema, events, at, key),
    ensures
        is_winner(table_schema, key, events, at),
{
    assert(counts(events, at));
    assert forall|i: int|
        #![trigger counts(events, i)]
        0 <= i < events.len() && counts(events, i) implies (change_to(
        table_schema,
        key,
        events[i],
    ) matches Some(other) ==> {
        let latest = change_to(table_schema, key, events[at])->Some_0.marker;
        &&& !crate::deltalake::events::is_before(latest, other.marker)
        &&& other.marker == latest ==> i <= at
    }) by {
        if change_to(table_schema, key, events[i]) is Some {
            assert(is_after_truncations(events, i));
            assert(touches_key(table_schema, events[i], key));
        }
    }
}

/// What the latest event for a key says is done: the row that it writes is written, as the only one
/// with the key, and a row that it removes is removed and not written.
pub proof fn latest_events_are_done(
    client: DeltaLakeClient,
    table_schema: TableSchema,
    events: &[Event],
    plan: TablePlan<'_>,
    at: int,
    key: Seq<char>,
)
    requires
        call_ensures(
            process_table_events,
            (&client, &table_schema, events),
            Ok::<_, EtlError>(plan),
        ),
        is_latest(table_schema, events@, at, key),
    ensures
        written_row(events@[at], false) is Some ==> {
            &&& exists|u: int|
                0 <= u < plan.upserts@.len() && (#[trigger] plan.upserts@[u]).0@ == key
            &&& forall|u: int|
                0 <= u < plan.upserts@.len() && (#[trigger] plan.upserts@[u]).0@ == key
                    ==> *plan.upserts@[u].1 == written_row(events@[at], false)->0
        },
        removed_row(events@[at], false) is Some ==> {
            &&& plan.deletes@.contains(key)
            &&& forall|u: int|
                0 <= u < plan.upserts@.len() ==> (#[trigger] plan.upserts@[u]).0@ != key
        },
{
    latest_wins(table_schema, events@, at, key);
    changes::latest_change_wins(table_schema, key, events@, at);
    changes::each_key_counts_once(table_schema, events@);
    let rows = keyed_rows(plan.upserts@);
    assert(rows.len() == plan.upserts@.len());
    assert forall|u: int| 0 <= u < rows.len() implies #[trigger] rows[u] == (
        plan.upserts@[u].0@,
        *plan.upserts@[u].1,
    ) by {}
    if written_row(events@[at], false) is Some {
        let row = written_row(events@[at], false)->0;
        assert(rows.contains((key, row)));
        let k = rows.index_of((key, row));
        assert(plan.upserts@[k].0@ == key);
        assert forall|u: int|
            0 <= u < plan.upserts@.len() && (#[trigger] plan.upserts@[u]).0@
                == key implies *plan.upserts@[u].1 == row by {
            assert(rows[u].0 == rows[k].0);
            if u < k {
                assert(rows[u].0 != rows[k].0);
            } else if k < u {
                assert(rows[k].0 != rows[u].0);
            }
        }
    } else {
        assert forall|u: int| 0 <= u < plan.upserts@.len() implies (
        #[trigger] plan.upserts@[u]).0@ != key by {
            assert(rows[u].0 != key);
        }
    }
}

/// Whether an event since the last truncation writes a row.
pub open spec fn is_written(table_schema: TableSchema, events: Seq<Event>, row: TableRow) -> bool {
    exists|i: int|
        0 <= i < events.len() && #[trigger] is_after_truncations(events, i) && written_row(
            events[i],
            false,
        ) == Some(row)
}

/// Whether an event since the last truncation removes the row with a key.
pub open spec fn is_removed(
    table_schema: TableSchema,
    events: Seq<Event>,
    key: Seq<char>,
) -> bool {
    exists|i: int|
        0 <= i < events.len() && #[trigger] is_after_truncations(events, i) && removed_row(
            events[i],
            false,
        ) is Some && primary_key(removed_row(events[i], false)->0, table_schema) == Ok::<
            Seq<char>,
            Seq<char>,
        >(key)
}

proof fn rows_stay_written(table_schema: TableSchema, events: Seq<Event>)
    requires
        events.len() > 0,
        !(events.last() is Truncate),
    ensures
        forall|row: TableRow| #[trigger]
            is_written(table_schema, events.drop_last(), row) ==> is_written(
                table_schema,
                events,
                row,
            ),
        forall|key: Seq<char>| #[trigger]
            is_removed(table_schema, events.drop_last(), key) ==> is_removed(
                table_schema,
                events,
                key,
            ),
        is_after_truncations(events, events.len() - 1),
{
    let before = events.drop_last();
    assert forall|i: int| 0 <= i < before.len() && #[trigger] is_after_truncations(
        before,
        i,
    ) implies is_after_truncations(events, i) && events[i] == before[i] by {
        assert forall|k: int| i < k < events.len() implies !(#[trigger] events[k] is Truncate) by {
            if k < before.len() {
                assert(before[k] == events[k]);
            }
        }
    }
    assert forall|row: TableRow| #[trigger] is_written(
        table_schema,
        before,
        row,
    ) implies is_written(table_schema, events, row) by {
        let i = choose|i: int|
            0 <= i < before.len() && #[trigger] is_after_truncations(before, i) && written_row(
                before[i],
                false,
            ) == Some(row);
        assert(is_after_truncations(events, i));
    }
    assert forall|key: Seq<char>| #[trigger] is_removed(
        table_schema,
        before,
        key,
    ) implies is_removed(table_schema, events, key) by {
        let i = choose|i: int|
            0 <= i < before.len() && #[trigger] is_after_truncations(before, i) && removed_row(
                before[i],
                false,
            ) is Some && primary_key(removed_row(before[i], false)->0, table_schema) == Ok::<
                Seq<char>,
                Seq<char>,
            >(key);
        assert(is_after_truncations(events, i));
    }
}

proof fn kept_rows_were_written(table_schema: TableSchema, events: Seq<Event>)
    ensures
        table_change(table_schema, events) matches TableChange::Changed { upserts, deletes, .. }
            ==> {
            &&& forall|u: int|
                0 <= u < upserts.len() ==> {
                    &&& is_written(table_schema, events, (#[trigger] upserts[u]).1)
                    &&& primary_key(upserts[u].1, table_schema) == Ok::<Seq<char>, Seq<char>>(
                        upserts[u].0,
                    )
                }
            &&& forall|d: int|
                0 <= d < deletes.len() ==> is_removed(table_schema, events, #[trigger] deletes[d])
        },
    decreases events.len(),
{
    if events.len() > 0 && !(events.last() is Truncate) {
        let before = events.drop_last();
        let last = events.len() - 1;
        kept_rows_were_written(table_schema, before);
        rows_stay_written(table_schema, events);
        if let TableChange::Changed { upserts, deletes, .. } = table_change(table_schema, before) {
            if let Some(next) = event_change(events.last(), false) {
                if let Ok(key) = primary_key(next.row, table_schema) {
                    position_is_first(upserts, key);
                    let at = position(upserts, key) as int;
                    assert(events[last] == events.last());
                    assert(written_row(events[last], false) == Some(next.row) || removed_row(
                        events[last],
                        false,
                    ) == Some(next.row));
                    if written_row(events[last], false) is Some {
                        assert(is_written(table_schema, events, next.row));
                        let after = with_row(upserts, key, next.row);
                        assert forall|u: int| 0 <= u < after.len() implies is_written(
                            table_schema,
                            events,
                            (#[trigger] after[u]).1,
                        ) && primary_key(after[u].1, table_schema) == Ok::<Seq<char>, Seq<char>>(
                            after[u].0,
                        ) by {
                            if u < upserts.len() && u != at {
                                assert(after[u] == upserts[u]);
                            }
                        }
                    } else {
                        assert(is_removed(table_schema, events, key));
                        let after = without_row(upserts, key);
                        assert forall|u: int| 0 <= u < after.len() implies is_written(
                            table_schema,
                            events,
                            (#[trigger] after[u]).1,
                        ) && primary_key(after[u].1, table_schema) == Ok::<Seq<char>, Seq<char>>(
                            after[u].0,
                        ) by {
                            if at < upserts.len() && u >= at {
                                assert(after[u] == upserts[u + 1]);
                            } else {
                                assert(after[u] == upserts[u]);
                            }
                        }
                    }
                }
            }
        }
    }
}

/// Only rows that an event has written since the last truncation are written, under their primary
/// keys, and only keys of rows that an event has removed since then are removed. All earlier rows
/// are removed exactly if there is a truncation.
pub proof fn only_events_change_a_table(
    client: DeltaLakeClient,
    table_schema: TableSchema,
    events: &[Event],
    plan: TablePlan<'_>,
)
    requires
        call_ensures(
            process_table_events,
            (&client, &table_schema, events),
            Ok::<_, EtlError>(plan),
        ),
    ensures
        forall|u: int|
            0 <= u < plan.upserts@.len() ==> {
                &&& is_written(table_schema, events@, *(#[trigger] plan.upserts@[u]).1)
                &&& primary_key(*plan.upserts@[u].1, table_schema) == Ok::<Seq<char>, Seq<char>>(
                    plan.upserts@[u].0@,
                )
            },
        forall|d: int|
            0 <= d < plan.deletes@.len() ==> is_removed(
                table_schema,
                events@,
                #[trigger] plan.deletes@[d],
            ),
        plan.truncated <==> exists|i: int|
            0 <= i < events@.len() && #[trigger] events@[i] is Truncate,
{
    kept_rows_were_written(table_schema, events@);
    changes::truncations_remove_earlier_rows(table_schema, events@);
    let rows = keyed_rows(plan.upserts@);
    assert forall|u: int| 0 <= u < plan.upserts@.len() implies is_written(
        table_schema,
        events@,
        *(#[trigger] plan.upserts@[u]).1,
    ) && primary_key(*plan.upserts@[u].1, table_schema) == Ok::<Seq<char>, Seq<char>>(
        plan.upserts@[u].0@,
    ) by {
        assert(rows[u] == (plan.upserts@[u].0@, *plan.upserts@[u].1));
    }
}

proof fn failures_are_missing_keys(table_schema: TableSchema, events: Seq<Event>)
    ensures
        table_change(table_schema, events) is Failed <==> exists|i: int, row: TableRow|
            0 <= i < events.len() && #[trigger] touches(events[i], false, row) && primary_key(
                row,
                table_schema,
            ) is Err,
    decreases events.len(),
{
    if events.len() > 0 {
        let before = events.drop_last();
        let last = events.len() - 1;
        failures_are_missing_keys(table_schema, before);
        assert(events[last] == events.last());
        if table_change(table_schema, before) is Failed {
            let (i, row) = choose|i: int, row: TableRow|
                0 <= i < before.len() && #[trigger] touches(before[i], false, row) && primary_key(
                    row,
                    table_schema,
                ) is Err;
            assert(touches(events[i], false, row));
        } else if table_change(table_schema, events) is Failed {
            let next = event_change(events.last(), false)->0;
            assert(touches(events[last], false, next.row));
        }
        if exists|i: int, row: TableRow|
            0 <= i < events.len() && #[trigger] touches(events[i], false, row) && primary_key(
                row,
                table_schema,
            ) is Err {
            let (i, row) = choose|i: int, row: TableRow|
                0 <= i < events.len() && #[trigger] touches(events[i], false, row) && primary_key(
                    row,
                    table_schema,
                ) is Err;
            if i < last {
                assert(touches(before[i], false, row));
            } else {
                assert(event_change(events.last(), false)->0.row == row);
            }
        }
    }
}

/// Events are refused exactly if a row that one of them writes or removes has no primary key.
pub proof fn rows_without_a_key_are_refused(
    client: DeltaLakeClient,
    table_schema: TableSchema,
    events: &[Event],
    plan: EtlResult<TablePlan<'_>>,
)
    requires
        call_ensures(process_table_events, (&client, &table_schema, events), plan),
    ensures
        plan is Err <==> exists|i: int, row: TableRow|
            0 <= i < events@.len() && #[trigger] touches(events@[i], false, row) && primary_key(
                row,
                table_schema,
            ) is Err,
        plan matches Err(error) ==> {
            &&& error.kind is ConversionError
            &&& error.description@ == "Failed to extract primary key"@
            &&& error.detail is Some
        },
{
    failures_are_missing_keys(table_schema, events@);
}

/// A transaction adds every row that is to be written, and deletes by the keys of all rows that are
/// written or removed, or everything where the table is truncated.
pub proof fn transactions_do_what_is_planned(
    client: DeltaLakeClient,
    table_schema: TableSchema,
    plan: TablePlan<'_>,
    transaction: TableTransaction<'_>,
)
    requires
        call_ensures(
            execute_delete_append_transaction,
            (&client, &table_schema, plan),
            transaction,
        ),
    ensures
        transaction.rows@.len() == plan.upserts@.len(),
        forall|i: int|
            0 <= i < plan.upserts@.len() ==> *(#[trigger] transaction.rows@[i])
                == *plan.upserts@[i].1,
        plan.truncated ==> (transaction.delete_predicate matches Some(predicate) && predicate@
            == "true"@),
        !plan.truncated ==> (transaction.delete_predicate is None <==> plan.upserts@.len() == 0
            && plan.deletes@.len() == 0),
{
    let rows = keyed_rows(plan.upserts@);
    let keys = changes::affected_keys(plan.deletes@, rows);
    assert(rows.len() == plan.upserts@.len());
    if plan.upserts@.len() > 0 {
        changes::removed_and_written_rows_are_affected(plan.deletes@, rows, rows[0].0);
        assert(keys.contains(rows[0].0));
    } else if plan.deletes@.len() > 0 {
        changes::removed_and_written_rows_are_affected(plan.deletes@, rows, plan.deletes@[0]);
        assert(keys.contains(plan.deletes@[0]));
    } else if keys.len() > 0 {
        changes::removed_and_written_rows_are_affected(plan.deletes@, rows, keys[0]);
        assert(keys.contains(keys[0]));
    }
}

/// Rows to add are all added, and nothing is done without any.
pub proof fn rows_to_add_are_added<R: Row>(table_rows: Vec<R>, added: Option<Vec<R>>)
    requires
        call_ensures(write_table_rows::<R>, (table_rows,), added),
    ensures
        added is None <==> table_rows@.len() == 0,
        added matches Some(rows) ==> rows@ == table_rows@,
{
}

} // verus!
