//! What events make of a table: of the changes to a row the latest one counts.

use vstd::prelude::*;

use crate::delta::client;
use crate::deltalake::events;
use crate::deltalake::events::{Change, Marker, Operation};
use crate::types::{Event, TableRow, TableSchema};

verus! {

/// The place of the row with a key, or the number of rows if there is none.
pub open spec fn position(rows: Seq<(Seq<char>, TableRow)>, key: Seq<char>) -> nat
    decreases rows.len(),
{
    if rows.len() == 0 {
        0
    } else {
        let before = position(rows.drop_last(), key);
        if before < rows.len() - 1 || rows.last().0 == key {
            before
        } else {
            rows.len()
        }
    }
}

/// The rows after the row with a key was written.
pub open spec fn with_row(
    rows: Seq<(Seq<char>, TableRow)>,
    key: Seq<char>,
    row: TableRow,
) -> Seq<(Seq<char>, TableRow)> {
    let at = position(rows, key) as int;
    if at < rows.len() {
        rows.update(at, (key, row))
    } else {
        rows.push((key, row))
    }
}

/// The rows after the row with a key was removed.
pub open spec fn without_row(rows: Seq<(Seq<char>, TableRow)>, key: Seq<char>) -> Seq<
    (Seq<char>, TableRow),
> {
    let at = position(rows, key) as int;
    if at < rows.len() {
        rows.remove(at)
    } else {
        rows
    }
}

/// The keys after a key was added.
pub open spec fn with_key(keys: Seq<Seq<char>>, key: Seq<char>) -> Seq<Seq<char>> {
    if keys.contains(key) {
        keys
    } else {
        keys.push(key)
    }
}

/// What events make of a table.
pub enum TableChange {
    /// A row has no primary key, for this reason.
    Failed(Seq<char>),
    /// Rows are written and removed.
    Changed {
        /// Whether all earlier rows are removed.
        truncated: bool,
        /// The rows that are written, by their keys.
        upserts: Seq<(Seq<char>, TableRow)>,
        /// The keys of the rows that are removed.
        deletes: Seq<Seq<char>>,
        /// Where the latest change to the row with a key stands.
        markers: Map<Seq<char>, Marker>,
    },
}

/// Whether a change comes after all that are known of the row with a key. Of changes at the same
/// place the one that is seen later comes after.
pub open spec fn is_latest(
    markers: Map<Seq<char>, Marker>,
    key: Seq<char>,
    marker: Marker,
) -> bool {
    markers.contains_key(key) ==> !events::is_before(marker, markers[key])
}

/// What becomes of a table after one more change. A row without a primary key ends it.
pub open spec fn after_change(
    truncated: bool,
    upserts: Seq<(Seq<char>, TableRow)>,
    deletes: Seq<Seq<char>>,
    markers: Map<Seq<char>, Marker>,
    table_schema: TableSchema,
    change: Change,
) -> TableChange {
    match client::primary_key(change.row, table_schema) {
        Ok(key) => if is_latest(markers, key, change.marker) {
            match change.op {
                Operation::Upsert(row) => TableChange::Changed {
                    truncated,
                    upserts: with_row(upserts, key, row),
                    deletes,
                    markers: markers.insert(key, change.marker),
                },
                Operation::Delete => TableChange::Changed {
                    truncated,
                    upserts: without_row(upserts, key),
                    deletes: with_key(deletes, key),
                    markers: markers.insert(key, change.marker),
                },
            }
        } else {
            TableChange::Changed { truncated, upserts, deletes, markers }
        },
        Err(message) => TableChange::Failed(message),
    }
}

/// A table of which nothing is known but whether its earlier rows are removed.
pub open spec fn unchanged(truncated: bool) -> TableChange {
    TableChange::Changed {
        truncated,
        upserts: Seq::empty(),
        deletes: Seq::empty(),
        markers: Map::empty(),
    }
}

/// What becomes of a table after one more event. After a truncation nothing counts that came
/// before it. A row without a primary key ends it.
pub open spec fn after_event(
    change: TableChange,
    table_schema: TableSchema,
    event: Event,
) -> TableChange {
    match change {
        TableChange::Changed { truncated, upserts, deletes, markers } => if event is Truncate {
            unchanged(true)
        } else {
            match events::event_change(event, false) {
                Some(next) => after_change(
                    truncated,
                    upserts,
                    deletes,
                    markers,
                    table_schema,
                    next,
                ),
                None => change,
            }
        },
        _ => change,
    }
}

/// What events make of a table.
pub open spec fn table_change(table_schema: TableSchema, events: Seq<Event>) -> TableChange
    decreases events.len(),
{
    if events.len() == 0 {
        unchanged(false)
    } else {
        after_event(
            table_change(table_schema, events.drop_last()),
            table_schema,
            events.last(),
        )
    }
}

/// The row that is found has the key, and no row before it has.
pub proof fn position_is_first(rows: Seq<(Seq<char>, TableRow)>, key: Seq<char>)
    ensures
        position(rows, key) <= rows.len(),
        position(rows, key) < rows.len() ==> rows[position(rows, key) as int].0 == key,
        forall|i: int| 0 <= i < position(rows, key) ==> (#[trigger] rows[i]).0 != key,
    decreases rows.len(),
{
    if rows.len() > 0 {
        let before = rows.drop_last();
        position_is_first(before, key);
        assert forall|i: int| 0 <= i < position(rows, key) implies (#[trigger] rows[i]).0 != key by {
            if i < before.len() {
                assert(before[i] == rows[i]);
            }
        }
        if position(before, key) < before.len() {
            assert(before[position(before, key) as int] == rows[position(before, key) as int]);
        }
    }
}

/// Once a row without a primary key has ended the events of a table, nothing that follows counts.
pub proof fn ended_changes_stay(table_schema: TableSchema, events: Seq<Event>, n: int)
    requires
        0 <= n <= events.len(),
        !(table_change(table_schema, events.take(n)) is Changed),
    ensures
        table_change(table_schema, events) == table_change(table_schema, events.take(n)),
    decreases events.len(),
{
    if n == events.len() {
        assert(events.take(n) =~= events);
    } else {
        assert(events.drop_last().take(n) =~= events.take(n));
        ended_changes_stay(table_schema, events.drop_last(), n);
    }
}

/// The keys of removed and of written rows.
pub open spec fn affected_keys(
    deletes: Seq<Seq<char>>,
    upserts: Seq<(Seq<char>, TableRow)>,
) -> Seq<Seq<char>>
    decreases upserts.len(),
{
    if upserts.len() == 0 {
        deletes
    } else {
        with_key(affected_keys(deletes, upserts.drop_last()), upserts.last().0)
    }
}

/// The affected keys are those of the removed and of the written rows, and no others.
pub proof fn removed_and_written_rows_are_affected(
    deletes: Seq<Seq<char>>,
    upserts: Seq<(Seq<char>, TableRow)>,
    key: Seq<char>,
)
    ensures
        affected_keys(deletes, upserts).contains(key) <==> deletes.contains(key) || exists|i: int|
            0 <= i < upserts.len() && (#[trigger] upserts[i]).0 == key,
    decreases upserts.len(),
{
    if upserts.len() > 0 {
        let before = upserts.drop_last();
        let last = upserts.len() - 1;
        removed_and_written_rows_are_affected(deletes, before, key);
        let keys = affected_keys(deletes, before);
        let all = affected_keys(deletes, upserts);
        if keys.contains(key) {
            let k = keys.index_of(key);
            assert(all[k] == key);
            if !deletes.contains(key) {
                let i = choose|i: int| 0 <= i < before.len() && (#[trigger] before[i]).0 == key;
                assert(upserts[i].0 == key);
            }
        }
        if upserts[last].0 == key && !keys.contains(key) {
            assert(all[keys.len() as int] == key);
        }
        if all.contains(key) && !keys.contains(key) {
            assert(upserts[last].0 == key);
        }
        if exists|i: int| 0 <= i < upserts.len() && (#[trigger] upserts[i]).0 == key {
            let i = choose|i: int| 0 <= i < upserts.len() && (#[trigger] upserts[i]).0 == key;
            if i < last {
                assert(before[i].0 == key);
            }
        }
    }
}

/// Whether no two rows have the same key.
pub open spec fn keys_differ(rows: Seq<(Seq<char>, TableRow)>) -> bool {
    forall|i: int, j: int|
        0 <= i < j < rows.len() ==> (#[trigger] rows[i]).0 != (#[trigger] rows[j]).0
}

/// Every key is written once and removed once at most.
pub proof fn each_key_counts_once(table_schema: TableSchema, events: Seq<Event>)
    ensures
        table_change(table_schema, events) matches TableChange::Changed { upserts, deletes, .. }
            ==> keys_differ(upserts) && deletes.no_duplicates(),
    decreases events.len(),
{
    if events.len() > 0 {
        each_key_counts_once(table_schema, events.drop_last());
        if let TableChange::Changed { upserts, deletes, markers, .. } = table_change(
            table_schema,
            events.drop_last(),
        ) {
            if let Some(next) = events::event_change(events.last(), false) {
                if let Ok(key) = client::primary_key(next.row, table_schema) {
                    position_is_first(upserts, key);
                }
            }
        }
    }
}

/// The change that an event makes to the row with a key, if it makes one.
pub open spec fn change_to(table_schema: TableSchema, key: Seq<char>, event: Event) -> Option<
    Change,
> {
    match events::event_change(event, false) {
        Some(change) => if client::primary_key(change.row, table_schema) == Ok::<
            Seq<char>,
            Seq<char>,
        >(key) {
            Some(change)
        } else {
            None
        },
        None => None,
    }
}

/// Whether no truncation comes after an event.
pub open spec fn counts(events: Seq<Event>, at: int) -> bool {
    forall|i: int| at < i < events.len() ==> !(#[trigger] events[i] is Truncate)
}

/// Whether of the changes to the row with a key that count an event makes the latest one: none
/// stands behind it, and none that is seen later stands at the same place.
pub open spec fn is_winner(
    table_schema: TableSchema,
    key: Seq<char>,
    events: Seq<Event>,
    winner: int,
) -> bool {
    &&& 0 <= winner < events.len()
    &&& counts(events, winner)
    &&& change_to(table_schema, key, events[winner]) is Some
    &&& forall|i: int|
        #![trigger counts(events, i)]
        0 <= i < events.len() && counts(events, i) ==> (change_to(
            table_schema,
            key,
            events[i],
        ) matches Some(other) ==> {
            let latest = change_to(table_schema, key, events[winner])->Some_0.marker;
            &&& !events::is_before(latest, other.marker)
            &&& other.marker == latest ==> i <= winner
        })
}

/// Whether rows are written and removed as a change to the row with a key says.
pub open spec fn is_done(
    upserts: Seq<(Seq<char>, TableRow)>,
    deletes: Seq<Seq<char>>,
    key: Seq<char>,
    op: Operation,
) -> bool {
    match op {
        Operation::Upsert(row) => upserts.contains((key, row)),
        Operation::Delete => {
            &&& deletes.contains(key)
            &&& forall|i: int| 0 <= i < upserts.len() ==> (#[trigger] upserts[i]).0 != key
        },
    }
}

proof fn written_rows_are_kept(
    rows: Seq<(Seq<char>, TableRow)>,
    key: Seq<char>,
    row: TableRow,
    other: (Seq<char>, TableRow),
)
    ensures
        with_row(rows, key, row).contains((key, row)),
        other.0 != key ==> (with_row(rows, key, row).contains(other) <==> rows.contains(other)),
{
    position_is_first(rows, key);
    let at = position(rows, key) as int;
    let after = with_row(rows, key, row);
    assert(after[at] == (key, row));
    if other.0 != key {
        if rows.contains(other) {
            let i = rows.index_of(other);
            assert(after[i] == other);
        }
        if after.contains(other) {
            let i = after.index_of(other);
            assert(rows[i] == other);
        }
    }
}

proof fn other_rows_are_kept(
    rows: Seq<(Seq<char>, TableRow)>,
    key: Seq<char>,
    other: (Seq<char>, TableRow),
)
    requires
        keys_differ(rows),
    ensures
        forall|i: int|
            0 <= i < without_row(rows, key).len() ==> (#[trigger] without_row(rows, key)[i]).0
                != key,
        other.0 != key ==> (without_row(rows, key).contains(other) <==> rows.contains(other)),
{
    position_is_first(rows, key);
    let at = position(rows, key) as int;
    let after = without_row(rows, key);
    assert forall|i: int| 0 <= i < after.len() implies (#[trigger] after[i]).0 != key by {
        if at < rows.len() {
            if i < at {
                assert(after[i] == rows[i]);
            } else {
                assert(after[i] == rows[i + 1]);
                assert(rows[at].0 != rows[i + 1].0);
            }
        } else {
            assert(after[i] == rows[i]);
        }
    }
    if other.0 != key {
        if rows.contains(other) {
            let i = rows.index_of(other);
            if at < rows.len() && i > at {
                assert(after[i - 1] == other);
            } else {
                assert(after[i] == other);
            }
        }
        if after.contains(other) {
            let i = after.index_of(other);
            if at < rows.len() && i >= at {
                assert(rows[i + 1] == other);
            } else {
                assert(rows[i] == other);
            }
        }
    }
}

/// Whether what is known of the row with a key is what the latest change to it says.
spec fn latest_is_known(
    table_schema: TableSchema,
    key: Seq<char>,
    events: Seq<Event>,
    winner: int,
) -> bool {
    table_change(table_schema, events) matches TableChange::Changed {
        upserts,
        deletes,
        markers,
        ..
    } && {
        let latest = change_to(table_schema, key, events[winner])->Some_0;
        &&& is_winner(table_schema, key, events, winner)
        &&& markers.contains_key(key)
        &&& markers[key] == latest.marker
        &&& is_done(upserts, deletes, key, latest.op)
    }
}

/// Whether no event that counts changes the row with a key.
pub open spec fn is_left_alone(
    table_schema: TableSchema,
    key: Seq<char>,
    events: Seq<Event>,
) -> bool {
    forall|i: int|
        #![trigger counts(events, i)]
        0 <= i < events.len() && counts(events, i) ==> change_to(
            table_schema,
            key,
            events[i],
        ) is None
}

/// Whether nothing is known of the row with a key, and no event changes it.
spec fn nothing_is_known(table_schema: TableSchema, key: Seq<char>, events: Seq<Event>) -> bool {
    table_change(table_schema, events) matches TableChange::Changed {
        upserts,
        deletes,
        markers,
        ..
    } && {
        &&& !markers.contains_key(key)
        &&& is_left_alone(table_schema, key, events)
        &&& !deletes.contains(key)
        &&& forall|i: int| 0 <= i < upserts.len() ==> (#[trigger] upserts[i]).0 != key
    }
}

/// After one more event that is no truncation, the same events count.
proof fn counting_goes_on(events: Seq<Event>)
    requires
        events.len() > 0,
        !(events.last() is Truncate),
    ensures
        counts(events, events.len() - 1),
        forall|i: int|
            #![trigger counts(events, i)]
            #![trigger counts(events.drop_last(), i)]
            0 <= i < events.len() - 1 ==> {
                &&& counts(events, i) == counts(events.drop_last(), i)
                &&& events.drop_last()[i] == events[i]
            },
{
    let before = events.drop_last();
    assert forall|i: int|
        #![trigger counts(events, i)]
        #![trigger counts(before, i)]
        0 <= i < events.len() - 1 implies counts(events, i) == counts(before, i) && before[i]
        == events[i] by {
        if counts(events, i) {
            assert forall|k: int| i < k < before.len() implies !(
            #[trigger] before[k] is Truncate) by {
                assert(before[k] == events[k]);
            }
        }
        if counts(before, i) {
            assert forall|k: int| i < k < events.len() implies !(
            #[trigger] events[k] is Truncate) by {
                if k < before.len() {
                    assert(before[k] == events[k]);
                }
            }
        }
    }
}

/// A change to the row with one key writes no row with another.
proof fn other_changes_write_no_row(
    upserts: Seq<(Seq<char>, TableRow)>,
    key: Seq<char>,
    other: Seq<char>,
    next: Operation,
)
    requires
        keys_differ(upserts),
        key != other,
        forall|i: int| 0 <= i < upserts.len() ==> (#[trigger] upserts[i]).0 != key,
    ensures
        match next {
            Operation::Upsert(row) => {
                let after = with_row(upserts, other, row);
                forall|i: int| 0 <= i < after.len() ==> (#[trigger] after[i]).0 != key
            },
            Operation::Delete => {
                let after = without_row(upserts, other);
                forall|i: int| 0 <= i < after.len() ==> (#[trigger] after[i]).0 != key
            },
        },
{
    match next {
        Operation::Upsert(row) => {
            let after = with_row(upserts, other, row);
            assert forall|i: int| 0 <= i < after.len() implies (#[trigger] after[i]).0 != key by {
                written_rows_are_kept(upserts, other, row, after[i]);
                if after[i].0 != other {
                    assert(after.contains(after[i]));
                    let k = upserts.index_of(after[i]);
                    assert(upserts[k].0 != key);
                }
            }
        },
        Operation::Delete => {
            let after = without_row(upserts, other);
            assert forall|i: int| 0 <= i < after.len() implies (#[trigger] after[i]).0 != key by {
                other_rows_are_kept(upserts, other, after[i]);
                assert(after.contains(after[i]));
                let k = upserts.index_of(after[i]);
                assert(upserts[k].0 != key);
            }
        },
    }
}

/// A change to the row with one key leaves what is done to the row with another.
proof fn other_changes_keep(
    upserts: Seq<(Seq<char>, TableRow)>,
    deletes: Seq<Seq<char>>,
    key: Seq<char>,
    op: Operation,
    other: Seq<char>,
    next: Operation,
)
    requires
        keys_differ(upserts),
        key != other,
        is_done(upserts, deletes, key, op),
    ensures
        match next {
            Operation::Upsert(row) => is_done(with_row(upserts, other, row), deletes, key, op),
            Operation::Delete => is_done(
                without_row(upserts, other),
                with_key(deletes, other),
                key,
                op,
            ),
        },
{
    match op {
        Operation::Upsert(written) => {
            match next {
                Operation::Upsert(row) => {
                    written_rows_are_kept(upserts, other, row, (key, written));
                },
                Operation::Delete => {
                    other_rows_are_kept(upserts, other, (key, written));
                },
            }
        },
        Operation::Delete => {
            let at = deletes.index_of(key);
            assert(with_key(deletes, other)[at] == key);
            other_changes_write_no_row(upserts, key, other, next);
        },
    }
}

/// After one more event that leaves a row alone, what is known of it stays.
proof fn other_events_change_nothing(
    table_schema: TableSchema,
    key: Seq<char>,
    events: Seq<Event>,
)
    requires
        events.len() > 0,
        !(events.last() is Truncate),
        table_change(table_schema, events) is Changed,
        change_to(table_schema, key, events.last()) is None,
    ensures
        nothing_is_known(table_schema, key, events.drop_last()) ==> nothing_is_known(
            table_schema,
            key,
            events,
        ),
        forall|winner: int| #[trigger]
            latest_is_known(table_schema, key, events.drop_last(), winner) ==> latest_is_known(
                table_schema,
                key,
                events,
                winner,
            ),
{
    let before = events.drop_last();
    each_key_counts_once(table_schema, before);
    counting_goes_on(events);
    if let TableChange::Changed { upserts, deletes, markers, .. } = table_change(
        table_schema,
        before,
    ) {
        let next = events::event_change(events.last(), false);
        if nothing_is_known(table_schema, key, before) {
            if let Some(change) = next {
                if let Ok(other) = client::primary_key(change.row, table_schema) {
                    other_changes_write_no_row(upserts, key, other, change.op);
                    let keys = with_key(deletes, other);
                    assert(!keys.contains(key)) by {
                        if keys.contains(key) {
                            let i = keys.index_of(key);
                            assert(i < deletes.len() ==> deletes[i] == key);
                        }
                    }
                }
            }
            assert(is_left_alone(table_schema, key, events));
        }
        assert forall|winner: int| #[trigger]
            latest_is_known(table_schema, key, before, winner) implies latest_is_known(
            table_schema,
            key,
            events,
            winner,
        ) by {
            assert(before[winner] == events[winner]);
            let latest = change_to(table_schema, key, events[winner])->Some_0;
            if let Some(change) = next {
                if let Ok(other) = client::primary_key(change.row, table_schema) {
                    if is_latest(markers, other, change.marker) {
                        other_changes_keep(upserts, deletes, key, latest.op, other, change.op);
                    }
                }
            }
            assert(counts(before, winner));
            assert(is_winner(table_schema, key, events, winner));
        }
    }
}

/// What is known of the row with a key is what the latest change to it says.
proof fn state_of_key(table_schema: TableSchema, key: Seq<char>, events: Seq<Event>)
    requires
        table_change(table_schema, events) is Changed,
    ensures
        nothing_is_known(table_schema, key, events) || exists|winner: int| #[trigger]
            latest_is_known(table_schema, key, events, winner),
    decreases events.len(),
{
    if events.len() == 0 {
        assert(nothing_is_known(table_schema, key, events));
    } else if events.last() is Truncate {
        let last = events.len() - 1;
        assert forall|i: int|
            #![trigger counts(events, i)]
            0 <= i < events.len() && counts(events, i) implies change_to(
            table_schema,
            key,
            events[i],
        ) is None by {
            assert(i < last ==> events[last] is Truncate);
        }
        assert(nothing_is_known(table_schema, key, events));
    } else {
        let before = events.drop_last();
        let last = events.len() - 1;
        state_of_key(table_schema, key, before);
        each_key_counts_once(table_schema, before);
        counting_goes_on(events);
        match change_to(table_schema, key, events.last()) {
            None => {
                other_events_change_nothing(table_schema, key, events);
                if !nothing_is_known(table_schema, key, before) {
                    let winner = choose|winner: int| #[trigger]
                        latest_is_known(table_schema, key, before, winner);
                    assert(latest_is_known(table_schema, key, events, winner));
                }
            },
            Some(next) => {
                if let TableChange::Changed { upserts, deletes, markers, .. } = table_change(
                    table_schema,
                    before,
                ) {
                    if is_latest(markers, key, next.marker) {
                        match next.op {
                            Operation::Upsert(row) => {
                                written_rows_are_kept(upserts, key, row, (key, row));
                            },
                            Operation::Delete => {
                                other_rows_are_kept(upserts, key, (key, next.row));
                                let keys = with_key(deletes, key);
                                if !deletes.contains(key) {
                                    assert(keys[keys.len() - 1] == key);
                                }
                            },
                        }
                        assert(is_winner(table_schema, key, events, last));
                        assert(latest_is_known(table_schema, key, events, last));
                    } else {
                        let winner = choose|winner: int| #[trigger]
                            latest_is_known(table_schema, key, before, winner);
                        assert(before[winner] == events[winner]);
                        assert(counts(before, winner));
                        assert(is_winner(table_schema, key, events, winner));
                        assert(latest_is_known(table_schema, key, events, winner));
                    }
                }
            },
        }
    }
}

/// The latest change to a row wins: where it writes a row, that row is written, and where it
/// removes the row, the row is removed and not written.
pub proof fn latest_change_wins(
    table_schema: TableSchema,
    key: Seq<char>,
    events: Seq<Event>,
    winner: int,
)
    requires
        is_winner(table_schema, key, events, winner),
    ensures
        table_change(table_schema, events) matches TableChange::Changed { upserts, deletes, .. }
            ==> is_done(
            upserts,
            deletes,
            key,
            change_to(table_schema, key, events[winner])->Some_0.op,
        ),
{
    if table_change(table_schema, events) is Changed {
        state_of_key(table_schema, key, events);
        assert(counts(events, winner));
        let known = choose|known: int| #[trigger]
            latest_is_known(table_schema, key, events, known);
        assert(counts(events, known));
        assert(known == winner);
    }
}

/// A row that no event changes after the last truncation is neither written nor removed by its key.
pub proof fn other_rows_are_left_alone(
    table_schema: TableSchema,
    key: Seq<char>,
    events: Seq<Event>,
)
    requires
        is_left_alone(table_schema, key, events),
    ensures
        table_change(table_schema, events) matches TableChange::Changed { upserts, deletes, .. }
            ==> {
            &&& !deletes.contains(key)
            &&& forall|i: int| 0 <= i < upserts.len() ==> (#[trigger] upserts[i]).0 != key
        },
{
    if table_change(table_schema, events) is Changed {
        state_of_key(table_schema, key, events);
        if !nothing_is_known(table_schema, key, events) {
            let known = choose|known: int| #[trigger]
                latest_is_known(table_schema, key, events, known);
            assert(counts(events, known));
        }
    }
}

/// All earlier rows are removed if and only if an event is a truncation.
pub proof fn truncations_remove_earlier_rows(table_schema: TableSchema, events: Seq<Event>)
    ensures
        table_change(table_schema, events) matches TableChange::Changed { truncated, .. } ==> (
        truncated <==> exists|i: int| 0 <= i < events.len() && #[trigger] events[i] is Truncate),
    decreases events.len(),
{
    if events.len() > 0 {
        let before = events.drop_last();
        let last = events.len() - 1;
        truncations_remove_earlier_rows(table_schema, before);
        if events[last] is Truncate {
            assert(exists|i: int| 0 <= i < events.len() && #[trigger] events[i] is Truncate);
        }
        if exists|i: int| 0 <= i < before.len() && #[trigger] before[i] is Truncate {
            let i = choose|i: int| 0 <= i < before.len() && #[trigger] before[i] is Truncate;
            assert(events[i] is Truncate);
        }
        if exists|i: int| 0 <= i < events.len() && #[trigger] events[i] is Truncate {
            let i = choose|i: int| 0 <= i < events.len() && #[trigger] events[i] is Truncate;
            if i < last {
                assert(before[i] is Truncate);
            }
        }
    }
}

} // verus!
