//! The events of each table.

use vstd::prelude::*;

use crate::text;
use crate::types::event::{Event, TruncateEvent};
use crate::types::schema::TableId;

verus! {

broadcast use text::take_one_more;

/// The tables that an event belongs to. Changes to the shape of a table belong to it where they
/// count. Events that say something of transactions belong to no table.
pub open spec fn event_tables(event: Event, relations: bool) -> Seq<u32> {
    match event {
        Event::Insert(e) => seq![e.table_id.0],
        Event::Update(e) => seq![e.table_id.0],
        Event::Delete(e) => seq![e.table_id.0],
        Event::Truncate(e) => e.rel_ids@,
        Event::Relation(e) => if relations {
            seq![e.table_schema.id.0]
        } else {
            Seq::empty()
        },
        Event::Begin(_) | Event::Commit(_) | Event::Unsupported => Seq::empty(),
    }
}

/// How often a table is among some tables.
pub open spec fn occurrences(tables: Seq<u32>, table: u32) -> nat
    decreases tables.len(),
{
    if tables.len() == 0 {
        0
    } else {
        occurrences(tables.drop_last(), table) + if tables.last() == table {
            1nat
        } else {
            0nat
        }
    }
}

/// The events of a table, in order. An event that names the table more than once is there as
/// often.
pub open spec fn table_events(events: Seq<Event>, table: u32, relations: bool) -> Seq<Event>
    decreases events.len(),
{
    if events.len() == 0 {
        Seq::empty()
    } else {
        let event = events.last();
        table_events(events.drop_last(), table, relations) + Seq::new(
            occurrences(event_tables(event, relations), table),
            |i: int| event,
        )
    }
}

/// Whether two events are the same, where the tables of a truncation are compared one by one.
pub open spec fn same_event(left: Event, right: Event) -> bool {
    match (left, right) {
        (Event::Truncate(a), Event::Truncate(b)) => {
            &&& a.start_lsn == b.start_lsn
            &&& a.commit_lsn == b.commit_lsn
            &&& a.options == b.options
            &&& a.rel_ids@ == b.rel_ids@
        },
        _ => left == right,
    }
}

/// Whether the events of two sequences are the same, one by one.
pub open spec fn same_events(left: Seq<Event>, right: Seq<Event>) -> bool {
    &&& left.len() == right.len()
    &&& forall|i: int| 0 <= i < left.len() ==> same_event(#[trigger] left[i], right[i])
}

/// Whether no two groups are those of the same table.
pub open spec fn groups_differ(groups: Seq<(TableId, Vec<Event>)>) -> bool {
    forall|i: int, j: int|
        0 <= i < j < groups.len() ==> (#[trigger] groups[i]).0 != (#[trigger] groups[j]).0
}

/// Whether one of the groups is that of a table.
pub open spec fn has_group(groups: Seq<(TableId, Vec<Event>)>, table: u32) -> bool {
    exists|i: int| 0 <= i < groups.len() && (#[trigger] groups[i]).0.0 == table
}

/// The events in the group of a table.
spec fn group(groups: Seq<(TableId, Vec<Event>)>, table: u32) -> Seq<Event> {
    if has_group(groups, table) {
        let i = choose|i: int| 0 <= i < groups.len() && (#[trigger] groups[i]).0.0 == table;
        groups[i].1@
    } else {
        Seq::empty()
    }
}

proof fn group_is(groups: Seq<(TableId, Vec<Event>)>, i: int)
    requires
        groups_differ(groups),
        0 <= i < groups.len(),
    ensures
        has_group(groups, groups[i].0.0),
        group(groups, groups[i].0.0) == groups[i].1@,
{
    let table = groups[i].0.0;
    assert(has_group(groups, table));
    let j = choose|j: int| 0 <= j < groups.len() && (#[trigger] groups[j]).0.0 == table;
    if i < j {
        assert(groups[i].0 != groups[j].0);
    } else if j < i {
        assert(groups[j].0 != groups[i].0);
    }
}

/// Whether groups are those of the tables that some events belong to.
pub open spec fn are_groups(
    groups: Seq<(TableId, Vec<Event>)>,
    events: Seq<Event>,
    relations: bool,
) -> bool {
    &&& groups_differ(groups)
    &&& forall|i: int|
        0 <= i < groups.len() ==> (#[trigger] groups[i]).1@.len() > 0 && same_events(
            groups[i].1@,
            table_events(events, groups[i].0.0, relations),
        )
    &&& forall|table: u32|
        (#[trigger] table_events(events, table, relations)).len() > 0 ==> has_group(groups, table)
}

/// The same truncation.
fn copied_truncation(event: &TruncateEvent) -> (copy: Event)
    ensures
        same_event(copy, Event::Truncate(*event)),
{
    Event::Truncate(
        TruncateEvent {
            start_lsn: event.start_lsn,
            commit_lsn: event.commit_lsn,
            options: event.options,
            rel_ids: event.rel_ids.clone(),
        },
    )
}

/// Puts an event into the group of a table.
fn add_to_group(groups: &mut Vec<(TableId, Vec<Event>)>, table_id: TableId, event: Event)
    requires
        groups_differ(old(groups)@),
        forall|i: int| 0 <= i < old(groups)@.len() ==> (#[trigger] old(groups)@[i]).1@.len() > 0,
    ensures
        groups_differ(final(groups)@),
        forall|i: int|
            0 <= i < final(groups)@.len() ==> (#[trigger] final(groups)@[i]).1@.len() > 0,
        forall|table: u32| #[trigger]
            group(final(groups)@, table) == if table == table_id.0 {
                group(old(groups)@, table).push(event)
            } else {
                group(old(groups)@, table)
            },
{
    let ghost before = groups@;
    let mut i: usize = 0;
    while i < groups.len()
        invariant
            i <= groups@.len(),
            groups@ == before,
            before == old(groups)@,
            groups_differ(before),
            forall|k: int| 0 <= k < before.len() ==> (#[trigger] before[k]).1@.len() > 0,
            forall|k: int| 0 <= k < i ==> (#[trigger] before[k]).0 != table_id,
        decreases groups@.len() - i,
    {
        if groups[i].0.0 == table_id.0 {
            groups[i].1.push(event);
            proof {
                let after = groups@;
                assert(groups_differ(after)) by {
                    assert forall|a: int, b: int| 0 <= a < b < after.len() implies (
                    #[trigger] after[a]).0 != (#[trigger] after[b]).0 by {
                        assert(before[a].0 != before[b].0);
                    }
                }
                assert forall|table: u32| #[trigger]
                    group(after, table) == if table == table_id.0 {
                        group(before, table).push(event)
                    } else {
                        group(before, table)
                    } by {
                    if has_group(before, table) {
                        let k = choose|k: int|
                            0 <= k < before.len() && (#[trigger] before[k]).0.0 == table;
                        group_is(before, k);
                        group_is(after, k);
                        if table == table_id.0 {
                            group_is(before, i as int);
                            group_is(after, i as int);
                        } else {
                            assert(after[k] == before[k]);
                        }
                    } else {
                        assert(before[i as int].0.0 != table);
                        if has_group(after, table) {
                            let k = choose|k: int|
                                0 <= k < after.len() && (#[trigger] after[k]).0.0 == table;
                            assert(before[k].0.0 == table);
                        }
                    }
                }
            }
            return;
        }
        i += 1;
    }
    let mut events: Vec<Event> = Vec::new();
    events.push(event);
    groups.push((table_id, events));
    proof {
        let after = groups@;
        let last = after.len() - 1;
        assert(groups_differ(after)) by {
            assert forall|a: int, b: int| 0 <= a < b < after.len() implies (
            #[trigger] after[a]).0 != (#[trigger] after[b]).0 by {
                assert(after[a] == before[a]);
                if b < last {
                    assert(after[b] == before[b]);
                }
            }
        }
        assert forall|table: u32| #[trigger]
            group(after, table) == if table == table_id.0 {
                group(before, table).push(event)
            } else {
                group(before, table)
            } by {
            if table == table_id.0 {
                group_is(after, last);
                assert(!has_group(before, table));
                assert(group(after, table) =~= Seq::<Event>::empty().push(event));
            } else if has_group(before, table) {
                let k = choose|k: int| 0 <= k < before.len() && (#[trigger] before[k]).0.0 == table;
                group_is(before, k);
                assert(after[k] == before[k]);
                group_is(after, k);
            } else if has_group(after, table) {
                let k = choose|k: int| 0 <= k < after.len() && (#[trigger] after[k]).0.0 == table;
                assert(after[k] == before[k]);
            }
        }
    }
}

/// Events in groups, one for each table that they belong to. A truncation goes to each of its
/// tables.
pub fn group_events_by_table(events: Vec<Event>, relations: bool) -> (groups: Vec<
    (TableId, Vec<Event>),
>)
    ensures
        are_groups(groups@, events@, relations),
{
    let ghost whole = events@;
    let mut groups: Vec<(TableId, Vec<Event>)> = Vec::new();
    assert(whole.take(0) =~= Seq::empty());
    for event in it: events
        invariant
            whole == it.seq(),
            groups_differ(groups@),
            forall|i: int| 0 <= i < groups@.len() ==> (#[trigger] groups@[i]).1@.len() > 0,
            forall|table: u32|
                same_events(
                    #[trigger] group(groups@, table),
                    table_events(whole.take(it.index() as int), table, relations),
                ),
    {
        let ghost n = it.index() as int;
        let ghost before = groups@;
        let ghost tables = event_tables(event, relations);
        proof {
            assert(whole.take(n + 1).drop_last() =~= whole.take(n));
            assert(whole.take(n + 1).last() == event);
            reveal_with_fuel(occurrences, 2);
        }
        match &event {
            Event::Insert(e) => {
                let table_id = e.table_id;
                add_to_group(&mut groups, table_id, event);
            },
            Event::Update(e) => {
                let table_id = e.table_id;
                add_to_group(&mut groups, table_id, event);
            },
            Event::Delete(e) => {
                let table_id = e.table_id;
                add_to_group(&mut groups, table_id, event);
            },
            Event::Truncate(e) => {
                let mut k: usize = 0;
                assert(tables.take(0) =~= Seq::empty());
                while k < e.rel_ids.len()
                    invariant
                        k <= e.rel_ids@.len(),
                        event == Event::Truncate(*e),
                        tables == e.rel_ids@,
                        groups_differ(groups@),
                        forall|i: int|
                            0 <= i < groups@.len() ==> (#[trigger] groups@[i]).1@.len() > 0,
                        forall|table: u32|
                            same_events(
                                #[trigger] group(groups@, table),
                                table_events(whole.take(n), table, relations) + Seq::new(
                                    occurrences(tables.take(k as int), table),
                                    |i: int| event,
                                ),
                            ),
                    decreases e.rel_ids@.len() - k,
                {
                    proof {
                        assert(tables.take(k as int + 1).drop_last() =~= tables.take(k as int));
                    }
                    add_to_group(&mut groups, TableId(e.rel_ids[k]), copied_truncation(e));
                    k += 1;
                }
                assert(tables.take(k as int) =~= tables);
            },
            Event::Relation(e) => {
                if relations {
                    let table_id = e.table_schema.id;
                    add_to_group(&mut groups, table_id, event);
                }
            },
            Event::Begin(_) | Event::Commit(_) | Event::Unsupported => {},
        }
        assert forall|table: u32|
            same_events(
                #[trigger] group(groups@, table),
                table_events(whole.take(n + 1), table, relations),
            ) by {
            assert(same_events(
                group(before, table),
                table_events(whole.take(n), table, relations),
            ));
        }
    }
    proof {
        assert(whole.take(whole.len() as int) =~= whole);
        assert forall|i: int| 0 <= i < groups@.len() implies (#[trigger] groups@[i]).1@.len() > 0
            && same_events(
            groups@[i].1@,
            table_events(whole, groups@[i].0.0, relations),
        ) by {
            group_is(groups@, i);
        }
        assert forall|table: u32| (#[trigger] table_events(whole, table, relations)).len()
            > 0 implies has_group(groups@, table) by {
            assert(same_events(group(groups@, table), table_events(whole, table, relations)));
        }
    }
    groups
}

/// An event that belongs to one table is in the group of that table and in no other.
pub proof fn events_stay_in_order(events: Seq<Event>, event: Event, table: u32, relations: bool)
    requires
        event_tables(event, relations).len() <= 1,
    ensures
        table_events(events.push(event), table, relations) == if event_tables(event, relations)
            == seq![table] {
            table_events(events, table, relations).push(event)
        } else {
            table_events(events, table, relations)
        },
{
    let tables = event_tables(event, relations);
    assert(events.push(event).drop_last() =~= events);
    reveal_with_fuel(occurrences, 2);
    if tables.len() == 1 {
        assert(tables.drop_last() =~= Seq::empty());
        if tables[0] == table {
            assert(tables =~= seq![table]);
        } else {
            assert(tables[0] != seq![table][0]);
        }
    }
    assert(table_events(events.push(event), table, relations) =~= if tables == seq![table] {
        table_events(events, table, relations).push(event)
    } else {
        table_events(events, table, relations)
    });
}

} // verus!
