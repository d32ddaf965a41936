//! Every event goes to its tables.

use vstd::prelude::*;

use crate::types::grouping;
use crate::types::grouping::group_events_by_table;
use crate::types::{Event, TableId};

verus! {

/// The events in the group of a table: none if there is no such group.
pub open spec fn is_group_of(
    group: Seq<Event>,
    groups: Seq<(TableId, Vec<Event>)>,
    table: u32,
) -> bool {
    ||| exists|i: int| 0 <= i < groups.len() && (#[trigger] groups[i]).0.0 == table && group
        == groups[i].1@
    ||| group.len() == 0 && forall|i: int|
        0 <= i < groups.len() ==> (#[trigger] groups[i]).0.0 != table
}

/// Whether an event says something of a table: a row was changed in it, it was truncated, or its
/// shape was told and shapes count.
pub open spec fn says_something_of(event: Event, table: u32, relations: bool) -> bool {
    match event {
        Event::Insert(e) => e.table_id.0 == table,
        Event::Update(e) => e.table_id.0 == table,
        Event::Delete(e) => e.table_id.0 == table,
        Event::Truncate(e) => exists|i: int|
            0 <= i < e.rel_ids@.len() && #[trigger] e.rel_ids@[i] == table,
        Event::Relation(e) => relations && e.table_schema.id.0 == table,
        _ => false,
    }
}

/// Whether a truncation names no table twice.
pub open spec fn names_tables_once(event: Event) -> bool {
    event matches Event::Truncate(e) ==> forall|i: int, j: int|
        0 <= i < j < e.rel_ids@.len() ==> #[trigger] e.rel_ids@[i] != #[trigger] e.rel_ids@[j]
}

proof fn tables_named_once_occur_once(tables: Seq<u32>, table: u32)
    requires
        forall|i: int, j: int|
            0 <= i < j < tables.len() ==> #[trigger] tables[i] != #[trigger] tables[j],
    ensures
        grouping::occurrences(tables, table) == if exists|i: int|
            0 <= i < tables.len() && #[trigger] tables[i] == table {
            1int
        } else {
            0int
        },
    decreases tables.len(),
{
    if tables.len() > 0 {
        let before = tables.drop_last();
        let last = tables.len() - 1;
        assert forall|i: int, j: int| 0 <= i < j < before.len() implies #[trigger] before[i]
            != #[trigger] before[j] by {
            assert(tables[i] != tables[j]);
        }
        tables_named_once_occur_once(before, table);
        if tables[last] == table {
            assert forall|i: int| 0 <= i < before.len() implies #[trigger] before[i] != table by {
                assert(tables[i] != tables[last]);
            }
        } else if exists|i: int| 0 <= i < tables.len() && #[trigger] tables[i] == table {
            let i = choose|i: int| 0 <= i < tables.len() && #[trigger] tables[i] == table;
            assert(before[i] == table);
        } else if exists|i: int| 0 <= i < before.len() && #[trigger] before[i] == table {
            let i = choose|i: int| 0 <= i < before.len() && #[trigger] before[i] == table;
            assert(tables[i] == table);
        }
    }
}

proof fn group_is_known(
    group: Seq<Event>,
    groups: Seq<(TableId, Vec<Event>)>,
    events: Seq<Event>,
    table: u32,
    relations: bool,
)
    requires
        grouping::are_groups(groups, events, relations),
        is_group_of(group, groups, table),
    ensures
        grouping::same_events(group, grouping::table_events(events, table, relations)),
{
    if exists|i: int|
        0 <= i < groups.len() && (#[trigger] groups[i]).0.0 == table && group == groups[i].1@ {
        let i = choose|i: int|
            0 <= i < groups.len() && (#[trigger] groups[i]).0.0 == table && group == groups[i].1@;
        assert(grouping::same_events(
            groups[i].1@,
            grouping::table_events(events, groups[i].0.0, relations),
        ));
    } else if grouping::table_events(events, table, relations).len() > 0 {
        assert(grouping::has_group(groups, table));
        let i = choose|i: int| 0 <= i < groups.len() && (#[trigger] groups[i]).0.0 == table;
        assert(groups[i].0.0 != table);
    }
}

/// One more event is one more event in the groups of exactly those tables that it says something
/// of, at their ends. Nothing else changes in any group.
pub proof fn events_go_to_their_tables(
    fewer: Vec<Event>,
    more: Vec<Event>,
    event: Event,
    relations: bool,
    before: Vec<(TableId, Vec<Event>)>,
    after: Vec<(TableId, Vec<Event>)>,
    table: u32,
    old_group: Seq<Event>,
    new_group: Seq<Event>,
)
    requires
        more@ == fewer@.push(event),
        names_tables_once(event),
        call_ensures(group_events_by_table, (fewer, relations), before),
        call_ensures(group_events_by_table, (more, relations), after),
        is_group_of(old_group, before@, table),
        is_group_of(new_group, after@, table),
    ensures
        says_something_of(event, table, relations) ==> {
            &&& new_group.len() == old_group.len() + 1
            &&& is_copy_of(new_group.last(), event)
        },
        !says_something_of(event, table, relations) ==> new_group.len() == old_group.len(),
        forall|i: int|
            0 <= i < old_group.len() ==> is_copy_of(#[trigger] new_group[i], old_group[i]),
        fewer@.len() == 0 ==> old_group.len() == 0,
{
    group_is_known(old_group, before@, fewer@, table, relations);
    group_is_known(new_group, after@, more@, table, relations);
    assert(more@.drop_last() =~= fewer@);
    assert(more@.last() == event);
    let tables = grouping::event_tables(event, relations);
    reveal_with_fuel(grouping::occurrences, 2);
    if let Event::Truncate(e) = event {
        tables_named_once_occur_once(e.rel_ids@, table);
    } else if tables.len() == 1 {
        assert(tables.drop_last() =~= Seq::empty());
    }
    let earlier = grouping::table_events(fewer@, table, relations);
    let later = grouping::table_events(more@, table, relations);
    assert forall|i: int| 0 <= i < old_group.len() implies is_copy_of(
        #[trigger] new_group[i],
        old_group[i],
    ) by {
        assert(later[i] == earlier[i]);
        assert(grouping::same_event(old_group[i], earlier[i]));
        assert(grouping::same_event(new_group[i], later[i]));
    }
    if says_something_of(event, table, relations) {
        let last = new_group.len() - 1;
        assert(grouping::same_event(new_group[last], later[last]));
        assert(later[last] == event);
    }
}

/// Whether an event says what another says: of a truncation its place, its options and its tables.
pub open spec fn is_copy_of(copy: Event, event: Event) -> bool {
    match event {
        Event::Truncate(e) => copy matches Event::Truncate(c) && {
            &&& c.start_lsn == e.start_lsn
            &&& c.commit_lsn == e.commit_lsn
            &&& c.options == e.options
            &&& c.rel_ids@ == e.rel_ids@
        },
        _ => copy == event,
    }
}

/// No table has two groups, and no group is empty.
pub proof fn groups_are_those_of_different_tables(
    events: Vec<Event>,
    relations: bool,
    groups: Vec<(TableId, Vec<Event>)>,
)
    requires
        call_ensures(group_events_by_table, (events, relations), groups),
    ensures
        forall|i: int| 0 <= i < groups@.len() ==> (#[trigger] groups@[i]).1@.len() > 0,
        forall|i: int, j: int|
            0 <= i < j < groups@.len() ==> (#[trigger] groups@[i]).0.0 != (
            #[trigger] groups@[j]).0.0,
{
    assert forall|i: int, j: int| 0 <= i < j < groups@.len() implies (#[trigger] groups@[i]).0.0 != (
    #[trigger] groups@[j]).0.0 by {
        assert(groups@[i].0 != groups@[j].0);
    }
}

} // verus!
