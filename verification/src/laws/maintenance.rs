//! Tables are rewritten when they are due.

use vstd::prelude::*;

use crate::deltalake::config::DeltaTableConfig;
use crate::deltalake::destination::maybe_schedule_maintenance;
use crate::deltalake::maintenance::{MaintenanceAction, MaintenanceEvent, TableMaintenanceState};
use crate::text;

verus! {

/// A table that no task orders is ordered by all the columns that it is to be ordered by, if there
/// is at least one, as soon as its version is so many commits past its last ordering. It is not
/// ordered otherwise.
pub proof fn tables_are_ordered_when_due<H>(
    state: &mut TableMaintenanceState<H>,
    config: DeltaTableConfig,
    table_version: i64,
    event: MaintenanceEvent<H>,
    after: TableMaintenanceState<H>,
    action: MaintenanceAction<H>,
)
    requires
        after == *final(state),
        call_ensures(
            TableMaintenanceState::<H>::maybe_run_zorder,
            (state, &config, table_version, event),
            action,
        ),
        event is Requested || event is Joined,
        old(state).inner.zorder_task is None,
    ensures
        action is ZOrder || action is Done,
        action is ZOrder <==> {
            &&& config.z_order_columns matches Some(columns) && columns@.len() >= 1
            &&& config.z_order_after_commits matches Some(commits) && commits.number() <= i64::MAX
                && old(state).inner.last_zordered_version + commits.number() <= table_version
        },
        action matches MaintenanceAction::ZOrder(columns) ==> {
            &&& columns@.len() == config.z_order_columns->0@.len()
            &&& forall|i: int|
                0 <= i < columns@.len() ==> (#[trigger] columns@[i])@
                    == config.z_order_columns->0@[i]@
        },
        after.inner == old(state).inner,
{
    if let MaintenanceAction::ZOrder(columns) = action {
        let texts = text::texts(columns@);
        assert(texts.len() == columns@.len());
        assert forall|i: int| 0 <= i < columns@.len() implies (#[trigger] columns@[i])@
            == config.z_order_columns->0@[i]@ by {
            assert(texts[i] == columns@[i]@);
            assert(text::texts(config.z_order_columns->0@)[i] == config.z_order_columns->0@[i]@);
        }
        assert(text::texts(config.z_order_columns->0@).len() == config.z_order_columns->0@.len());
    }
}

/// A table that no task compacts is compacted as soon as its version is so many commits past its
/// last compaction, and not otherwise.
pub proof fn tables_are_compacted_when_due<H>(
    state: &mut TableMaintenanceState<H>,
    config: DeltaTableConfig,
    table_version: i64,
    event: MaintenanceEvent<H>,
    after: TableMaintenanceState<H>,
    action: MaintenanceAction<H>,
)
    requires
        after == *final(state),
        call_ensures(
            TableMaintenanceState::<H>::maybe_run_compaction,
            (state, &config, table_version, event),
            action,
        ),
        event is Requested || event is Joined,
        old(state).inner.compaction_task is None,
    ensures
        action is Compact || action is Done,
        action is Compact <==> (config.compact_after_commits matches Some(commits)
            && commits.number() <= i64::MAX && old(state).inner.last_compacted_version
            + commits.number() <= table_version),
        after.inner == old(state).inner,
{
}

/// A task that runs is waited for before another one starts, and is then no longer known.
pub proof fn running_tasks_are_waited_for<H>(
    state: &mut TableMaintenanceState<H>,
    config: DeltaTableConfig,
    table_version: i64,
    event: MaintenanceEvent<H>,
    after: TableMaintenanceState<H>,
    action: MaintenanceAction<H>,
)
    requires
        after == *final(state),
        event is Requested || event is Joined,
    ensures
        call_ensures(
            TableMaintenanceState::<H>::maybe_run_zorder,
            (state, &config, table_version, event),
            action,
        )
            && old(state).inner.zorder_task is Some ==> {
            &&& action == MaintenanceAction::Join(old(state).inner.zorder_task->0)
            &&& after.inner.zorder_task is None
            &&& after.inner.last_zordered_version == old(state).inner.last_zordered_version
        },
        call_ensures(
            TableMaintenanceState::<H>::maybe_run_compaction,
            (state, &config, table_version, event),
            action,
        )
            && old(state).inner.compaction_task is Some ==> {
            &&& action == MaintenanceAction::Join(old(state).inner.compaction_task->0)
            &&& after.inner.compaction_task is None
            &&& after.inner.last_compacted_version == old(state).inner.last_compacted_version
        },
{
}

/// A task that has rewritten a table sets the version that it left, or the version that it was
/// started for where that is not known. A task that has failed sets none, and one that was started
/// is known from then on.
pub proof fn rewritten_tables_have_their_version<H>(
    state: &mut TableMaintenanceState<H>,
    config: DeltaTableConfig,
    table_version: i64,
    event: MaintenanceEvent<H>,
    after: TableMaintenanceState<H>,
    action: MaintenanceAction<H>,
)
    requires
        after == *final(state),
        event is Finished || event is Failed || event is Spawned,
    ensures
        call_ensures(
            TableMaintenanceState::<H>::maybe_run_zorder,
            (state, &config, table_version, event),
            action,
        ) ==> {
            &&& action is Done
            &&& event matches MaintenanceEvent::Finished(Some(version))
                ==> after.inner.last_zordered_version == version
            &&& event matches MaintenanceEvent::Finished(None)
                ==> after.inner.last_zordered_version == table_version
            &&& !(event is Finished) ==> after.inner.last_zordered_version
                == old(state).inner.last_zordered_version
            &&& event matches MaintenanceEvent::Spawned(task) ==> after.inner.zorder_task == Some(
                task,
            )
            &&& !(event is Spawned) ==> after.inner.zorder_task == old(state).inner.zorder_task
        },
        call_ensures(
            TableMaintenanceState::<H>::maybe_run_compaction,
            (state, &config, table_version, event),
            action,
        ) ==> {
            &&& action is Done
            &&& event matches MaintenanceEvent::Finished(Some(version))
                ==> after.inner.last_compacted_version == version
            &&& event matches MaintenanceEvent::Finished(None)
                ==> after.inner.last_compacted_version == table_version
            &&& !(event is Finished) ==> after.inner.last_compacted_version
                == old(state).inner.last_compacted_version
            &&& event matches MaintenanceEvent::Spawned(task) ==> after.inner.compaction_task
                == Some(task)
            &&& !(event is Spawned) ==> after.inner.compaction_task == old(state).inner.compaction_task
        },
{
}

/// The ordering of a table and its compaction do not touch each other.
pub proof fn orderings_and_compactions_are_apart<H>(
    state: &mut TableMaintenanceState<H>,
    config: DeltaTableConfig,
    table_version: i64,
    event: MaintenanceEvent<H>,
    after: TableMaintenanceState<H>,
    action: MaintenanceAction<H>,
)
    requires
        after == *final(state),
    ensures
        call_ensures(
            TableMaintenanceState::<H>::maybe_run_zorder,
            (state, &config, table_version, event),
            action,
        ) ==> {
            &&& after.inner.last_compacted_version == old(state).inner.last_compacted_version
            &&& after.inner.compaction_task == old(state).inner.compaction_task
            &&& !(action is Compact)
        },
        call_ensures(
            TableMaintenanceState::<H>::maybe_run_compaction,
            (state, &config, table_version, event),
            action,
        ) ==> {
            &&& after.inner.last_zordered_version == old(state).inner.last_zordered_version
            &&& after.inner.zorder_task == old(state).inner.zorder_task
            &&& !(action is ZOrder)
        },
{
}

/// A table is not due right after it was rewritten, and due again after exactly as many commits as
/// it is to wait for.
pub proof fn tables_wait_for_their_commits<H>(
    initial_version: i64,
    commits: int,
    config: DeltaTableConfig,
    state: &mut TableMaintenanceState<H>,
    action: MaintenanceAction<H>,
)
    requires
        call_ensures(TableMaintenanceState::<H>::new, (initial_version,), *old(state)),
        0 <= commits <= i64::MAX,
        initial_version + commits <= i64::MAX,
        config.compact_after_commits matches Some(count) && count.number() > 0,
        call_ensures(
            TableMaintenanceState::<H>::maybe_run_compaction,
            (state, &config, (initial_version + commits) as i64, MaintenanceEvent::Requested),
            action,
        ),
    ensures
        commits == 0 ==> action is Done,
        commits == config.compact_after_commits->0.number() ==> action is Compact,
        commits < config.compact_after_commits->0.number() ==> action is Done,
{
}

/// The maintenance of a table is looked after exactly if it is to be compacted or ordered after
/// some commits.
pub proof fn maintained_tables_are_looked_after(
    table_version: i64,
    config: DeltaTableConfig,
    schedule: bool,
)
    requires
        call_ensures(maybe_schedule_maintenance, (table_version, &config), schedule),
    ensures
        !schedule <==> config.compact_after_commits is None && config.z_order_after_commits is None,
{
}

} // verus!
