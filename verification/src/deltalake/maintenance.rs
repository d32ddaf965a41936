//! When the files of Delta tables are rewritten.

use vstd::prelude::*;

use crate::deltalake::config::{CommitCount, DeltaTableConfig};
use crate::text;

verus! {

/// What happened during the maintenance of a table.
pub enum MaintenanceEvent<H> {
    /// There is a new version of the table.
    Requested,
    /// The task that was to be waited for has ended.
    Joined,
    /// The task was started.
    Spawned(H),
    /// The task has rewritten the files. The table has this version then, if it is known.
    Finished(Option<i64>),
    /// The task has failed.
    Failed,
}

/// What is to be done next for the maintenance of a table.
pub enum MaintenanceAction<H> {
    /// Wait for a task to end.
    Join(H),
    /// Start a task that compacts the files.
    Compact,
    /// Start a task that orders the files by these columns.
    ZOrder(Vec<String>),
    /// Nothing.
    Done,
}

/// Whether a table of a version is due, given the version after the last time and the number of
/// commits to wait for. A number that is no version is never reached.
pub open spec fn is_due(after_commits: Option<CommitCount>, table_version: i64, last: i64) -> bool {
    match after_commits {
        Some(commits) => commits.number() <= i64::MAX && table_version - last >= commits.number(),
        None => false,
    }
}

/// Whether there are columns to order a table by, and it is due.
pub open spec fn is_order_due(config: DeltaTableConfig, table_version: i64, last: i64) -> bool {
    match config.z_order_columns {
        Some(columns) => columns@.len() > 0 && is_due(
            config.z_order_after_commits,
            table_version,
            last,
        ),
        None => false,
    }
}

/// The version of a table after a task has ended, if it is known, or the version before.
pub open spec fn version_after(version: Option<i64>, table_version: i64) -> i64 {
    match version {
        Some(v) => v,
        None => table_version,
    }
}

fn due(after_commits: Option<CommitCount>, table_version: i64, last: i64) -> (due: bool)
    ensures
        due == is_due(after_commits, table_version, last),
{
    match after_commits {
        Some(commits) => {
            let threshold: u64 = commits.get();
            if threshold > i64::MAX as u64 {
                return false;
            }
            table_version as i128 - last as i128 >= threshold as i128
        },
        None => false,
    }
}

/// The versions that a table had after its maintenance, and the tasks that run.
#[derive(Debug)]
pub struct TableMaintenanceInner<H> {
    /// The version after the last compaction.
    pub last_compacted_version: i64,
    /// The version after the table was last ordered.
    pub last_zordered_version: i64,
    /// The task that compacts the files.
    pub compaction_task: Option<H>,
    /// The task that orders the files.
    pub zorder_task: Option<H>,
}

/// The maintenance of a table.
#[derive(Debug)]
pub struct TableMaintenanceState<H> {
    /// The versions and the tasks.
    pub inner: TableMaintenanceInner<H>,
}

impl<H> TableMaintenanceState<H> {
    /// The maintenance of a table that was never rewritten since this version.
    pub fn new(initial_version: i64) -> (state: Self)
        ensures
            state == (TableMaintenanceState {
                inner: TableMaintenanceInner::<H> {
                    last_compacted_version: initial_version,
                    last_zordered_version: initial_version,
                    compaction_task: None,
                    zorder_task: None,
                },
            }),
    {
        TableMaintenanceState {
            inner: TableMaintenanceInner {
                last_compacted_version: initial_version,
                last_zordered_version: initial_version,
                compaction_task: None,
                zorder_task: None,
            },
        }
    }

    /// Waits for the task that compacts the files to end, and starts another one if the table is
    /// due. A task is started only while none is known to run.
    pub fn maybe_run_compaction(
        &mut self,
        config: &DeltaTableConfig,
        table_version: i64,
        event: MaintenanceEvent<H>,
    ) -> (action: MaintenanceAction<H>)
        ensures
            final(self).inner.last_zordered_version == old(self).inner.last_zordered_version,
            final(self).inner.zorder_task == old(self).inner.zorder_task,
            final(self).inner.last_compacted_version == match event {
                MaintenanceEvent::Finished(version) => version_after(version, table_version),
                _ => old(self).inner.last_compacted_version,
            },
            final(self).inner.compaction_task == match event {
                MaintenanceEvent::Requested | MaintenanceEvent::Joined => None,
                MaintenanceEvent::Spawned(task) => Some(task),
                _ => old(self).inner.compaction_task,
            },
            action == match event {
                MaintenanceEvent::Requested | MaintenanceEvent::Joined => match old(
                    self,
                ).inner.compaction_task {
                    Some(task) => MaintenanceAction::Join(task),
                    None => if is_due(
                        config.compact_after_commits,
                        table_version,
                        old(self).inner.last_compacted_version,
                    ) {
                        MaintenanceAction::Compact
                    } else {
                        MaintenanceAction::Done
                    },
                },
                _ => MaintenanceAction::Done,
            },
    {
        match event {
            MaintenanceEvent::Requested | MaintenanceEvent::Joined => {
                match self.inner.compaction_task.take() {
                    Some(task) => MaintenanceAction::Join(task),
                    None => self.compact_if_due(config, table_version),
                }
            },
            MaintenanceEvent::Spawned(task) => {
                self.inner.compaction_task = Some(task);
                MaintenanceAction::Done
            },
            MaintenanceEvent::Finished(version) => {
                self.inner.last_compacted_version = match version {
                    Some(v) => v,
                    None => table_version,
                };
                MaintenanceAction::Done
            },
            MaintenanceEvent::Failed => MaintenanceAction::Done,
        }
    }

    fn compact_if_due(&self, config: &DeltaTableConfig, table_version: i64) -> (action:
        MaintenanceAction<H>)
        ensures
            action == if is_due(
                config.compact_after_commits,
                table_version,
                self.inner.last_compacted_version,
            ) {
                MaintenanceAction::<H>::Compact
            } else {
                MaintenanceAction::<H>::Done
            },
    {
        if due(config.compact_after_commits, table_version, self.inner.last_compacted_version) {
            MaintenanceAction::Compact
        } else {
            MaintenanceAction::Done
        }
    }

    /// Waits for the task that orders the files to end, and starts another one if the table is
    /// due and there are columns to order it by. A task is started only while none is known to
    /// run.
    pub fn maybe_run_zorder(
        &mut self,
        config: &DeltaTableConfig,
        table_version: i64,
        event: MaintenanceEvent<H>,
    ) -> (action: MaintenanceAction<H>)
        ensures
            final(self).inner.last_compacted_version == old(self).inner.last_compacted_version,
            final(self).inner.compaction_task == old(self).inner.compaction_task,
            final(self).inner.last_zordered_version == match event {
                MaintenanceEvent::Finished(version) => version_after(version, table_version),
                _ => old(self).inner.last_zordered_version,
            },
            final(self).inner.zorder_task == match event {
                MaintenanceEvent::Requested | MaintenanceEvent::Joined => None,
                MaintenanceEvent::Spawned(task) => Some(task),
                _ => old(self).inner.zorder_task,
            },
            match event {
                MaintenanceEvent::Requested | MaintenanceEvent::Joined => match old(
                    self,
                ).inner.zorder_task {
                    Some(task) => action == MaintenanceAction::Join(task),
                    None => orders_if_due(
                        action,
                        *config,
                        table_version,
                        old(self).inner.last_zordered_version,
                    ),
                },
                _ => action == MaintenanceAction::<H>::Done,
            },
    {
        match event {
            MaintenanceEvent::Requested | MaintenanceEvent::Joined => {
                match self.inner.zorder_task.take() {
                    Some(task) => MaintenanceAction::Join(task),
                    None => self.order_if_due(config, table_version),
                }
            },
            MaintenanceEvent::Spawned(task) => {
                self.inner.zorder_task = Some(task);
                MaintenanceAction::Done
            },
            MaintenanceEvent::Finished(version) => {
                self.inner.last_zordered_version = match version {
                    Some(v) => v,
                    None => table_version,
                };
                MaintenanceAction::Done
            },
            MaintenanceEvent::Failed => MaintenanceAction::Done,
        }
    }

    fn order_if_due(&self, config: &DeltaTableConfig, table_version: i64) -> (action:
        MaintenanceAction<H>)
        ensures
            orders_if_due(action, *config, table_version, self.inner.last_zordered_version),
    {
        match &config.z_order_columns {
            Some(columns) => {
                if columns.len() > 0 && due(
                    config.z_order_after_commits,
                    table_version,
                    self.inner.last_zordered_version,
                ) {
                    return MaintenanceAction::ZOrder(text::copied_texts(columns.as_slice()));
                }
                MaintenanceAction::Done
            },
            None => MaintenanceAction::Done,
        }
    }
}

/// Whether an action orders a table by its columns if it is due, and does nothing otherwise.
pub open spec fn orders_if_due<H>(
    action: MaintenanceAction<H>,
    config: DeltaTableConfig,
    table_version: i64,
    last: i64,
) -> bool {
    if is_order_due(config, table_version, last) {
        action matches MaintenanceAction::ZOrder(columns) && text::texts(columns@) == text::texts(
            config.z_order_columns->0@,
        )
    } else {
        action is Done
    }
}

/// A table is not due again at the version that its last maintenance left it in.
pub proof fn maintenance_is_not_repeated(after_commits: Option<CommitCount>, table_version: i64)
    requires
        after_commits matches Some(commits) ==> commits.number() > 0,
    ensures
        !is_due(after_commits, table_version, table_version),
{
}

/// A table that is due stays due with every later version, until its next maintenance.
pub proof fn tables_stay_due(
    after_commits: Option<CommitCount>,
    table_version: i64,
    later_version: i64,
    last: i64,
)
    requires
        is_due(after_commits, table_version, last),
        table_version <= later_version,
    ensures
        is_due(after_commits, later_version, last),
{
}

} // verus!
