//! The events of a replication stream.

use vstd::prelude::*;

use crate::types::cell::TableRow;
use crate::types::schema::{TableId, TableSchema};

verus! {

/// A position in the write-ahead log.
#[derive(Debug, Clone, Copy, PartialEq, Eq, Hash, Structural)]
pub struct PgLsn(pub u64);

/// The start of a transaction.
#[derive(Debug, Clone, PartialEq)]
pub struct BeginEvent {
    /// Where the transaction starts.
    pub start_lsn: PgLsn,
    /// Where the transaction commits.
    pub commit_lsn: PgLsn,
}

/// The end of a transaction.
#[derive(Debug, Clone, PartialEq)]
pub struct CommitEvent {
    /// Where the event stands.
    pub start_lsn: PgLsn,
    /// Where the transaction commits.
    pub commit_lsn: PgLsn,
}

/// A new row.
#[derive(Debug, Clone, PartialEq)]
pub struct InsertEvent {
    /// Where the event stands.
    pub start_lsn: PgLsn,
    /// Where the transaction commits.
    pub commit_lsn: PgLsn,
    /// The table.
    pub table_id: TableId,
    /// The new row.
    pub table_row: TableRow,
}

/// A changed row.
#[derive(Debug, Clone, PartialEq)]
pub struct UpdateEvent {
    /// Where the event stands.
    pub start_lsn: PgLsn,
    /// Where the transaction commits.
    pub commit_lsn: PgLsn,
    /// The table.
    pub table_id: TableId,
    /// The row after the change.
    pub table_row: TableRow,
    /// The row before the change, and whether it holds the key columns only.
    pub old_table_row: Option<(bool, TableRow)>,
}

/// A removed row.
#[derive(Debug, Clone, PartialEq)]
pub struct DeleteEvent {
    /// Where the event stands.
    pub start_lsn: PgLsn,
    /// Where the transaction commits.
    pub commit_lsn: PgLsn,
    /// The table.
    pub table_id: TableId,
    /// The removed row, and whether it holds the key columns only.
    pub old_table_row: Option<(bool, TableRow)>,
}

/// A change to the shape of a table.
#[derive(Debug, Clone, PartialEq)]
pub struct RelationEvent {
    /// Where the event stands.
    pub start_lsn: PgLsn,
    /// Where the transaction commits.
    pub commit_lsn: PgLsn,
    /// The new shape.
    pub table_schema: TableSchema,
}

/// The removal of all rows of some tables.
#[derive(Debug, Clone, PartialEq)]
pub struct TruncateEvent {
    /// Where the event stands.
    pub start_lsn: PgLsn,
    /// Where the transaction commits.
    pub commit_lsn: PgLsn,
    /// The options of the statement.
    pub options: i8,
    /// The tables.
    pub rel_ids: Vec<u32>,
}

/// An event of a replication stream.
#[derive(Debug, Clone, PartialEq)]
pub enum Event {
    /// The start of a transaction.
    Begin(BeginEvent),
    /// The end of a transaction.
    Commit(CommitEvent),
    /// A new row.
    Insert(InsertEvent),
    /// A changed row.
    Update(UpdateEvent),
    /// A removed row.
    Delete(DeleteEvent),
    /// A change to the shape of a table.
    Relation(RelationEvent),
    /// The removal of all rows of some tables.
    Truncate(TruncateEvent),
    /// Anything else.
    Unsupported,
}

} // verus!
