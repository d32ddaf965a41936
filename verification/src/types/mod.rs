//! Tables, rows and events as they come from Postgres.

pub mod cell;
pub mod debug;
pub mod event;
pub mod grouping;
pub mod schema;
pub mod temporal;

pub use cell::{ArrayCell, Cell, Json, PgNumeric, Row, TableRow, Uuid};
pub use event::{
    BeginEvent, CommitEvent, DeleteEvent, Event, InsertEvent, PgLsn, RelationEvent, TruncateEvent,
    UpdateEvent,
};
pub use schema::{ColumnSchema, PgType, TableId, TableName, TableSchema, is_array_type};
pub use temporal::{Date, Time, Timestamp};
