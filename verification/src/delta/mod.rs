//! A destination that writes encoded rows to Delta tables.

pub mod changes;
pub mod client;
pub mod destination;
pub mod encoding;
pub mod key_set;
pub mod keys;
pub mod row_keys;
pub mod schema;
pub mod steps;

pub use client::DeltaLakeClient;
pub use encoding::TableRowEncoder;
pub use key_set::KeySet;
