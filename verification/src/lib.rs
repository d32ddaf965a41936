//! Destinations for replicated Postgres tables.

pub mod batch;
pub mod config;
pub mod delta;
pub mod deltalake;
pub mod error;
pub mod iceberg_errors;
pub mod kernel;
pub mod laws;
pub mod replicator;
pub mod text;
pub mod types;
