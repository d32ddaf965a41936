//! A destination that merges replicated changes into Delta tables.

pub mod columns;
pub mod config;
pub mod destination;
pub mod events;
pub mod expr;
pub mod maintenance;
pub mod opening;
pub mod operations;
pub mod schema;
pub mod util;
