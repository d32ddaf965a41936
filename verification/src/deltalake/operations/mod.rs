//! Operations on Delta tables.

pub mod merge;

pub use merge::{MergeError, MergePlan, merge_to_table, source_qualified_column_expr};
