//! Encoding of rows in Apache Arrow.

pub mod array;
pub mod cells;
pub mod data_type;
pub mod elements;
pub mod encoding;
pub mod limits;
pub mod lists;

pub use array::EncodedBatch;
pub use data_type::{DataType, Field, Schema, TimeUnit};
pub use encoding::{BatchError, rows_to_record_batch};
pub use limits::try_rows_to_record_batch;
