//! What holds of the library as a whole, said of the values that go in and come out.

pub mod batches;
pub mod columns;
pub mod config;
pub mod dates;
pub mod delta_events;
pub mod destinations;
pub mod errors;
pub mod events;
pub mod grouping;
pub mod keys;
pub mod limits;
pub mod maintenance;
pub mod merging;
pub mod predicates;
pub mod registers;
pub mod schema;
pub mod secrets;
pub mod texts;
pub mod trials;
pub mod values;
