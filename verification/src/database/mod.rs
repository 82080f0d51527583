//! Statements, bound values and rows, as they pass between the library and
//! the engine that runs statements.

pub mod query;
pub mod value;

pub use query::{Column, ColumnIndex, Query, Row};
pub use value::{Value, Values};
