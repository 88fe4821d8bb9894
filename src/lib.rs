//! Front end of a minimal single-table data store: command classification,
//! decoding of `insert` statements into fixed-width rows, and the in-memory
//! table those rows are appended to.

pub mod command;
pub mod fixed;
pub mod grammar;
pub mod row;
pub mod session;
pub mod table;
