//! A predicate algebra and statement builder: an in-memory representation of
//! filter conditions and insert operations is compiled into parameterized SQL
//! text. Filters are trees of comparisons joined by a single operator per
//! level; inserts carry a column list, a placeholder list and a conflict
//! policy. Every rendering operation is specified exactly, down to the
//! character, by spec-level rendering functions.

pub mod http;
pub mod model;
