//! The query-building core: values, columns, filters and insert statements,
//! each with an exact, character-level rendering contract.

pub mod column;
pub mod filter;
pub mod insert;
pub mod placeholders;
pub mod render;
pub mod value;
