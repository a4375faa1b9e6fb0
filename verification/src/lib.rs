//! A small in-memory relational engine: SQL text is lexed, parsed, translated
//! against a catalog into a logical plan, and executed by pull-based operators
//! over schema-directed byte records.

pub mod evaluate;
pub mod execution;
pub mod parser;
pub mod planner;
pub mod storage;
pub mod text;
pub mod translate;
