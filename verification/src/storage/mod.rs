//! Row records, their byte codec, and the in-memory catalog.

pub mod error;
pub mod storage_manager;
pub mod table_storage;
pub mod tuple;
pub mod tuple_serde;
pub mod types;
