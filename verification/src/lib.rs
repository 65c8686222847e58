//! A small personal ledger: monetary entries kept as a JSON array in a text
//! file. The library holds the record schema, the canonical JSON codec for
//! the persisted array, and the store operations (load, append, remove,
//! update, list, detail) as pure functions from file content to file content.

pub mod cli;
pub mod codec;
pub mod item;
pub mod laws;
pub mod render;

