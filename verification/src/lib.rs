//! A small table of replay records: a schema of labelled columns, an entity
//! store with sparse typed columns, and the edit session through which one
//! record's attribute set is staged and committed.

pub mod focus;
pub mod number;
pub mod label;
pub mod store;
pub mod replay_db;
pub mod input;
pub mod editor;
pub mod app;
pub mod replay_format;
