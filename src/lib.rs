//! A versioned local store for a hierarchical task list: schema registry and
//! migrations, the document codec, the mutation protocol, the daily backfill
//! and the selection cursors of the terminal front end.

pub mod date;
pub mod grid;
pub mod json;
pub mod keys;
pub mod sort;
pub mod task;
pub mod project;
pub mod schema;
pub mod state;
pub mod store;
