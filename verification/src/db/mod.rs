//! The database: its schema, what is asked of it and what is written to it.

pub mod albums;
pub mod config_overrides;
pub mod library;
pub mod query;
pub mod schema;
pub mod state_kv;
pub mod tracks;
pub mod udf;
