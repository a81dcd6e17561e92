//! Write path and table-lifecycle core of an analytic storage engine.
//!
//! The crate covers three pieces: the create/open/close/drop table state
//! machine and its interaction with the durable manifest, the deterministic
//! routing of per-table commands to write-worker lanes, and the log-entry
//! abstraction used by the write-ahead log — typed payload encode/decode,
//! batching, and per-region sequence numbering assigned by the log manager
//! at append time.

pub mod engine;
pub mod error;
pub mod ids;
pub mod instance;
pub mod log_batch;
pub mod meta;
pub mod meta_codec;
pub mod requests;
pub mod space;
pub mod table_options;
pub mod wal_manager;
