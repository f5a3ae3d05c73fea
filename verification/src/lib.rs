//! Low-overhead statement tracing for a database engine.
//!
//! An extension loaded into the engine captures each statement that runs and
//! how long it ran, hands it to a queue, and lets one worker persist what the
//! queue delivers. This crate holds the decisions of that pipeline, stated
//! and proved over plain values; the connection, the threads and the files
//! belong to its caller.
//!
//! - [`path`]: where the trace store lives, beside the primary store.
//! - [`schema`]: which statements a DDL script holds.
//! - [`bootstrap`]: applying the script to the trace store and checking the
//!   catalog.
//! - [`database`]: finding the primary store in a connection's database list.
//! - [`capture`]: what the hook sends for an event.
//! - [`worker`]: the queue's messages, the worker, and the pipeline as a whole.
//! - [`pipeline`]: what holds of every history of a pipeline.
//! - [`extension`]: the order in which a load sets all this up.

pub mod bootstrap;
pub mod capture;
pub mod database;
pub mod error;
pub mod extension;
pub mod path;
pub mod pipeline;
pub mod schema;
pub mod text;
pub mod worker;

pub use crate::bootstrap::create_trace_database;
pub use crate::database::get_database_path;
pub use crate::error::SqliteInstrumentError;
pub use crate::extension::extension_init;
pub use crate::path::create_trace_db_path;
