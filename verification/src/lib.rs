//! A durable key-value cache with time-to-live expiry: the engine that turns
//! cache operations into single statements against one persisted table and
//! reads the replies back.
//!
//! The engine never touches storage itself. Each operation is planned here as
//! a statement; a driver runs that one statement against the table and hands
//! the reply to the engine, which decides what the caller gets.
//!
//! - [`key`]: from an application key to the identifier of its row.
//! - [`time`]: instants, times to live, and the RFC 3339 text of an expiry.
//! - [`canonical`], [`calendar`], [`text_order`]: the one shape in which the
//!   engine writes an expiry, and why that shape sorts by time.
//! - [`statement`]: the four statements and their SQL.
//! - [`cache`]: the cache and its operations.
//! - [`error`]: what can go wrong.
//! - [`table`], [`laws`]: the table as the statements leave it, and what
//!   holds of the operations taken together.

pub mod error;
pub mod key;
pub mod time;
pub mod statement;
pub mod table;
pub mod cache;
pub mod calendar;
pub mod canonical;
pub mod text_order;
pub mod laws;

pub use cache::Cache;
pub use cache::Fetched;
pub use error::Error;
pub use error::ErrorKind;
pub use error::Fault;
pub use error::Stage;
pub use key::Identifier;
pub use statement::Statement;
pub use time::TimeToLive;
pub use time::Timestamp;
