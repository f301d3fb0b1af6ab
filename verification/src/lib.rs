//! Core of a personal daily-activity tracker: an append-only log of
//! state-transition entries kept in an embedded key-value store, with
//! validation of each write, per-state duration aggregation over a time
//! window, and a newest-first projection of recent transitions.

pub mod aggregate;
mod backend;
pub mod clock;
pub mod codec;
pub mod config;
pub mod entry;
mod errors;
pub mod handlers;
pub mod recent;
pub mod store;
pub mod validate;

pub use config::StateDetail;
pub use entry::Entry;
pub use errors::TrackerError;
pub use store::EventStore;
