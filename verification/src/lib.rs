//! Verified core of a calendar mirror: record mapping, merge-into-store,
//! and the paginated drain state machine with incremental-sync cursors.

pub mod clock;
pub mod database;
pub mod engine;
pub mod event;
pub mod keyed;
