//! A verified supervisor for long-lived review-monitor processes.
//!
//! The crate tracks one record per monitoring session, enforces the
//! lifecycle state machine over those records, parses the marker lines
//! that a monitor child process writes on its output stream, and keeps
//! the table of live process handles consistent with the records.
//! Spawning, killing and stream reading are performed by the embedding
//! program; every decision about what those actions mean for the stored
//! state is made here, under contract.

pub mod ambient;
pub mod events;
pub mod power;
pub mod pr_meta;
pub mod record;
pub mod registry;
pub mod relay;
pub mod status;
pub mod store;
pub mod supervisor;
pub mod text;
