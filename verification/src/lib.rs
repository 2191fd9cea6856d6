//! Deterministic timing engine for competitive events run on parallel tracks.
//!
//! Commands arrive as timestamped facts that may be delivered out of logical
//! order. The replay engine guarantees that the derived state is a function of
//! the set of received commands ordered by logical timestamp, not of arrival
//! order, while keeping the common in-order path cheap.

pub mod competition;
pub mod errors;
pub mod ids;
pub mod notify;
pub mod pending_queue;
pub mod record;
pub mod records;
pub mod replayer;
pub mod running_observer;
pub mod system;
pub mod timer;
pub mod track;
