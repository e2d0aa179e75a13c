//! Core of a reservation-slot sniper: it races a bounded number of
//! concurrently launched probe attempts against a remote availability
//! service, returns the slots of the earliest-launched success, and on
//! total failure aggregates a diagnostic report that tells apart
//! attempts that could not run (infrastructure failures) from attempts
//! that ran and found nothing usable (domain failures).
//!
//! The library holds the decisions of one orchestration run: the
//! scheduler's bookkeeping, the classification of each attempt's
//! terminal state, the race resolution, and the failure report. The
//! caller drives the concurrency and the network round trips and hands
//! their results in as plain values.

pub mod config;
pub mod datetime;
pub mod sniping_banana;
pub mod utils;
