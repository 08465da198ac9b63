//! A polling monitor for batches submitted to a distributed ledger.
//!
//! The monitor reads the ids of the batches that are still pending from a store,
//! asks each service for the statuses of its batches, and hands the statuses
//! that came back to an updater. On the way it reports every step to observers.
//!
//! The decisions are here; what has to be awaited (a status request, a wake-up
//! call, an observer) is awaited by the caller, who hands back what came of it.

pub mod base;
pub mod event;
pub mod laws;
pub mod monitor;
pub mod requests;
pub mod responses;
pub mod runs;
pub mod seqs;
pub mod text;
