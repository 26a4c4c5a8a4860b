//! Match-liveness tracking and slot assignment for competition scouting.
//!
//! The library decides which match is currently live for an event, using a
//! cached, rate-limited view of an external schedule feed, and allocates
//! scouts to one of six fixed observation stations per match.  All state is
//! in memory and scoped to the process lifetime.

pub mod assignments;
pub mod assoc;
pub mod data;
pub mod numerals;

