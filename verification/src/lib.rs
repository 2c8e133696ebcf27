//! Verified core of a chat command that shows a daily private Advent of Code
//! leaderboard.
//!
//! The core resolves the command's arguments into a validated parameter set,
//! ranks the members of a fetched leaderboard snapshot (dense ranking over
//! descending local score, zero-star members filtered out, the result
//! paginated), renders the ranked rows into a bounded HTML fragment, and
//! classifies failures of the two outward calls (fetch and delivery) into
//! user-facing replies versus propagated faults.
//!
//! Transport, authentication and argument tokenization live outside this
//! crate; they hand plain values in and take plain values back.

pub mod args;
pub mod directory;
pub mod member;
pub mod params;
pub mod rank;
pub mod render;
pub mod report;
pub mod text;
pub mod time;
