//! Identity and state-history tracking for the items that appear in a
//! recorded two-player match.
//!
//! Each frame of a match carries an optional list of item observations.
//! Observations are classified into a small closed taxonomy of items
//! (`item`), merged per persistent item identifier into a compact history
//! of state changes (`log`), and may then be narrowed to one player's items
//! and turned into storage commands (`record`). `metadata` picks out the
//! two players of a match and the port of the player being tracked.
//! `guarantees` proves what holds of every log built from a match.

pub mod item;
pub mod log;
pub mod metadata;
pub mod guarantees;
pub mod record;
