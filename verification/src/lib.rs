//! Decision-support engine for a falling-block stacking puzzle: given a board
//! snapshot, a held piece, and an upcoming piece queue, it searches for
//! reachable placements and ranks them, returning each as a rating plus a
//! discrete input sequence.

pub mod board;
pub mod clock;
pub mod color;
pub mod config;
pub mod error;
pub mod input;
pub mod job;
pub mod matrix;
pub mod ruleset;
pub mod search;
pub mod shape;
pub mod snapshot;
