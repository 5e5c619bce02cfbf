//! Skill-adaptive golf wagering: the discrete rules of the game.
//!
//! The target catalog and the banding of targets into club categories; the
//! schedule on which pending shot batches are handed to the skill filter;
//! configuration checks; the tournament leaderboard order and paid places;
//! venue heatmap cells and the multiplier histogram; and the scoring rules
//! of the exploitation checks.

pub mod anti_cheat;
pub mod config;
pub mod hole;
pub mod schedule;
pub mod tournament;
pub mod venue;
