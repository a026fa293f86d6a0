//! Core logic of a parkour route and leaderboard service: route slugs,
//! the registry of maps and their routes, score submission and rival
//! recording lookup protocols, log line formatting and the save timer.

pub mod text;
pub mod slug;
pub mod log;
pub mod registry;
pub mod scores;
pub mod persistence;
