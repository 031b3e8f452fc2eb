//! Two daily word puzzles and the session rules that carry their progress.

pub mod errors;
pub mod game;
pub mod groupthem;
pub mod models;
pub mod provider;
pub mod reply;
pub mod session;
pub mod text;
pub mod token;
pub mod wordguess;
