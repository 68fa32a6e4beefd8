//! A verified game-state engine for a small "reveal one card per turn"
//! bridge-table visualizer: a 52-card deck is shuffled, dealt round-robin to
//! four players, and cards are then revealed one per turn in a fixed rotation.

pub mod board;
pub mod card;
pub mod game;
mod rng;
