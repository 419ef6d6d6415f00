//! A verified tic-tac-toe core: a nine-cell immutable board with
//! terminal-state classification, and an exhaustive adversarial search
//! engine that picks optimal moves for the player whose turn it is.

pub mod board;
pub mod engine;
pub mod laws;

pub use board::Board;
pub use board::Player;
pub use board::Status;
pub use engine::Minimaxxing;
