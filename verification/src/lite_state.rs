//! A compact copy of the game state for tree search: its step rules and its encoding.

pub mod dynamics;
pub mod encoding;
pub mod types;
