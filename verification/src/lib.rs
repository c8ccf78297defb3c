//! Snake reinforcement-learning engine: the grid rules, a compact simulation state
//! for tree search, its one-hot observation encoding, the step logic of the
//! entity-component engine, and the search-tree storage.

pub mod app;
pub mod domain;
pub mod random;
pub mod lite_state;
pub mod ecs;
pub mod parity;
pub mod mcts;
pub mod inference_bridge;
pub mod requests;
