//! Game rules shared by every engine: actions, configuration, positions and collisions.

pub mod action;
pub mod config;
pub mod flood;
pub mod observation;
pub mod rules;
pub mod state;
