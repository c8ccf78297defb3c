//! The step logic of the entity-component engine, over its resources.

pub mod resources;
pub mod systems;
