//! Scheduling of the entity-component engine.

pub mod schedules;
