//! Batching of leaf evaluations for the network: the batching decisions.

pub mod coordinator;
