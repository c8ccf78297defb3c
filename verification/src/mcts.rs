//! The search tree: nodes in a preallocated arena linked by index, and the integer
//! bookkeeping of a search.

pub mod arena;
pub mod evaluator;
pub mod node;
pub mod plan;
