use vstd::prelude::*;

verus! {

/// The schedule that runs one environment step: apply the action, move, resolve,
/// write the observation.
#[derive(Debug, Clone, Copy, PartialEq, Eq, Hash, Structural)]
pub struct SnakeStepSchedule;

} // verus!
