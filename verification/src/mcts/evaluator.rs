use vstd::prelude::*;

verus! {

/// An evaluator that answers every state with a zero value and a uniform policy.
#[derive(Debug, Clone, Copy)]
pub struct StubEvaluator;

} // verus!
