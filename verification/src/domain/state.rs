use std::collections::VecDeque;

use vstd::prelude::*;

use crate::domain::action::Direction;

verus! {

broadcast use vstd::std_specs::vecdeque::group_vec_dequeue_axioms;

/// A grid cell; `x` grows to the right and `y` grows downwards.
#[derive(Debug, Clone, Copy, PartialEq, Eq, Hash, Structural)]
pub struct Position {
    pub x: i32,
    pub y: i32,
}

impl Position {
    pub fn new(x: i32, y: i32) -> (p: Position)
        ensures
            p == (Position { x, y }),
    {
        Position { x, y }
    }
}

/// Whether `pos` is one of the segments of `body`.
pub open spec fn seq_contains_pos(body: Seq<Position>, pos: Position) -> bool {
    exists|i: int| 0 <= i < body.len() && body[i] == pos
}

/// The snake of the entity-component engine: segments from head to tail,
/// its heading, and the growth it still owes.
#[derive(Debug, Clone)]
pub struct SnakeState {
    pub body: VecDeque<Position>,
    pub direction: Direction,
    pub pending_growth: u32,
}

impl SnakeState {
    /// The first segment of the body.
    pub fn head(&self) -> (p: Position)
        requires
            self.body@.len() > 0,
        ensures
            p == self.body@[0],
    {
        self.body[0]
    }

    /// Whether some segment of the body lies at `pos`.
    pub fn contains(&self, pos: Position) -> (b: bool)
        ensures
            b == seq_contains_pos(self.body@, pos),
    {
        vec_deque_contains(&self.body, pos)
    }
}

/// Whether some element of `body` equals `pos`.
pub fn vec_deque_contains(body: &VecDeque<Position>, pos: Position) -> (b: bool)
    ensures
        b == seq_contains_pos(body@, pos),
{
    let n = body.len();
    let mut i: usize = 0;
    while i < n
        invariant
            n == body@.len(),
            i <= n,
            forall|j: int| 0 <= j < i ==> body@[j] != pos,
        decreases n - i,
    {
        if body[i] == pos {
            return true;
        }
        i = i + 1;
    }
    false
}

} // verus!
