use std::collections::VecDeque;

use rand::rngs::StdRng;

use vstd::prelude::*;

use crate::domain::action::{Direction, RelativeAction};
use crate::domain::rules::{board_fits, in_bounds};
use crate::domain::state::Position;

verus! {

/// Construction parameters of a compact state.
#[derive(Debug, Clone, Copy)]
pub struct LiteStateConfig {
    pub width: usize,
    pub height: usize,
    pub max_steps: u32,
    /// Steps without eating after which the episode is cut short.
    pub starvation_limit: u32,
    pub seed: Option<u64>,
}

/// What one step did. The reward is in hundredths of a point.
#[derive(Debug, Clone, Copy, PartialEq, Eq, Structural)]
pub struct StepOutcome {
    pub reward_centi: i32,
    pub terminated: bool,
    pub truncated: bool,
    pub ate_food: bool,
}

/// The whole game state of one episode, cheap to copy for tree search.
#[derive(Debug, Clone)]
pub struct SnakeStateLite {
    pub width: usize,
    pub height: usize,
    pub body: VecDeque<Position>,
    pub dir: Direction,
    pub food: Position,
    pub pending_growth: u32,
    pub steps: u32,
    pub score: u32,
    pub terminated: bool,
    pub truncated: bool,
    pub max_steps: u32,
    pub starvation_limit: u32,
    pub steps_since_food: u32,
    pub pending_action: RelativeAction,
    pub rng: StdRng,
}

/// The game state without its random generator, as mathematical values.
pub struct LiteModel {
    pub width: usize,
    pub height: usize,
    pub body: Seq<Position>,
    pub dir: Direction,
    pub food: Position,
    pub pending_growth: u32,
    pub steps: u32,
    pub score: u32,
    pub terminated: bool,
    pub truncated: bool,
    pub max_steps: u32,
    pub starvation_limit: u32,
    pub steps_since_food: u32,
    pub pending_action: RelativeAction,
}

impl View for SnakeStateLite {
    type V = LiteModel;

    open spec fn view(&self) -> LiteModel {
        LiteModel {
            width: self.width,
            height: self.height,
            body: self.body@,
            dir: self.dir,
            food: self.food,
            pending_growth: self.pending_growth,
            steps: self.steps,
            score: self.score,
            terminated: self.terminated,
            truncated: self.truncated,
            max_steps: self.max_steps,
            starvation_limit: self.starvation_limit,
            steps_since_food: self.steps_since_food,
            pending_action: self.pending_action,
        }
    }
}

impl LiteModel {
    /// The state's invariant: a valid board within the machine limits, a non-empty
    /// snake whose segments all lie on the board, and food on the board.
    pub open spec fn wf(self) -> bool {
        &&& self.width >= 5
        &&& self.height >= 5
        &&& board_fits(self.width, self.height)
        &&& self.body.len() > 0
        &&& forall|i: int|
            0 <= i < self.body.len() ==> in_bounds(
                #[trigger] self.body[i],
                self.width as int,
                self.height as int,
            )
        &&& in_bounds(self.food, self.width as int, self.height as int)
    }
}

} // verus!
