use std::collections::VecDeque;

use rand::rngs::StdRng;

use vstd::prelude::*;

use crate::domain::action::{Direction, RelativeAction};
use crate::domain::rules::{
    board_fits, collision_window, food_placement, food_sample_ok, in_bounds, place_food, prefix_contains,
    sat_inc, spec_collides, spec_next_head, spec_out_of_bounds, REWARD_DEATH_CENTI,
    REWARD_FOOD_CENTI, REWARD_STEP_CENTI,
};
use crate::domain::state::{seq_contains_pos, Position};
use crate::random::{rng_from_entropy, rng_from_seed, seeded_rng};

use super::types::{LiteModel, LiteStateConfig, SnakeStateLite, StepOutcome};

verus! {

broadcast use vstd::std_specs::vecdeque::group_vec_dequeue_axioms;

/// The three-segment snake in the middle of the board, heading right.
pub open spec fn spec_initial_body(width: usize, height: usize) -> Seq<Position> {
    let cx = (width / 2) as i32;
    let cy = (height / 2) as i32;
    seq![
        Position { x: cx, y: cy },
        Position { x: (cx - 1) as i32, y: cy },
        Position { x: (cx - 2) as i32, y: cy },
    ]
}

/// The state at the start of an episode, with its food at `food`.
pub open spec fn spec_reset(m: LiteModel, food: Position) -> LiteModel {
    LiteModel {
        body: spec_initial_body(m.width, m.height),
        dir: Direction::Right,
        food,
        pending_growth: 0,
        steps: 0,
        score: 0,
        terminated: false,
        truncated: false,
        steps_since_food: 0,
        pending_action: RelativeAction::Straight,
        ..m
    }
}

/// The cell that the head moves to under `action`.
pub open spec fn lite_next_head(m: LiteModel, action: RelativeAction) -> Position {
    spec_next_head(m.body[0], m.dir.spec_apply_relative(action))
}

/// The body right after the head has moved and before the tail follows; new food is
/// placed off this body.
pub open spec fn lite_grown_body(m: LiteModel, action: RelativeAction) -> Seq<Position> {
    seq![lite_next_head(m, action)] + m.body
}

/// Whether `action` kills the snake: the head leaves the board or runs into the body.
pub open spec fn lite_step_dies(m: LiteModel, action: RelativeAction) -> bool {
    let next_head = lite_next_head(m, action);
    spec_out_of_bounds(next_head, m.width, m.height) || spec_collides(
        next_head,
        m.body,
        m.pending_growth,
    )
}

/// One step of the game. A finished episode does not move and scores 0. Otherwise the
/// heading turns, and a head that leaves the board or runs into the body ends the
/// episode with the step and death rewards. Else the head advances; on the food it
/// eats (food reward, score, one segment of growth, starvation clock reset, new food at
/// `sampled_food`); the tail follows unless growth is owed. The episode is cut short at
/// `max_steps` steps or after `starvation_limit` steps without food.
pub open spec fn lite_step(m: LiteModel, action: RelativeAction, sampled_food: Position) -> (
    LiteModel,
    StepOutcome,
) {
    if m.terminated || m.truncated {
        (
            m,
            StepOutcome {
                reward_centi: 0,
                terminated: m.terminated,
                truncated: m.truncated,
                ate_food: false,
            },
        )
    } else {
        let dir = m.dir.spec_apply_relative(action);
        let next_head = lite_next_head(m, action);
        if lite_step_dies(m, action) {
            (
                LiteModel { dir, pending_action: action, terminated: true, steps: sat_inc(m.steps), ..m },
                StepOutcome {
                    reward_centi: (REWARD_STEP_CENTI + REWARD_DEATH_CENTI) as i32,
                    terminated: true,
                    truncated: m.truncated,
                    ate_food: false,
                },
            )
        } else {
            let grown = lite_grown_body(m, action);
            let ate = next_head == m.food;
            let growth = if ate { sat_inc(m.pending_growth) } else { m.pending_growth };
            let body = if growth > 0 { grown } else { grown.drop_last() };
            let pending_growth = if growth > 0 { (growth - 1) as u32 } else { growth };
            let steps = sat_inc(m.steps);
            let steps_since_food = if ate { 0 } else { sat_inc(m.steps_since_food) };
            let truncated = steps >= m.max_steps || steps_since_food >= m.starvation_limit;
            (
                LiteModel {
                    body,
                    dir,
                    food: if ate { sampled_food } else { m.food },
                    pending_growth,
                    steps,
                    score: if ate { sat_inc(m.score) } else { m.score },
                    terminated: false,
                    truncated,
                    steps_since_food,
                    pending_action: action,
                    ..m
                },
                StepOutcome {
                    reward_centi: if ate { (REWARD_STEP_CENTI + REWARD_FOOD_CENTI) as i32 } else { REWARD_STEP_CENTI },
                    terminated: false,
                    truncated,
                    ate_food: ate,
                },
            )
        }
    }
}

/// One step played with the state's own generator: new food, when the snake eats, is
/// placed from `rng` (`food_placement` off the body before the tail moves), and the
/// generator advances only then.
pub open spec fn lite_seeded_step(m: LiteModel, rng: StdRng, action: RelativeAction) -> (
    LiteModel,
    StdRng,
    StepOutcome,
) {
    let (food, rng_after) = food_placement(m.width, m.height, lite_grown_body(m, action), rng);
    let (post, out) = lite_step(m, action, food);
    (post, if out.ate_food { rng_after } else { rng }, out)
}

/// The step laws in the trait form that search code uses.
pub trait SnakeDynamics {
    /// The state's invariant.
    spec fn dynamics_ready(&self) -> bool;

    fn legal_actions(&self) -> [bool; 3];

    fn apply(&mut self, action: RelativeAction) -> (out: StepOutcome)
        requires
            old(self).dynamics_ready(),
        ensures
            final(self).dynamics_ready(),
    ;

    fn is_terminal(&self) -> bool;
}

/// Parameters that the constructor accepts.
pub open spec fn lite_config_accepts(config: LiteStateConfig) -> bool {
    config.width >= 5 && config.height >= 5 && config.max_steps > 0
}

impl SnakeStateLite {
    /// Whether the state satisfies its invariant.
    pub open spec fn wf(&self) -> bool {
        self@.wf()
    }

    /// Builds a state from its parameters and starts the first episode. The generator is
    /// seeded from `config.seed`, or from the operating system when there is none.
    pub fn new(config: LiteStateConfig) -> (r: Result<SnakeStateLite, String>)
        requires
            lite_config_accepts(config) ==> board_fits(config.width, config.height),
        ensures
            match r {
                Ok(s) => {
                    &&& lite_config_accepts(config)
                    &&& s.wf()
                    &&& s.width == config.width
                    &&& s.height == config.height
                    &&& s.max_steps == config.max_steps
                    &&& s.starvation_limit == config.starvation_limit
                    &&& s@ == spec_reset(s@, s.food)
                    &&& food_sample_ok(s.food, s.width, s.height, s.body@)
                    &&& config.seed matches Some(k) ==> (s.food, s.rng) == food_placement(
                        config.width,
                        config.height,
                        spec_initial_body(config.width, config.height),
                        seeded_rng(k),
                    )
                },
                Err(msg) => if config.width < 5 || config.height < 5 {
                    msg@ == "width and height must both be >= 5"@
                } else {
                    config.max_steps == 0 && msg@ == "max_steps must be > 0"@
                },
            },
    {
        if config.width < 5 || config.height < 5 {
            return Err(String::from_str("width and height must both be >= 5"));
        }
        if config.max_steps == 0 {
            return Err(String::from_str("max_steps must be > 0"));
        }
        let rng = match config.seed {
            Some(seed) => rng_from_seed(seed),
            None => rng_from_entropy(),
        };
        let mut state = SnakeStateLite {
            width: config.width,
            height: config.height,
            body: VecDeque::new(),
            dir: Direction::Right,
            food: Position::new(0, 0),
            pending_growth: 0,
            steps: 0,
            score: 0,
            terminated: false,
            truncated: false,
            max_steps: config.max_steps,
            starvation_limit: config.starvation_limit,
            steps_since_food: 0,
            pending_action: RelativeAction::Straight,
            rng,
        };
        state.reset();
        Ok(state)
    }

    /// Starts a new episode on the same board: the initial snake, zeroed counters, and
    /// food placed off the snake.
    pub fn reset(&mut self)
        requires
            old(self).width >= 5,
            old(self).height >= 5,
            board_fits(old(self).width, old(self).height),
        ensures
            final(self)@ == spec_reset(old(self)@, final(self).food),
            (final(self).food, final(self).rng) == food_placement(
                old(self).width,
                old(self).height,
                spec_initial_body(old(self).width, old(self).height),
                old(self).rng,
            ),
            food_sample_ok(final(self).food, final(self).width, final(self).height, final(self).body@),
            final(self).wf(),
    {
        self.body = initial_body(self.width, self.height);
        self.dir = Direction::Right;
        self.pending_growth = 0;
        self.steps = 0;
        self.score = 0;
        self.terminated = false;
        self.truncated = false;
        self.steps_since_food = 0;
        self.pending_action = RelativeAction::Straight;
        self.food = sample_free_position(
            self.width,
            self.height,
            &self.body,
            self.pending_growth,
            &mut self.rng,
        );
        proof {
            assert(3 < self.width as int * self.height as int) by (nonlinear_arith)
                requires
                    self.width >= 5,
                    self.height >= 5,
            ;
        }
    }

    /// The first segment of the body.
    pub fn head(&self) -> (p: Position)
        requires
            self.body@.len() > 0,
        ensures
            p == self.body@[0],
    {
        self.body[0]
    }

    /// Plays one step; see `lite_step`. New food, when the snake eats, comes from the
    /// generator and satisfies `food_sample_ok` for the body before the tail moved; the
    /// generator is left alone otherwise.
    pub fn apply_in_place(&mut self, action: RelativeAction) -> (out: StepOutcome)
        requires
            old(self).wf(),
        ensures
            final(self).wf(),
            (final(self)@, out) == lite_step(old(self)@, action, final(self).food),
            out.ate_food ==> food_sample_ok(
                final(self).food,
                final(self).width,
                final(self).height,
                lite_grown_body(old(self)@, action),
            ),
            !out.ate_food ==> final(self).rng == old(self).rng,
            (final(self)@, final(self).rng, out) == lite_seeded_step(old(self)@, old(self).rng, action),
    {
        if self.terminated || self.truncated {
            return StepOutcome {
                reward_centi: 0,
                terminated: self.terminated,
                truncated: self.truncated,
                ate_food: false,
            };
        }
        let ghost m = self@;

        self.pending_action = action;
        self.dir = self.dir.apply_relative(action);

        let head = self.head();
        let (dx, dy) = self.dir.delta();
        assert(in_bounds(head, self.width as int, self.height as int));
        let next_head = Position::new(head.x + dx, head.y + dy);
        assert(next_head == lite_next_head(m, action));

        let mut reward = REWARD_STEP_CENTI;
        if is_out_of_bounds(next_head, self.width, self.height) || collides_with_body(
            next_head,
            &self.body,
            self.pending_growth,
        ) {
            reward = reward + REWARD_DEATH_CENTI;
            self.terminated = true;
            self.steps = self.steps.saturating_add(1);
            return StepOutcome {
                reward_centi: reward,
                terminated: self.terminated,
                truncated: self.truncated,
                ate_food: false,
            };
        }
        self.body.push_front(next_head);
        assert(self.body@ == lite_grown_body(m, action));
        let ate_food = next_head == self.food;
        if ate_food {
            reward = reward + REWARD_FOOD_CENTI;
            self.score = self.score.saturating_add(1);
            self.pending_growth = self.pending_growth.saturating_add(1);
            self.steps_since_food = 0;
            proof {
                assert(self.body@.len() > 0);
            }
            self.food = sample_free_position(
                self.width,
                self.height,
                &self.body,
                self.pending_growth,
                &mut self.rng,
            );
        } else {
            self.steps_since_food = self.steps_since_food.saturating_add(1);
        }

        if self.pending_growth > 0 {
            self.pending_growth = self.pending_growth - 1;
        } else {
            self.body.pop_back();
        }

        self.steps = self.steps.saturating_add(1);
        if self.steps >= self.max_steps || self.steps_since_food >= self.starvation_limit {
            self.truncated = true;
        }
        StepOutcome { reward_centi: reward, terminated: self.terminated, truncated: self.truncated, ate_food }
    }

    /// Overwrites this state with a copy of `other`, generator included.
    pub fn clone_from_root(&mut self, other: &SnakeStateLite)
        ensures
            final(self)@ == other@,
            final(self).rng == other.rng,
    {
        self.body = copy_body(&other.body);
        self.width = other.width;
        self.height = other.height;
        self.dir = other.dir;
        self.food = other.food;
        self.pending_growth = other.pending_growth;
        self.steps = other.steps;
        self.score = other.score;
        self.terminated = other.terminated;
        self.truncated = other.truncated;
        self.max_steps = other.max_steps;
        self.starvation_limit = other.starvation_limit;
        self.steps_since_food = other.steps_since_food;
        self.pending_action = other.pending_action;
        self.rng = other.rng.clone();
    }
}

impl SnakeDynamics for SnakeStateLite {
    open spec fn dynamics_ready(&self) -> bool {
        self.wf()
    }

    /// Every relative action may be played.
    fn legal_actions(&self) -> (r: [bool; 3])
        ensures
            r@ == seq![true, true, true],
    {
        [true, true, true]
    }

    fn apply(&mut self, action: RelativeAction) -> (out: StepOutcome)
        ensures
            (final(self)@, out) == lite_step(old(self)@, action, final(self).food),
            out.ate_food ==> food_sample_ok(
                final(self).food,
                final(self).width,
                final(self).height,
                lite_grown_body(old(self)@, action),
            ),
            !out.ate_food ==> final(self).rng == old(self).rng,
            (final(self)@, final(self).rng, out) == lite_seeded_step(old(self)@, old(self).rng, action),
    {
        self.apply_in_place(action)
    }

    /// An episode is over once it ended by death or was cut short.
    fn is_terminal(&self) -> (b: bool)
        ensures
            b == (self.terminated || self.truncated),
    {
        self.terminated || self.truncated
    }
}

/// A fresh copy of the segments.
fn copy_body(body: &VecDeque<Position>) -> (r: VecDeque<Position>)
    ensures
        r@ == body@,
{
    let mut r: VecDeque<Position> = VecDeque::new();
    let n = body.len();
    let mut i: usize = 0;
    while i < n
        invariant
            n == body@.len(),
            i <= n,
            r@ == body@.subrange(0, i as int),
        decreases n - i,
    {
        r.push_back(body[i]);
        i = i + 1;
    }
    r
}

fn initial_body(width: usize, height: usize) -> (body: VecDeque<Position>)
    requires
        5 <= width <= i32::MAX,
        5 <= height <= i32::MAX,
    ensures
        body@ == spec_initial_body(width, height),
{
    let center_x = (width / 2) as i32;
    let center_y = (height / 2) as i32;
    let mut body = VecDeque::new();
    body.push_back(Position::new(center_x, center_y));
    body.push_back(Position::new(center_x - 1, center_y));
    body.push_back(Position::new(center_x - 2, center_y));
    body
}

fn is_out_of_bounds(position: Position, width: usize, height: usize) -> (b: bool)
    ensures
        b == spec_out_of_bounds(position, width, height),
{
    position.x < 0 || position.y < 0 || position.x >= width as i32 || position.y >= height as i32
}

fn collides_with_body(next_head: Position, body: &VecDeque<Position>, pending_growth: u32) -> (b:
    bool)
    ensures
        b == spec_collides(next_head, body@, pending_growth),
{
    let len = body.len();
    let body_to_check = if pending_growth == 0 {
        if len > 0 { len - 1 } else { 0 }
    } else {
        len
    };
    prefix_contains(body, body_to_check, next_head)
}

fn sample_free_position(
    width: usize,
    height: usize,
    body: &VecDeque<Position>,
    _pending_growth: u32,
    rng: &mut StdRng,
) -> (p: Position)
    requires
        body@.len() > 0,
        0 < width,
        0 < height,
        board_fits(width, height),
    ensures
        (p, *final(rng)) == food_placement(width, height, body@, *old(rng)),
        food_sample_ok(p, width, height, body@),
{
    place_food(width, height, body, rng)
}

/// A finished episode is left as it is and the step scores nothing.
pub proof fn lemma_terminal_is_absorbing(m: LiteModel, action: RelativeAction, sampled_food: Position)
    requires
        m.terminated || m.truncated,
    ensures
        lite_step(m, action, sampled_food).0 == m,
        lite_step(m, action, sampled_food).1.reward_centi == 0,
        !lite_step(m, action, sampled_food).1.ate_food,
{
}

/// A step keeps the invariant, given that new food is placed the way the generator
/// places it.
pub proof fn lemma_step_keeps_wf(m: LiteModel, action: RelativeAction, sampled_food: Position)
    requires
        m.wf(),
        lite_step(m, action, sampled_food).1.ate_food ==> food_sample_ok(
            sampled_food,
            m.width,
            m.height,
            lite_grown_body(m, action),
        ),
    ensures
        lite_step(m, action, sampled_food).0.wf(),
{
    let dir = m.dir.spec_apply_relative(action);
    assert(in_bounds(m.body[0], m.width as int, m.height as int));
    if !m.terminated && !m.truncated && !lite_step_dies(m, action) {
        let grown = lite_grown_body(m, action);
        assert(in_bounds(grown[0], m.width as int, m.height as int));
        assert forall|i: int| 0 <= i < grown.len() implies in_bounds(
            #[trigger] grown[i],
            m.width as int,
            m.height as int,
        ) by {
            if i > 0 {
                assert(grown[i] == m.body[i - 1]);
            }
        }
        let post = lite_step(m, action, sampled_food).0;
        assert forall|i: int| 0 <= i < post.body.len() implies in_bounds(
            #[trigger] post.body[i],
            m.width as int,
            m.height as int,
        ) by {
            assert(post.body[i] == grown[i]);
        }
        if lite_step(m, action, sampled_food).1.ate_food {
            if grown.len() >= m.width as int * m.height as int {
                assert(sampled_food == grown[0]);
            }
        }
    }
}

/// Whether the food lies on a cell that the snake does not cover, as it must whenever
/// the snake leaves some cell free.
pub open spec fn food_off_snake(m: LiteModel) -> bool {
    m.body.len() < m.width as int * m.height as int ==> !seq_contains_pos(m.body, m.food)
}

/// Food stays off the snake: a step keeps it there, given that new food is placed the
/// way the generator places it (a reset places it so too, see `food_sample_ok`).
pub proof fn lemma_step_keeps_food_off_snake(m: LiteModel, action: RelativeAction, sampled_food: Position)
    requires
        food_off_snake(m),
        lite_step(m, action, sampled_food).1.ate_food ==> food_sample_ok(
            sampled_food,
            m.width,
            m.height,
            lite_grown_body(m, action),
        ),
    ensures
        food_off_snake(lite_step(m, action, sampled_food).0),
{
    let post = lite_step(m, action, sampled_food).0;
    if !m.terminated && !m.truncated && !lite_step_dies(m, action) {
        let grown = lite_grown_body(m, action);
        let ate = lite_next_head(m, action) == m.food;
        if !ate && post.body.len() < m.width as int * m.height as int {
            assert(m.body.len() <= post.body.len());
            if seq_contains_pos(post.body, post.food) {
                let i = choose|i: int| 0 <= i < post.body.len() && post.body[i] == post.food;
                assert(post.body[i] == grown[i]);
                assert(i > 0);
                assert(m.body[i - 1] == m.food);
                assert(seq_contains_pos(m.body, m.food));
            }
        }
    }
}

/// Whether two cells share a side.
pub open spec fn cells_touch(a: Position, b: Position) -> bool {
    ||| a.x == b.x && (a.y - b.y == 1 || b.y - a.y == 1)
    ||| a.y == b.y && (a.x - b.x == 1 || b.x - a.x == 1)
}

/// Whether segment `i + 1` follows segment `i` by one step on the grid.
pub open spec fn segment_linked(body: Seq<Position>, i: int) -> bool {
    cells_touch(body[i], body[i + 1])
}

/// Whether the body is a simple chain of cells: no cell holds two segments, and each
/// segment touches the one before it.
pub open spec fn body_is_chain(body: Seq<Position>) -> bool {
    &&& forall|i: int, j: int| 0 <= i < j < body.len() ==> #[trigger] body[i] != #[trigger] body[j]
    &&& forall|i: int| 0 <= i < body.len() - 1 ==> #[trigger] segment_linked(body, i)
}

/// An episode starts with the snake a simple chain of cells.
pub proof fn lemma_initial_body_is_chain(width: usize, height: usize)
    requires
        5 <= width <= i32::MAX,
        5 <= height <= i32::MAX,
    ensures
        body_is_chain(spec_initial_body(width, height)),
{
    let b = spec_initial_body(width, height);
    assert(segment_linked(b, 0));
    assert(segment_linked(b, 1));
}

/// Food off a snake that leaves a cell free, or on the head of a longer chain, is not
/// on the tail cell.
pub proof fn lemma_food_not_on_tail(m: LiteModel)
    requires
        m.body.len() > 1,
        body_is_chain(m.body),
        (food_off_snake(m) && m.body.len() < m.width as int * m.height as int) || m.food == m.body[0],
    ensures
        m.food != m.body.last(),
{
    let n = m.body.len() as int;
    if m.food == m.body[0] {
        assert(m.body[0] != m.body[n - 1]);
    } else if m.food == m.body.last() {
        assert(seq_contains_pos(m.body, m.body[n - 1]));
    }
}

/// The snake stays a simple chain of cells, and a step lengthens it by at most one
/// segment, unless the food lies on the tail cell of a snake that owes no growth (the
/// head may move onto that cell, eat, and keep the tail). Food placed off the snake,
/// or on the head of a snake that fills the board, is never there.
pub proof fn lemma_step_keeps_body_chain(m: LiteModel, action: RelativeAction, sampled_food: Position)
    requires
        m.wf(),
        body_is_chain(m.body),
        m.pending_growth > 0 || m.food != m.body.last(),
    ensures
        body_is_chain(lite_step(m, action, sampled_food).0.body),
        lite_step(m, action, sampled_food).0.body.len() == m.body.len()
            || lite_step(m, action, sampled_food).0.body.len() == m.body.len() + 1,
{
    if !m.terminated && !m.truncated && !lite_step_dies(m, action) {
        let post = lite_step(m, action, sampled_food).0;
        let grown = lite_grown_body(m, action);
        let nh = lite_next_head(m, action);
        let head = m.body[0];
        assert(in_bounds(head, m.width as int, m.height as int));
        assert(cells_touch(nh, head));
        let n = m.body.len() as int;
        let window = collision_window(m.body.len(), m.pending_growth) as int;
        assert forall|j: int| 0 <= j < window implies m.body[j] != nh by {
            if m.body[j] == nh {
                assert(spec_collides(nh, m.body, m.pending_growth));
            }
        }
        assert forall|j: int| 0 <= j < post.body.len() - 1 implies m.body[j] != nh by {
            if j >= window {
                assert(j == n - 1);
                assert(m.body[j] == m.body.last());
            }
        }
        assert forall|i: int, j: int| 0 <= i < j < post.body.len() implies #[trigger] post.body[i]
            != #[trigger] post.body[j] by {
            assert(post.body[i] == grown[i]);
            assert(post.body[j] == grown[j]);
            if i == 0 {
                assert(grown[j] == m.body[j - 1]);
            } else {
                assert(grown[i] == m.body[i - 1]);
                assert(grown[j] == m.body[j - 1]);
            }
        }
        assert forall|i: int| 0 <= i < post.body.len() - 1 implies #[trigger] segment_linked(post.body, i) by {
            assert(post.body[i] == grown[i]);
            assert(post.body[i + 1] == grown[i + 1]);
            if i > 0 {
                assert(segment_linked(m.body, i - 1));
            }
        }
    }
}

/// Every segment the snake has beyond its first three was bought with a point: the
/// body length plus the growth still owed equals three plus the score. Each step keeps
/// this, as long as the score and the owed growth stay below `u32::MAX`.
pub proof fn lemma_step_keeps_length_accounting(
    m: LiteModel,
    action: RelativeAction,
    sampled_food: Position,
)
    requires
        m.body.len() + m.pending_growth == 3 + m.score,
        m.score < u32::MAX,
        m.pending_growth < u32::MAX,
    ensures
        ({
            let post = lite_step(m, action, sampled_food).0;
            post.body.len() + post.pending_growth == 3 + post.score
        }),
{
}

/// The step counter and the score never go down; the board and the limits never
/// change.
pub proof fn lemma_step_monotone(m: LiteModel, action: RelativeAction, sampled_food: Position)
    ensures
        ({
            let post = lite_step(m, action, sampled_food).0;
            &&& post.steps >= m.steps
            &&& post.score >= m.score
            &&& post.width == m.width
            &&& post.height == m.height
            &&& post.max_steps == m.max_steps
            &&& post.starvation_limit == m.starvation_limit
        }),
{
}

/// The reward is the step reward, plus the death reward exactly when the episode ends
/// by death, plus the food reward exactly when the snake eats; a finished episode
/// scores nothing.
pub proof fn lemma_step_reward(m: LiteModel, action: RelativeAction, sampled_food: Position)
    ensures
        ({
            let (post, out) = lite_step(m, action, sampled_food);
            &&& (m.terminated || m.truncated) ==> out.reward_centi == 0
            &&& !(m.terminated || m.truncated) ==> out.reward_centi == REWARD_STEP_CENTI + (if out.terminated { REWARD_DEATH_CENTI } else { 0 }) + (if out.ate_food { REWARD_FOOD_CENTI } else { 0 })
            &&& !(out.terminated && out.ate_food)
            &&& out.terminated == post.terminated
            &&& out.truncated == post.truncated
        }),
{
}

} // verus!
