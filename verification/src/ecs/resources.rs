use std::collections::VecDeque;

use ndarray::Array3;
use rand::rngs::StdRng;

use vstd::prelude::*;

use crate::domain::action::{Direction, RelativeAction};
use crate::domain::config::EnvConfig;
use crate::domain::observation::observation;
use crate::domain::rules::{board_fits, food_placement, food_sample_ok, in_bounds, place_food, OBS_CHANNELS};
use crate::domain::state::{Position, SnakeState};
use crate::ecs::systems::write_observation_grid;
use crate::random::{rng_from_entropy, rng_from_seed, seeded_rng};

verus! {

broadcast use vstd::std_specs::vecdeque::group_vec_dequeue_axioms;

/// The configuration, as a resource of the engine.
#[derive(Clone)]
pub struct EnvConfigResource(pub EnvConfig);

/// The snake, as a resource of the engine.
#[derive(Debug, Clone)]
pub struct SnakeResource(pub SnakeState);

/// The food's cell.
#[derive(Debug, Clone, Copy)]
pub struct FoodResource(pub Position);

/// The action that the next step plays.
#[derive(Debug, Clone, Copy)]
pub struct PendingAction(pub RelativeAction);

/// The cell that the head moves to in the current step.
#[derive(Debug, Clone, Copy)]
pub struct ProposedHead(pub Position);

/// What the last step did and the episode's counters. The reward is in hundredths of
/// a point.
#[derive(Debug, Clone, Copy, PartialEq, Eq, Structural)]
pub struct StepMetrics {
    pub reward_centi: i32,
    pub terminated: bool,
    pub truncated: bool,
    pub steps: u32,
    pub score: u32,
}

impl Default for StepMetrics {
    fn default() -> (m: StepMetrics)
        ensures
            m == (StepMetrics { reward_centi: 0, terminated: false, truncated: false, steps: 0, score: 0 }),
    {
        StepMetrics { reward_centi: 0, terminated: false, truncated: false, steps: 0, score: 0 }
    }
}

/// The observation grid of the engine: planes x rows x columns bytes, held in an
/// `ndarray::Array3<u8>`. Verus does not take a declaration of `ndarray::ArrayBase`
/// (its `RawData` bound), so the buffer is opaque and read through the names below.
#[verifier::external_body]
pub struct ObservationBuffer {
    grid: Array3<u8>,
}

/// The elements of the grid in logical (row-major) order.
pub uninterp spec fn grid_cells(buffer: ObservationBuffer) -> Seq<u8>;

/// The shape `(planes, rows, columns)` of the grid.
pub uninterp spec fn grid_shape(buffer: ObservationBuffer) -> (usize, usize, usize);

/// Calls `Array3::from_shape_vec((channels, height, width), cells)` and unwraps it.
/// Claimed: the grid has that shape and holds `cells` in row-major order. The call
/// fails when the length does not match the shape, or when the product of the non-zero
/// axes overflows `isize`; with every axis positive that product is the length, so
/// `requires` excludes both.
#[verifier::external_body]
pub(crate) fn grid_from_cells(channels: usize, height: usize, width: usize, cells: Vec<u8>) -> (b:
    ObservationBuffer)
    requires
        0 < channels,
        0 < height,
        0 < width,
        cells@.len() == channels as int * height as int * width as int,
        cells@.len() <= isize::MAX,
    ensures
        grid_cells(b) == cells@,
        grid_shape(b) == (channels, height, width),
{
    ObservationBuffer { grid: Array3::from_shape_vec((channels, height, width), cells).unwrap() }
}

/// Calls `grid.iter().copied().collect()`: ndarray's `iter` visits the elements in
/// logical (row-major) order. Claimed: the vector holds `grid_cells(buffer)`.
#[verifier::external_body]
fn grid_copy_cells(buffer: &ObservationBuffer) -> (v: Vec<u8>)
    ensures
        v@ == grid_cells(*buffer),
{
    buffer.grid.iter().copied().collect()
}

/// Calls `grid.dim()`. Claimed: it is `grid_shape(buffer)`.
#[verifier::external_body]
fn grid_dim(buffer: &ObservationBuffer) -> (d: (usize, usize, usize))
    ensures
        d == grid_shape(*buffer),
{
    buffer.grid.dim()
}

impl ObservationBuffer {
    /// The grid's bytes: planes, then rows, then columns.
    pub fn cells(&self) -> (v: Vec<u8>)
        ensures
            v@ == grid_cells(*self),
    {
        grid_copy_cells(self)
    }

    /// The grid's shape `(planes, rows, columns)`.
    pub fn shape(&self) -> (d: (usize, usize, usize))
        ensures
            d == grid_shape(*self),
    {
        grid_dim(self)
    }
}

/// The random generator of the engine.
pub struct RandomResource(pub StdRng);

/// Every resource of the engine's world.
pub struct SnakeWorld {
    pub config: EnvConfigResource,
    pub rng: RandomResource,
    pub observation: ObservationBuffer,
    pub pending_action: PendingAction,
    pub proposed_head: ProposedHead,
    pub metrics: StepMetrics,
    pub food: FoodResource,
    pub snake: SnakeResource,
}

/// Boards that the engine plays on: both sides at least 5 cells, within the machine
/// limits.
pub open spec fn ecs_config_ok(config: EnvConfig) -> bool {
    config.width >= 5 && config.height >= 5 && board_fits(config.width, config.height)
}

/// The world's invariant: a playable board, a non-empty snake on the board and food on
/// the board.
pub open spec fn world_wf(world: SnakeWorld) -> bool {
    let c = world.config.0;
    let body = world.snake.0.body@;
    &&& ecs_config_ok(c)
    &&& body.len() > 0
    &&& forall|i: int|
        0 <= i < body.len() ==> in_bounds(#[trigger] body[i], c.width as int, c.height as int)
    &&& in_bounds(world.food.0, c.width as int, c.height as int)
}

/// The observation of the world's current snake and food.
pub open spec fn world_observation_current(world: SnakeWorld) -> bool {
    let c = world.config.0;
    &&& grid_cells(world.observation) == observation(
        c.width as int,
        c.height as int,
        world.snake.0.body@,
        world.food.0,
    )
    &&& grid_shape(world.observation) == (OBS_CHANNELS, c.height, c.width)
}

/// The three-segment snake in the middle of the board, heading right.
pub open spec fn spec_initial_snake_body(width: usize, height: usize) -> Seq<Position> {
    let cx = (width / 2) as i32;
    let cy = (height / 2) as i32;
    seq![
        Position { x: cx, y: cy },
        Position { x: (cx - 1) as i32, y: cy },
        Position { x: (cx - 2) as i32, y: cy },
    ]
}

/// The world at the start of an episode.
pub open spec fn world_reset_state(world: SnakeWorld) -> bool {
    &&& world.snake.0.body@ == spec_initial_snake_body(world.config.0.width, world.config.0.height)
    &&& world.snake.0.direction == Direction::Right
    &&& world.snake.0.pending_growth == 0
    &&& world.metrics == (StepMetrics { reward_centi: 0, terminated: false, truncated: false, steps: 0, score: 0 })
    &&& world.pending_action.0 == RelativeAction::Straight
    &&& world.proposed_head.0 == world.snake.0.body@[0]
    &&& food_sample_ok(world.food.0, world.config.0.width, world.config.0.height, world.snake.0.body@)
}

/// Builds the world of a configuration and starts its first episode. The generator is
/// seeded from `config.seed`, or from the operating system when there is none.
pub fn initialize_world(config: EnvConfig) -> (world: SnakeWorld)
    requires
        ecs_config_ok(config),
    ensures
        world.config.0 == config,
        world_wf(world),
        world_reset_state(world),
        world_observation_current(world),
        config.seed matches Some(k) ==> (world.food.0, world.rng.0) == food_placement(
            config.width,
            config.height,
            spec_initial_snake_body(config.width, config.height),
            seeded_rng(k),
        ),
{
    let rng = match config.seed {
        Some(seed) => rng_from_seed(seed),
        None => rng_from_entropy(),
    };
    let width = config.width;
    let height = config.height;
    proof {
        assert(height as int * width as int <= OBS_CHANNELS as int * width as int * height as int
            && OBS_CHANNELS as int * width as int * height as int == OBS_CHANNELS as int
            * height as int * width as int && OBS_CHANNELS as int * (height as int * width as int)
            == OBS_CHANNELS as int * height as int * width as int) by (nonlinear_arith)
            requires
                width >= 5,
                height >= 5,
        ;
    }
    let plane = height * width;
    let total = OBS_CHANNELS * plane;
    let mut cells: Vec<u8> = Vec::new();
    let mut k: usize = 0;
    while k < total
        invariant
            k <= total,
            cells@.len() == k,
        decreases total - k,
    {
        if k < plane {
            cells.push(1);
        } else {
            cells.push(0);
        }
        k = k + 1;
    }
    let observation = grid_from_cells(OBS_CHANNELS, height, width, cells);
    let mut world = SnakeWorld {
        config: EnvConfigResource(config),
        rng: RandomResource(rng),
        observation,
        pending_action: PendingAction(RelativeAction::Straight),
        proposed_head: ProposedHead(Position::new(0, 0)),
        metrics: StepMetrics::default(),
        food: FoodResource(Position::new(0, 0)),
        snake: SnakeResource(empty_snake()),
    };
    reset_episode(&mut world);
    world
}

/// Starts a new episode: the initial snake, zeroed metrics, a straight pending action,
/// food placed off the snake, and the matching observation.
pub fn reset_episode(world: &mut SnakeWorld)
    requires
        ecs_config_ok(old(world).config.0),
    ensures
        final(world).config == old(world).config,
        world_wf(*final(world)),
        world_reset_state(*final(world)),
        world_observation_current(*final(world)),
        (final(world).food.0, final(world).rng.0) == food_placement(
            old(world).config.0.width,
            old(world).config.0.height,
            spec_initial_snake_body(old(world).config.0.width, old(world).config.0.height),
            old(world).rng.0,
        ),
{
    let snake = initial_snake(&world.config.0);
    let head = snake.head();
    world.snake.0 = snake;
    world.metrics = StepMetrics::default();
    world.pending_action.0 = RelativeAction::Straight;
    world.proposed_head.0 = head;
    let food_position = sample_free_position(&world.config.0, &world.snake.0, &mut world.rng.0);
    world.food.0 = food_position;
    proof {
        assert(3 < world.config.0.width as int * world.config.0.height as int) by (nonlinear_arith)
            requires
                world.config.0.width >= 5,
                world.config.0.height >= 5,
        ;
    }
    write_observation_grid(&mut world.observation, &world.config.0, &world.snake.0, world.food.0);
}

/// Places food: the head when the snake has as many segments as the board has cells,
/// otherwise a cell that no segment holds, drawn from `rng` (`food_placement`).
pub fn sample_free_position(config: &EnvConfig, snake: &SnakeState, rng: &mut StdRng) -> (p:
    Position)
    requires
        snake.body@.len() > 0,
        0 < config.width,
        0 < config.height,
        board_fits(config.width, config.height),
    ensures
        (p, *final(rng)) == food_placement(config.width, config.height, snake.body@, *old(rng)),
        food_sample_ok(p, config.width, config.height, snake.body@),
{
    place_food(config.width, config.height, &snake.body, rng)
}

fn empty_snake() -> (s: SnakeState)
    ensures
        s.body@.len() == 0,
        s.direction == Direction::Right,
        s.pending_growth == 0,
{
    SnakeState { body: VecDeque::new(), direction: Direction::Right, pending_growth: 0 }
}

fn initial_snake(config: &EnvConfig) -> (s: SnakeState)
    requires
        5 <= config.width <= i32::MAX,
        5 <= config.height <= i32::MAX,
    ensures
        s.body@ == spec_initial_snake_body(config.width, config.height),
        s.direction == Direction::Right,
        s.pending_growth == 0,
{
    let center_x = (config.width / 2) as i32;
    let center_y = (config.height / 2) as i32;
    let mut body = VecDeque::new();
    body.push_back(Position::new(center_x, center_y));
    body.push_back(Position::new(center_x - 1, center_y));
    body.push_back(Position::new(center_x - 2, center_y));
    SnakeState { body, direction: Direction::Right, pending_growth: 0 }
}

} // verus!
