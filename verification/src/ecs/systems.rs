use rand::rngs::StdRng;

use vstd::prelude::*;

use crate::domain::action::{Direction, RelativeAction};
use crate::domain::config::EnvConfig;
use crate::domain::observation::{encode_observation, observation};
use crate::domain::rules::{
    board_fits, collides_with_body, food_placement, food_sample_ok, in_bounds, is_out_of_bounds, sat_inc,
    spec_collides, spec_next_head, spec_out_of_bounds, OBS_CHANNELS, REWARD_DEATH_CENTI,
    REWARD_FOOD_CENTI, REWARD_STEP_CENTI,
};
use crate::domain::state::{Position, SnakeState};
use crate::ecs::resources::{
    grid_cells, grid_from_cells, grid_shape, world_observation_current, world_wf,
    sample_free_position, EnvConfigResource, FoodResource, ObservationBuffer, PendingAction,
    ProposedHead, RandomResource, SnakeResource, SnakeWorld, StepMetrics,
};

verus! {

broadcast use vstd::std_specs::vecdeque::group_vec_dequeue_axioms;

/// Turns the snake by the pending action.
pub fn apply_action_system(snake: &mut SnakeResource, action: &PendingAction)
    ensures
        final(snake).0.direction == old(snake).0.direction.spec_apply_relative(action.0),
        final(snake).0.body@ == old(snake).0.body@,
        final(snake).0.pending_growth == old(snake).0.pending_growth,
{
    snake.0.direction = snake.0.direction.apply_relative(action.0);
}

/// Proposes the cell one step ahead of the head.
pub fn move_system(snake: &SnakeResource, proposed: &mut ProposedHead)
    requires
        snake.0.body@.len() > 0,
        i32::MIN < snake.0.body@[0].x < i32::MAX,
        i32::MIN < snake.0.body@[0].y < i32::MAX,
    ensures
        final(proposed).0 == spec_next_head(snake.0.body@[0], snake.0.direction),
{
    let head = snake.0.head();
    let (dx, dy) = snake.0.direction.delta();
    proposed.0 = Position::new(head.x + dx, head.y + dy);
}

/// Whether moving the head to `next_head` kills the snake.
pub open spec fn resolve_dies(config: EnvConfig, body: Seq<Position>, pending_growth: u32, next_head: Position) -> bool {
    spec_out_of_bounds(next_head, config.width, config.height) || spec_collides(
        next_head,
        body,
        pending_growth,
    )
}

/// Whether moving the head to `next_head` eats the food.
pub open spec fn resolve_eats(
    config: EnvConfig,
    body: Seq<Position>,
    pending_growth: u32,
    food: Position,
    next_head: Position,
) -> bool {
    !resolve_dies(config, body, pending_growth, next_head) && next_head == food
}

/// The outcome of a step whose head moves to `next_head`: the body, the owed growth,
/// the food (new food at `sampled_food` when eaten) and the metrics. A death ends the
/// episode with the step and death rewards; otherwise the head advances, eating gives
/// the food reward, a point and a segment of growth, the tail follows unless growth is
/// owed, and the episode is cut short at `max_steps` steps.
pub open spec fn resolve_step(
    config: EnvConfig,
    body: Seq<Position>,
    pending_growth: u32,
    food: Position,
    next_head: Position,
    metrics: StepMetrics,
    sampled_food: Position,
) -> (Seq<Position>, u32, Position, StepMetrics) {
    if resolve_dies(config, body, pending_growth, next_head) {
        (
            body,
            pending_growth,
            food,
            StepMetrics {
                reward_centi: (REWARD_STEP_CENTI + REWARD_DEATH_CENTI) as i32,
                terminated: true,
                truncated: false,
                steps: sat_inc(metrics.steps),
                score: metrics.score,
            },
        )
    } else {
        let grown = seq![next_head] + body;
        let ate = next_head == food;
        let growth = if ate { sat_inc(pending_growth) } else { pending_growth };
        let steps = sat_inc(metrics.steps);
        (
            if growth > 0 { grown } else { grown.drop_last() },
            if growth > 0 { (growth - 1) as u32 } else { growth },
            if ate { sampled_food } else { food },
            StepMetrics {
                reward_centi: if ate { (REWARD_STEP_CENTI + REWARD_FOOD_CENTI) as i32 } else { REWARD_STEP_CENTI },
                terminated: false,
                truncated: steps >= config.max_steps,
                steps,
                score: if ate { sat_inc(metrics.score) } else { metrics.score },
            },
        )
    }
}

/// Moves the snake to the proposed cell and scores the step; see `resolve_step`. New
/// food, when the snake eats, is placed off the body before the tail moved; the
/// generator is left alone otherwise.
pub fn resolve_step_system(
    config: &EnvConfigResource,
    snake: &mut SnakeResource,
    food: &mut FoodResource,
    proposed: &ProposedHead,
    rng: &mut RandomResource,
    metrics: &mut StepMetrics,
)
    requires
        board_fits(config.0.width, config.0.height),
    ensures
        (final(snake).0.body@, final(snake).0.pending_growth, final(food).0, *final(metrics))
            == resolve_step(
            config.0,
            old(snake).0.body@,
            old(snake).0.pending_growth,
            old(food).0,
            proposed.0,
            *old(metrics),
            final(food).0,
        ),
        final(snake).0.direction == old(snake).0.direction,
        resolve_eats(config.0, old(snake).0.body@, old(snake).0.pending_growth, old(food).0, proposed.0)
            ==> food_sample_ok(
            final(food).0,
            config.0.width,
            config.0.height,
            seq![proposed.0] + old(snake).0.body@,
        ),
        resolve_eats(config.0, old(snake).0.body@, old(snake).0.pending_growth, old(food).0, proposed.0)
            ==> (final(food).0, final(rng).0) == food_placement(
            config.0.width,
            config.0.height,
            seq![proposed.0] + old(snake).0.body@,
            old(rng).0,
        ),
        !resolve_eats(config.0, old(snake).0.body@, old(snake).0.pending_growth, old(food).0, proposed.0)
            ==> final(rng).0 == old(rng).0,
{
    metrics.reward_centi = REWARD_STEP_CENTI;
    metrics.terminated = false;
    metrics.truncated = false;

    let next_head = proposed.0;
    let collision = is_out_of_bounds(next_head, &config.0) || collides_with_body(next_head, &snake.0);
    if collision {
        metrics.reward_centi = metrics.reward_centi + REWARD_DEATH_CENTI;
        metrics.terminated = true;
        metrics.steps = metrics.steps.saturating_add(1);
        return;
    }

    snake.0.body.push_front(next_head);
    let ate_food = next_head == food.0;
    if ate_food {
        metrics.reward_centi = metrics.reward_centi + REWARD_FOOD_CENTI;
        metrics.score = metrics.score.saturating_add(1);
        snake.0.pending_growth = snake.0.pending_growth.saturating_add(1);
        food.0 = sample_free_position(&config.0, &snake.0, &mut rng.0);
    }

    if snake.0.pending_growth > 0 {
        snake.0.pending_growth = snake.0.pending_growth - 1;
    } else {
        snake.0.body.pop_back();
    }

    metrics.steps = metrics.steps.saturating_add(1);
    if metrics.steps >= config.0.max_steps {
        metrics.truncated = true;
    }
}

/// Writes the observation of the current snake and food.
pub fn write_observation_system(
    config: &EnvConfigResource,
    snake: &SnakeResource,
    food: &FoodResource,
    buffer: &mut ObservationBuffer,
)
    requires
        0 < config.0.width,
        0 < config.0.height,
        board_fits(config.0.width, config.0.height),
        forall|i: int|
            0 <= i < snake.0.body@.len() ==> in_bounds(
                #[trigger] snake.0.body@[i],
                config.0.width as int,
                config.0.height as int,
            ),
        in_bounds(food.0, config.0.width as int, config.0.height as int),
    ensures
        grid_cells(*final(buffer)) == observation(
            config.0.width as int,
            config.0.height as int,
            snake.0.body@,
            food.0,
        ),
        grid_shape(*final(buffer)) == (OBS_CHANNELS, config.0.height, config.0.width),
{
    write_observation_grid(buffer, &config.0, &snake.0, food.0);
}

/// Replaces the grid by the observation of `snake` and `food`: planes, in order, of
/// empty cells, the head, the other segments, the food, and the cells that the head
/// reaches through free cells.
pub fn write_observation_grid(
    buffer: &mut ObservationBuffer,
    config: &EnvConfig,
    snake: &SnakeState,
    food: Position,
)
    requires
        0 < config.width,
        0 < config.height,
        board_fits(config.width, config.height),
        forall|i: int|
            0 <= i < snake.body@.len() ==> in_bounds(
                #[trigger] snake.body@[i],
                config.width as int,
                config.height as int,
            ),
        in_bounds(food, config.width as int, config.height as int),
    ensures
        grid_cells(*final(buffer)) == observation(
            config.width as int,
            config.height as int,
            snake.body@,
            food,
        ),
        grid_shape(*final(buffer)) == (OBS_CHANNELS, config.height, config.width),
{
    let cells = encode_observation(config.width, config.height, &snake.body, food);
    proof {
        let w = config.width as int;
        let h = config.height as int;
        assert(OBS_CHANNELS as int * w * h == OBS_CHANNELS as int * h * w) by (nonlinear_arith);
    }
    *buffer = grid_from_cells(OBS_CHANNELS, config.height, config.width, cells);
}

/// The engine's game state, as values.
pub struct EcsModel {
    pub body: Seq<Position>,
    pub direction: Direction,
    pub pending_growth: u32,
    pub food: Position,
    pub metrics: StepMetrics,
}

/// The game state held by a world.
pub open spec fn ecs_model(world: SnakeWorld) -> EcsModel {
    EcsModel {
        body: world.snake.0.body@,
        direction: world.snake.0.direction,
        pending_growth: world.snake.0.pending_growth,
        food: world.food.0,
        metrics: world.metrics,
    }
}

/// One step of the engine under `action`: turn, propose the cell ahead, resolve (new
/// food at `sampled_food` when the snake eats).
pub open spec fn ecs_step(config: EnvConfig, e: EcsModel, action: RelativeAction, sampled_food: Position) -> EcsModel {
    let direction = e.direction.spec_apply_relative(action);
    let next_head = spec_next_head(e.body[0], direction);
    let (body, pending_growth, food, metrics) = resolve_step(
        config,
        e.body,
        e.pending_growth,
        e.food,
        next_head,
        e.metrics,
        sampled_food,
    );
    EcsModel { body, direction, pending_growth, food, metrics }
}

/// One step of the engine played with the world's own generator: new food, when the
/// snake eats, is placed from `rng` (`food_placement` off the body with the new head),
/// and the generator advances only then.
pub open spec fn ecs_seeded_step(config: EnvConfig, e: EcsModel, rng: StdRng, action: RelativeAction) -> (
    EcsModel,
    StdRng,
) {
    let direction = e.direction.spec_apply_relative(action);
    let next_head = spec_next_head(e.body[0], direction);
    let (food, rng_after) = food_placement(config.width, config.height, seq![next_head] + e.body, rng);
    (
        ecs_step(config, e, action, food),
        if resolve_eats(config, e.body, e.pending_growth, e.food, next_head) {
            rng_after
        } else {
            rng
        },
    )
}

/// One step of the engine: the four systems in their schedule order.
pub fn run_step_schedule(world: &mut SnakeWorld)
    requires
        world_wf(*old(world)),
    ensures
        ecs_model(*final(world)) == ecs_step(
            old(world).config.0,
            ecs_model(*old(world)),
            old(world).pending_action.0,
            final(world).food.0,
        ),
        (ecs_model(*final(world)), final(world).rng.0) == ecs_seeded_step(
            old(world).config.0,
            ecs_model(*old(world)),
            old(world).rng.0,
            old(world).pending_action.0,
        ),
        world_wf(*final(world)),
        world_observation_current(*final(world)),
        final(world).config == old(world).config,
        final(world).pending_action == old(world).pending_action,
        final(world).snake.0.direction == old(world).snake.0.direction.spec_apply_relative(
            old(world).pending_action.0,
        ),
        final(world).proposed_head.0 == spec_next_head(
            old(world).snake.0.body@[0],
            final(world).snake.0.direction,
        ),
        (final(world).snake.0.body@, final(world).snake.0.pending_growth, final(world).food.0, final(world).metrics)
            == resolve_step(
            old(world).config.0,
            old(world).snake.0.body@,
            old(world).snake.0.pending_growth,
            old(world).food.0,
            final(world).proposed_head.0,
            old(world).metrics,
            final(world).food.0,
        ),
        resolve_eats(
            old(world).config.0,
            old(world).snake.0.body@,
            old(world).snake.0.pending_growth,
            old(world).food.0,
            final(world).proposed_head.0,
        ) ==> food_sample_ok(
            final(world).food.0,
            old(world).config.0.width,
            old(world).config.0.height,
            seq![final(world).proposed_head.0] + old(world).snake.0.body@,
        ),
{
    apply_action_system(&mut world.snake, &world.pending_action);
    proof {
        assert(in_bounds(world.snake.0.body@[0], world.config.0.width as int, world.config.0.height as int));
    }
    move_system(&world.snake, &mut world.proposed_head);
    resolve_step_system(
        &world.config,
        &mut world.snake,
        &mut world.food,
        &world.proposed_head,
        &mut world.rng,
        &mut world.metrics,
    );
    write_observation_system(&world.config, &world.snake, &world.food, &mut world.observation);
}

/// A tile of the rendered board, at column `x` and row `y`.
#[derive(Debug, Clone, Copy)]
pub struct RenderCell {
    pub x: usize,
    pub y: usize,
}

/// How a rendered tile is painted.
#[derive(Debug, Clone, Copy, PartialEq, Eq, Structural)]
pub enum CellPaint {
    Head,
    Body,
    Food,
    Empty,
    Other,
}

/// The paint of a tile from its one-hot planes: the head wins over the body, the body
/// over the food, the food over an empty cell.
pub fn paint_for_channels(is_empty: bool, is_head: bool, is_body: bool, is_food: bool) -> (p: CellPaint)
    ensures
        p == (if is_head {
            CellPaint::Head
        } else if is_body {
            CellPaint::Body
        } else if is_food {
            CellPaint::Food
        } else if is_empty {
            CellPaint::Empty
        } else {
            CellPaint::Other
        }),
{
    if is_head {
        CellPaint::Head
    } else if is_body {
        CellPaint::Body
    } else if is_food {
        CellPaint::Food
    } else if is_empty {
        CellPaint::Empty
    } else {
        CellPaint::Other
    }
}

} // verus!
