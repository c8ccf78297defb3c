//! The compact state and the entity-component engine play the same game.

use rand::rngs::StdRng;

use vstd::prelude::*;

use crate::domain::action::RelativeAction;
use crate::domain::config::EnvConfig;
use crate::domain::observation::observation;
use crate::domain::rules::spec_next_head;
use crate::domain::state::Position;
use crate::ecs::resources::{
    grid_cells, spec_initial_snake_body, world_observation_current, SnakeWorld, StepMetrics,
};
use crate::ecs::systems::{ecs_seeded_step, ecs_step, resolve_eats, resolve_step, EcsModel};
use crate::domain::rules::food_placement;
use crate::lite_state::dynamics::{lite_seeded_step, lite_step, spec_initial_body};
use crate::lite_state::types::LiteModel;

verus! {

/// From equal positions, one step of both engines with the same action, and the same
/// food drawn when the snake eats, gives the same snake, heading, owed growth, food,
/// counters, reward, death and observation. The cut-short flag agrees too unless the
/// compact state's starvation clock runs out, which the other engine does not have.
pub proof fn lemma_engines_step_alike(
    m: LiteModel,
    config: EnvConfig,
    metrics: StepMetrics,
    action: RelativeAction,
    sampled_food: Position,
)
    requires
        !m.terminated,
        !m.truncated,
        config.width == m.width,
        config.height == m.height,
        config.max_steps == m.max_steps,
        metrics.steps == m.steps,
        metrics.score == m.score,
    ensures
        ({
            let dir = m.dir.spec_apply_relative(action);
            let next_head = spec_next_head(m.body[0], dir);
            let (body, pending_growth, food, post_metrics) = resolve_step(
                config,
                m.body,
                m.pending_growth,
                m.food,
                next_head,
                metrics,
                sampled_food,
            );
            let (post, out) = lite_step(m, action, sampled_food);
            &&& post.body == body
            &&& post.dir == dir
            &&& post.pending_growth == pending_growth
            &&& post.food == food
            &&& post.steps == post_metrics.steps
            &&& post.score == post_metrics.score
            &&& post.terminated == post_metrics.terminated
            &&& out.terminated == post_metrics.terminated
            &&& out.reward_centi == post_metrics.reward_centi
            &&& out.ate_food == resolve_eats(config, m.body, m.pending_growth, m.food, next_head)
            &&& post.steps_since_food < m.starvation_limit ==> post.truncated == post_metrics.truncated
                && out.truncated == post_metrics.truncated
            &&& observation(m.width as int, m.height as int, post.body, post.food) == observation(
                config.width as int,
                config.height as int,
                body,
                food,
            )
        }),
{
}

/// The compact state after playing `actions`, with `foods[k]` drawn if step `k` eats.
pub open spec fn lite_run(m: LiteModel, actions: Seq<RelativeAction>, foods: Seq<Position>) -> LiteModel
    decreases actions.len(),
{
    if actions.len() == 0 || foods.len() == 0 {
        m
    } else {
        lite_step(lite_run(m, actions.drop_last(), foods.drop_last()), actions.last(), foods.last()).0
    }
}

/// The entity-component state after playing `actions`, with `foods[k]` drawn if step
/// `k` eats.
pub open spec fn ecs_run(config: EnvConfig, e: EcsModel, actions: Seq<RelativeAction>, foods: Seq<Position>) -> EcsModel
    decreases actions.len(),
{
    if actions.len() == 0 || foods.len() == 0 {
        e
    } else {
        ecs_step(config, ecs_run(config, e, actions.drop_last(), foods.drop_last()), actions.last(), foods.last())
    }
}

/// Whether the two engines hold the same game: board and step budget, snake, heading,
/// owed growth, food, counters and end flags.
pub open spec fn engines_agree(m: LiteModel, config: EnvConfig, e: EcsModel) -> bool {
    &&& config.width == m.width
    &&& config.height == m.height
    &&& config.max_steps == m.max_steps
    &&& e.body == m.body
    &&& e.direction == m.dir
    &&& e.pending_growth == m.pending_growth
    &&& e.food == m.food
    &&& e.metrics.steps == m.steps
    &&& e.metrics.score == m.score
    &&& e.metrics.terminated == m.terminated
    &&& e.metrics.truncated == m.truncated
}

/// Whole episodes play alike: from the same game, the same actions with the same food
/// drawn give the same game in both engines after every step, for as long as the
/// episode runs and the compact state's starvation clock cannot run out.
pub proof fn lemma_engines_play_alike(
    m: LiteModel,
    config: EnvConfig,
    e: EcsModel,
    actions: Seq<RelativeAction>,
    foods: Seq<Position>,
)
    requires
        engines_agree(m, config, e),
        actions.len() == foods.len(),
        m.steps_since_food + actions.len() < m.starvation_limit,
        forall|k: int|
            0 <= k < actions.len() ==> !(#[trigger] lite_run(m, actions.take(k), foods.take(k))).terminated
                && !lite_run(m, actions.take(k), foods.take(k)).truncated,
    ensures
        engines_agree(lite_run(m, actions, foods), config, ecs_run(config, e, actions, foods)),
        lite_run(m, actions, foods).steps_since_food <= m.steps_since_food + actions.len(),
        lite_run(m, actions, foods).starvation_limit == m.starvation_limit,
    decreases actions.len(),
{
    if actions.len() > 0 {
        let n = actions.len() as int;
        let a = actions.drop_last();
        let f = foods.drop_last();
        assert forall|k: int| 0 <= k < a.len() implies !(#[trigger] lite_run(m, a.take(k), f.take(k))).terminated
            && !lite_run(m, a.take(k), f.take(k)).truncated by {
            assert(a.take(k) =~= actions.take(k));
            assert(f.take(k) =~= foods.take(k));
        }
        lemma_engines_play_alike(m, config, e, a, f);
        let m1 = lite_run(m, a, f);
        let e1 = ecs_run(config, e, a, f);
        assert(actions.take(n - 1) =~= a);
        assert(foods.take(n - 1) =~= f);
        assert(!lite_run(m, actions.take(n - 1), foods.take(n - 1)).terminated);
        lemma_engines_step_alike(m1, config, e1.metrics, actions.last(), foods.last());
    }
}

/// Both engines start an episode with the same snake, and so place its first food alike
/// from the same generator.
pub proof fn lemma_engines_start_alike(width: usize, height: usize, rng: StdRng)
    ensures
        spec_initial_body(width, height) == spec_initial_snake_body(width, height),
        food_placement(width, height, spec_initial_body(width, height), rng) == food_placement(
            width,
            height,
            spec_initial_snake_body(width, height),
            rng,
        ),
{
    assert(spec_initial_body(width, height) =~= spec_initial_snake_body(width, height));
}

/// The compact state and its generator after playing `actions` with the generator.
pub open spec fn lite_seeded_run(m: LiteModel, rng: StdRng, actions: Seq<RelativeAction>) -> (LiteModel, StdRng)
    decreases actions.len(),
{
    if actions.len() == 0 {
        (m, rng)
    } else {
        let (m1, r1) = lite_seeded_run(m, rng, actions.drop_last());
        let (m2, r2, _out) = lite_seeded_step(m1, r1, actions.last());
        (m2, r2)
    }
}

/// The entity-component state and its generator after playing `actions` with the
/// generator.
pub open spec fn ecs_seeded_run(config: EnvConfig, e: EcsModel, rng: StdRng, actions: Seq<RelativeAction>) -> (
    EcsModel,
    StdRng,
)
    decreases actions.len(),
{
    if actions.len() == 0 {
        (e, rng)
    } else {
        let (e1, r1) = ecs_seeded_run(config, e, rng, actions.drop_last());
        ecs_seeded_step(config, e1, r1, actions.last())
    }
}

/// Seeded episodes play alike: from the same game and the same generator, the same
/// actions give the same game and the same generator in both engines after every step,
/// for as long as the episode runs and the compact state's starvation clock cannot run
/// out. Both engines draw their food alike, so no draw needs to be assumed.
pub proof fn lemma_seeded_engines_play_alike(
    m: LiteModel,
    config: EnvConfig,
    e: EcsModel,
    rng: StdRng,
    actions: Seq<RelativeAction>,
)
    requires
        engines_agree(m, config, e),
        m.steps_since_food + actions.len() < m.starvation_limit,
        forall|k: int|
            0 <= k < actions.len() ==> !(#[trigger] lite_seeded_run(m, rng, actions.take(k))).0.terminated
                && !lite_seeded_run(m, rng, actions.take(k)).0.truncated,
    ensures
        engines_agree(lite_seeded_run(m, rng, actions).0, config, ecs_seeded_run(config, e, rng, actions).0),
        lite_seeded_run(m, rng, actions).1 == ecs_seeded_run(config, e, rng, actions).1,
        lite_seeded_run(m, rng, actions).0.steps_since_food <= m.steps_since_food + actions.len(),
        lite_seeded_run(m, rng, actions).0.starvation_limit == m.starvation_limit,
    decreases actions.len(),
{
    if actions.len() > 0 {
        let n = actions.len() as int;
        let a = actions.drop_last();
        assert forall|k: int| 0 <= k < a.len() implies !(#[trigger] lite_seeded_run(m, rng, a.take(k))).0.terminated
            && !lite_seeded_run(m, rng, a.take(k)).0.truncated by {
            assert(a.take(k) =~= actions.take(k));
        }
        lemma_seeded_engines_play_alike(m, config, e, rng, a);
        let (m1, r1) = lite_seeded_run(m, rng, a);
        let (e1, r1e) = ecs_seeded_run(config, e, rng, a);
        assert(actions.take(n - 1) =~= a);
        assert(!lite_seeded_run(m, rng, actions.take(n - 1)).0.terminated);
        let action = actions.last();
        let dir = m1.dir.spec_apply_relative(action);
        let next_head = spec_next_head(m1.body[0], dir);
        let (food, _r) = food_placement(m1.width, m1.height, seq![next_head] + m1.body, r1);
        lemma_engines_step_alike(m1, config, e1.metrics, action, food);
    }
}

/// When the engines hold the same snake and food on the same board, the grid of the
/// entity-component engine holds exactly the compact state's encoding.
pub proof fn lemma_engines_observe_alike(m: LiteModel, world: SnakeWorld)
    requires
        world_observation_current(world),
        world.config.0.width == m.width,
        world.config.0.height == m.height,
        world.snake.0.body@ == m.body,
        world.food.0 == m.food,
    ensures
        grid_cells(world.observation) == observation(m.width as int, m.height as int, m.body, m.food),
{
}

} // verus!
