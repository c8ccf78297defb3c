use rand::{rngs::StdRng, Rng, SeedableRng};

use predator_snake_dqn::{
    domain::{
        action::{Direction, RelativeAction},
        config::EnvConfig,
        state::Position,
    },
    ecs::{
        resources::{initialize_world, SnakeWorld},
        systems::run_step_schedule,
    },
    lite_state::{
        dynamics::SnakeDynamics,
        encoding::SnakeEncoding,
        types::{LiteStateConfig, SnakeStateLite, StepOutcome},
    },
};

#[derive(Debug)]
struct EcsSnapshot {
    body: Vec<Position>,
    dir: Direction,
    pending_growth: u32,
    food: Position,
    steps: u32,
    score: u32,
    terminated: bool,
    truncated: bool,
    reward_centi: i32,
    observation: Vec<u8>,
}

#[test]
fn golden_parity_wall_collision_script() {
    let seed = 42;
    let width = 20;
    let height = 20;
    let max_steps = 1_000;

    let (mut world, mut lite) = make_pair(width, height, max_steps, seed);
    assert_pair_parity(&lite, &snapshot_ecs(&world));

    let scripted_actions = vec![RelativeAction::Straight; 64];
    for (idx, action) in scripted_actions.into_iter().enumerate() {
        if lite.is_terminal() {
            break;
        }
        let lite_outcome = lite.apply(action);
        step_ecs(&mut world, action);
        let ecs = snapshot_ecs(&world);

        assert_step_parity(&lite, &lite_outcome, &ecs, seed, idx);
    }
}

#[test]
fn golden_parity_truncation_script() {
    let seed = 7;
    let width = 20;
    let height = 20;
    let max_steps = 5;

    let (mut world, mut lite) = make_pair(width, height, max_steps, seed);
    assert_pair_parity(&lite, &snapshot_ecs(&world));

    for step_idx in 0..max_steps as usize {
        let action = RelativeAction::Straight;
        let lite_outcome = lite.apply(action);
        step_ecs(&mut world, action);
        let ecs = snapshot_ecs(&world);
        assert_step_parity(&lite, &lite_outcome, &ecs, seed, step_idx);
    }

    assert!(lite.truncated, "lite state should be truncated at max_steps");
    assert!(
        snapshot_ecs(&world).truncated,
        "ecs state should be truncated at max_steps"
    );
}

#[test]
fn golden_parity_random_fuzz_episodes() {
    let width = 20;
    let height = 20;
    let max_steps = 250;
    let episodes = 64;

    for episode_seed in 0..episodes {
        let (mut world, mut lite) =
            make_pair(width, height, max_steps, episode_seed as u64 + 1_000);
        assert_pair_parity(&lite, &snapshot_ecs(&world));

        let mut action_rng = StdRng::seed_from_u64(episode_seed as u64 + 99_999);
        let mut step_idx = 0usize;
        while !lite.is_terminal() {
            let action_idx = action_rng.gen_range(0..3) as u8;
            let action = RelativeAction::try_from(action_idx).expect("valid action");

            let lite_outcome = lite.apply(action);
            step_ecs(&mut world, action);
            let ecs = snapshot_ecs(&world);
            assert_step_parity(
                &lite,
                &lite_outcome,
                &ecs,
                episode_seed as u64 + 1_000,
                step_idx,
            );
            step_idx += 1;
        }

        let ecs_final = snapshot_ecs(&world);
        assert_eq!(
            lite.terminated || lite.truncated,
            ecs_final.terminated || ecs_final.truncated,
            "terminal mismatch in episode seed {episode_seed}"
        );
    }
}

fn make_pair(width: usize, height: usize, max_steps: u32, seed: u64) -> (SnakeWorld, SnakeStateLite) {
    let env_cfg =
        EnvConfig::new(width, height, max_steps, false, Some(seed)).expect("valid env config");
    let world = initialize_world(env_cfg);

    // The entity-component engine has no starvation clock; this limit never fires.
    let lite_cfg = LiteStateConfig {
        width,
        height,
        max_steps,
        starvation_limit: u32::MAX,
        seed: Some(seed),
    };
    let lite = SnakeStateLite::new(lite_cfg).expect("valid lite config");
    (world, lite)
}

fn step_ecs(world: &mut SnakeWorld, action: RelativeAction) {
    world.pending_action.0 = action;
    run_step_schedule(world);
}

fn snapshot_ecs(world: &SnakeWorld) -> EcsSnapshot {
    let snake = &world.snake.0;
    let metrics = world.metrics;
    EcsSnapshot {
        body: snake.body.iter().copied().collect(),
        dir: snake.direction,
        pending_growth: snake.pending_growth,
        food: world.food.0,
        steps: metrics.steps,
        score: metrics.score,
        terminated: metrics.terminated,
        truncated: metrics.truncated,
        reward_centi: metrics.reward_centi,
        observation: world.observation.cells(),
    }
}

fn assert_step_parity(
    lite: &SnakeStateLite,
    lite_outcome: &StepOutcome,
    ecs: &EcsSnapshot,
    seed: u64,
    step_idx: usize,
) {
    assert_pair_parity(lite, ecs);
    assert_eq!(
        lite_outcome.reward_centi, ecs.reward_centi,
        "reward mismatch at seed={seed}, step={step_idx}"
    );
    assert_eq!(
        lite_outcome.terminated, ecs.terminated,
        "terminated mismatch at seed={seed}, step={step_idx}"
    );
    assert_eq!(
        lite_outcome.truncated, ecs.truncated,
        "truncated mismatch at seed={seed}, step={step_idx}"
    );
}

fn assert_pair_parity(lite: &SnakeStateLite, ecs: &EcsSnapshot) {
    assert_eq!(
        lite.body.iter().copied().collect::<Vec<_>>(),
        ecs.body,
        "snake body mismatch"
    );
    assert_eq!(lite.dir, ecs.dir, "snake direction mismatch");
    assert_eq!(
        lite.pending_growth, ecs.pending_growth,
        "pending growth mismatch"
    );
    assert_eq!(lite.food, ecs.food, "food position mismatch");
    assert_eq!(lite.steps, ecs.steps, "step counter mismatch");
    assert_eq!(lite.score, ecs.score, "score mismatch");
    assert_eq!(lite.terminated, ecs.terminated, "terminated mismatch");
    assert_eq!(lite.truncated, ecs.truncated, "truncated mismatch");

    let mut encoded = vec![0u8; lite.encoded_len()];
    lite.encode_onehot_chw(&mut encoded);
    assert_eq!(encoded, ecs.observation, "observation tensor mismatch");
}
