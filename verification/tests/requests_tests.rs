use predator_snake_dqn::{
    domain::{action::RelativeAction, state::Position},
    ecs::resources::StepMetrics,
    lite_state::{
        dynamics::SnakeDynamics,
        types::{LiteStateConfig, SnakeStateLite},
    },
    requests::{check_env_step, check_search, effective_starvation_limit, play_wire_action, StepRefusal},
};

fn metrics(terminated: bool, truncated: bool) -> StepMetrics {
    StepMetrics { reward_centi: 0, terminated, truncated, steps: 3, score: 0 }
}

fn lite() -> SnakeStateLite {
    SnakeStateLite::new(LiteStateConfig {
        width: 10,
        height: 10,
        max_steps: 100,
        starvation_limit: 200,
        seed: Some(5),
    })
    .unwrap()
}

#[test]
fn a_running_episode_accepts_valid_actions() {
    assert_eq!(check_env_step(&metrics(false, false), 0), Ok(RelativeAction::Straight));
    assert_eq!(check_env_step(&metrics(false, false), 1), Ok(RelativeAction::TurnLeft));
    assert_eq!(check_env_step(&metrics(false, false), 2), Ok(RelativeAction::TurnRight));
}

#[test]
fn a_finished_episode_refuses_every_step() {
    for action in [0u8, 1, 2, 3, 200] {
        assert_eq!(check_env_step(&metrics(true, false), action), Err(StepRefusal::EpisodeComplete));
        assert_eq!(check_env_step(&metrics(false, true), action), Err(StepRefusal::EpisodeComplete));
    }
    assert_eq!(
        StepRefusal::EpisodeComplete.message(),
        "episode is complete; call reset() before step()"
    );
}

#[test]
fn an_invalid_action_is_refused_by_name() {
    let refusal = check_env_step(&metrics(false, false), 7).unwrap_err();
    assert_eq!(
        refusal,
        StepRefusal::InvalidAction("invalid action 7; expected 0, 1, or 2".to_string())
    );
    assert_eq!(refusal.message(), "invalid action 7; expected 0, 1, or 2");
}

#[test]
fn the_search_engine_plays_valid_actions() {
    let mut s = lite();
    s.food = Position::new(0, 0);
    let out = play_wire_action(&mut s, 1).unwrap();
    assert_eq!(out.reward_centi, -1);
    assert_eq!(s.head(), Position::new(5, 4));
}

#[test]
fn the_search_engine_refuses_invalid_actions_and_changes_nothing() {
    let mut s = lite();
    let before = (s.body.clone(), s.dir, s.food, s.steps);
    assert_eq!(play_wire_action(&mut s, 3), Err("Invalid action".to_string()));
    assert_eq!((s.body.clone(), s.dir, s.food, s.steps), before);
}

#[test]
fn a_finished_episode_cannot_be_searched() {
    let mut s = lite();
    assert_eq!(check_search(&s), Ok(()));
    s.food = Position::new(0, 0);
    while !s.is_terminal() {
        s.apply(RelativeAction::Straight);
    }
    assert_eq!(check_search(&s), Err("Episode is terminal; call reset()".to_string()));
    s.reset();
    assert_eq!(check_search(&s), Ok(()));
}

#[test]
fn starvation_limit_defaults_to_twice_the_cells() {
    assert_eq!(effective_starvation_limit(None, 20, 20), 800);
    assert_eq!(effective_starvation_limit(Some(17), 20, 20), 17);
    assert_eq!(effective_starvation_limit(None, 1 << 16, 1 << 15), 0);
    assert_eq!(effective_starvation_limit(None, (1 << 16) + 1, 1 << 15), 1 << 16);
}
