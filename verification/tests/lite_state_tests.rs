use std::collections::VecDeque;

use rand::{rngs::StdRng, Rng, SeedableRng};

use predator_snake_dqn::{
    domain::{
        action::{Direction, RelativeAction},
        observation::encode_observation,
        state::Position,
    },
    lite_state::{
        dynamics::SnakeDynamics,
        encoding::SnakeEncoding,
        types::{LiteStateConfig, SnakeStateLite, StepOutcome},
    },
};

fn config(width: usize, height: usize, max_steps: u32, starvation_limit: u32) -> LiteStateConfig {
    LiteStateConfig {
        width,
        height,
        max_steps,
        starvation_limit,
        seed: Some(42),
    }
}

fn state(width: usize, height: usize, max_steps: u32, starvation_limit: u32) -> SnakeStateLite {
    SnakeStateLite::new(config(width, height, max_steps, starvation_limit)).unwrap()
}

fn cells(body: &VecDeque<Position>) -> Vec<(i32, i32)> {
    body.iter().map(|p| (p.x, p.y)).collect()
}

fn off_snake_and_on_board(s: &SnakeStateLite) -> bool {
    let f = s.food;
    f.x >= 0
        && f.y >= 0
        && (f.x as usize) < s.width
        && (f.y as usize) < s.height
        && !s.body.iter().any(|p| *p == f)
}

#[test]
fn lite_state_refuses_bad_parameters() {
    assert_eq!(
        SnakeStateLite::new(config(4, 10, 100, 200)).unwrap_err(),
        "width and height must both be >= 5"
    );
    assert_eq!(
        SnakeStateLite::new(config(10, 3, 100, 200)).unwrap_err(),
        "width and height must both be >= 5"
    );
    assert_eq!(
        SnakeStateLite::new(config(10, 10, 0, 200)).unwrap_err(),
        "max_steps must be > 0"
    );
}

#[test]
fn lite_state_starts_centered_heading_right() {
    let s = state(10, 8, 100, 200);
    assert_eq!(cells(&s.body), vec![(5, 4), (4, 4), (3, 4)]);
    assert_eq!(s.head(), Position::new(5, 4));
    assert_eq!(s.dir, Direction::Right);
    assert_eq!((s.steps, s.score, s.pending_growth, s.steps_since_food), (0, 0, 0, 0));
    assert!(!s.terminated && !s.truncated && !s.is_terminal());
    assert_eq!(s.legal_actions(), [true, true, true]);
    assert!(off_snake_and_on_board(&s));
}

#[test]
fn driving_into_the_wall_ends_the_episode() {
    let mut s = state(10, 10, 100, 200);
    s.food = Position::new(0, 0);
    for step in 1..=4 {
        let out = s.apply(RelativeAction::Straight);
        assert_eq!(
            out,
            StepOutcome { reward_centi: -1, terminated: false, truncated: false, ate_food: false }
        );
        assert_eq!(s.head(), Position::new(5 + step, 5));
    }
    let out = s.apply(RelativeAction::Straight);
    assert_eq!(
        out,
        StepOutcome { reward_centi: -1001, terminated: true, truncated: false, ate_food: false }
    );
    assert_eq!(s.steps, 5);
    assert_eq!(cells(&s.body), vec![(9, 5), (8, 5), (7, 5)]);
    assert!(s.is_terminal());
}

#[test]
fn a_finished_episode_absorbs_further_actions() {
    let mut s = state(10, 10, 100, 200);
    s.food = Position::new(0, 0);
    while !s.is_terminal() {
        s.apply(RelativeAction::Straight);
    }
    let before = (cells(&s.body), s.steps, s.score, s.dir, s.food);
    for action in [RelativeAction::TurnLeft, RelativeAction::Straight, RelativeAction::TurnRight] {
        let out = s.apply(action);
        assert_eq!(
            out,
            StepOutcome { reward_centi: 0, terminated: true, truncated: false, ate_food: false }
        );
        assert_eq!((cells(&s.body), s.steps, s.score, s.dir, s.food), before);
    }
}

#[test]
fn eating_grows_the_snake_and_moves_the_food() {
    let mut s = state(10, 10, 100, 200);
    s.food = Position::new(6, 5);
    s.steps_since_food = 7;
    let out = s.apply(RelativeAction::Straight);
    assert_eq!(
        out,
        StepOutcome { reward_centi: 999, terminated: false, truncated: false, ate_food: true }
    );
    assert_eq!(cells(&s.body), vec![(6, 5), (5, 5), (4, 5), (3, 5)]);
    assert_eq!((s.score, s.pending_growth, s.steps, s.steps_since_food), (1, 0, 1, 0));
    assert!(off_snake_and_on_board(&s));
}

#[test]
fn turning_changes_heading_before_moving() {
    let mut s = state(10, 10, 100, 200);
    s.food = Position::new(0, 0);
    s.apply(RelativeAction::TurnLeft);
    assert_eq!(s.dir, Direction::Up);
    assert_eq!(cells(&s.body), vec![(5, 4), (5, 5), (4, 5)]);
    s.apply(RelativeAction::TurnRight);
    assert_eq!(s.dir, Direction::Right);
    assert_eq!(s.head(), Position::new(6, 4));
    assert_eq!(s.pending_action, RelativeAction::TurnRight);
}

#[test]
fn the_episode_is_cut_short_at_max_steps() {
    let mut s = state(20, 20, 3, 1000);
    s.food = Position::new(0, 0);
    assert!(!s.apply(RelativeAction::TurnLeft).truncated);
    assert!(!s.apply(RelativeAction::TurnRight).truncated);
    let out = s.apply(RelativeAction::TurnLeft);
    assert_eq!(
        out,
        StepOutcome { reward_centi: -1, terminated: false, truncated: true, ate_food: false }
    );
    assert!(s.truncated && !s.terminated && s.is_terminal());
}

#[test]
fn the_episode_is_cut_short_when_starving() {
    let mut s = state(20, 20, 100, 2);
    s.food = Position::new(0, 0);
    assert!(!s.apply(RelativeAction::Straight).truncated);
    let out = s.apply(RelativeAction::Straight);
    assert!(out.truncated && !out.terminated);
    assert_eq!(s.steps_since_food, 2);
}

#[test]
fn running_into_the_body_kills() {
    let mut s = state(10, 10, 100, 200);
    s.food = Position::new(0, 0);
    s.body = [(5, 5), (5, 6), (4, 6), (4, 5), (3, 5)]
        .iter()
        .map(|&(x, y)| Position::new(x, y))
        .collect();
    s.dir = Direction::Left;
    let out = s.apply(RelativeAction::Straight);
    assert_eq!(
        out,
        StepOutcome { reward_centi: -1001, terminated: true, truncated: false, ate_food: false }
    );
}

#[test]
fn the_head_may_follow_the_moving_tail() {
    let mut s = state(10, 10, 100, 200);
    s.food = Position::new(0, 0);
    s.body = [(5, 5), (5, 6), (4, 6), (4, 5)]
        .iter()
        .map(|&(x, y)| Position::new(x, y))
        .collect();
    s.dir = Direction::Left;
    let out = s.apply(RelativeAction::Straight);
    assert!(!out.terminated);
    assert_eq!(cells(&s.body), vec![(4, 5), (5, 5), (5, 6), (4, 6)]);
}

#[test]
fn reset_starts_over() {
    let mut s = state(10, 10, 100, 200);
    s.food = Position::new(6, 5);
    s.apply(RelativeAction::Straight);
    while !s.is_terminal() {
        s.apply(RelativeAction::Straight);
    }
    s.reset();
    assert_eq!(cells(&s.body), vec![(5, 5), (4, 5), (3, 5)]);
    assert_eq!(s.dir, Direction::Right);
    assert_eq!((s.steps, s.score, s.pending_growth, s.steps_since_food), (0, 0, 0, 0));
    assert!(!s.is_terminal());
    assert_eq!(s.pending_action, RelativeAction::Straight);
    assert!(off_snake_and_on_board(&s));
}

#[test]
fn a_copy_replays_the_same_episode() {
    let root = state(8, 8, 200, 400);
    let mut a = state(10, 10, 5, 5);
    a.clone_from_root(&root);
    let mut b = root.clone();
    assert_eq!(cells(&a.body), cells(&root.body));
    assert_eq!((a.width, a.height, a.max_steps, a.starvation_limit), (8, 8, 200, 400));
    let script = [
        RelativeAction::TurnLeft,
        RelativeAction::Straight,
        RelativeAction::TurnLeft,
        RelativeAction::Straight,
        RelativeAction::TurnLeft,
        RelativeAction::TurnRight,
        RelativeAction::Straight,
        RelativeAction::TurnRight,
    ];
    for _ in 0..10 {
        for action in script {
            assert_eq!(a.apply(action), b.apply(action));
            assert_eq!(cells(&a.body), cells(&b.body));
            assert_eq!(a.food, b.food);
        }
    }
}

#[test]
fn encoding_is_the_observation_of_the_state() {
    let mut s = state(7, 6, 100, 200);
    s.food = Position::new(6, 0);
    let mut buf = vec![9u8; s.encoded_len()];
    s.encode_onehot_chw(&mut buf);
    assert_eq!(buf, encode_observation(7, 6, &s.body, s.food));
    assert_eq!(buf.len(), 5 * 6 * 7);
}

#[test]
fn step_laws_hold_along_random_episodes() {
    let mut picker = StdRng::seed_from_u64(2024);
    for episode in 0..40u64 {
        let mut s = SnakeStateLite::new(LiteStateConfig {
            width: 6,
            height: 5,
            max_steps: 300,
            starvation_limit: 60,
            seed: Some(episode),
        })
        .unwrap();
        while !s.is_terminal() {
            let action = [RelativeAction::Straight, RelativeAction::TurnLeft, RelativeAction::TurnRight]
                [picker.gen_range(0..3)];
            let (steps, score) = (s.steps, s.score);
            let out = s.apply(action);
            // Length accounting: every segment beyond the first three was bought with a point.
            assert_eq!(s.body.len() as u32 + s.pending_growth, 3 + s.score);
            // Counters never go down.
            assert!(s.steps >= steps && s.score >= score);
            // The reward decomposes into step, death and food parts.
            let expected = -1 + if out.terminated { -1000 } else { 0 } + if out.ate_food { 1000 } else { 0 };
            assert_eq!(out.reward_centi, expected);
            assert!(!(out.terminated && out.ate_food));
            // The body stays on the board, and the food off the snake while a cell is free.
            assert!(s.body.iter().all(|p| p.x >= 0 && p.y >= 0 && p.x < 6 && p.y < 5));
            if s.body.len() < 30 {
                assert!(!s.body.contains(&s.food));
            }
        }
    }
}

#[test]
fn seeded_construction_repeats() {
    let cfg = config(12, 9, 500, 300);
    let mut a = SnakeStateLite::new(cfg).unwrap();
    let mut b = SnakeStateLite::new(cfg).unwrap();
    assert_eq!(cells(&a.body), cells(&b.body));
    assert_eq!(a.food, b.food);
    let mut picker = StdRng::seed_from_u64(9);
    while !a.is_terminal() {
        let action = [RelativeAction::Straight, RelativeAction::TurnLeft, RelativeAction::TurnRight]
            [picker.gen_range(0..3)];
        assert_eq!(a.apply(action), b.apply(action));
        assert_eq!(cells(&a.body), cells(&b.body));
        assert_eq!((a.food, a.steps, a.score), (b.food, b.steps, b.score));
    }
    assert!(b.is_terminal());
}

#[test]
fn body_stays_a_simple_chain() {
    let mut picker = StdRng::seed_from_u64(77);
    for seed in 0..20u64 {
        let mut s = SnakeStateLite::new(LiteStateConfig {
            width: 7,
            height: 6,
            max_steps: 400,
            starvation_limit: 100,
            seed: Some(seed),
        })
        .unwrap();
        while !s.is_terminal() {
            let before = s.body.len();
            let action = [RelativeAction::Straight, RelativeAction::TurnLeft, RelativeAction::TurnRight]
                [picker.gen_range(0..3)];
            s.apply(action);
            let body: Vec<(i32, i32)> = cells(&s.body);
            assert!(body.len() == before || body.len() == before + 1);
            for i in 0..body.len() {
                for j in i + 1..body.len() {
                    assert_ne!(body[i], body[j]);
                }
            }
            for w in body.windows(2) {
                assert_eq!((w[0].0 - w[1].0).abs() + (w[0].1 - w[1].1).abs(), 1);
            }
        }
    }
}

#[test]
fn refusal_comes_before_any_board_limit() {
    assert_eq!(
        SnakeStateLite::new(config(4, 1 << 40, 100, 200)).unwrap_err(),
        "width and height must both be >= 5"
    );
    assert_eq!(
        SnakeStateLite::new(config(1 << 40, 1 << 40, 0, 200)).unwrap_err(),
        "max_steps must be > 0"
    );
}
