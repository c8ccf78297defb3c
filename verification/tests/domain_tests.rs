use std::collections::VecDeque;

use rand::{rngs::StdRng, SeedableRng};

use predator_snake_dqn::domain::{
    action::{Direction, RelativeAction},
    config::EnvConfig,
    flood::{flood_fill, segment_mask},
    observation::encode_observation,
    rules::{board_fits_checked, collides_with_body, is_out_of_bounds, place_food, prefix_contains},
    state::{vec_deque_contains, Position, SnakeState},
};

const DIRECTIONS: [Direction; 4] = [Direction::Up, Direction::Right, Direction::Down, Direction::Left];
const ACTIONS: [RelativeAction; 3] = [
    RelativeAction::Straight,
    RelativeAction::TurnLeft,
    RelativeAction::TurnRight,
];

fn body_of(cells: &[(i32, i32)]) -> VecDeque<Position> {
    cells.iter().map(|&(x, y)| Position::new(x, y)).collect()
}

#[test]
fn relative_action_parses_wire_values() {
    assert_eq!(RelativeAction::try_from(0), Ok(RelativeAction::Straight));
    assert_eq!(RelativeAction::try_from(1), Ok(RelativeAction::TurnLeft));
    assert_eq!(RelativeAction::try_from(2), Ok(RelativeAction::TurnRight));
}

#[test]
fn relative_action_refuses_other_values_by_name() {
    assert_eq!(
        RelativeAction::try_from(3),
        Err("invalid action 3; expected 0, 1, or 2".to_string())
    );
    assert_eq!(
        RelativeAction::try_from(42),
        Err("invalid action 42; expected 0, 1, or 2".to_string())
    );
    assert_eq!(
        RelativeAction::try_from(255),
        Err("invalid action 255; expected 0, 1, or 2".to_string())
    );
}

#[test]
fn direction_turns_are_quarter_turns() {
    assert_eq!(Direction::Up.turn_left(), Direction::Left);
    assert_eq!(Direction::Left.turn_left(), Direction::Down);
    assert_eq!(Direction::Down.turn_left(), Direction::Right);
    assert_eq!(Direction::Right.turn_left(), Direction::Up);
    assert_eq!(Direction::Up.turn_right(), Direction::Right);
    assert_eq!(Direction::Right.turn_right(), Direction::Down);
    assert_eq!(Direction::Down.turn_right(), Direction::Left);
    assert_eq!(Direction::Left.turn_right(), Direction::Up);
}

#[test]
fn direction_turns_cancel_and_four_turns_return() {
    for d in DIRECTIONS {
        assert_eq!(d.turn_left().turn_right(), d);
        assert_eq!(d.turn_right().turn_left(), d);
        assert_eq!(d.turn_left().turn_left().turn_left().turn_left(), d);
        assert_eq!(d.turn_right().turn_right().turn_right().turn_right(), d);
    }
}

#[test]
fn direction_deltas_are_unit_steps() {
    assert_eq!(Direction::Up.delta(), (0, -1));
    assert_eq!(Direction::Right.delta(), (1, 0));
    assert_eq!(Direction::Down.delta(), (0, 1));
    assert_eq!(Direction::Left.delta(), (-1, 0));
}

#[test]
fn relative_action_never_reverses_heading() {
    for d in DIRECTIONS {
        assert_eq!(d.apply_relative(RelativeAction::Straight), d);
        assert_eq!(d.apply_relative(RelativeAction::TurnLeft), d.turn_left());
        assert_eq!(d.apply_relative(RelativeAction::TurnRight), d.turn_right());
        for a in ACTIONS {
            let (dx, dy) = d.delta();
            let (nx, ny) = d.apply_relative(a).delta();
            assert_ne!((nx, ny), (-dx, -dy));
        }
    }
}

#[test]
fn env_config_refuses_small_boards_and_empty_budgets() {
    assert_eq!(
        EnvConfig::new(4, 10, 100, false, None).unwrap_err(),
        "width and height must both be >= 5"
    );
    assert_eq!(
        EnvConfig::new(10, 4, 100, false, None).unwrap_err(),
        "width and height must both be >= 5"
    );
    assert_eq!(
        EnvConfig::new(4, 4, 0, false, None).unwrap_err(),
        "width and height must both be >= 5"
    );
    assert_eq!(
        EnvConfig::new(5, 5, 0, false, None).unwrap_err(),
        "max_steps must be > 0"
    );
}

#[test]
fn env_config_keeps_accepted_parameters() {
    let config = EnvConfig::new(5, 7, 1, true, Some(9)).unwrap();
    assert_eq!(config.width, 5);
    assert_eq!(config.height, 7);
    assert_eq!(config.max_steps, 1);
    assert!(config.render);
    assert_eq!(config.seed, Some(9));
}

#[test]
fn out_of_bounds_marks_cells_off_the_board() {
    let config = EnvConfig::new(10, 8, 100, false, None).unwrap();
    assert!(is_out_of_bounds(Position::new(-1, 0), &config));
    assert!(is_out_of_bounds(Position::new(0, -1), &config));
    assert!(is_out_of_bounds(Position::new(10, 0), &config));
    assert!(is_out_of_bounds(Position::new(0, 8), &config));
    assert!(!is_out_of_bounds(Position::new(0, 0), &config));
    assert!(!is_out_of_bounds(Position::new(9, 7), &config));
}

#[test]
fn moving_tail_is_no_collision_unless_growing() {
    let mut snake = SnakeState {
        body: body_of(&[(5, 5), (4, 5), (3, 5)]),
        direction: Direction::Right,
        pending_growth: 0,
    };
    assert!(!collides_with_body(Position::new(3, 5), &snake));
    assert!(collides_with_body(Position::new(4, 5), &snake));
    assert!(!collides_with_body(Position::new(6, 5), &snake));
    snake.pending_growth = 1;
    assert!(collides_with_body(Position::new(3, 5), &snake));
    let empty = SnakeState {
        body: VecDeque::new(),
        direction: Direction::Up,
        pending_growth: 0,
    };
    assert!(!collides_with_body(Position::new(0, 0), &empty));
}

#[test]
fn prefix_and_body_search() {
    let body = body_of(&[(1, 1), (2, 1), (3, 1)]);
    assert!(prefix_contains(&body, 2, Position::new(2, 1)));
    assert!(!prefix_contains(&body, 2, Position::new(3, 1)));
    assert!(!prefix_contains(&body, 0, Position::new(1, 1)));
    assert!(vec_deque_contains(&body, Position::new(3, 1)));
    assert!(!vec_deque_contains(&body, Position::new(0, 0)));
    let snake = SnakeState {
        body: body.clone(),
        direction: Direction::Right,
        pending_growth: 0,
    };
    assert_eq!(snake.head(), Position::new(1, 1));
    assert!(snake.contains(Position::new(2, 1)));
    assert!(!snake.contains(Position::new(2, 2)));
}

#[test]
fn board_limits() {
    assert!(board_fits_checked(10, 10));
    assert!(board_fits_checked(1 << 30, 1 << 30));
    assert!(!board_fits_checked(1 << 31, 5));
    assert!(!board_fits_checked(5, 1 << 31));
    assert!(!board_fits_checked((1 << 31) - 1, (1 << 31) - 1));
}

#[test]
fn food_goes_to_the_head_on_a_full_board() {
    let mut cells = Vec::new();
    for y in 0..5 {
        for x in 0..5 {
            cells.push((x, y));
        }
    }
    cells.reverse();
    let body = body_of(&cells);
    let mut rng = StdRng::seed_from_u64(1);
    assert_eq!(place_food(5, 5, &body, &mut rng), Position::new(4, 4));
}

#[test]
fn food_finds_the_only_free_cell() {
    for seed in 0..20 {
        let mut cells = Vec::new();
        for y in 0..5 {
            for x in 0..5 {
                if (x, y) != (2, 3) {
                    cells.push((x, y));
                }
            }
        }
        let body = body_of(&cells);
        let mut rng = StdRng::seed_from_u64(seed);
        assert_eq!(place_food(5, 5, &body, &mut rng), Position::new(2, 3));
    }
}

#[test]
fn food_is_on_the_board_and_off_the_snake() {
    let body = body_of(&[(2, 2), (1, 2), (0, 2)]);
    for seed in 0..50 {
        let mut rng = StdRng::seed_from_u64(seed);
        let p = place_food(5, 6, &body, &mut rng);
        assert!(p.x >= 0 && p.x < 5 && p.y >= 0 && p.y < 6);
        assert!(!vec_deque_contains(&body, p));
    }
}

#[test]
fn flood_fill_stops_at_the_body() {
    let body = body_of(&[(2, 2), (1, 2), (0, 2)]);
    let mask = flood_fill(5, 5, &body);
    assert_eq!(mask.len(), 25);
    assert!(mask[2 * 5 + 2]);
    assert!(!mask[2 * 5 + 1]);
    assert!(!mask[2 * 5]);
    assert_eq!(mask.iter().filter(|&&m| m).count(), 23);
}

#[test]
fn flood_fill_does_not_cross_a_wall_of_segments() {
    // A vertical wall at x = 2 from the head at (2, 0) down to (2, 4) cuts the board.
    let body = body_of(&[(1, 0), (2, 0), (2, 1), (2, 2), (2, 3), (2, 4)]);
    let mask = flood_fill(5, 5, &body);
    let reachable: Vec<(usize, usize)> = (0..25)
        .filter(|&i| mask[i])
        .map(|i| (i % 5, i / 5))
        .collect();
    assert_eq!(reachable.len(), 10);
    assert!(reachable.iter().all(|&(x, _)| x <= 1));
    assert!(!mask[4]);
}

#[test]
fn segment_mask_marks_segments_from_an_index() {
    let body = body_of(&[(2, 2), (1, 2), (0, 2)]);
    let all = segment_mask(5, 5, &body, 0);
    assert_eq!(all.iter().filter(|&&m| m).count(), 3);
    let rest = segment_mask(5, 5, &body, 1);
    assert!(!rest[2 * 5 + 2]);
    assert!(rest[2 * 5 + 1]);
    assert!(rest[2 * 5]);
}

#[test]
fn observation_is_one_hot_per_cell() {
    let body = body_of(&[(2, 2), (1, 2), (0, 2)]);
    let food = Position::new(4, 0);
    let obs = encode_observation(5, 5, &body, food);
    assert_eq!(obs.len(), 5 * 25);
    let plane = |c: usize, x: usize, y: usize| obs[(c * 5 + y) * 5 + x];
    for y in 0..5 {
        for x in 0..5 {
            let first_four: u8 = (0..4).map(|c| plane(c, x, y)).sum();
            assert_eq!(first_four, 1, "cell ({x}, {y})");
        }
    }
    assert_eq!(plane(1, 2, 2), 1);
    assert_eq!(plane(2, 1, 2), 1);
    assert_eq!(plane(2, 0, 2), 1);
    assert_eq!(plane(3, 4, 0), 1);
    assert_eq!(plane(0, 3, 3), 1);
    assert_eq!(plane(4, 2, 2), 1);
    assert_eq!(plane(4, 1, 2), 0);
    assert_eq!(plane(4, 4, 4), 1);
}

#[test]
fn without_a_snake_nothing_is_reachable() {
    let body: VecDeque<Position> = VecDeque::new();
    let mask = flood_fill(5, 4, &body);
    assert_eq!(mask, vec![false; 20]);
    let obs = encode_observation(5, 4, &body, Position::new(2, 1));
    let plane = |c: usize, x: usize, y: usize| obs[(c * 4 + y) * 5 + x];
    for y in 0..4 {
        for x in 0..5 {
            let is_food = (x, y) == (2, 1);
            assert_eq!(plane(0, x, y), if is_food { 0 } else { 1 });
            assert_eq!(plane(1, x, y), 0);
            assert_eq!(plane(2, x, y), 0);
            assert_eq!(plane(3, x, y), if is_food { 1 } else { 0 });
            assert_eq!(plane(4, x, y), 0);
        }
    }
}
