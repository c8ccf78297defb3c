use predator_snake_dqn::{
    domain::rules::CHANNEL_REACHABLE,
    lite_state::{
        encoding::{chw_index, SnakeEncoding},
        types::{LiteStateConfig, SnakeStateLite},
    },
};

#[test]
fn test_encoded_len_matches_5_channels() {
    let config = LiteStateConfig {
        width: 10,
        height: 10,
        max_steps: 100,
        starvation_limit: 200,
        seed: Some(42),
    };
    let state = SnakeStateLite::new(config).unwrap();
    assert_eq!(state.encoded_len(), 5 * 10 * 10);
}

#[test]
fn test_flood_fill_open_board() {
    let config = LiteStateConfig {
        width: 10,
        height: 10,
        max_steps: 100,
        starvation_limit: 200,
        seed: Some(42),
    };
    let state = SnakeStateLite::new(config).unwrap();
    let mut buf = vec![0u8; state.encoded_len()];
    state.encode_onehot_chw(&mut buf);

    // Count reachable cells in channel 4
    let reachable_start = CHANNEL_REACHABLE * 10 * 10;
    let reachable_count: usize = buf[reachable_start..reachable_start + 100]
        .iter()
        .filter(|&&v| v == 1)
        .count();

    // The head is reachable; the two other segments are not; every other cell is.
    assert!(
        reachable_count >= 95,
        "On an open 10x10 board with 3-segment snake, reachable should be ~98, got {reachable_count}"
    );
}

#[test]
fn test_reachable_channel_head_is_always_reachable() {
    let config = LiteStateConfig {
        width: 10,
        height: 10,
        max_steps: 100,
        starvation_limit: 200,
        seed: Some(42),
    };
    let state = SnakeStateLite::new(config).unwrap();
    let mut buf = vec![0u8; state.encoded_len()];
    state.encode_onehot_chw(&mut buf);

    let head = state.head();
    let head_reachable_idx = chw_index(
        CHANNEL_REACHABLE,
        head.y as usize,
        head.x as usize,
        10,
        10,
    );
    assert_eq!(buf[head_reachable_idx], 1, "Head must always be reachable");
}
