# predator_snake_dqn

A snake environment for reinforcement learning, with a compact game state for
AlphaZero-style tree search. The game logic is written in Verus and proved against
its contracts; the Python bindings, the Bevy runtime and the threaded search run
around it as ordinary Rust.

## Layout

- `src/` — the verified library
  - `domain/` — actions and headings, configuration, positions, collisions, food
    placement, the breadth-first flood fill and the five-plane one-hot observation
  - `lite_state/` — the compact state: its step rules (`lite_step`), reset, copying
    and encoding, with the step laws (terminal states absorb, length accounting,
    food stays off the snake, the reward decomposition)
  - `ecs/` — the resources and systems of the entity-component engine over a plain
    `SnakeWorld`
  - `parity.rs` — both engines play the same game and observe it alike
  - `mcts/` — the node arena of the search tree, its expansion and visit bookkeeping,
    and the split of simulations over threads
  - `inference_bridge/` — the batching decisions of the inference coordinator
  - `requests.rs` — which requests the environments refuse and what they answer
  - `random.rs` — the seeded generator, behind trusted wrappers
- `app/` — PyO3 classes, the Bevy app and schedule, NumPy hand-off, the threaded
  search with its floating-point selection and backup, and the coordinator thread
- `tests/` — tests of the library on concrete values
