use std::collections::VecDeque;

use vstd::prelude::*;

use crate::domain::action::Direction;
use crate::domain::config::EnvConfig;
use crate::domain::state::{Position, SnakeState, seq_contains_pos, vec_deque_contains};
use crate::random::{gen_below, rng_below};
use rand::rngs::StdRng;

verus! {

broadcast use vstd::std_specs::vecdeque::group_vec_dequeue_axioms;

/// Number of one-hot planes of an observation.
pub const OBS_CHANNELS: usize = 5;
/// Plane of cells holding neither food nor snake.
pub const CHANNEL_EMPTY: usize = 0;
/// Plane of the snake's head.
pub const CHANNEL_HEAD: usize = 1;
/// Plane of the snake's other segments.
pub const CHANNEL_BODY: usize = 2;
/// Plane of the food.
pub const CHANNEL_FOOD: usize = 3;
/// Plane of the cells that the head can reach.
pub const CHANNEL_REACHABLE: usize = 4;

/// Reward for eating, in hundredths of a point (+10.0).
pub const REWARD_FOOD_CENTI: i32 = 1000;
/// Reward for dying, in hundredths of a point (-10.0).
pub const REWARD_DEATH_CENTI: i32 = -1000;
/// Reward for every step, in hundredths of a point (-0.01).
pub const REWARD_STEP_CENTI: i32 = -1;

/// The machine limits of a board: its coordinates fit in `i32` and its observation
/// (`OBS_CHANNELS` planes of `width * height` bytes) fits in one allocation.
pub open spec fn board_fits(width: usize, height: usize) -> bool {
    &&& width <= i32::MAX
    &&& height <= i32::MAX
    &&& OBS_CHANNELS as int * width as int * height as int <= isize::MAX as int
}

/// Whether a board is within the machine limits.
pub fn board_fits_checked(width: usize, height: usize) -> (b: bool)
    ensures
        b == board_fits(width, height),
{
    if width > 0x7fff_ffff || height > 0x7fff_ffff {
        return false;
    }
    let w = width as u128;
    let h = height as u128;
    proof {
        assert((5 * w) * h <= (5 * 0x7fff_ffff) * 0x7fff_ffff) by (nonlinear_arith)
            requires
                w <= 0x7fff_ffff,
                h <= 0x7fff_ffff,
        ;
    }
    (5 * w) * h <= isize::MAX as u128
}

/// Whether every cell of the board holds a segment of `body`.
pub open spec fn board_full(body: Seq<Position>, width: int, height: int) -> bool {
    forall|p: Position| in_bounds(p, width, height) ==> seq_contains_pos(body, p)
}

/// What a food placement may return: the head when the snake covers as many segments
/// as the board has cells, and otherwise a cell of the board that no segment holds.
pub open spec fn food_sample_ok(p: Position, width: usize, height: usize, body: Seq<Position>) -> bool {
    if body.len() >= width as int * height as int {
        p == body[0]
    } else {
        in_bounds(p, width as int, height as int) && !seq_contains_pos(body, p)
    }
}

/// The cell one step from `head` along `dir`.
pub open spec fn spec_next_head(head: Position, dir: Direction) -> Position {
    Position { x: (head.x + dir.spec_delta().0) as i32, y: (head.y + dir.spec_delta().1) as i32 }
}

/// Counter increment that stops at `u32::MAX`.
pub open spec fn sat_inc(n: u32) -> u32 {
    if n < u32::MAX { (n + 1) as u32 } else { n }
}

/// Whether `p` lies outside a `width` x `height` board, with the bounds read as `i32`
/// the way the engine compares them.
pub open spec fn spec_out_of_bounds(p: Position, width: usize, height: usize) -> bool {
    p.x < 0 || p.y < 0 || p.x >= (width as i32) || p.y >= (height as i32)
}

/// Whether `p` is a cell of a `width` x `height` board.
pub open spec fn in_bounds(p: Position, width: int, height: int) -> bool {
    0 <= p.x < width && 0 <= p.y < height
}

/// How many leading segments a moving head can run into: the tail moves away unless
/// the snake is growing.
pub open spec fn collision_window(len: nat, pending_growth: u32) -> nat {
    if pending_growth == 0 {
        if len > 0 { (len - 1) as nat } else { 0 }
    } else {
        len
    }
}

/// Whether a head moving to `next_head` runs into the body.
pub open spec fn spec_collides(next_head: Position, body: Seq<Position>, pending_growth: u32) -> bool {
    exists|i: int| 0 <= i < collision_window(body.len(), pending_growth) && body[i] == next_head
}

/// On boards whose sides fit in `i32`, being outside is exactly not being a cell.
pub proof fn lemma_out_of_bounds_exact(p: Position, width: usize, height: usize)
    requires
        width <= i32::MAX,
        height <= i32::MAX,
    ensures
        spec_out_of_bounds(p, width, height) <==> !in_bounds(p, width as int, height as int),
{
}

pub fn is_out_of_bounds(position: Position, config: &EnvConfig) -> (b: bool)
    ensures
        b == spec_out_of_bounds(position, config.width, config.height),
{
    position.x < 0 || position.y < 0 || position.x >= config.width as i32 || position.y
        >= config.height as i32
}

/// Whether the leading `window` segments hold `pos`.
pub fn prefix_contains(body: &VecDeque<Position>, window: usize, pos: Position) -> (b: bool)
    requires
        window <= body@.len(),
    ensures
        b == exists|i: int| 0 <= i < window && body@[i] == pos,
{
    let mut i: usize = 0;
    while i < window
        invariant
            window <= body@.len(),
            i <= window,
            forall|j: int| 0 <= j < i ==> body@[j] != pos,
        decreases window - i,
    {
        if body[i] == pos {
            return true;
        }
        i = i + 1;
    }
    false
}

pub fn collides_with_body(next_head: Position, snake: &SnakeState) -> (b: bool)
    ensures
        b == spec_collides(next_head, snake.body@, snake.pending_growth),
{
    let len = snake.body.len();
    let body_to_check = if snake.pending_growth == 0 {
        if len > 0 { len - 1 } else { 0 }
    } else {
        len
    };
    prefix_contains(&snake.body, body_to_check, next_head)
}

/// A body with fewer segments than the board has cells leaves some cell free.
pub proof fn lemma_free_cell_exists(body: Seq<Position>, width: int, height: int)
    requires
        0 < width <= i32::MAX,
        0 < height <= i32::MAX,
        body.len() < width * height,
    ensures
        !board_full(body, width, height),
{
    if board_full(body, width, height) {
        let f = |p: Position| p.y as int * width + p.x as int;
        let flat = body.map_values(f);
        let t = flat.to_set();
        let s = vstd::set_lib::set_int_range(0, width * height);
        assert forall|k: int| s.contains(k) implies t.contains(k) by {
            vstd::arithmetic::div_mod::lemma_fundamental_div_mod(k, width);
            let x = k % width;
            let y = k / width;
            assert(0 <= x < width);
            assert(0 <= y < height) by (nonlinear_arith)
                requires
                    0 <= k < width * height,
                    k == width * y + x,
                    0 <= x < width,
            {
            }
            let p = Position { x: x as i32, y: y as i32 };
            assert(in_bounds(p, width, height));
            assert(seq_contains_pos(body, p));
            let i = choose|i: int| 0 <= i < body.len() && body[i] == p;
            assert(flat[i] == f(body[i]));
            assert(f(p) == k) by (nonlinear_arith)
                requires
                    f(p) == y * width + x,
                    k == width * y + x,
            {
            }
            assert(flat.contains(flat[i]));
        }
        vstd::set_lib::lemma_int_range(0, width * height);
        flat.lemma_cardinality_of_set();
        vstd::set_lib::lemma_len_subset(s, t);
    }
}

/// The cell with row-major index `k` on a board `width` cells wide.
pub open spec fn cell_at(k: int, width: int) -> Position {
    Position { x: (k % width) as i32, y: (k / width) as i32 }
}

/// The first cell, in row-major order from index `k` on, that no segment holds; the
/// head when there is none.
pub open spec fn first_free_from(width: int, height: int, body: Seq<Position>, k: int) -> Position
    decreases width * height - k,
{
    if k < 0 || width <= 0 || k >= width * height {
        body[0]
    } else if !seq_contains_pos(body, cell_at(k, width)) {
        cell_at(k, width)
    } else {
        first_free_from(width, height, body, k + 1)
    }
}

/// Up to `tries` uniform draws of a cell (column, then row) until one is free of the
/// snake: that cell and the generator after its draws; should every draw hit the
/// snake, the first free cell in row-major order and the generator after all draws.
pub open spec fn draw_food(width: usize, height: usize, body: Seq<Position>, rng: StdRng, tries: nat) -> (
    Position,
    StdRng,
)
    decreases tries,
{
    if tries == 0 {
        (first_free_from(width as int, height as int, body, 0), rng)
    } else {
        let (x, r1) = gen_below(rng, width);
        let (y, r2) = gen_below(r1, height);
        let p = Position { x: x as i32, y: y as i32 };
        if !seq_contains_pos(body, p) {
            (p, r2)
        } else {
            draw_food(width, height, body, r2, (tries - 1) as nat)
        }
    }
}

/// Where food is placed from generator `rng`, and the generator afterwards: the head
/// when the snake has as many segments as the board has cells, otherwise up to
/// `u64::MAX` draws (`draw_food`).
pub open spec fn food_placement(width: usize, height: usize, body: Seq<Position>, rng: StdRng) -> (
    Position,
    StdRng,
) {
    if body.len() >= width as int * height as int {
        (body[0], rng)
    } else {
        draw_food(width, height, body, rng, u64::MAX as nat)
    }
}

/// The cell of the `k`-th draw of a food placement from generator `rng` (counting from
/// 0; each draw takes a column, then a row), and the generator after that draw.
pub open spec fn nth_draw(width: usize, height: usize, rng: StdRng, k: nat) -> (Position, StdRng)
    decreases k,
{
    let before = if k == 0 {
        rng
    } else {
        nth_draw(width, height, rng, (k - 1) as nat).1
    };
    let (x, r1) = gen_below(before, width);
    let (y, r2) = gen_below(r1, height);
    (Position { x: x as i32, y: y as i32 }, r2)
}

/// The generator before the `k`-th draw.
pub open spec fn before_draw(width: usize, height: usize, rng: StdRng, k: nat) -> StdRng {
    if k == 0 {
        rng
    } else {
        nth_draw(width, height, rng, (k - 1) as nat).1
    }
}

proof fn lemma_draw_food_finds(
    width: usize,
    height: usize,
    body: Seq<Position>,
    rng: StdRng,
    j: nat,
    k: nat,
    n: nat,
)
    requires
        j <= k,
        k - j < n,
        !seq_contains_pos(body, nth_draw(width, height, rng, k).0),
        forall|i: nat| j <= i < k ==> seq_contains_pos(body, #[trigger] nth_draw(width, height, rng, i).0),
    ensures
        draw_food(width, height, body, before_draw(width, height, rng, j), n) == nth_draw(width, height, rng, k),
    decreases k - j,
{
    if j < k {
        assert(seq_contains_pos(body, nth_draw(width, height, rng, j).0));
        assert(before_draw(width, height, rng, j + 1) == nth_draw(width, height, rng, j).1);
        lemma_draw_food_finds(width, height, body, rng, j + 1, k, (n - 1) as nat);
    }
}

/// Where food goes while the snake leaves a cell free: the first of the generator's
/// draws (a column, then a row) whose cell no segment holds, among the first
/// `u64::MAX` draws, with the generator just after that draw. Food is thus drawn, and
/// the generator always advances.
pub proof fn lemma_food_is_first_free_draw(
    width: usize,
    height: usize,
    body: Seq<Position>,
    rng: StdRng,
    k: nat,
)
    requires
        body.len() < width as int * height as int,
        k < u64::MAX,
        !seq_contains_pos(body, nth_draw(width, height, rng, k).0),
        forall|i: nat| i < k ==> seq_contains_pos(body, #[trigger] nth_draw(width, height, rng, i).0),
    ensures
        food_placement(width, height, body, rng) == nth_draw(width, height, rng, k),
{
    lemma_draw_food_finds(width, height, body, rng, 0, k, u64::MAX as nat);
}

/// In particular, when the first draw lands on a free cell, the food goes there and the
/// generator stands after exactly two draws, a column within the width and a row
/// within the height.
pub proof fn lemma_food_first_draw(width: usize, height: usize, body: Seq<Position>, rng: StdRng)
    requires
        body.len() < width as int * height as int,
    ensures
        ({
            let (x, r1) = gen_below(rng, width);
            let (y, r2) = gen_below(r1, height);
            let p = Position { x: x as i32, y: y as i32 };
            !seq_contains_pos(body, p) ==> food_placement(width, height, body, rng) == (p, r2)
        }),
{
    let (x, r1) = gen_below(rng, width);
    let (y, r2) = gen_below(r1, height);
    let p = Position { x: x as i32, y: y as i32 };
    if !seq_contains_pos(body, p) {
        assert(nth_draw(width, height, rng, 0) == (p, r2));
        lemma_food_is_first_free_draw(width, height, body, rng, 0);
    }
}

proof fn lemma_cell_at(k: int, width: int, height: int)
    requires
        0 < width <= i32::MAX,
        0 < height <= i32::MAX,
        0 <= k < width * height,
    ensures
        in_bounds(cell_at(k, width), width, height),
        cell_at(k, width).x as int == k % width,
        cell_at(k, width).y as int == k / width,
{
    vstd::arithmetic::div_mod::lemma_fundamental_div_mod(k, width);
    assert(k / width < height) by (nonlinear_arith)
        requires
            0 <= k < width * height,
            0 < width,
            k == width * (k / width) + k % width,
            0 <= k % width < width,
    ;
    assert(k / width >= 0) by (nonlinear_arith)
        requires
            0 <= k,
            0 < width,
            k == width * (k / width) + k % width,
            0 <= k % width < width,
    ;
}

/// Places food: the head when the snake already has as many segments as the board has
/// cells, otherwise a uniformly drawn cell that no segment holds. Draws are repeated
/// until a free cell comes up; should `u64::MAX` draws all miss, the board is scanned
/// row by row for the first free cell instead.
pub fn place_food(width: usize, height: usize, body: &VecDeque<Position>, rng: &mut StdRng) -> (p:
    Position)
    requires
        body@.len() > 0,
        0 < width,
        0 < height,
        board_fits(width, height),
    ensures
        (p, *final(rng)) == food_placement(width, height, body@, *old(rng)),
        food_sample_ok(p, width, height, body@),
{
    proof {
        assert(width as int * height as int <= OBS_CHANNELS as int * width as int * height as int)
            by (nonlinear_arith)
            requires
                0 < width,
                0 < height,
        ;
    }
    let total_cells = width * height;
    if body.len() >= total_cells {
        return body[0];
    }
    let ghost goal = food_placement(width, height, body@, *rng);
    let mut attempts: u64 = 0;
    while attempts < u64::MAX
        invariant
            0 < width <= i32::MAX,
            0 < height <= i32::MAX,
            body@.len() < width as int * height as int,
            goal == draw_food(width, height, body@, *rng, (u64::MAX - attempts) as nat),
            goal == food_placement(width, height, body@, *old(rng)),
        decreases u64::MAX - attempts,
    {
        let ghost r0 = *rng;
        let x = rng_below(rng, width) as i32;
        let y = rng_below(rng, height) as i32;
        let position = Position::new(x, y);
        proof {
            let n = (u64::MAX - attempts) as nat;
            assert(n > 0);
            assert(draw_food(width, height, body@, r0, n) == {
                let (dx, r1) = gen_below(r0, width);
                let (dy, r2) = gen_below(r1, height);
                let q = Position { x: dx as i32, y: dy as i32 };
                if !seq_contains_pos(body@, q) {
                    (q, r2)
                } else {
                    draw_food(width, height, body@, r2, (n - 1) as nat)
                }
            });
        }
        if !vec_deque_contains(body, position) {
            return position;
        }
        attempts = attempts + 1;
    }
    proof {
        lemma_free_cell_exists(body@, width as int, height as int);
    }
    let ghost w = width as int;
    let ghost h = height as int;
    let mut k: usize = 0;
    while k < total_cells
        invariant
            0 < width <= i32::MAX,
            0 < height <= i32::MAX,
            w == width as int,
            h == height as int,
            total_cells == w * h,
            k <= total_cells,
            body@.len() < w * h,
            !board_full(body@, w, h),
            goal == (first_free_from(w, h, body@, k as int), *rng),
            goal == food_placement(width, height, body@, *old(rng)),
            forall|j: int| 0 <= j < k ==> seq_contains_pos(body@, #[trigger] cell_at(j, w)),
        decreases total_cells - k,
    {
        proof {
            lemma_cell_at(k as int, w, h);
        }
        let position = Position::new((k % width) as i32, (k / width) as i32);
        assert(position == cell_at(k as int, w));
        if !vec_deque_contains(body, position) {
            assert(first_free_from(w, h, body@, k as int) == cell_at(k as int, w));
            return position;
        }
        k = k + 1;
    }
    proof {
        assert forall|p: Position| in_bounds(p, w, h) implies seq_contains_pos(body@, p) by {
            let j = p.y as int * w + p.x as int;
            assert(0 <= j < w * h) by (nonlinear_arith)
                requires
                    0 <= p.x < w,
                    0 <= p.y < h,
                    j == p.y as int * w + p.x as int,
            ;
            vstd::arithmetic::div_mod::lemma_fundamental_div_mod_converse(j, w, p.y as int, p.x as int);
            assert(cell_at(j, w) == p);
        }
    }
    body[0]
}

} // verus!
