use std::collections::VecDeque;

use vstd::prelude::*;

use crate::domain::flood::{
    adjacent, cell_blocked, cell_free, flat, flood_fill, head_cell, lemma_flat_in_range, lemma_reachable_set_closed,
    marked_cells, reachable_set, segment_mask,
};
use crate::domain::rules::{
    board_fits, in_bounds, CHANNEL_BODY, CHANNEL_EMPTY, CHANNEL_FOOD, CHANNEL_HEAD,
    CHANNEL_REACHABLE, OBS_CHANNELS,
};
use crate::domain::state::{seq_contains_pos, Position};

verus! {

broadcast use vstd::std_specs::vecdeque::group_vec_dequeue_axioms;

/// Index of plane `channel`, row `y`, column `x` in a planes-rows-columns buffer.
pub open spec fn chw(channel: int, y: int, x: int, height: int, width: int) -> int {
    (channel * height + y) * width + x
}

/// The one-hot value of plane `channel` at cell `(x, y)`: empty where neither food nor
/// a segment lies; the head; the other segments; the food; the cells that the head
/// reaches.
pub open spec fn obs_cell(
    width: int,
    height: int,
    body: Seq<Position>,
    food: Position,
    channel: int,
    y: int,
    x: int,
) -> u8 {
    let p = Position { x: x as i32, y: y as i32 };
    if channel == CHANNEL_EMPTY {
        if p == food || seq_contains_pos(body, p) { 0 } else { 1 }
    } else if channel == CHANNEL_HEAD {
        if body.len() > 0 && body[0] == p { 1 } else { 0 }
    } else if channel == CHANNEL_BODY {
        if exists|j: int| 1 <= j < body.len() && body[j] == p { 1 } else { 0 }
    } else if channel == CHANNEL_FOOD {
        if p == food { 1 } else { 0 }
    } else {
        if reachable_set(width, height, body).contains((x, y)) { 1 } else { 0 }
    }
}

/// The observation tensor, planes first, then rows, then columns.
pub open spec fn observation(width: int, height: int, body: Seq<Position>, food: Position) -> Seq<u8> {
    Seq::new(
        (OBS_CHANNELS as int * width * height) as nat,
        |i: int|
            {
                let r = i % (width * height);
                obs_cell(width, height, body, food, i / (width * height), r / width, r % width)
            },
    )
}

/// Entry `chw(channel, y, x)` of the observation is the value of that plane at `(x, y)`.
pub proof fn lemma_observation_at(
    width: int,
    height: int,
    body: Seq<Position>,
    food: Position,
    channel: int,
    y: int,
    x: int,
)
    requires
        0 < width,
        0 < height,
        0 <= channel < OBS_CHANNELS,
        0 <= y < height,
        0 <= x < width,
    ensures
        0 <= chw(channel, y, x, height, width) < OBS_CHANNELS as int * width * height,
        observation(width, height, body, food)[chw(channel, y, x, height, width)] == obs_cell(
            width,
            height,
            body,
            food,
            channel,
            y,
            x,
        ),
{
    let i = chw(channel, y, x, height, width);
    lemma_flat_in_range(x, y, width, height);
    assert(i == channel * (width * height) + flat(x, y, width)) by (nonlinear_arith)
        requires
            i == (channel * height + y) * width + x,
    ;
    assert(0 <= i < OBS_CHANNELS as int * width * height) by (nonlinear_arith)
        requires
            i == channel * (width * height) + (y * width + x),
            0 <= y * width + x < width * height,
            0 <= channel < OBS_CHANNELS,
    ;
    assert(width * height > 0) by (nonlinear_arith)
        requires
            width > 0,
            height > 0,
    ;
    vstd::arithmetic::div_mod::lemma_fundamental_div_mod_converse(
        i,
        width * height,
        channel,
        flat(x, y, width),
    );
    vstd::arithmetic::div_mod::lemma_fundamental_div_mod_converse(flat(x, y, width), width, y, x);
}

/// Builds the observation of a snake (possibly without segments) and its food on a
/// board.
pub fn encode_observation(width: usize, height: usize, body: &VecDeque<Position>, food: Position) -> (obs:
    Vec<u8>)
    requires
        0 < width,
        0 < height,
        board_fits(width, height),
        body@.len() > 0 ==> in_bounds(body@[0], width as int, height as int),
    ensures
        obs@ == observation(width as int, height as int, body@, food),
{
    let ghost w = width as int;
    let ghost h = height as int;
    let ghost bd = body@;
    proof {
        assert(w * h <= OBS_CHANNELS as int * w * h && OBS_CHANNELS as int * w * h
            == OBS_CHANNELS as int * (w * h)) by (nonlinear_arith)
            requires
                w > 0,
                h > 0,
        ;
    }
    let occupied = segment_mask(width, height, body, 0);
    let rest = segment_mask(width, height, body, 1);
    let reach = flood_fill(width, height, body);
    let has_head = body.len() > 0;
    let head = if has_head { body[0] } else { Position::new(0, 0) };
    let plane = width * height;
    let total = OBS_CHANNELS * plane;
    let mut obs: Vec<u8> = Vec::new();
    let mut i: usize = 0;
    let mut c: usize = 0;
    let mut y: usize = 0;
    let mut x: usize = 0;
    proof {
        assert(chw(0, 0, 0, h, w) == 0 && total > 0) by (nonlinear_arith)
            requires
                w > 0,
                h > 0,
                total == OBS_CHANNELS as int * w * h,
        ;
    }
    while i < total
        invariant
            w == width as int,
            h == height as int,
            bd == body@,
            has_head == (bd.len() > 0),
            has_head ==> head == bd[0],
            0 < width <= i32::MAX,
            0 < height <= i32::MAX,
            plane == w * h,
            total == OBS_CHANNELS as int * w * h,
            occupied@.len() == plane,
            rest@.len() == plane,
            reach@.len() == plane,
            forall|xx: int, yy: int|
                0 <= xx < w && 0 <= yy < h ==> #[trigger] occupied@[flat(xx, yy, w)] == exists|j: int|
                    0 <= j < bd.len() && bd[j] == (Position { x: xx as i32, y: yy as i32 }),
            forall|xx: int, yy: int|
                0 <= xx < w && 0 <= yy < h ==> #[trigger] rest@[flat(xx, yy, w)] == exists|j: int|
                    1 <= j < bd.len() && bd[j] == (Position { x: xx as i32, y: yy as i32 }),
            marked_cells(reach@, w, h) == reachable_set(w, h, bd),
            i <= total,
            x < width,
            y < height,
            c <= OBS_CHANNELS,
            c < OBS_CHANNELS ==> i == chw(c as int, y as int, x as int, h, w),
            c == OBS_CHANNELS <==> i == total,
            obs@.len() == i,
            forall|k: int| 0 <= k < i ==> obs@[k] == observation(w, h, bd, food)[k],
        decreases total - i,
    {
        proof {
            if c == OBS_CHANNELS {
                assert(false);
            }
            lemma_observation_at(w, h, bd, food, c as int, y as int, x as int);
            lemma_flat_in_range(x as int, y as int, w, h);
        }
        let f = y * width + x;
        let p = Position::new(x as i32, y as i32);
        let value: u8 = if c == CHANNEL_EMPTY {
            if p == food || occupied[f] { 0 } else { 1 }
        } else if c == CHANNEL_HEAD {
            if has_head && head == p { 1 } else { 0 }
        } else if c == CHANNEL_BODY {
            if rest[f] { 1 } else { 0 }
        } else if c == CHANNEL_FOOD {
            if p == food { 1 } else { 0 }
        } else {
            if reach[f] { 1 } else { 0 }
        };
        proof {
            if c == CHANNEL_EMPTY {
                assert(occupied@[flat(x as int, y as int, w)] == seq_contains_pos(bd, p));
            }
            if c == CHANNEL_REACHABLE {
                assert(marked_cells(reach@, w, h).contains((x as int, y as int)) == reach@[f as int]);
            }
            assert(value == obs_cell(w, h, bd, food, c as int, y as int, x as int));
        }
        obs.push(value);
        let ghost old_c = c as int;
        let ghost old_y = y as int;
        let ghost old_x = x as int;
        i = i + 1;
        if x + 1 < width {
            x = x + 1;
        } else {
            x = 0;
            if y + 1 < height {
                y = y + 1;
            } else {
                y = 0;
                c = c + 1;
            }
        }
        proof {
            if c < OBS_CHANNELS {
                lemma_observation_at(w, h, bd, food, c as int, y as int, x as int);
            }
            if old_x + 1 < w {
                assert(i == chw(c as int, y as int, x as int, h, w));
            } else if old_y + 1 < h {
                assert(chw(old_c, old_y, old_x, h, w) + 1 == chw(old_c, old_y + 1, 0, h, w))
                    by (nonlinear_arith)
                    requires
                        old_x + 1 == w,
                ;
                assert(i == chw(c as int, y as int, x as int, h, w));
            } else {
                assert(chw(old_c, old_y, old_x, h, w) + 1 == chw(old_c + 1, 0, 0, h, w))
                    by (nonlinear_arith)
                    requires
                        old_x + 1 == w,
                        old_y + 1 == h,
                ;
                if c == OBS_CHANNELS {
                    assert(i == total) by (nonlinear_arith)
                        requires
                            i == chw(old_c + 1, 0, 0, h, w),
                            old_c + 1 == OBS_CHANNELS,
                            total == OBS_CHANNELS as int * w * h,
                    ;
                } else {
                    assert(i < total) by (nonlinear_arith)
                        requires
                            i == chw(old_c + 1, 0, 0, h, w),
                            old_c + 1 < OBS_CHANNELS,
                            total == OBS_CHANNELS as int * w * h,
                            w > 0,
                            h > 0,
                    ;
                }
            }
        }
    }
    assert(obs@ =~= observation(w, h, bd, food));
    obs
}

/// Every entry of an observation is 0 or 1, and a cell is marked empty exactly when
/// none of the head, body and food planes marks it.
pub proof fn lemma_observation_one_hot(
    width: int,
    height: int,
    body: Seq<Position>,
    food: Position,
    y: int,
    x: int,
)
    requires
        0 < width,
        0 < height,
        0 <= y < height,
        0 <= x < width,
    ensures
        forall|c: int|
            0 <= c < OBS_CHANNELS ==> #[trigger] obs_cell(width, height, body, food, c, y, x) <= 1,
        (obs_cell(width, height, body, food, CHANNEL_EMPTY as int, y, x) == 1) <==> (obs_cell(
            width,
            height,
            body,
            food,
            CHANNEL_HEAD as int,
            y,
            x,
        ) == 0 && obs_cell(width, height, body, food, CHANNEL_BODY as int, y, x) == 0 && obs_cell(
            width,
            height,
            body,
            food,
            CHANNEL_FOOD as int,
            y,
            x,
        ) == 0),
{
    let p = Position { x: x as i32, y: y as i32 };
    if seq_contains_pos(body, p) {
        let j = choose|j: int| 0 <= j < body.len() && body[j] == p;
        if j > 0 {
            assert(exists|k: int| 1 <= k < body.len() && body[k] == p);
        }
    }
    if exists|k: int| 1 <= k < body.len() && body[k] == p {
        let k = choose|k: int| 1 <= k < body.len() && body[k] == p;
        assert(seq_contains_pos(body, p));
    }
    if body.len() > 0 && body[0] == p {
        assert(seq_contains_pos(body, p));
    }
}

/// The reachable plane is the flood-fill set and nothing else: at every cell of the
/// board it is 1 exactly when the head reaches the cell through free cells, wherever
/// the food lies (food neither blocks a cell nor hides it).
pub proof fn lemma_reachable_plane_is_flood(
    width: int,
    height: int,
    body: Seq<Position>,
    food: Position,
    y: int,
    x: int,
)
    requires
        0 < width,
        0 < height,
        0 <= y < height,
        0 <= x < width,
    ensures
        observation(width, height, body, food)[chw(CHANNEL_REACHABLE as int, y, x, height, width)] == if reachable_set(
            width,
            height,
            body,
        ).contains((x, y)) {
            1u8
        } else {
            0u8
        },
{
    lemma_observation_at(width, height, body, food, CHANNEL_REACHABLE as int, y, x);
}

/// A board cell next to the head that no segment holds is marked reachable, food or not.
pub proof fn lemma_free_neighbour_of_head_is_reachable(
    width: int,
    height: int,
    body: Seq<Position>,
    food: Position,
    y: int,
    x: int,
)
    requires
        0 < width,
        0 < height,
        body.len() > 0,
        0 <= y < height,
        0 <= x < width,
        adjacent(head_cell(body), (x, y)),
        !cell_blocked(body, (x, y)),
    ensures
        observation(width, height, body, food)[chw(CHANNEL_REACHABLE as int, y, x, height, width)] == 1,
{
    lemma_reachable_set_closed(width, height, body);
    assert(cell_free(width, height, body, (x, y)));
    lemma_reachable_plane_is_flood(width, height, body, food, y, x);
}

/// The head's own cell is always marked reachable.
pub proof fn lemma_head_reachable(width: int, height: int, body: Seq<Position>, food: Position)
    requires
        0 < width,
        0 < height,
        body.len() > 0,
        in_bounds(body[0], width, height),
    ensures
        observation(width, height, body, food)[chw(
            CHANNEL_REACHABLE as int,
            body[0].y as int,
            body[0].x as int,
            height,
            width,
        )] == 1,
{
    crate::domain::flood::lemma_reachable_set_closed(width, height, body);
    lemma_observation_at(
        width,
        height,
        body,
        food,
        CHANNEL_REACHABLE as int,
        body[0].y as int,
        body[0].x as int,
    );
}

} // verus!
