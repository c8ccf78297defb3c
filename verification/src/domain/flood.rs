use std::collections::VecDeque;

use vstd::prelude::*;

use crate::domain::rules::{board_fits, in_bounds};
use crate::domain::state::{seq_contains_pos, Position};

verus! {

broadcast use vstd::std_specs::vecdeque::group_vec_dequeue_axioms;

/// Row-major index of cell `(x, y)` on a board `width` cells wide.
pub open spec fn flat(x: int, y: int, width: int) -> int {
    y * width + x
}

/// Whether `(x, y)` is a cell of the board.
pub open spec fn cell_in_bounds(c: (int, int), width: int, height: int) -> bool {
    0 <= c.0 < width && 0 <= c.1 < height
}

/// Whether a segment of `body` lies on cell `c`.
pub open spec fn cell_blocked(body: Seq<Position>, c: (int, int)) -> bool {
    seq_contains_pos(body, Position { x: c.0 as i32, y: c.1 as i32 })
}

/// Whether a search may enter cell `c`: on the board and free of segments.
pub open spec fn cell_free(width: int, height: int, body: Seq<Position>, c: (int, int)) -> bool {
    cell_in_bounds(c, width, height) && !cell_blocked(body, c)
}

/// Whether two cells share a side.
pub open spec fn adjacent(a: (int, int), b: (int, int)) -> bool {
    ||| a.0 == b.0 && (a.1 - b.1 == 1 || b.1 - a.1 == 1)
    ||| a.1 == b.1 && (a.0 - b.0 == 1 || b.0 - a.0 == 1)
}

/// Every free cell next to a cell of `s` is in `s`.
pub open spec fn flood_closed(s: Set<(int, int)>, width: int, height: int, body: Seq<Position>) -> bool {
    forall|a: (int, int), b: (int, int)|
        #![trigger s.contains(a), adjacent(a, b)]
        s.contains(a) && adjacent(a, b) && cell_free(width, height, body, b) ==> s.contains(b)
}

/// The cell of the snake's head.
pub open spec fn head_cell(body: Seq<Position>) -> (int, int) {
    (body[0].x as int, body[0].y as int)
}

/// The cells that the head reaches through free cells: the least set that holds the
/// head and is closed under steps to a free neighbour. Without a head nothing is
/// reachable.
pub open spec fn reachable_set(width: int, height: int, body: Seq<Position>) -> Set<(int, int)> {
    if body.len() == 0 {
        Set::empty()
    } else {
        Set::new(
            |c: (int, int)|
                forall|s: Set<(int, int)>|
                    #![trigger flood_closed(s, width, height, body)]
                    s.contains(head_cell(body)) && flood_closed(s, width, height, body) ==> s.contains(c),
        )
    }
}

/// The reachable set holds the head and is closed under steps to a free neighbour.
pub proof fn lemma_reachable_set_closed(width: int, height: int, body: Seq<Position>)
    requires
        body.len() > 0,
    ensures
        reachable_set(width, height, body).contains(head_cell(body)),
        flood_closed(reachable_set(width, height, body), width, height, body),
{
    let r = reachable_set(width, height, body);
    assert forall|a: (int, int), b: (int, int)|
        r.contains(a) && adjacent(a, b) && cell_free(width, height, body, b) implies r.contains(b) by {
        assert forall|s: Set<(int, int)>|
            s.contains(head_cell(body)) && flood_closed(s, width, height, body) implies s.contains(b) by {
            assert(s.contains(a));
        }
    }
}

/// Any set that holds the head and is closed under free steps holds every reachable cell.
pub proof fn lemma_reachable_set_least(
    s: Set<(int, int)>,
    width: int,
    height: int,
    body: Seq<Position>,
)
    requires
        body.len() > 0,
        s.contains(head_cell(body)),
        flood_closed(s, width, height, body),
    ensures
        reachable_set(width, height, body).subset_of(s),
{
}

/// Row-major indices of board cells are in range.
pub proof fn lemma_flat_in_range(x: int, y: int, width: int, height: int)
    requires
        0 <= x < width,
        0 <= y < height,
    ensures
        0 <= flat(x, y, width) < width * height,
{
    assert(0 <= y * width + x < width * height) by (nonlinear_arith)
        requires
            0 <= x < width,
            0 <= y < height,
    ;
}

/// Distinct board cells have distinct row-major indices.
pub proof fn lemma_flat_injective(x1: int, y1: int, x2: int, y2: int, width: int)
    requires
        0 <= x1 < width,
        0 <= x2 < width,
        0 <= y1,
        0 <= y2,
        flat(x1, y1, width) == flat(x2, y2, width),
    ensures
        x1 == x2,
        y1 == y2,
{
    assert(y1 == y2) by (nonlinear_arith)
        requires
            0 <= x1 < width,
            0 <= x2 < width,
            0 <= y1,
            0 <= y2,
            y1 * width + x1 == y2 * width + x2,
    ;
}

/// Number of `false` entries.
pub open spec fn count_false(s: Seq<bool>) -> nat
    decreases s.len(),
{
    if s.len() == 0 {
        0
    } else {
        count_false(s.drop_last()) + if s.last() { 0nat } else { 1nat }
    }
}

proof fn lemma_count_false_update(s: Seq<bool>, i: int)
    requires
        0 <= i < s.len(),
        !s[i],
    ensures
        count_false(s.update(i, true)) + 1 == count_false(s),
    decreases s.len(),
{
    let t = s.update(i, true);
    if i == s.len() - 1 {
        assert(t.drop_last() =~= s.drop_last());
    } else {
        assert(t.drop_last() =~= s.drop_last().update(i, true));
        lemma_count_false_update(s.drop_last(), i);
    }
}

/// Cells marked in a row-major mask.
pub open spec fn marked_cells(mask: Seq<bool>, width: int, height: int) -> Set<(int, int)> {
    Set::new(|c: (int, int)| cell_in_bounds(c, width, height) && mask[flat(c.0, c.1, width)])
}

spec fn qcell(e: (usize, usize)) -> (int, int) {
    (e.0 as int, e.1 as int)
}

spec fn in_queue(q: Seq<(usize, usize)>, c: (int, int)) -> bool {
    exists|j: int| 0 <= j < q.len() && qcell(q[j]) == c
}

spec fn closed_at(v: Set<(int, int)>, c: (int, int), width: int, height: int, body: Seq<Position>) -> bool {
    forall|b: (int, int)| #![trigger v.contains(b)]
        adjacent(c, b) && cell_free(width, height, body, b) ==> v.contains(b)
}

/// The search state, except for the closure of expanded cells: marks agree with the
/// visited set, the visited set is reachable, and queued cells are visited.
spec fn bfs_core(
    width: int,
    height: int,
    body: Seq<Position>,
    blocked: Seq<bool>,
    visited: Seq<bool>,
    queue: Seq<(usize, usize)>,
) -> bool {
    let v = marked_cells(visited, width, height);
    &&& visited.len() == width * height
    &&& blocked.len() == width * height
    &&& forall|x: int, y: int|
        0 <= x < width && 0 <= y < height ==> #[trigger] blocked[flat(x, y, width)] == cell_blocked(
            body,
            (x, y),
        )
    &&& forall|c: (int, int)| v.contains(c) ==> reachable_set(width, height, body).contains(c)
    &&& forall|j: int|
        0 <= j < queue.len() ==> cell_in_bounds(qcell(#[trigger] queue[j]), width, height)
            && v.contains(qcell(queue[j]))
}

/// A visited cell other than `skip` that is off the queue has all its free neighbours
/// visited.
spec fn bfs_closed_except(
    width: int,
    height: int,
    body: Seq<Position>,
    visited: Seq<bool>,
    queue: Seq<(usize, usize)>,
    skip: Option<(int, int)>,
) -> bool {
    let v = marked_cells(visited, width, height);
    forall|c: (int, int)|
        #![trigger v.contains(c)]
        v.contains(c) && skip != Some(c) ==> in_queue(queue, c) || closed_at(v, c, width, height, body)
}

/// Visits cell `(nx, ny)` if it is neither visited nor blocked; it is a neighbour of the
/// cell being expanded, which is reachable.
fn visit(
    nx: usize,
    ny: usize,
    width: usize,
    height: usize,
    blocked: &Vec<bool>,
    visited: &mut Vec<bool>,
    queue: &mut VecDeque<(usize, usize)>,
    Ghost(body): Ghost<Seq<Position>>,
    Ghost(from): Ghost<(int, int)>,
)
    requires
        nx < width,
        ny < height,
        width as int * height as int <= usize::MAX,
        adjacent(from, (nx as int, ny as int)),
        marked_cells(old(visited)@, width as int, height as int).contains(from),
        body.len() > 0,
        bfs_core(width as int, height as int, body, blocked@, old(visited)@, old(queue)@),
        bfs_closed_except(width as int, height as int, body, old(visited)@, old(queue)@, Some(from)),
    ensures
        final(visited)@[flat(nx as int, ny as int, width as int)] || blocked@[flat(
            nx as int,
            ny as int,
            width as int,
        )],
        marked_cells(old(visited)@, width as int, height as int).subset_of(
            marked_cells(final(visited)@, width as int, height as int),
        ),
        count_false(final(visited)@) + final(queue)@.len() == count_false(old(visited)@) + old(
            queue,
        )@.len(),
        bfs_core(width as int, height as int, body, blocked@, final(visited)@, final(queue)@),
        bfs_closed_except(width as int, height as int, body, final(visited)@, final(queue)@, Some(from)),
{
    let ghost w = width as int;
    let ghost h = height as int;
    proof {
        lemma_flat_in_range(nx as int, ny as int, w, h);
    }
    let idx = ny * width + nx;
    if !visited[idx] && !blocked[idx] {
        let ghost old_visited = visited@;
        let ghost old_queue = queue@;
        let ghost n = (nx as int, ny as int);
        let ghost v0 = marked_cells(old_visited, w, h);
        visited[idx] = true;
        queue.push_back((nx, ny));
        let ghost v1 = marked_cells(visited@, w, h);
        proof {
            lemma_count_false_update(old_visited, idx as int);
            assert forall|c: (int, int)| v1.contains(c) <==> v0.contains(c) || c == n by {
                if cell_in_bounds(c, w, h) {
                    lemma_flat_in_range(c.0, c.1, w, h);
                    if flat(c.0, c.1, w) == idx as int {
                        lemma_flat_injective(c.0, c.1, nx as int, ny as int, w);
                    }
                }
            }
            assert(v1 =~= v0.insert(n));
            // the new cell is reachable
            assert(cell_free(w, h, body, n));
            lemma_reachable_set_closed(w, h, body);
            assert(reachable_set(w, h, body).contains(from));
            assert(reachable_set(w, h, body).contains(n));
            assert(in_queue(queue@, n)) by {
                assert(qcell(queue@[queue@.len() - 1]) == n);
            }
            assert forall|c: (int, int)| v0.contains(c) && in_queue(old_queue, c) implies in_queue(
                queue@,
                c,
            ) by {
                let j = choose|j: int| 0 <= j < old_queue.len() && qcell(old_queue[j]) == c;
                assert(qcell(queue@[j]) == c);
            }
            assert forall|c: (int, int)|
                #[trigger] v1.contains(c) && Some(from) != Some(c) implies in_queue(queue@, c) || closed_at(
                v1,
                c,
                w,
                h,
                body,
            ) by {
                if c != n {
                    if !in_queue(old_queue, c) && closed_at(v0, c, w, h, body) {
                        assert forall|b: (int, int)|
                            adjacent(c, b) && cell_free(w, h, body, b) implies v1.contains(b) by {
                            assert(v0.contains(b));
                        }
                    }
                }
            }
            assert forall|j: int| 0 <= j < queue@.len() implies cell_in_bounds(
                qcell(#[trigger] queue@[j]),
                w,
                h,
            ) && v1.contains(qcell(queue@[j])) by {
                if j < old_queue.len() {
                    assert(queue@[j] == old_queue[j]);
                }
            }
        }
    }
}

/// Row-major mask of the cells that hold one of the segments `from..` of `body`.
pub fn segment_mask(width: usize, height: usize, body: &VecDeque<Position>, from: usize) -> (mask:
    Vec<bool>)
    requires
        0 < width <= i32::MAX,
        0 < height <= i32::MAX,
        width as int * height as int <= usize::MAX,
    ensures
        mask@.len() == width * height,
        forall|x: int, y: int|
            0 <= x < width && 0 <= y < height ==> #[trigger] mask@[flat(x, y, width as int)]
                == exists|j: int|
                from <= j < body@.len() && body@[j] == (Position { x: x as i32, y: y as i32 }),
{
    let ghost w = width as int;
    let ghost h = height as int;
    let ghost bd = body@;
    let total = width * height;
    let mut blocked: Vec<bool> = Vec::new();
    let mut k: usize = 0;
    while k < total
        invariant
            w == width as int,
            h == height as int,
            total == w * h,
            k <= total,
            blocked@.len() == k,
            forall|i: int| 0 <= i < k ==> !blocked@[i],
        decreases total - k,
    {
        blocked.push(false);
        k = k + 1;
    }
    let n = body.len();
    let start = if from < n { from } else { n };
    proof {
        assert forall|x: int, y: int| 0 <= x < w && 0 <= y < h implies #[trigger] blocked@[flat(
            x,
            y,
            w,
        )] == exists|j: int| from <= j < start && bd[j] == (Position { x: x as i32, y: y as i32 }) by {
            lemma_flat_in_range(x, y, w, h);
        }
    }
    let mut i: usize = start;
    while i < n
        invariant
            w == width as int,
            h == height as int,
            n == bd.len(),
            bd == body@,
            total == w * h,
            0 < width <= i32::MAX,
            0 < height <= i32::MAX,
            start <= i <= n,
            start == if from < n { from } else { n },
            blocked@.len() == total,
            forall|x: int, y: int|
                0 <= x < w && 0 <= y < h ==> #[trigger] blocked@[flat(x, y, w)] == exists|j: int|
                    from <= j < i && bd[j] == (Position { x: x as i32, y: y as i32 }),
        decreases n - i,
    {
        let seg = body[i];
        if seg.x >= 0 && seg.y >= 0 && (seg.x as usize) < width && (seg.y as usize) < height {
            let ghost old_blocked = blocked@;
            proof {
                lemma_flat_in_range(seg.x as int, seg.y as int, w, h);
            }
            let idx = seg.y as usize * width + seg.x as usize;
            blocked[idx] = true;
            proof {
                assert forall|x: int, y: int| 0 <= x < w && 0 <= y < h implies #[trigger] blocked@[flat(
                    x,
                    y,
                    w,
                )] == exists|j: int| from <= j < i + 1 && bd[j] == (Position { x: x as i32, y: y as i32 }) by {
                    lemma_flat_in_range(x, y, w, h);
                    if flat(x, y, w) == idx as int {
                        lemma_flat_injective(x, y, seg.x as int, seg.y as int, w);
                        assert(bd[i as int] == (Position { x: x as i32, y: y as i32 }));
                    } else {
                        assert(blocked@[flat(x, y, w)] == old_blocked[flat(x, y, w)]);
                        if bd[i as int] == (Position { x: x as i32, y: y as i32 }) {
                            assert(flat(x, y, w) == idx as int);
                        }
                    }
                }
            }
        } else {
            proof {
                assert forall|x: int, y: int| 0 <= x < w && 0 <= y < h implies #[trigger] blocked@[flat(
                    x,
                    y,
                    w,
                )] == exists|j: int| from <= j < i + 1 && bd[j] == (Position { x: x as i32, y: y as i32 }) by {
                    if bd[i as int] == (Position { x: x as i32, y: y as i32 }) {
                        assert(false);
                    }
                }
            }
        }
        i = i + 1;
    }
    proof {
        assert forall|x: int, y: int| 0 <= x < w && 0 <= y < h implies #[trigger] blocked@[flat(
            x,
            y,
            w,
        )] == exists|j: int| from <= j < bd.len() && bd[j] == (Position { x: x as i32, y: y as i32 }) by {
            if exists|j: int| from <= j < bd.len() && bd[j] == (Position { x: x as i32, y: y as i32 }) {
                let j = choose|j: int| from <= j < bd.len() && bd[j] == (Position { x: x as i32, y: y as i32 });
                assert(start <= j);
            }
        }
    }
    blocked
}

/// Breadth-first flood fill from the head over the free cells of the board: entry
/// `y * width + x` of the result tells whether `(x, y)` is reachable. Every segment,
/// the head's own cell included, blocks; the search still starts on the head's cell.
/// Without a snake no cell is reachable.
pub fn flood_fill(width: usize, height: usize, body: &VecDeque<Position>) -> (mask: Vec<bool>)
    requires
        0 < width,
        0 < height,
        board_fits(width, height),
        body@.len() > 0 ==> in_bounds(body@[0], width as int, height as int),
    ensures
        mask@.len() == width * height,
        marked_cells(mask@, width as int, height as int) == reachable_set(
            width as int,
            height as int,
            body@,
        ),
{
    if body.len() > 0 {
        return flood_fill_from_head(width, height, body);
    }
    let ghost w = width as int;
    let ghost h = height as int;
    proof {
        assert(w * h <= 5 * w * h) by (nonlinear_arith)
            requires
                w > 0,
                h > 0,
        ;
    }
    let total = width * height;
    let mut mask: Vec<bool> = Vec::new();
    let mut k: usize = 0;
    while k < total
        invariant
            total == w * h,
            k <= total,
            mask@.len() == k,
            forall|i: int| 0 <= i < k ==> !mask@[i],
        decreases total - k,
    {
        mask.push(false);
        k = k + 1;
    }
    proof {
        assert forall|c: (int, int)| !marked_cells(mask@, w, h).contains(c) by {
            if cell_in_bounds(c, w, h) {
                lemma_flat_in_range(c.0, c.1, w, h);
            }
        }
        assert(marked_cells(mask@, w, h) =~= reachable_set(w, h, body@));
    }
    mask
}

fn flood_fill_from_head(width: usize, height: usize, body: &VecDeque<Position>) -> (mask: Vec<bool>)
    requires
        body@.len() > 0,
        0 < width,
        0 < height,
        board_fits(width, height),
        in_bounds(body@[0], width as int, height as int),
    ensures
        mask@.len() == width * height,
        marked_cells(mask@, width as int, height as int) == reachable_set(
            width as int,
            height as int,
            body@,
        ),
{
    let ghost w = width as int;
    let ghost h = height as int;
    let ghost bd = body@;
    proof {
        assert(w * h <= 5 * w * h) by (nonlinear_arith)
            requires
                w > 0,
                h > 0,
        ;
    }
    let total = width * height;

    let blocked = segment_mask(width, height, body, 0);
    let mut visited: Vec<bool> = Vec::new();
    let mut k: usize = 0;
    while k < total
        invariant
            w == width as int,
            h == height as int,
            total == w * h,
            k <= total,
            visited@.len() == k,
            forall|i: int| 0 <= i < k ==> !visited@[i],
        decreases total - k,
    {
        visited.push(false);
        k = k + 1;
    }
    let n = body.len();

    let head = body[0];
    let hx = head.x as usize;
    let hy = head.y as usize;
    proof {
        lemma_flat_in_range(hx as int, hy as int, w, h);
    }
    let head_flat = hy * width + hx;
    let ghost before = visited@;
    visited[head_flat] = true;
    let mut queue: VecDeque<(usize, usize)> = VecDeque::new();
    queue.push_back((hx, hy));
    proof {
        let hc = head_cell(bd);
        let v = marked_cells(visited@, w, h);
        assert forall|c: (int, int)| v.contains(c) <==> c == hc by {
            if cell_in_bounds(c, w, h) {
                lemma_flat_in_range(c.0, c.1, w, h);
                if flat(c.0, c.1, w) == head_flat as int {
                    lemma_flat_injective(c.0, c.1, hx as int, hy as int, w);
                }
            }
        }
        lemma_reachable_set_closed(w, h, bd);
        assert(in_queue(queue@, hc)) by {
            assert(qcell(queue@[0]) == hc);
        }
        assert forall|x: int, y: int| 0 <= x < w && 0 <= y < h implies #[trigger] blocked@[flat(
            x,
            y,
            w,
        )] == cell_blocked(bd, (x, y)) by {
            if blocked@[flat(x, y, w)] {
                let j = choose|j: int| 0 <= j < n && bd[j] == (Position { x: x as i32, y: y as i32 });
                assert(bd[j] == (Position { x: (x, y).0 as i32, y: (x, y).1 as i32 }));
            }
        }
    }

    while queue.len() > 0
        invariant
            w == width as int,
            h == height as int,
            bd == body@,
            total == w * h,
            0 < width <= i32::MAX,
            0 < height <= i32::MAX,
            bfs_core(w, h, bd, blocked@, visited@, queue@),
            bfs_closed_except(w, h, bd, visited@, queue@, None),
            marked_cells(visited@, w, h).contains(head_cell(bd)),
        decreases count_false(visited@) + queue@.len(),
    {
        let ghost q0 = queue@;
        let ghost vis0 = visited@;
        let (cx, cy) = queue.pop_front().unwrap();
        let ghost from = (cx as int, cy as int);
        let ghost v0 = marked_cells(vis0, w, h);
        proof {
            assert(qcell(q0[0]) == from);
            assert(cell_in_bounds(from, w, h));
            assert(v0.contains(from));
            assert forall|c: (int, int)|
                #[trigger] marked_cells(visited@, w, h).contains(c) && Some(from) != Some(c) implies in_queue(queue@, c)
                || closed_at(marked_cells(visited@, w, h), c, w, h, bd) by {
                if in_queue(q0, c) {
                    let j = choose|j: int| 0 <= j < q0.len() && qcell(q0[j]) == c;
                    if j == 0 {
                    } else {
                        assert(qcell(queue@[j - 1]) == c);
                    }
                }
            }
            assert forall|j: int| 0 <= j < queue@.len() implies cell_in_bounds(
                qcell(#[trigger] queue@[j]),
                w,
                h,
            ) && marked_cells(visited@, w, h).contains(qcell(queue@[j])) by {
                assert(queue@[j] == q0[j + 1]);
            }
        }
        if cy > 0 {
            visit(cx, cy - 1, width, height, &blocked, &mut visited, &mut queue, Ghost(bd), Ghost(from));
        }
        if cy + 1 < height {
            visit(cx, cy + 1, width, height, &blocked, &mut visited, &mut queue, Ghost(bd), Ghost(from));
        }
        if cx > 0 {
            visit(cx - 1, cy, width, height, &blocked, &mut visited, &mut queue, Ghost(bd), Ghost(from));
        }
        if cx + 1 < width {
            visit(cx + 1, cy, width, height, &blocked, &mut visited, &mut queue, Ghost(bd), Ghost(from));
        }
        proof {
            let v = marked_cells(visited@, w, h);
            assert forall|b: (int, int)|
                #![trigger v.contains(b)]
                adjacent(from, b) && cell_free(w, h, bd, b) implies v.contains(b) by {
                lemma_flat_in_range(b.0, b.1, w, h);
            }
            assert(closed_at(v, from, w, h, bd));
            assert forall|c: (int, int)|
                #[trigger] v.contains(c) && None::<(int, int)> != Some(c) implies in_queue(queue@, c)
                || closed_at(v, c, w, h, bd) by {
                if c != from {
                    assert(Some(from) != Some(c));
                }
            }
        }
    }
    proof {
        let v = marked_cells(visited@, w, h);
        assert(flood_closed(v, w, h, bd)) by {
            assert forall|a: (int, int), b: (int, int)|
                v.contains(a) && adjacent(a, b) && cell_free(w, h, bd, b) implies v.contains(b) by {
                assert(!in_queue(queue@, a));
                assert(closed_at(v, a, w, h, bd));
            }
        }
        lemma_reachable_set_least(v, w, h, bd);
        assert(v =~= reachable_set(w, h, bd));
    }
    visited
}

} // verus!
