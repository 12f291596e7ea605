//! Connected components of a foreground mask over the tracker's downscaled
//! grid: a 4-connected flood fill that accumulates each component's
//! first and second moments and bounding box, and the search for the largest
//! component. Cells are numbered row-major: cell `p` of a `w`-wide grid sits
//! at column `p % w`, row `p / w`.

use vstd::arithmetic::div_mod::{lemma_fundamental_div_mod, lemma_fundamental_div_mod_converse};
use vstd::prelude::*;

verus! {

/// Whether `q` is one of the four grid neighbours of cell `p` in a `w × h`
/// grid (left, right, up, down, within the grid).
pub open spec fn neighbours(p: int, q: int, w: int, h: int) -> bool {
    &&& 0 <= p < w * h
    &&& {
        ||| q == p - 1 && p % w > 0
        ||| q == p + 1 && p % w + 1 < w
        ||| q == p - w && p / w > 0
        ||| q == p + w && p / w + 1 < h
    }
}

/// `s` is closed under stepping to an available neighbour.
pub open spec fn closed_in(s: Set<int>, avail: Seq<bool>, w: int, h: int) -> bool {
    forall|p: int, q: int|
        s.contains(p) && #[trigger] neighbours(p, q, w, h) && 0 <= q < avail.len() && avail[q] ==> s.contains(q)
}

/// `c` is the 4-connected component of `start` among the available cells: it
/// holds `start`, only available cells, is closed under stepping to an
/// available neighbour, and lies inside every such closed set holding `start`.
pub open spec fn is_component(c: Set<int>, avail: Seq<bool>, w: int, h: int, start: int) -> bool {
    &&& c.contains(start)
    &&& forall|q: int| #[trigger] c.contains(q) ==> 0 <= q < avail.len() && avail[q]
    &&& closed_in(c, avail, w, h)
    &&& forall|s: Set<int>| #[trigger] closed_in(s, avail, w, h) && s.contains(start) ==> c.subset_of(s)
}

/// Moment and bounding-box accumulators over a list of cells.
pub struct BlobSums {
    pub area: int,
    pub sx: int,
    pub sy: int,
    pub sxx: int,
    pub syy: int,
    pub sxy: int,
    pub minx: int,
    pub miny: int,
    pub maxx: int,
    pub maxy: int,
}

pub open spec fn min_int(a: int, b: int) -> int {
    if a <= b { a } else { b }
}

pub open spec fn max_int(a: int, b: int) -> int {
    if a >= b { a } else { b }
}

/// The accumulators after folding `cells` in: the count, the sums of `x`,
/// `y`, `x²`, `y²`, `xy`, and the bounding box (starting from the empty box
/// `minx = w, miny = h, maxx = maxy = 0`).
pub open spec fn sums_of(cells: Seq<int>, w: int, h: int) -> BlobSums
    decreases cells.len(),
{
    if cells.len() == 0 {
        BlobSums { area: 0, sx: 0, sy: 0, sxx: 0, syy: 0, sxy: 0, minx: w, miny: h, maxx: 0, maxy: 0 }
    } else {
        let b = sums_of(cells.drop_last(), w, h);
        let x = cells.last() % w;
        let y = cells.last() / w;
        BlobSums {
            area: b.area + 1,
            sx: b.sx + x,
            sy: b.sy + y,
            sxx: b.sxx + x * x,
            syy: b.syy + y * y,
            sxy: b.sxy + x * y,
            minx: min_int(b.minx, x),
            miny: min_int(b.miny, y),
            maxx: max_int(b.maxx, x),
            maxy: max_int(b.maxy, y),
        }
    }
}

/// One connected component's accumulators.
#[derive(Debug, Clone, Copy, PartialEq, Eq, Structural)]
pub struct Blob {
    pub area: usize,
    pub sx: u128,
    pub sy: u128,
    pub sxx: u128,
    pub syy: u128,
    pub sxy: u128,
    pub minx: usize,
    pub miny: usize,
    pub maxx: usize,
    pub maxy: usize,
}

impl View for Blob {
    type V = BlobSums;

    open spec fn view(&self) -> BlobSums {
        BlobSums {
            area: self.area as int,
            sx: self.sx as int,
            sy: self.sy as int,
            sxx: self.sxx as int,
            syy: self.syy as int,
            sxy: self.sxy as int,
            minx: self.minx as int,
            miny: self.miny as int,
            maxx: self.maxx as int,
            maxy: self.maxy as int,
        }
    }
}

/// The cells available to a fill: foreground and not yet visited.
pub open spec fn available(mask: Seq<bool>, visited: Seq<bool>) -> Seq<bool> {
    Seq::new(mask.len(), |i: int| mask[i] && !visited[i])
}

/// The cells marked in `after` but not in `before`.
pub open spec fn newly_marked(before: Seq<bool>, after: Seq<bool>) -> Set<int> {
    Set::new(|i: int| 0 <= i < after.len() && after[i] && !(0 <= i < before.len() && before[i]))
}

/// Coordinates of a grid cell, and which of its neighbours stay in the grid.
proof fn lemma_cell(p: int, w: int, h: int)
    requires
        0 <= p < w * h,
        w > 0,
        h > 0,
    ensures
        p == (p / w) * w + p % w,
        0 <= p % w < w,
        0 <= p / w < h,
        p % w > 0 ==> p - 1 >= 0,
        p % w + 1 < w ==> p + 1 < w * h,
        p / w > 0 ==> p - w >= 0,
        p / w + 1 < h ==> p + w < w * h,
{
    lemma_fundamental_div_mod(p, w);
    let x = p % w;
    let y = p / w;
    assert(p == w * y + x);
    assert(y < h) by (nonlinear_arith)
        requires p == w * y + x, 0 <= x, p < w * h, w > 0;
    assert(y >= 0) by (nonlinear_arith)
        requires p == w * y + x, x < w, p >= 0, w > 0;
    assert(p == y * w + x) by (nonlinear_arith)
        requires p == w * y + x;
    assert(y + 1 < h ==> p + w < w * h) by (nonlinear_arith)
        requires p == y * w + x, x < w, w > 0;
    assert(x + 1 < w ==> p + 1 < w * h) by (nonlinear_arith)
        requires p == y * w + x, y < h, w > 0;
    assert(y > 0 ==> p - w >= 0) by (nonlinear_arith)
        requires p == y * w + x, x >= 0, w > 0;
}

/// The coordinates of a grid cell are below `2^32` when the grid has at most
/// `2^32` cells, so a squared coordinate is below `2^64`.
proof fn lemma_coord_squares(p: int, w: int, h: int)
    requires
        0 <= p < w * h,
        w > 0,
        h > 0,
        w * h <= 0x1_0000_0000,
    ensures
        0 <= p % w < 0x1_0000_0000,
        0 <= p / w < 0x1_0000_0000,
        0 <= (p % w) * (p % w) < 0x1_0000_0000_0000_0000,
        0 <= (p / w) * (p / w) < 0x1_0000_0000_0000_0000,
        0 <= (p % w) * (p / w) < 0x1_0000_0000_0000_0000,
{
    lemma_cell(p, w, h);
    let x = p % w;
    let y = p / w;
    assert(w <= w * h) by (nonlinear_arith)
        requires w > 0, h > 0;
    assert(h <= w * h) by (nonlinear_arith)
        requires w > 0, h > 0;
    assert(0 <= x * x < 0x1_0000_0000_0000_0000) by (nonlinear_arith)
        requires 0 <= x < 0x1_0000_0000;
    assert(0 <= y * y < 0x1_0000_0000_0000_0000) by (nonlinear_arith)
        requires 0 <= y < 0x1_0000_0000;
    assert(0 <= x * y < 0x1_0000_0000_0000_0000) by (nonlinear_arith)
        requires 0 <= x < 0x1_0000_0000, 0 <= y < 0x1_0000_0000;
}

/// Every cell with a chain of parents down to `start` (each parent a
/// neighbour of lower rank) lies in every closed set holding `start`.
proof fn lemma_ranked_cells_in_closed_set(
    v: Set<int>,
    avail: Seq<bool>,
    w: int,
    h: int,
    start: int,
    parent: Map<int, int>,
    rank: Map<int, nat>,
    s: Set<int>,
    q: int,
)
    requires
        v.contains(q),
        forall|c: int| #[trigger] v.contains(c) ==> 0 <= c < avail.len() && avail[c] && rank.contains_key(c),
        forall|c: int| #[trigger] v.contains(c) && c != start ==> parent.contains_key(c) && v.contains(parent[c])
            && neighbours(parent[c], c, w, h) && rank[parent[c]] < rank[c],
        closed_in(s, avail, w, h),
        s.contains(start),
    ensures
        s.contains(q),
    decreases rank[q],
{
    if q != start {
        let p = parent[q];
        lemma_ranked_cells_in_closed_set(v, avail, w, h, start, parent, rank, s, p);
        assert(neighbours(p, q, w, h));
    }
}

/// Whether `c` is the cell being expanded (`cur == -1`: none is).
spec fn is_cur(c: int, cur: int) -> bool {
    cur != -1 && c == cur
}

/// The ghost bookkeeping of a fill in progress: `v` is the set of cells the
/// fill has marked, split into the cells already expanded (`done`), the cells
/// waiting on the stack (`pending`) and the cell being expanded (`cur`, or
/// `-1`); every marked cell other than `start` has a marked parent neighbour
/// of lower rank; every expanded cell's available neighbours are marked.
#[verifier::opaque]
spec fn fill_state(
    mask: Seq<bool>,
    before: Seq<bool>,
    visited: Seq<bool>,
    v: Set<int>,
    done: Seq<int>,
    pending: Seq<int>,
    cur: int,
    start: int,
    parent: Map<int, int>,
    rank: Map<int, nat>,
    w: int,
    h: int,
) -> bool {
    let avail = available(mask, before);
    &&& visited.len() == mask.len()
    &&& before.len() == mask.len()
    &&& forall|i: int| 0 <= i < visited.len() ==> #[trigger] visited[i] == (before[i] || v.contains(i))
    &&& forall|c: int| #[trigger] v.contains(c) ==> 0 <= c < avail.len() && avail[c] && rank.contains_key(c)
    &&& forall|c: int| #[trigger] v.contains(c) <==> (done.contains(c) || pending.contains(c) || is_cur(c, cur))
    &&& cur == -1 || (0 <= cur && !done.contains(cur) && !pending.contains(cur))
    &&& done.no_duplicates()
    &&& pending.no_duplicates()
    &&& done.disjoint(pending)
    &&& v.contains(start)
    &&& forall|c: int| #[trigger] v.contains(c) && c != start ==> parent.contains_key(c) && v.contains(parent[c])
        && neighbours(parent[c], c, w, h) && rank[parent[c]] < rank[c]
    &&& forall|p: int, q: int|
        done.contains(p) && #[trigger] neighbours(p, q, w, h) && 0 <= q < avail.len() && avail[q] ==> v.contains(q)
    &&& v.finite()
    &&& v.len() == done.len() + pending.len() + (if cur == -1 { 0int } else { 1int })
}

/// What a fill's bookkeeping bounds: the marked cells lie in the grid, so
/// there are at most as many as cells.
proof fn lemma_state_bounds(
    mask: Seq<bool>,
    before: Seq<bool>,
    visited: Seq<bool>,
    v: Set<int>,
    done: Seq<int>,
    pending: Seq<int>,
    cur: int,
    start: int,
    parent: Map<int, int>,
    rank: Map<int, nat>,
    w: int,
    h: int,
)
    requires
        fill_state(mask, before, visited, v, done, pending, cur, start, parent, rank, w, h),
    ensures
        v.len() <= mask.len(),
        v.len() == done.len() + pending.len() + (if cur == -1 { 0int } else { 1int }),
        pending.len() > 0 ==> 0 <= pending.last() < mask.len(),
        visited.len() == mask.len(),
{
    reveal(fill_state);
    let n = mask.len() as int;
    vstd::set_lib::lemma_int_range(0, n);
    assert(v.subset_of(vstd::set_lib::set_int_range(0, n)));
    vstd::set_lib::lemma_len_subset(v, vstd::set_lib::set_int_range(0, n));
    if pending.len() > 0 {
        assert(pending.contains(pending.last())) by {
            assert(pending[pending.len() - 1] == pending.last());
        }
        assert(v.contains(pending.last()));
    }
}

/// Mark cell `q` and push it when it is foreground and not yet visited.
fn visit(mask: &[bool], visited: &mut Vec<bool>, stack: &mut Vec<usize>, q: usize) -> (pushed: bool)
    requires
        q < mask@.len(),
        old(visited)@.len() == mask@.len(),
    ensures
        pushed == (mask@[q as int] && !old(visited)@[q as int]),
        pushed ==> final(visited)@ == old(visited)@.update(q as int, true) && final(stack)@ == old(stack)@.push(q),
        !pushed ==> final(visited)@ == old(visited)@ && final(stack)@ == old(stack)@,
{
    if mask[q] && !visited[q] {
        visited.set(q, true);
        stack.push(q);
        true
    } else {
        false
    }
}

/// Taking the top of the stack makes it the cell being expanded.
proof fn lemma_pop(
    mask: Seq<bool>,
    before: Seq<bool>,
    visited: Seq<bool>,
    v: Set<int>,
    done: Seq<int>,
    pending: Seq<int>,
    start: int,
    parent: Map<int, int>,
    rank: Map<int, nat>,
    w: int,
    h: int,
)
    requires
        pending.len() > 0,
        fill_state(mask, before, visited, v, done, pending, -1, start, parent, rank, w, h),
    ensures
        fill_state(mask, before, visited, v, done, pending.drop_last(), pending.last(), start, parent, rank, w, h),
{
    reveal(fill_state);
    let cur = pending.last();
    let p1 = pending.drop_last();
    assert(v.contains(cur)) by {
        assert(pending[pending.len() - 1] == cur);
    }
    assert forall|c: int| #[trigger] v.contains(c) <==> (done.contains(c) || p1.contains(c) || is_cur(c, cur)) by {
        if pending.contains(c) && c != cur {
            let k = choose|k: int| 0 <= k < pending.len() && pending[k] == c;
            assert(k != pending.len() - 1);
            assert(p1[k] == c);
        }
        if p1.contains(c) {
            let k = choose|k: int| 0 <= k < p1.len() && p1[k] == c;
            assert(pending[k] == c);
        }
    }
    assert(!p1.contains(cur)) by {
        if p1.contains(cur) {
            let k = choose|k: int| 0 <= k < p1.len() && p1[k] == cur;
            assert(pending[k] == pending[pending.len() - 1]);
        }
    }
    assert(!done.contains(cur)) by {
        if done.contains(cur) {
            let k = choose|k: int| 0 <= k < done.len() && done[k] == cur;
            assert(done[k] == pending[pending.len() - 1]);
        }
    }
    assert(p1.no_duplicates()) by {
        assert forall|a: int, b: int| 0 <= a < p1.len() && 0 <= b < p1.len() && a != b implies p1[a] != p1[b] by {
            assert(p1[a] == pending[a] && p1[b] == pending[b]);
        }
    }
    assert(done.disjoint(p1)) by {
        assert forall|a: int, b: int| 0 <= a < done.len() && 0 <= b < p1.len() implies done[a] != p1[b] by {
            assert(p1[b] == pending[b]);
        }
    }
}

/// Visiting a neighbour `q` of the cell being expanded: when it was pushed,
/// the bookkeeping grows by `q` (parent: the expanded cell); either way `q`
/// is afterwards marked or not available.
proof fn lemma_visit(
    mask: Seq<bool>,
    before: Seq<bool>,
    visited: Seq<bool>,
    v: Set<int>,
    done: Seq<int>,
    pending: Seq<int>,
    cur: int,
    start: int,
    parent: Map<int, int>,
    rank: Map<int, nat>,
    w: int,
    h: int,
    q: int,
    pushed: bool,
)
    requires
        cur != -1,
        fill_state(mask, before, visited, v, done, pending, cur, start, parent, rank, w, h),
        neighbours(cur, q, w, h),
        0 <= q < mask.len(),
        pushed == (mask[q] && !visited[q]),
    ensures
        pushed ==> fill_state(
            mask,
            before,
            visited.update(q, true),
            v.insert(q),
            done,
            pending.push(q),
            cur,
            start,
            parent.insert(q, cur),
            rank.insert(q, (rank[cur] + 1) as nat),
            w,
            h,
        ),
        v.contains(q) || pushed || !available(mask, before)[q],
{
    reveal(fill_state);
    let avail = available(mask, before);
    assert(v.contains(cur));
    if pushed {
        let visited2 = visited.update(q, true);
        let v2 = v.insert(q);
        let pending2 = pending.push(q);
        let parent2 = parent.insert(q, cur);
        let rank2 = rank.insert(q, (rank[cur] + 1) as nat);
        assert(!v.contains(q));
        assert(!before[q]);
        assert(avail[q]);
        assert(q != cur);
        assert(!done.contains(q));
        assert(!pending.contains(q));
        assert forall|i: int| 0 <= i < visited2.len() implies #[trigger] visited2[i] == (before[i] || v2.contains(i)) by {
            if i != q {
                assert(visited2[i] == visited[i]);
            }
        }
        assert forall|c: int| #[trigger] v2.contains(c) <==> (done.contains(c) || pending2.contains(c) || is_cur(c, cur)) by {
            if pending.contains(c) {
                let k = choose|k: int| 0 <= k < pending.len() && pending[k] == c;
                assert(pending2[k] == c);
            }
            if c == q {
                assert(pending2[pending.len() as int] == q);
            }
            if pending2.contains(c) && c != q {
                let k = choose|k: int| 0 <= k < pending2.len() && pending2[k] == c;
                assert(k < pending.len());
                assert(pending[k] == c);
            }
        }
        assert(!pending2.contains(cur)) by {
            if pending2.contains(cur) {
                let k = choose|k: int| 0 <= k < pending2.len() && pending2[k] == cur;
                if k < pending.len() {
                    assert(pending[k] == cur);
                }
            }
        }
        assert(pending2.no_duplicates()) by {
            assert forall|a: int, b: int| 0 <= a < pending2.len() && 0 <= b < pending2.len() && a != b implies pending2[a]
                != pending2[b] by {
                if a < pending.len() && b < pending.len() {
                    assert(pending2[a] == pending[a] && pending2[b] == pending[b]);
                } else if a < pending.len() {
                    assert(pending2[a] == pending[a]);
                    assert(pending.contains(pending[a]));
                } else {
                    assert(pending2[b] == pending[b]);
                    assert(pending.contains(pending[b]));
                }
            }
        }
        assert(done.disjoint(pending2)) by {
            assert forall|a: int, b: int| 0 <= a < done.len() && 0 <= b < pending2.len() implies done[a] != pending2[b] by {
                if b < pending.len() {
                    assert(pending2[b] == pending[b]);
                } else {
                    assert(done.contains(done[a]));
                }
            }
        }
        assert forall|c: int| #[trigger] v2.contains(c) && c != start implies parent2.contains_key(c) && v2.contains(
            parent2[c],
        ) && neighbours(parent2[c], c, w, h) && rank2[parent2[c]] < rank2[c] by {
            if c == q {
                assert(parent2[q] == cur);
                assert(rank2[cur] == rank[cur]);
            } else {
                assert(v.contains(c));
                assert(parent2[c] == parent[c]);
                assert(v.contains(parent[c]));
                assert(parent[c] != q);
                assert(rank2[parent2[c]] == rank[parent[c]]);
            }
        }
        assert forall|c: int| #[trigger] v2.contains(c) implies 0 <= c < avail.len() && avail[c] && rank2.contains_key(c) by {
        }
        assert forall|p: int, r: int|
            done.contains(p) && #[trigger] neighbours(p, r, w, h) && 0 <= r < avail.len() && avail[r] implies v2.contains(
            r,
        ) by {
            assert(v.contains(r));
        }
    } else {
        if !v.contains(q) {
            assert(visited[q] == before[q]);
        }
    }
}

/// Once every available neighbour of the expanded cell is marked, it moves to
/// the expanded cells.
proof fn lemma_finish(
    mask: Seq<bool>,
    before: Seq<bool>,
    visited: Seq<bool>,
    v: Set<int>,
    done: Seq<int>,
    pending: Seq<int>,
    cur: int,
    start: int,
    parent: Map<int, int>,
    rank: Map<int, nat>,
    w: int,
    h: int,
)
    requires
        cur != -1,
        fill_state(mask, before, visited, v, done, pending, cur, start, parent, rank, w, h),
        forall|q: int| #[trigger] neighbours(cur, q, w, h) && 0 <= q < mask.len() && available(mask, before)[q]
            ==> v.contains(q),
    ensures
        fill_state(mask, before, visited, v, done.push(cur), pending, -1, start, parent, rank, w, h),
{
    reveal(fill_state);
    let avail = available(mask, before);
    let done2 = done.push(cur);
    assert forall|c: int| #[trigger] v.contains(c) <==> (done2.contains(c) || pending.contains(c) || is_cur(c, -1)) by {
        if v.contains(c) {
            assert(done.contains(c) || pending.contains(c) || is_cur(c, cur));
        }
        if done.contains(c) {
            let k = choose|k: int| 0 <= k < done.len() && done[k] == c;
            assert(done2[k] == c);
        }
        if c == cur {
            assert(done2[done.len() as int] == cur);
        }
        if done2.contains(c) && c != cur {
            let k = choose|k: int| 0 <= k < done2.len() && done2[k] == c;
            assert(k < done.len());
            assert(done[k] == c);
        }
    }
    assert(done2.no_duplicates()) by {
        assert forall|a: int, b: int| 0 <= a < done2.len() && 0 <= b < done2.len() && a != b implies done2[a] != done2[b] by {
            if a < done.len() && b < done.len() {
                assert(done2[a] == done[a] && done2[b] == done[b]);
            } else if a < done.len() {
                assert(done2[a] == done[a]);
                assert(done.contains(done[a]));
            } else {
                assert(done2[b] == done[b]);
                assert(done.contains(done[b]));
            }
        }
    }
    assert(done2.disjoint(pending)) by {
        assert forall|a: int, b: int| 0 <= a < done2.len() && 0 <= b < pending.len() implies done2[a] != pending[b] by {
            if a < done.len() {
                assert(done2[a] == done[a]);
            } else {
                assert(pending.contains(pending[b]));
            }
        }
    }
    assert forall|p: int, q: int|
        done2.contains(p) && #[trigger] neighbours(p, q, w, h) && 0 <= q < avail.len() && avail[q] implies v.contains(q) by {
        if p != cur {
            let k = choose|k: int| 0 <= k < done2.len() && done2[k] == p;
            assert(k < done.len());
            assert(done[k] == p);
            assert(done.contains(p));
        }
    }
}

/// A fill that has expanded every marked cell has marked exactly the
/// component of its start.
proof fn lemma_fill_complete(
    mask: Seq<bool>,
    before: Seq<bool>,
    visited: Seq<bool>,
    v: Set<int>,
    done: Seq<int>,
    start: int,
    parent: Map<int, int>,
    rank: Map<int, nat>,
    w: int,
    h: int,
)
    requires
        fill_state(mask, before, visited, v, done, Seq::empty(), -1, start, parent, rank, w, h),
    ensures
        newly_marked(before, visited) == v,
        is_component(v, available(mask, before), w, h, start),
        done.to_set() == v,
        done.no_duplicates(),
        visited.len() == before.len(),
        forall|i: int| 0 <= i < before.len() && #[trigger] before[i] ==> visited[i],
{
    reveal(fill_state);
    let avail = available(mask, before);
    assert(newly_marked(before, visited) =~= v);
    assert(done.to_set() =~= v);
    assert forall|s: Set<int>| #[trigger] closed_in(s, avail, w, h) && s.contains(start) implies v.subset_of(s) by {
        assert forall|q: int| v.contains(q) implies s.contains(q) by {
            lemma_ranked_cells_in_closed_set(v, avail, w, h, start, parent, rank, s, q);
        }
    }
}

/// Iterative 4-connected flood fill from `start` over the foreground cells
/// not yet visited: marks exactly the component of `start` in `visited` and
/// returns its moments and bounding box. `stack` is scratch space (cleared).
#[verifier::rlimit(60)]
pub fn flood_fill(
    mask: &[bool],
    visited: &mut Vec<bool>,
    stack: &mut Vec<usize>,
    start: usize,
    w: usize,
    h: usize,
) -> (b: Blob)
    requires
        w > 0,
        h > 0,
        mask@.len() == w * h,
        old(visited)@.len() == w * h,
        w * h <= 0x1_0000_0000,
        start < w * h,
        mask@[start as int],
        !old(visited)@[start as int],
    ensures
        final(visited)@.len() == old(visited)@.len(),
        forall|i: int| 0 <= i < w * h && #[trigger] old(visited)@[i] ==> final(visited)@[i],
        is_component(
            newly_marked(old(visited)@, final(visited)@),
            available(mask@, old(visited)@),
            w as int,
            h as int,
            start as int,
        ),
        exists|cells: Seq<int>|
            cells.no_duplicates() && cells.to_set() == newly_marked(old(visited)@, final(visited)@)
                && b@ == #[trigger] sums_of(cells, w as int, h as int),
{
    let ghost before = visited@;
    let ghost n = (w * h) as int;
    let nn = mask.len();
    assert(nn == n);
    stack.clear();
    stack.push(start);
    visited.set(start, true);
    let ghost mut v: Set<int> = Set::empty().insert(start as int);
    let ghost mut done: Seq<int> = Seq::empty();
    let ghost mut pending: Seq<int> = seq![start as int];
    let ghost mut parent: Map<int, int> = Map::empty();
    let ghost mut rank: Map<int, nat> = Map::empty().insert(start as int, 0nat);
    let mut blob = Blob { area: 0, sx: 0, sy: 0, sxx: 0, syy: 0, sxy: 0, minx: w, miny: h, maxx: 0, maxy: 0 };
    proof {
        assert forall|c: int| #[trigger] v.contains(c) <==> (done.contains(c) || pending.contains(c) || is_cur(c, -1)) by {
            if c == start as int {
                assert(pending[0] == c);
            }
            if pending.contains(c) {
                let k = choose|k: int| 0 <= k < pending.len() && pending[k] == c;
                assert(k == 0);
            }
        }
        assert forall|i: int| 0 <= i < visited@.len() implies #[trigger] visited@[i] == (before[i] || v.contains(i)) by {
            if i != start as int {
                assert(visited@[i] == before[i]);
            }
        }
        assert(v.len() == 1);
        assert(fill_state(mask@, before, visited@, v, done, pending, -1, start as int, parent, rank, w as int, h as int)) by {
            reveal(fill_state);
        }
    }
    while stack.len() > 0
        invariant
            w > 0,
            h > 0,
            mask@.len() == w * h,
            n == w * h,
            n <= 0x1_0000_0000,
            n <= usize::MAX,
            before.len() == n,
            fill_state(mask@, before, visited@, v, done, pending, -1, start as int, parent, rank, w as int, h as int),
            stack@.len() == pending.len(),
            forall|i: int| 0 <= i < pending.len() ==> #[trigger] stack@[i] as int == pending[i],
            blob@ == sums_of(done, w as int, h as int),
            blob.area == done.len(),
            blob@.sx <= done.len() * 0x1_0000_0000,
            blob@.sy <= done.len() * 0x1_0000_0000,
            blob@.sxx <= done.len() * 0x1_0000_0000_0000_0000,
            blob@.syy <= done.len() * 0x1_0000_0000_0000_0000,
            blob@.sxy <= done.len() * 0x1_0000_0000_0000_0000,
            blob.minx <= w,
            blob.miny <= h,
        decreases n - done.len(),
    {
        proof {
            lemma_state_bounds(mask@, before, visited@, v, done, pending, -1, start as int, parent, rank, w as int, h as int);
        }
        let p = stack.pop().unwrap();
        let ghost pi = p as int;
        proof {
            assert(pending.last() == pi);
            assert(pending.len() > 0);
            assert(done.len() < n);
            lemma_pop(mask@, before, visited@, v, done, pending, start as int, parent, rank, w as int, h as int);
            pending = pending.drop_last();
            lemma_cell(pi, w as int, h as int);
            lemma_coord_squares(pi, w as int, h as int);
            assert forall|i: int| 0 <= i < pending.len() implies #[trigger] stack@[i] as int == pending[i] by {
            }
        }
        let x = p % w;
        let y = p / w;
        let ghost old_done = done;
        blob.area = blob.area + 1;
        blob.sx = blob.sx + x as u128;
        blob.sy = blob.sy + y as u128;
        blob.sxx = blob.sxx + (x as u128) * (x as u128);
        blob.syy = blob.syy + (y as u128) * (y as u128);
        blob.sxy = blob.sxy + (x as u128) * (y as u128);
        if x < blob.minx {
            blob.minx = x;
        }
        if y < blob.miny {
            blob.miny = y;
        }
        if x > blob.maxx {
            blob.maxx = x;
        }
        if y > blob.maxy {
            blob.maxy = y;
        }
        let ghost avail = available(mask@, before);
        if x > 0 {
            let q = p - 1;
            let ghost vis0 = visited@;
            let pushed = visit(mask, visited, stack, q);
            proof {
                lemma_visit(mask@, before, vis0, v, done, pending, pi, start as int, parent, rank, w as int, h as int, q as int, pushed);
                if pushed {
                    v = v.insert(q as int);
                    pending = pending.push(q as int);
                    parent = parent.insert(q as int, pi);
                    rank = rank.insert(q as int, (rank[pi] + 1) as nat);
                }
            }
        }
        assert(x > 0 ==> v.contains(pi - 1) || !avail[pi - 1]);
        if x + 1 < w {
            let q = p + 1;
            let ghost vis0 = visited@;
            let pushed = visit(mask, visited, stack, q);
            proof {
                lemma_visit(mask@, before, vis0, v, done, pending, pi, start as int, parent, rank, w as int, h as int, q as int, pushed);
                if pushed {
                    v = v.insert(q as int);
                    pending = pending.push(q as int);
                    parent = parent.insert(q as int, pi);
                    rank = rank.insert(q as int, (rank[pi] + 1) as nat);
                }
            }
        }
        assert(x > 0 ==> v.contains(pi - 1) || !avail[pi - 1]);
        assert(x + 1 < w ==> v.contains(pi + 1) || !avail[pi + 1]);
        if y > 0 {
            let q = p - w;
            let ghost vis0 = visited@;
            let pushed = visit(mask, visited, stack, q);
            proof {
                lemma_visit(mask@, before, vis0, v, done, pending, pi, start as int, parent, rank, w as int, h as int, q as int, pushed);
                if pushed {
                    v = v.insert(q as int);
                    pending = pending.push(q as int);
                    parent = parent.insert(q as int, pi);
                    rank = rank.insert(q as int, (rank[pi] + 1) as nat);
                }
            }
        }
        assert(x > 0 ==> v.contains(pi - 1) || !avail[pi - 1]);
        assert(x + 1 < w ==> v.contains(pi + 1) || !avail[pi + 1]);
        assert(y > 0 ==> v.contains(pi - w) || !avail[pi - w]);
        if y + 1 < h {
            let q = p + w;
            let ghost vis0 = visited@;
            let pushed = visit(mask, visited, stack, q);
            proof {
                lemma_visit(mask@, before, vis0, v, done, pending, pi, start as int, parent, rank, w as int, h as int, q as int, pushed);
                if pushed {
                    v = v.insert(q as int);
                    pending = pending.push(q as int);
                    parent = parent.insert(q as int, pi);
                    rank = rank.insert(q as int, (rank[pi] + 1) as nat);
                }
            }
        }
        proof {
            assert(x > 0 ==> v.contains(pi - 1) || !avail[pi - 1]);
            assert(x + 1 < w ==> v.contains(pi + 1) || !avail[pi + 1]);
            assert(y > 0 ==> v.contains(pi - w) || !avail[pi - w]);
            assert(y + 1 < h ==> v.contains(pi + w) || !avail[pi + w]);
            assert forall|q: int| #[trigger] neighbours(pi, q, w as int, h as int) && 0 <= q < mask@.len() && avail[q]
                implies v.contains(q) by {
            }
            lemma_finish(mask@, before, visited@, v, done, pending, pi, start as int, parent, rank, w as int, h as int);
            done = done.push(pi);
            assert(done.drop_last() =~= old_done);
            assert forall|i: int| 0 <= i < pending.len() implies #[trigger] stack@[i] as int == pending[i] by {
            }
        }
    }
    proof {
        assert(pending =~= Seq::<int>::empty());
        lemma_fill_complete(mask@, before, visited@, v, done, start as int, parent, rank, w as int, h as int);
    }
    blob
}

/// Being neighbours is symmetric.
pub proof fn lemma_neighbours_symmetric(p: int, q: int, w: int, h: int)
    requires
        neighbours(p, q, w, h),
        w > 0,
        h > 0,
    ensures
        neighbours(q, p, w, h),
{
    lemma_cell(p, w, h);
    let x = p % w;
    let y = p / w;
    if q == p - 1 && x > 0 {
        assert(q == y * w + (x - 1));
        lemma_fundamental_div_mod_converse(q, w, y, x - 1);
    } else if q == p + 1 && x + 1 < w {
        assert(q == y * w + (x + 1));
        lemma_fundamental_div_mod_converse(q, w, y, x + 1);
    } else if q == p - w && y > 0 {
        assert(q == (y - 1) * w + x) by (nonlinear_arith)
            requires q == p - w, p == y * w + x;
        lemma_fundamental_div_mod_converse(q, w, y - 1, x);
    } else {
        assert(q == p + w && y + 1 < h);
        assert(q == (y + 1) * w + x) by (nonlinear_arith)
            requires q == p + w, p == y * w + x;
        lemma_fundamental_div_mod_converse(q, w, y + 1, x);
    }
}

/// The count of a fold is the number of cells folded.
proof fn lemma_sums_area(cells: Seq<int>, w: int, h: int)
    ensures
        sums_of(cells, w, h).area == cells.len(),
    decreases cells.len(),
{
    if cells.len() > 0 {
        lemma_sums_area(cells.drop_last(), w, h);
    }
}

/// The cells marked in `visited`.
pub open spec fn marked(visited: Seq<bool>) -> Set<int> {
    Set::new(|i: int| 0 <= i < visited.len() && visited[i])
}

/// A fill started outside a union of whole components finds a whole
/// component of the foreground, and the union grows by it.
proof fn lemma_fill_in_closed_union(
    mask: Seq<bool>,
    before: Seq<bool>,
    after: Seq<bool>,
    w: int,
    h: int,
    start: int,
)
    requires
        w > 0,
        h > 0,
        mask.len() == w * h,
        before.len() == mask.len(),
        after.len() == mask.len(),
        closed_in(marked(before), mask, w, h),
        forall|i: int| 0 <= i < before.len() && #[trigger] before[i] ==> mask[i],
        forall|i: int| 0 <= i < before.len() && #[trigger] before[i] ==> after[i],
        is_component(newly_marked(before, after), available(mask, before), w, h, start),
    ensures
        is_component(newly_marked(before, after), mask, w, h, start),
        closed_in(marked(after), mask, w, h),
        forall|i: int| 0 <= i < after.len() && #[trigger] after[i] ==> mask[i],
        marked(after) == marked(before).union(newly_marked(before, after)),
{
    let avail = available(mask, before);
    let c = newly_marked(before, after);
    let old_set = marked(before);
    assert(marked(after) =~= old_set.union(c));
    assert forall|p: int, q: int| c.contains(p) && #[trigger] neighbours(p, q, w, h) && 0 <= q < mask.len() && mask[q]
        implies c.contains(q) by {
        if before[q] {
            lemma_neighbours_symmetric(p, q, w, h);
            assert(old_set.contains(q));
            assert(mask[p]);
            assert(old_set.contains(p));
        } else {
            assert(avail[q]);
        }
    }
    assert forall|s: Set<int>| #[trigger] closed_in(s, mask, w, h) && s.contains(start) implies c.subset_of(s) by {
        assert forall|p: int, q: int| s.contains(p) && #[trigger] neighbours(p, q, w, h) && 0 <= q < avail.len()
            && avail[q] implies s.contains(q) by {
            assert(mask[q]);
        }
        assert(closed_in(s, avail, w, h));
    }
    assert forall|q: int| #[trigger] c.contains(q) implies 0 <= q < mask.len() && mask[q] by {
        assert(avail[q]);
    }
    assert forall|p: int, q: int| marked(after).contains(p) && #[trigger] neighbours(p, q, w, h) && 0 <= q < mask.len()
        && mask[q] implies marked(after).contains(q) by {
        if old_set.contains(p) {
            assert(old_set.contains(q));
        } else {
            assert(c.contains(p));
            assert(c.contains(q));
        }
    }
    assert forall|i: int| 0 <= i < after.len() && #[trigger] after[i] implies mask[i] by {
        if !before[i] {
            assert(c.contains(i));
        }
    }
}

/// A component found by a fill holds every component of its own cells, so
/// none of those is larger.
proof fn lemma_component_within(
    mask: Seq<bool>,
    w: int,
    h: int,
    c: Set<int>,
    start: int,
    j: int,
    c2: Set<int>,
)
    requires
        is_component(c, mask, w, h, start),
        c.contains(j),
        is_component(c2, mask, w, h, j),
        c.finite(),
    ensures
        c2.subset_of(c),
        c2.len() <= c.len(),
{
    assert(closed_in(c, mask, w, h));
    vstd::set_lib::lemma_len_subset(c2, c);
}

/// The largest 4-connected foreground component of a `w × h` mask (the first
/// found in row-major order of its first cell among equally large ones) with
/// its moments and bounding box; `None` when the mask has no foreground.
pub fn largest_blob(mask: &[bool], w: usize, h: usize) -> (r: Option<Blob>)
    requires
        w > 0,
        h > 0,
        mask@.len() == w * h,
        w * h <= 0x1_0000_0000,
    ensures
        r is None <==> forall|i: int| 0 <= i < w * h ==> !mask@[i],
        r matches Some(b) ==> exists|s: int, c: Set<int>, cells: Seq<int>|
            #![trigger is_component(c, mask@, w as int, h as int, s), sums_of(cells, w as int, h as int)]
            {
                &&& 0 <= s < w * h
                &&& is_component(c, mask@, w as int, h as int, s)
                &&& cells.no_duplicates()
                &&& cells.to_set() == c
                &&& b@ == sums_of(cells, w as int, h as int)
                &&& forall|j: int, c2: Set<int>|
                    0 <= j < s && mask@[j] && #[trigger] is_component(c2, mask@, w as int, h as int, j) ==> c2.len() < b.area
            },
        r matches Some(b) ==> forall|j: int, c2: Set<int>|
            0 <= j < w * h && mask@[j] && #[trigger] is_component(c2, mask@, w as int, h as int, j) ==> c2.len() <= b.area,
{
    let n = mask.len();
    let mut visited: Vec<bool> = Vec::new();
    let mut k: usize = 0;
    while k < n
        invariant
            k <= n,
            n == mask@.len(),
            visited@.len() == k,
            forall|i: int| 0 <= i < k ==> !#[trigger] visited@[i],
        decreases n - k,
    {
        visited.push(false);
        k = k + 1;
    }
    let mut stack: Vec<usize> = Vec::new();
    let mut best: Option<Blob> = None;
    let ghost mut best_start: int = 0;
    let ghost mut best_set: Set<int> = Set::empty();
    let ghost mut best_cells: Seq<int> = Seq::empty();
    proof {
        assert(marked(visited@) =~= Set::<int>::empty());
    }
    let mut start: usize = 0;
    while start < n
        invariant
            w > 0,
            h > 0,
            n == mask@.len(),
            n == w * h,
            n <= 0x1_0000_0000,
            start <= n,
            visited@.len() == n,
            closed_in(marked(visited@), mask@, w as int, h as int),
            forall|i: int| 0 <= i < n && #[trigger] visited@[i] ==> mask@[i],
            forall|i: int| 0 <= i < start && #[trigger] mask@[i] ==> visited@[i],
            best is None <==> forall|i: int| 0 <= i < start ==> !mask@[i],
            best is None ==> forall|i: int| 0 <= i < n ==> !#[trigger] visited@[i],
            best matches Some(b) ==> {
                &&& 0 <= best_start < n
                &&& is_component(best_set, mask@, w as int, h as int, best_start)
                &&& best_cells.no_duplicates()
                &&& best_cells.to_set() == best_set
                &&& b@ == sums_of(best_cells, w as int, h as int)
                &&& forall|j: int, c2: Set<int>|
                    0 <= j < best_start && mask@[j] && #[trigger] is_component(c2, mask@, w as int, h as int, j)
                        ==> c2.len() < b.area
                &&& forall|j: int, c2: Set<int>|
                    0 <= j < n && visited@[j] && #[trigger] is_component(c2, mask@, w as int, h as int, j)
                        ==> c2.len() <= b.area
            },
        decreases n - start,
    {
        if mask[start] && !visited[start] {
            let ghost before = visited@;
            let blob = flood_fill(mask, &mut visited, &mut stack, start, w, h);
            let ghost c = newly_marked(before, visited@);
            proof {
                lemma_fill_in_closed_union(mask@, before, visited@, w as int, h as int, start as int);
                vstd::set_lib::lemma_int_range(0, n as int);
                assert(c.subset_of(vstd::set_lib::set_int_range(0, n as int)));
                vstd::set_lib::lemma_len_subset(c, vstd::set_lib::set_int_range(0, n as int));
            }
            let ghost cells = choose|cells: Seq<int>|
                cells.no_duplicates() && cells.to_set() == c && blob@ == #[trigger] sums_of(cells, w as int, h as int);
            proof {
                cells.unique_seq_to_set();
                lemma_sums_area(cells, w as int, h as int);
                assert(c.len() == blob.area);
                assert forall|j: int, c2: Set<int>|
                    0 <= j < n && c.contains(j) && #[trigger] is_component(c2, mask@, w as int, h as int, j)
                        implies c2.len() <= blob.area by {
                    lemma_component_within(mask@, w as int, h as int, c, start as int, j, c2);
                }
            }
            let better = match best {
                None => true,
                Some(b) => blob.area > b.area,
            };
            if better {
                proof {
                    best_start = start as int;
                    best_set = c;
                    best_cells = cells;
                }
                best = Some(blob);
            }
        }
        start = start + 1;
    }
    best
}

} // verus!
