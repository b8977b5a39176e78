use vstd::prelude::*;

use crate::cell::MineFieldCell;

verus! {

/// Whether cell index `i` occurs in the mine index sequence `m`.
pub open spec fn mine_at(m: Seq<usize>, i: int) -> bool {
    exists|k: int| 0 <= k < m.len() && (#[trigger] m[k]) as int == i
}

/// A well-formed mine index sequence for a grid of `n` cells: no duplicate
/// indexes, every index within the grid.
pub open spec fn mines_ok(m: Seq<usize>, n: int) -> bool {
    &&& m.no_duplicates()
    &&& forall|k: int| 0 <= k < m.len() ==> ((#[trigger] m[k]) as int) < n
}

/// Where a chosen value of the dense range lands once the excluded slot is
/// skipped: values at or above the excluded index shift up by one.
pub open spec fn remap_index(v: int, excluded: int) -> int {
    if v >= excluded {
        v + 1
    } else {
        v
    }
}

/// The number of `Unrevealed` cells among indexes `[0, n)`.
pub open spec fn count_unrevealed(cells: Seq<MineFieldCell>, n: int) -> nat
    decreases n,
{
    if n <= 0 {
        0
    } else {
        count_unrevealed(cells, n - 1) + if cells[n - 1] is Unrevealed {
            1nat
        } else {
            0nat
        }
    }
}

/// The number of safe (non-mine) cells among indexes `[0, n)` that are not
/// yet `Revealed`: the cells still owed a reveal before the game is won.
pub open spec fn count_safe_hidden(cells: Seq<MineFieldCell>, m: Seq<usize>, n: int) -> nat
    decreases n,
{
    if n <= 0 {
        0
    } else {
        count_safe_hidden(cells, m, n - 1) + if !mine_at(m, n - 1) && !(cells[n - 1]
            is Revealed) {
            1nat
        } else {
            0nat
        }
    }
}

/// The number of indexes in `[0, n)` that occur in `m`.
pub open spec fn count_members(m: Seq<usize>, n: int) -> nat
    decreases n,
{
    if n <= 0 {
        0
    } else {
        count_members(m, n - 1) + if mine_at(m, n - 1) {
            1nat
        } else {
            0nat
        }
    }
}

pub proof fn lemma_count_unrevealed_update(
    cells: Seq<MineFieldCell>,
    n: int,
    i: int,
    c: MineFieldCell,
)
    requires
        0 <= i < cells.len(),
        n <= cells.len(),
    ensures
        count_unrevealed(cells.update(i, c), n) == count_unrevealed(cells, n) - (if i < n
            && cells[i] is Unrevealed {
            1int
        } else {
            0int
        }) + (if i < n && c is Unrevealed {
            1int
        } else {
            0int
        }),
    decreases n,
{
    if n > 0 {
        lemma_count_unrevealed_update(cells, n - 1, i, c);
    }
}

pub proof fn lemma_count_safe_hidden_update(
    cells: Seq<MineFieldCell>,
    m: Seq<usize>,
    n: int,
    i: int,
    c: MineFieldCell,
)
    requires
        0 <= i < cells.len(),
        n <= cells.len(),
    ensures
        count_safe_hidden(cells.update(i, c), m, n) == count_safe_hidden(cells, m, n) - (if i < n
            && !mine_at(m, i) && !(cells[i] is Revealed) {
            1int
        } else {
            0int
        }) + (if i < n && !mine_at(m, i) && !(c is Revealed) {
            1int
        } else {
            0int
        }),
    decreases n,
{
    if n > 0 {
        lemma_count_safe_hidden_update(cells, m, n - 1, i, c);
    }
}

/// If every cell that is `Unrevealed` in `c2` was already `Unrevealed` in
/// `c1`, then `c2` has no more unrevealed cells than `c1`.
pub proof fn lemma_count_unrevealed_le(c1: Seq<MineFieldCell>, c2: Seq<MineFieldCell>, n: int)
    requires
        forall|j: int| 0 <= j < n ==> ((#[trigger] c2[j]) is Unrevealed ==> c1[j] is Unrevealed),
    ensures
        count_unrevealed(c2, n) <= count_unrevealed(c1, n),
    decreases n,
{
    if n > 0 {
        lemma_count_unrevealed_le(c1, c2, n - 1);
    }
}

pub proof fn lemma_mine_at_push(m: Seq<usize>, v: usize, i: int)
    ensures
        mine_at(m.push(v), i) <==> (mine_at(m, i) || v as int == i),
{
    if mine_at(m, i) {
        let k = choose|k: int| 0 <= k < m.len() && (#[trigger] m[k]) as int == i;
        assert(m.push(v)[k] as int == i);
    }
    if v as int == i {
        assert(m.push(v)[m.len() as int] as int == i);
    }
    if mine_at(m.push(v), i) {
        let k = choose|k: int| 0 <= k < m.push(v).len() && (#[trigger] m.push(v)[k]) as int == i;
        if k < m.len() {
            assert(m[k] as int == i);
        } else {
            assert(v as int == i);
        }
    }
}

pub proof fn lemma_count_members_push(m: Seq<usize>, v: usize, n: int)
    ensures
        count_members(m.push(v), n) == count_members(m, n) + (if (v as int) < n && !mine_at(
            m,
            v as int,
        ) {
            1int
        } else {
            0int
        }),
    decreases n,
{
    if n > 0 {
        lemma_mine_at_push(m, v, n - 1);
        lemma_count_members_push(m, v, n - 1);
    }
}

pub proof fn lemma_count_members_empty(m: Seq<usize>, n: int)
    requires
        m.len() == 0,
    ensures
        count_members(m, n) == 0,
    decreases n,
{
    if n > 0 {
        lemma_count_members_empty(m, n - 1);
        assert(!mine_at(m, n - 1));
    }
}

/// A duplicate-free mine sequence whose indexes all lie in `[0, n)` hits
/// exactly `m.len()` of those indexes.
pub proof fn lemma_count_members_distinct(m: Seq<usize>, n: int)
    requires
        mines_ok(m, n),
    ensures
        count_members(m, n) == m.len(),
    decreases m.len(),
{
    if m.len() == 0 {
        lemma_count_members_empty(m, n);
    } else {
        let m0 = m.drop_last();
        let v = m.last();
        assert(m0.push(v) =~= m);
        assert(m0.no_duplicates()) by {
            assert forall|p: int, q: int|
                0 <= p < m0.len() && 0 <= q < m0.len() && p != q implies m0[p] != m0[q] by {
                assert(m[p] != m[q]);
            }
        }
        assert(!mine_at(m0, v as int)) by {
            if mine_at(m0, v as int) {
                let k = choose|k: int| 0 <= k < m0.len() && (#[trigger] m0[k]) as int == v as int;
                assert(m[k] == m[m.len() - 1]);
            }
        }
        assert(forall|k: int| 0 <= k < m0.len() ==> ((#[trigger] m0[k]) as int) < n) by {
            assert(forall|k: int| 0 <= k < m0.len() ==> m0[k] == m[k]);
        }
        lemma_count_members_distinct(m0, n);
        lemma_count_members_push(m0, v, n);
        assert(count_members(m0.push(v), n) == count_members(m, n));
    }
}

/// On a board with no revealed cell, the safe hidden count plus the number
/// of in-range mine indexes accounts for every cell.
pub proof fn lemma_count_all_hidden(cells: Seq<MineFieldCell>, m: Seq<usize>, n: int)
    requires
        n >= 0,
        forall|j: int| 0 <= j < n ==> !((#[trigger] cells[j]) is Revealed),
    ensures
        count_safe_hidden(cells, m, n) + count_members(m, n) == n,
    decreases n,
{
    if n > 0 {
        lemma_count_all_hidden(cells, m, n - 1);
    }
}

/// Swapping two positions keeps a sequence duplicate-free and keeps every
/// entry one of the original entries.
pub proof fn lemma_swap_keeps_distinct(s: Seq<usize>, i: int, j: int)
    requires
        0 <= i < s.len(),
        0 <= j < s.len(),
        s.no_duplicates(),
    ensures
        s.update(i, s[j]).update(j, s[i]).no_duplicates(),
        forall|k: int|
            0 <= k < s.len() ==> ((#[trigger] s.update(i, s[j]).update(j, s[i])[k]) == s[i]
                || s.update(i, s[j]).update(j, s[i])[k] == s[j] || s.update(i, s[j]).update(
                j,
                s[i],
            )[k] == s[k]),
{
    let t = s.update(i, s[j]).update(j, s[i]);
    assert forall|p: int, q: int|
        0 <= p < t.len() && 0 <= q < t.len() && p != q implies t[p] != t[q] by {
        assert(t[p] == if p == j {
            s[i]
        } else if p == i {
            s[j]
        } else {
            s[p]
        });
        assert(t[q] == if q == j {
            s[i]
        } else if q == i {
            s[j]
        } else {
            s[q]
        });
    }
}

/// Row-major index of the cell at (x, y) in a grid `w` wide.
pub open spec fn cell_index(w: int, x: int, y: int) -> int {
    y * w + x
}

pub open spec fn in_grid(w: int, h: int, x: int, y: int) -> bool {
    0 <= x < w && 0 <= y < h
}

pub proof fn lemma_cell_index_bounds(w: int, h: int, x: int, y: int)
    requires
        in_grid(w, h, x, y),
    ensures
        0 <= cell_index(w, x, y) < w * h,
{
    assert(0 <= y * w + x < w * h) by (nonlinear_arith)
        requires
            0 <= x < w,
            0 <= y < h,
    ;
}

pub proof fn lemma_cell_index_injective(w: int, h: int, x1: int, y1: int, x2: int, y2: int)
    requires
        in_grid(w, h, x1, y1),
        in_grid(w, h, x2, y2),
        cell_index(w, x1, y1) == cell_index(w, x2, y2),
    ensures
        x1 == x2 && y1 == y2,
{
    assert(x1 == x2 && y1 == y2) by (nonlinear_arith)
        requires
            0 <= x1 < w,
            0 <= x2 < w,
            0 <= y1 < h,
            0 <= y2 < h,
            y1 * w + x1 == y2 * w + x2,
    ;
}

/// 1 if (x, y) lies in the grid and holds a mine, else 0.
pub open spec fn mine_in_grid_at(m: Seq<usize>, w: int, h: int, x: int, y: int) -> int {
    if in_grid(w, h, x, y) && mine_at(m, cell_index(w, x, y)) {
        1
    } else {
        0
    }
}

/// The number of mines among the up-to-8 neighbors (Chebyshev distance 1,
/// clipped to the grid) of the cell at (x, y).
pub open spec fn neighbor_mine_count(m: Seq<usize>, w: int, h: int, x: int, y: int) -> int {
    mine_in_grid_at(m, w, h, x - 1, y - 1) + mine_in_grid_at(m, w, h, x - 1, y) + mine_in_grid_at(
        m,
        w,
        h,
        x - 1,
        y + 1,
    ) + mine_in_grid_at(m, w, h, x, y - 1) + mine_in_grid_at(m, w, h, x, y + 1) + mine_in_grid_at(
        m,
        w,
        h,
        x + 1,
        y - 1,
    ) + mine_in_grid_at(m, w, h, x + 1, y) + mine_in_grid_at(m, w, h, x + 1, y + 1)
}

/// A cell whose neighbor mine count is zero has no mine next to it.
pub proof fn lemma_zero_count_neighbor_safe(
    m: Seq<usize>,
    w: int,
    h: int,
    x: int,
    y: int,
    nx: int,
    ny: int,
)
    requires
        neighbor_mine_count(m, w, h, x, y) == 0,
        in_grid(w, h, nx, ny),
        -1 <= nx - x <= 1,
        -1 <= ny - y <= 1,
        !(nx == x && ny == y),
    ensures
        !mine_at(m, cell_index(w, nx, ny)),
{
    assert(mine_in_grid_at(m, w, h, nx, ny) == 0);
}

pub open spec fn unrevealed_in_grid_at(
    cells: Seq<MineFieldCell>,
    w: int,
    h: int,
    x: int,
    y: int,
) -> bool {
    in_grid(w, h, x, y) && cells[cell_index(w, x, y)] is Unrevealed
}

pub open spec fn has_unrevealed_neighbor(
    cells: Seq<MineFieldCell>,
    w: int,
    h: int,
    x: int,
    y: int,
) -> bool {
    ||| unrevealed_in_grid_at(cells, w, h, x - 1, y - 1)
    ||| unrevealed_in_grid_at(cells, w, h, x - 1, y)
    ||| unrevealed_in_grid_at(cells, w, h, x - 1, y + 1)
    ||| unrevealed_in_grid_at(cells, w, h, x, y - 1)
    ||| unrevealed_in_grid_at(cells, w, h, x, y + 1)
    ||| unrevealed_in_grid_at(cells, w, h, x + 1, y - 1)
    ||| unrevealed_in_grid_at(cells, w, h, x + 1, y)
    ||| unrevealed_in_grid_at(cells, w, h, x + 1, y + 1)
}

/// A breach of the flood-fill closure at (x, y): a revealed zero-count cell
/// that still has an unrevealed neighbor.
pub open spec fn flood_violation(
    cells: Seq<MineFieldCell>,
    w: int,
    h: int,
    x: int,
    y: int,
) -> bool {
    &&& in_grid(w, h, x, y)
    &&& cells[cell_index(w, x, y)] == MineFieldCell::Revealed(0u32)
    &&& has_unrevealed_neighbor(cells, w, h, x, y)
}

/// The flood-fill closure over a whole board: every revealed zero-count
/// cell has all of its neighbors revealed or flagged.
pub open spec fn flood_closed(cells: Seq<MineFieldCell>, w: int, h: int) -> bool {
    forall|x: int, y: int| !(#[trigger] flood_violation(cells, w, h, x, y))
}

/// A board without revealed cells satisfies the flood-fill closure.
pub proof fn lemma_no_reveals_flood_closed(cells: Seq<MineFieldCell>, w: int, h: int)
    requires
        cells.len() == w * h,
        forall|j: int| 0 <= j < cells.len() ==> !((#[trigger] cells[j]) is Revealed),
    ensures
        flood_closed(cells, w, h),
{
    assert forall|x: int, y: int| !(#[trigger] flood_violation(cells, w, h, x, y)) by {
        if in_grid(w, h, x, y) {
            lemma_cell_index_bounds(w, h, x, y);
        }
    }
}

/// If a reveal preserves existing closure pointwise, a closed board stays
/// closed.
pub proof fn lemma_flood_closure_preserved(
    before: Seq<MineFieldCell>,
    after: Seq<MineFieldCell>,
    w: int,
    h: int,
)
    requires
        flood_closed(before, w, h),
        forall|x: int, y: int|
            #[trigger] flood_violation(after, w, h, x, y) ==> flood_violation(before, w, h, x, y),
    ensures
        flood_closed(after, w, h),
{
}

/// Revealing one unrevealed cell creates no flood-fill violation anywhere
/// else: a violation of the updated board away from the revealed cell was
/// already a violation before.
pub proof fn lemma_violation_update_to_revealed(
    cells: Seq<MineFieldCell>,
    w: int,
    h: int,
    ux: int,
    uy: int,
    c: MineFieldCell,
    cx: int,
    cy: int,
)
    requires
        cells.len() == w * h,
        in_grid(w, h, ux, uy),
        c is Revealed,
        flood_violation(cells.update(cell_index(w, ux, uy), c), w, h, cx, cy),
        !(cx == ux && cy == uy),
    ensures
        flood_violation(cells, w, h, cx, cy),
{
    let idx = cell_index(w, ux, uy);
    let nc = cells.update(idx, c);
    lemma_cell_index_bounds(w, h, ux, uy);
    lemma_cell_index_bounds(w, h, cx, cy);
    if cell_index(w, cx, cy) == idx {
        lemma_cell_index_injective(w, h, cx, cy, ux, uy);
    }
    assert(cells[cell_index(w, cx, cy)] == MineFieldCell::Revealed(0u32));
    if unrevealed_in_grid_at(nc, w, h, cx - 1, cy - 1) {
        lemma_cell_index_bounds(w, h, cx - 1, cy - 1);
        assert(unrevealed_in_grid_at(cells, w, h, cx - 1, cy - 1));
    } else if unrevealed_in_grid_at(nc, w, h, cx - 1, cy) {
        lemma_cell_index_bounds(w, h, cx - 1, cy);
        assert(unrevealed_in_grid_at(cells, w, h, cx - 1, cy));
    } else if unrevealed_in_grid_at(nc, w, h, cx - 1, cy + 1) {
        lemma_cell_index_bounds(w, h, cx - 1, cy + 1);
        assert(unrevealed_in_grid_at(cells, w, h, cx - 1, cy + 1));
    } else if unrevealed_in_grid_at(nc, w, h, cx, cy - 1) {
        lemma_cell_index_bounds(w, h, cx, cy - 1);
        assert(unrevealed_in_grid_at(cells, w, h, cx, cy - 1));
    } else if unrevealed_in_grid_at(nc, w, h, cx, cy + 1) {
        lemma_cell_index_bounds(w, h, cx, cy + 1);
        assert(unrevealed_in_grid_at(cells, w, h, cx, cy + 1));
    } else if unrevealed_in_grid_at(nc, w, h, cx + 1, cy - 1) {
        lemma_cell_index_bounds(w, h, cx + 1, cy - 1);
        assert(unrevealed_in_grid_at(cells, w, h, cx + 1, cy - 1));
    } else if unrevealed_in_grid_at(nc, w, h, cx + 1, cy) {
        lemma_cell_index_bounds(w, h, cx + 1, cy);
        assert(unrevealed_in_grid_at(cells, w, h, cx + 1, cy));
    } else {
        lemma_cell_index_bounds(w, h, cx + 1, cy + 1);
        assert(unrevealed_in_grid_at(cells, w, h, cx + 1, cy + 1));
    }
}

/// Whether the coordinate pair (x, y) occurs in a list of grid coordinates.
pub open spec fn contains_pt(s: Seq<(u32, u32)>, x: int, y: int) -> bool {
    exists|k: int| 0 <= k < s.len() && (#[trigger] s[k]).0 as int == x && s[k].1 as int == y
}

} // verus!
