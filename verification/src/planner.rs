//! The greedy string-art planner.
//!
//! Starting at pin 0, the planner repeatedly rasterizes the segment from
//! the current pin to every other pin, scores each segment by the summed
//! darkness (`255 - intensity`) of its in-bounds pixels, selects the
//! highest score (first strictly greater wins, so ties break to the
//! lowest index), erases the winning segment by brightening its pixels
//! by 150 (saturating at 255), and hops to the winner.

use vstd::prelude::*;
use crate::grid::{GridModel, IntensityGrid, grid_wf, grid_in_bounds, grid_index};
use crate::pins::Pin;

verus! {

/// The 4-connected grid walk from `(ax, ay)` to `(bx, by)`: every pixel
/// cell the ideal segment crosses, in traversal order. The exact cell
/// sequence is the one `line_drawing::WalkGrid` produces; it is a
/// function of the endpoints alone.
pub uninterp spec fn walk_of(ax: int, ay: int, bx: int, by: int) -> Seq<(int, int)>;

/// Distance between two integers.
pub open spec fn abs_diff(a: int, b: int) -> int {
    if a >= b { a - b } else { b - a }
}

/// Number of cells the grid walk visits: one per unit step plus the start.
pub open spec fn walk_len(ax: int, ay: int, bx: int, by: int) -> int {
    abs_diff(ax, bx) + abs_diff(ay, by) + 1
}

/// A pixel sequence as mathematical integer pairs.
pub open spec fn pts_view(s: Seq<(i32, i32)>) -> Seq<(int, int)> {
    s.map_values(|p: (i32, i32)| (p.0 as int, p.1 as int))
}

/// The coordinate range on which the rasterizer is used. `WalkGrid`
/// counts its steps in `f32`, whose integer arithmetic is exact up to
/// two to the 24th; endpoints within two to the 22nd keep every counter
/// well inside that.
pub open spec fn coord_in_range(c: int) -> bool {
    -0x40_0000 <= c <= 0x40_0000
}

/// Whether a pin's coordinates lie in the rasterizer's range.
pub open spec fn pin_in_range(p: Pin) -> bool {
    coord_in_range(p.x as int) && coord_in_range(p.y as int)
}

/// Runtime check for `pin_in_range`.
pub fn pin_coords_in_range(p: &Pin) -> (b: bool)
    ensures
        b == pin_in_range(*p),
{
    -0x40_0000 <= p.x && p.x <= 0x40_0000 && -0x40_0000 <= p.y && p.y <= 0x40_0000
}

/// Relies on `line_drawing::WalkGrid`: an orthogonal-step walk between
/// the endpoints, deterministic in them; it takes one step per unit of
/// x-distance plus one per unit of y-distance, and yields the starting
/// cell plus one cell per step. Within `coord_in_range` its `f32` step
/// counters stay exact, so the walk has exactly that many cells.
#[verifier::external_body]
fn walk_line(ax: i32, ay: i32, bx: i32, by: i32) -> (r: Vec<(i32, i32)>)
    requires
        coord_in_range(ax as int),
        coord_in_range(ay as int),
        coord_in_range(bx as int),
        coord_in_range(by as int),
    ensures
        pts_view(r@) == walk_of(ax as int, ay as int, bx as int, by as int),
        r@.len() == walk_len(ax as int, ay as int, bx as int, by as int),
{
    line_drawing::WalkGrid::new((ax, ay), (bx, by)).collect::<Vec<(i32, i32)>>()
}

/// Score contribution of one visited cell: inverted intensity for
/// in-bounds cells, nothing for out-of-bounds ones.
pub open spec fn cell_gain(g: GridModel, p: (int, int)) -> int {
    if grid_in_bounds(g, p.0, p.1) {
        255 - g.cells[grid_index(g, p.0, p.1)]
    } else {
        0
    }
}

/// Total score of a rasterized segment: the sum of the gains of its cells.
pub open spec fn path_score(g: GridModel, pts: Seq<(int, int)>) -> int
    decreases pts.len(),
{
    if pts.len() == 0 {
        0
    } else {
        path_score(g, pts.drop_last()) + cell_gain(g, pts.last())
    }
}

/// A segment score is non-negative and at most 255 per visited cell.
pub proof fn lemma_path_score_bounds(g: GridModel, pts: Seq<(int, int)>)
    ensures
        0 <= path_score(g, pts) <= 255 * pts.len(),
    decreases pts.len(),
{
    if pts.len() > 0 {
        lemma_path_score_bounds(g, pts.drop_last());
    }
}

/// Sums the gains of the in-bounds cells of `pts` over the grid.
fn score_line(grid: &IntensityGrid, pts: &Vec<(i32, i32)>) -> (r: u64)
    requires
        grid_wf(grid@),
        pts@.len() <= 0x2_0000_0001,
    ensures
        r == path_score(grid@, pts_view(pts@)),
{
    let mut total: u64 = 0;
    let mut i: usize = 0;
    while i < pts.len()
        invariant
            grid_wf(grid@),
            i <= pts@.len(),
            pts@.len() <= 0x2_0000_0001,
            total == path_score(grid@, pts_view(pts@).take(i as int)),
            total <= 255 * i,
        decreases pts@.len() - i,
    {
        let p: (i32, i32) = pts[i];
        let gain: u64 = match grid.sample(p.0 as i64, p.1 as i64) {
            Some(v) => 255 - (v as u64),
            None => 0,
        };
        proof {
            assert(pts_view(pts@)[i as int] == (p.0 as int, p.1 as int));
            assert(pts_view(pts@).take(i + 1).drop_last() =~= pts_view(pts@).take(i as int));
            assert(pts_view(pts@).take(i + 1).last() == pts_view(pts@)[i as int]);
        }
        total = total + gain;
        i = i + 1;
    }
    proof {
        assert(pts_view(pts@).take(pts@.len() as int) =~= pts_view(pts@));
    }
    total
}

/// Brightening by 150, saturating at white.
pub open spec fn sat_add_150(v: u8) -> u8 {
    if v as int + 150 >= 255 {
        255u8
    } else {
        (v as int + 150) as u8
    }
}

/// One erasure step: brighten the cell `p` if it lies on the raster.
pub open spec fn erase_cell(g: GridModel, p: (int, int)) -> GridModel {
    if grid_in_bounds(g, p.0, p.1) {
        GridModel {
            cells: g.cells.update(
                grid_index(g, p.0, p.1),
                sat_add_150(g.cells[grid_index(g, p.0, p.1)]),
            ),
            ..g
        }
    } else {
        g
    }
}

/// Erasure of a whole segment: every visited in-bounds cell brightened,
/// in traversal order.
pub open spec fn erase_path(g: GridModel, pts: Seq<(int, int)>) -> GridModel
    decreases pts.len(),
{
    if pts.len() == 0 {
        g
    } else {
        erase_cell(erase_path(g, pts.drop_last()), pts.last())
    }
}

/// Law: erasure saturates and never wraps. It keeps the dimensions, and
/// leaves every cell at least as bright as before and at most 255,
/// however many cells the segment touches.
pub proof fn lemma_erase_monotone(g: GridModel, pts: Seq<(int, int)>)
    requires
        grid_wf(g),
    ensures
        erase_path(g, pts).w == g.w,
        erase_path(g, pts).h == g.h,
        grid_wf(erase_path(g, pts)),
        forall|i: int| 0 <= i < g.cells.len()
            ==> g.cells[i] <= #[trigger] erase_path(g, pts).cells[i],
    decreases pts.len(),
{
    if pts.len() > 0 {
        lemma_erase_monotone(g, pts.drop_last());
        let e = erase_path(g, pts.drop_last());
        let p = pts.last();
        if grid_in_bounds(e, p.0, p.1) {
            crate::grid::lemma_row_major(p.0, p.1, e.w, e.h);
        }
    }
}

/// Erases the rasterized segment `pts` on the grid.
fn erase_line(grid: &mut IntensityGrid, pts: &Vec<(i32, i32)>)
    requires
        grid_wf(old(grid)@),
    ensures
        final(grid)@ == erase_path(old(grid)@, pts_view(pts@)),
        grid_wf(final(grid)@),
{
    let ghost g0 = grid@;
    let mut i: usize = 0;
    while i < pts.len()
        invariant
            grid_wf(grid@),
            i <= pts@.len(),
            grid@ == erase_path(g0, pts_view(pts@).take(i as int)),
            grid@.w == g0.w,
            grid@.h == g0.h,
        decreases pts@.len() - i,
    {
        let p: (i32, i32) = pts[i];
        proof {
            assert(pts_view(pts@)[i as int] == (p.0 as int, p.1 as int));
            assert(pts_view(pts@).take(i + 1).drop_last() =~= pts_view(pts@).take(i as int));
            assert(pts_view(pts@).take(i + 1).last() == pts_view(pts@)[i as int]);
        }
        match grid.sample(p.0 as i64, p.1 as i64) {
            Some(v) => {
                let nv: u8 = if v >= 105 { 255 } else { v + 150 };
                grid.put(p.0 as usize, p.1 as usize, nv);
            },
            None => {},
        }
        i = i + 1;
    }
    proof {
        assert(pts_view(pts@).take(pts@.len() as int) =~= pts_view(pts@));
    }
}

/// The walk between two pins of the set.
pub open spec fn pin_walk(pins: Seq<Pin>, a: int, b: int) -> Seq<(int, int)> {
    walk_of(pins[a].x as int, pins[a].y as int, pins[b].x as int, pins[b].y as int)
}

/// Score of the candidate thread from pin `cur` to pin `j`.
pub open spec fn candidate_score(g: GridModel, pins: Seq<Pin>, cur: int, j: int) -> int {
    path_score(g, pin_walk(pins, cur, j))
}

/// The scan state after considering candidates `0 .. k`: the best index
/// so far and its score, starting from index 0 with the sentinel score
/// -1 (so the first candidate always wins, and later candidates only on
/// a strictly greater score — ties break to the lowest index). The
/// current pin is skipped.
pub open spec fn best_scan(g: GridModel, pins: Seq<Pin>, cur: int, k: int) -> (int, int)
    decreases k,
{
    if k <= 0 {
        (0, -1)
    } else {
        let prev = best_scan(g, pins, cur, k - 1);
        if k - 1 == cur {
            prev
        } else {
            let s = candidate_score(g, pins, cur, k - 1);
            if s > prev.1 {
                (k - 1, s)
            } else {
                prev
            }
        }
    }
}

/// The pin the greedy scan selects from `cur` over the whole pin set.
pub open spec fn best_of(g: GridModel, pins: Seq<Pin>, cur: int) -> int {
    best_scan(g, pins, cur, pins.len() as int).0
}

/// Properties of the greedy scan: the sentinel survives exactly when no
/// candidate was scanned, and otherwise the winner is a scanned index
/// other than the current pin.
pub proof fn lemma_best_scan(g: GridModel, pins: Seq<Pin>, cur: int, k: int)
    requires
        0 <= cur,
        0 <= k,
    ensures
        best_scan(g, pins, cur, k).1 >= -1,
        best_scan(g, pins, cur, k).1 == -1 ==> best_scan(g, pins, cur, k).0 == 0,
        best_scan(g, pins, cur, k).1 >= 0
            ==> 0 <= best_scan(g, pins, cur, k).0 < k && best_scan(g, pins, cur, k).0 != cur,
    decreases k,
{
    if k > 0 {
        lemma_best_scan(g, pins, cur, k - 1);
        if k - 1 != cur {
            lemma_path_score_bounds(g, pin_walk(pins, cur, k - 1));
        }
    }
}

/// Once the scan has passed any candidate other than the current pin,
/// the sentinel score is gone for good.
pub proof fn lemma_best_scan_witness(g: GridModel, pins: Seq<Pin>, cur: int, k: int, w: int)
    requires
        0 <= cur,
        0 <= w < k,
        w != cur,
    ensures
        best_scan(g, pins, cur, k).1 >= 0,
    decreases k,
{
    lemma_best_scan(g, pins, cur, k - 1);
    if w < k - 1 {
        lemma_best_scan_witness(g, pins, cur, k - 1, w);
    } else {
        lemma_path_score_bounds(g, pin_walk(pins, cur, k - 1));
    }
}

/// The greedy selection from `cur` stays in range and, whenever there
/// are at least two pins, never selects the current pin.
pub proof fn lemma_best_of(g: GridModel, pins: Seq<Pin>, cur: int)
    requires
        0 <= cur < pins.len(),
        pins.len() >= 1,
    ensures
        0 <= best_of(g, pins, cur) < pins.len(),
        pins.len() >= 2 ==> best_of(g, pins, cur) != cur,
{
    lemma_best_scan(g, pins, cur, pins.len() as int);
    if pins.len() >= 2 {
        let w: int = if cur == 0 { 1 } else { 0 };
        lemma_best_scan_witness(g, pins, cur, pins.len() as int, w);
    }
}

/// Scans all pins from `cur` and returns the greedy winner.
fn choose_next(grid: &IntensityGrid, pins: &Vec<Pin>, cur: usize) -> (r: usize)
    requires
        grid_wf(grid@),
        (cur as int) < pins@.len(),
        forall|k: int| 0 <= k < pins@.len() ==> pin_in_range(#[trigger] pins@[k]),
    ensures
        r as int == best_of(grid@, pins@, cur as int),
        (r as int) < pins@.len(),
        pins@.len() >= 2 ==> r as int != cur as int,
{
    let sx: i32 = pins[cur].x;
    let sy: i32 = pins[cur].y;
    let mut best_j: usize = 0;
    let mut best_s: i64 = -1;
    let mut j: usize = 0;
    while j < pins.len()
        invariant
            grid_wf(grid@),
            (cur as int) < pins@.len(),
            forall|k: int| 0 <= k < pins@.len() ==> pin_in_range(#[trigger] pins@[k]),
            sx == pins@[cur as int].x,
            sy == pins@[cur as int].y,
            j <= pins@.len(),
            best_j as int == best_scan(grid@, pins@, cur as int, j as int).0,
            best_s as int == best_scan(grid@, pins@, cur as int, j as int).1,
            best_j as int <= j,
            (best_j as int) < pins@.len() || best_j == 0,
        decreases pins@.len() - j,
    {
        if j != cur {
            let pts: Vec<(i32, i32)> = walk_line(sx, sy, pins[j].x, pins[j].y);
            proof {
                lemma_path_score_bounds(grid@, pts_view(pts@));
            }
            let s_u: u64 = score_line(grid, &pts);
            let s: i64 = s_u as i64;
            proof {
                assert(s as int == candidate_score(grid@, pins@, cur as int, j as int));
            }
            if s > best_s {
                best_j = j;
                best_s = s;
            }
        }
        j = j + 1;
    }
    proof {
        lemma_best_of(grid@, pins@, cur as int);
    }
    best_j
}

/// A path of chosen pin indices, as mathematical integers.
pub open spec fn path_ints(s: Seq<usize>) -> Seq<int> {
    s.map_values(|v: usize| v as int)
}

/// The whole greedy plan from pin `cur` for `n` threads: the sequence of
/// chosen pin indices and the grid as the erasures leave it. Choosing
/// zero threads returns an empty path and the grid untouched.
pub open spec fn plan_spec(g: GridModel, pins: Seq<Pin>, cur: int, n: nat) -> (Seq<int>, GridModel)
    decreases n,
{
    if n == 0 {
        (Seq::empty(), g)
    } else {
        let j = best_of(g, pins, cur);
        let g2 = erase_path(g, pin_walk(pins, cur, j));
        let rest = plan_spec(g2, pins, j, (n - 1) as nat);
        (seq![j] + rest.0, rest.1)
    }
}

/// Runs the greedy loop: `line_count` threads starting at pin 0. The
/// returned indices and the mutated grid are exactly what `plan_spec`
/// prescribes for the grid the call started with.
pub fn plan_path(grid: &mut IntensityGrid, pins: &Vec<Pin>, line_count: u32) -> (r: Vec<usize>)
    requires
        grid_wf(old(grid)@),
        pins@.len() >= 1,
        forall|k: int| 0 <= k < pins@.len() ==> pin_in_range(#[trigger] pins@[k]),
    ensures
        grid_wf(final(grid)@),
        path_ints(r@) == plan_spec(old(grid)@, pins@, 0, line_count as nat).0,
        final(grid)@ == plan_spec(old(grid)@, pins@, 0, line_count as nat).1,
        r@.len() == line_count,
        line_count == 0 ==> final(grid)@ == old(grid)@,
        forall|k: int| 0 <= k < r@.len() ==> (#[trigger] r@[k] as int) < pins@.len(),
{
    let ghost g0 = grid@;
    let mut path: Vec<usize> = Vec::new();
    let mut cur: usize = 0;
    let mut done: u32 = 0;
    while done < line_count
        invariant
            grid_wf(grid@),
            pins@.len() >= 1,
            forall|k: int| 0 <= k < pins@.len() ==> pin_in_range(#[trigger] pins@[k]),
            (cur as int) < pins@.len(),
            done <= line_count,
            path@.len() == done,
            forall|k: int| 0 <= k < path@.len() ==> (#[trigger] path@[k] as int) < pins@.len(),
            plan_spec(g0, pins@, 0, line_count as nat).0
                == path_ints(path@) + plan_spec(grid@, pins@, cur as int, (line_count - done) as nat).0,
            plan_spec(g0, pins@, 0, line_count as nat).1
                == plan_spec(grid@, pins@, cur as int, (line_count - done) as nat).1,
        decreases line_count - done,
    {
        let ghost g_pre = grid@;
        let ghost m = (line_count - done) as nat;
        let j: usize = choose_next(grid, pins, cur);
        let pts: Vec<(i32, i32)> = walk_line(pins[cur].x, pins[cur].y, pins[j].x, pins[j].y);
        erase_line(grid, &pts);
        path.push(j);
        proof {
            assert(m != 0);
            assert(pts_view(pts@) == pin_walk(pins@, cur as int, j as int));
            assert(grid@ == erase_path(g_pre, pin_walk(pins@, cur as int, j as int)));
            assert(plan_spec(g_pre, pins@, cur as int, m).0
                == seq![j as int] + plan_spec(grid@, pins@, j as int, (m - 1) as nat).0);
            assert(plan_spec(g_pre, pins@, cur as int, m).1
                == plan_spec(grid@, pins@, j as int, (m - 1) as nat).1);
            assert(path_ints(path@) =~= path_ints(path@.drop_last()) + seq![j as int]);
            assert(path_ints(path@.drop_last()) + (seq![j as int]
                + plan_spec(grid@, pins@, j as int, (m - 1) as nat).0)
                =~= path_ints(path@) + plan_spec(grid@, pins@, j as int, (m - 1) as nat).0);
        }
        cur = j;
        done = done + 1;
    }
    proof {
        assert(plan_spec(grid@, pins@, cur as int, 0).0 =~= Seq::<int>::empty());
        assert(path_ints(path@) + Seq::<int>::empty() =~= path_ints(path@));
    }
    path
}

/// Law: no self-loops. Every chosen index differs from the pin the
/// planner stood on at the moment of the choice, provided there are at
/// least two pins; and every chosen index is in range.
pub proof fn lemma_no_self_loop(g: GridModel, pins: Seq<Pin>, cur: int, n: nat)
    requires
        pins.len() >= 2,
        0 <= cur < pins.len(),
    ensures
        plan_spec(g, pins, cur, n).0.len() == n,
        forall|k: int| 0 <= k < n ==>
            0 <= #[trigger] plan_spec(g, pins, cur, n).0[k] < pins.len()
            && plan_spec(g, pins, cur, n).0[k]
                != (if k == 0 { cur } else { plan_spec(g, pins, cur, n).0[k - 1] }),
    decreases n,
{
    if n > 0 {
        let j = best_of(g, pins, cur);
        lemma_best_of(g, pins, cur);
        let g2 = erase_path(g, pin_walk(pins, cur, j));
        lemma_no_self_loop(g2, pins, j, (n - 1) as nat);
        let p = plan_spec(g, pins, cur, n).0;
        let rest = plan_spec(g2, pins, j, (n - 1) as nat).0;
        assert forall|k: int| 0 <= k < n implies
            0 <= #[trigger] p[k] < pins.len() && p[k] != (if k == 0 { cur } else { p[k - 1] })
        by {
            if k == 0 {
                assert(p[0] == j);
            } else {
                assert(p[k] == rest[k - 1]);
                if k == 1 {
                    assert(rest[0] != j);
                } else {
                    assert(rest[k - 1] != rest[k - 2]);
                    assert(p[k - 1] == rest[k - 2]);
                }
            }
        }
    }
}

/// Law: a whole plan only brightens the grid. The grid the plan leaves
/// behind has the same dimensions, and every cell is at least its old
/// value and at most 255 — erasure saturates, it never wraps.
pub proof fn lemma_plan_grid_monotone(g: GridModel, pins: Seq<Pin>, cur: int, n: nat)
    requires
        grid_wf(g),
        pins.len() >= 1,
        0 <= cur < pins.len(),
    ensures
        grid_wf(plan_spec(g, pins, cur, n).1),
        plan_spec(g, pins, cur, n).1.w == g.w,
        plan_spec(g, pins, cur, n).1.h == g.h,
        forall|i: int| 0 <= i < g.cells.len()
            ==> g.cells[i] <= #[trigger] plan_spec(g, pins, cur, n).1.cells[i],
    decreases n,
{
    if n > 0 {
        let j = best_of(g, pins, cur);
        lemma_best_of(g, pins, cur);
        let g2 = erase_path(g, pin_walk(pins, cur, j));
        lemma_erase_monotone(g, pin_walk(pins, cur, j));
        lemma_plan_grid_monotone(g2, pins, j, (n - 1) as nat);
    }
}

} // verus!
