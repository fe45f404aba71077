//! What holds of a whole displacement sweep, whatever the tie-breaks: which
//! cells a step can touch, that cells which are neither movers nor fluid
//! stay put, and that powder above a lighter fluid sinks within the sweep.

use vstd::prelude::*;
use super::displacement::{candidate_dx, candidate_dy, choice, choice_yields, displaced,
    is_mover, powder_falls_through_lighter_fluid, powder_rests_on_what_is_not_fluid, scan_x,
    scan_y, step, sweep, sweep_conserves, yields, Sweep};
use super::grid::{cell_index, cell_index_in_range, in_bounds};
use super::material::{LIQUID, POWDER, SOLID};
use super::particle::Particle;

verus! {

/// Whether a step from `before` to `after` changed the cell or the marker at
/// index `q`.
pub open spec fn touched(before: Sweep, after: Sweep, q: int) -> bool {
    after.cells[q] != before.cells[q] || after.moved[q] != before.moved[q]
}

/// A step touches at most two cells: the mover, and a liquid or gas cell in
/// one of the three columns around the mover, in the row ahead of it or, for
/// liquid and gas, in its own row.
pub proof fn step_touches_mover_and_target(
    s: Sweep,
    width: int,
    height: int,
    phase: u8,
    x: int,
    y: int,
    mirror: bool,
    q: int,
)
    requires
        s.cells.len() == width * height,
        s.moved.len() == s.cells.len(),
        0 <= q < s.cells.len(),
        touched(s, step(s, width, height, phase, x, y, mirror), q),
    ensures
        is_mover(s, width, height, phase, x, y),
        q == cell_index(width, x, y) || {
            &&& s.cells[q].state() >= LIQUID
            &&& x - 1 <= q % width <= x + 1
            &&& q / width == y + candidate_dy(phase, 0) || (phase != POWDER && q / width == y)
        },
{
    let picked = choice(s.cells, width, height, phase, x, y, mirror);
    assert(is_mover(s, width, height, phase, x, y) && picked is Some);
    let i = picked->0;
    let tx = x + candidate_dx(i, mirror);
    let ty = y + candidate_dy(phase, i);
    choice_yields(s.cells, width, height, phase, x, y, mirror);
    cell_index_in_range(width, height, x, y);
    cell_index_in_range(width, height, tx, ty);
    assert(q == cell_index(width, x, y) || q == cell_index(width, tx, ty));
}

/// A cell that is neither liquid nor gas, and not of the phase that the pass
/// moves, is where it was after any number of steps: a solid cell never
/// moves, and powder moves in the powder pass only.
pub proof fn sweep_leaves_the_immobile(
    start: Sweep,
    width: int,
    height: int,
    phase: u8,
    t: u64,
    flips: Seq<bool>,
    k: nat,
    q: int,
)
    requires
        0 <= width,
        0 <= height,
        start.cells.len() == width * height,
        start.moved.len() == start.cells.len(),
        0 <= q < start.cells.len(),
        start.cells[q].state() < LIQUID,
        start.cells[q].state() != phase,
    ensures
        sweep(start, width, height, phase, t, flips, k).cells[q] == start.cells[q],
    decreases k,
{
    if k > 0 {
        let before = sweep(start, width, height, phase, t, flips, (k - 1) as nat);
        let px = scan_x(t, width, k - 1);
        let py = scan_y(phase, t, width, height, k - 1);
        sweep_leaves_the_immobile(start, width, height, phase, t, flips, (k - 1) as nat, q);
        sweep_conserves(start, width, height, phase, t, flips, (k - 1) as nat);
        let after = step(before, width, height, phase, px, py, flips[k - 1]);
        if after.cells[q] != before.cells[q] {
            step_touches_mover_and_target(before, width, height, phase, px, py, flips[k - 1], q);
        }
    }
}

/// Solid cells, and powder outside the powder pass, are where they were
/// after a whole displacement pass, whatever the tick and the tie-breaks.
pub proof fn displacement_leaves_the_immobile(
    cells: Seq<Particle>,
    width: int,
    height: int,
    phase: u8,
    t: u64,
    flips: Seq<bool>,
    q: int,
)
    requires
        0 <= width,
        0 <= height,
        cells.len() == width * height,
        0 <= q < cells.len(),
        cells[q].state() < LIQUID,
        cells[q].state() != phase,
    ensures
        displaced(cells, width, height, phase, t, flips)[q] == cells[q],
{
    sweep_leaves_the_immobile(
        Sweep { cells, moved: Seq::new(cells.len(), |i: int| false) },
        width,
        height,
        phase,
        t,
        flips,
        cells.len(),
        q,
    );
}

/// What holds of a powder cell above a solid cell after any number of steps
/// of the powder sweep: both are where they were.
proof fn powder_waits_on_solid(
    cells: Seq<Particle>,
    width: int,
    height: int,
    t: u64,
    flips: Seq<bool>,
    x: int,
    y: int,
    k: nat,
)
    requires
        0 <= x < width,
        0 <= y,
        y + 1 < height,
        cells.len() == width * height,
        cells[cell_index(width, x, y)].state() == POWDER,
        cells[cell_index(width, x, y + 1)].state() == SOLID,
    ensures
        ({
            let s = sweep(
                Sweep { cells, moved: Seq::new(cells.len(), |i: int| false) },
                width,
                height,
                POWDER,
                t,
                flips,
                k,
            );
            &&& s.cells[cell_index(width, x, y)] == cells[cell_index(width, x, y)]
            &&& s.cells[cell_index(width, x, y + 1)] == cells[cell_index(width, x, y + 1)]
        }),
    decreases k,
{
    let start = Sweep { cells, moved: Seq::new(cells.len(), |i: int| false) };
    let here = cell_index(width, x, y);
    cell_index_in_range(width, height, x, y);
    cell_index_in_range(width, height, x, y + 1);
    sweep_leaves_the_immobile(
        start,
        width,
        height,
        POWDER,
        t,
        flips,
        k,
        cell_index(width, x, y + 1),
    );
    if k > 0 {
        let before = sweep(start, width, height, POWDER, t, flips, (k - 1) as nat);
        let px = scan_x(t, width, k - 1);
        let py = scan_y(POWDER, t, width, height, k - 1);
        let after = step(before, width, height, POWDER, px, py, flips[k - 1]);
        powder_waits_on_solid(cells, width, height, t, flips, x, y, (k - 1) as nat);
        sweep_conserves(start, width, height, POWDER, t, flips, (k - 1) as nat);
        if after.cells[here] != before.cells[here] {
            step_touches_mover_and_target(
                before,
                width,
                height,
                POWDER,
                px,
                py,
                flips[k - 1],
                here,
            );
            cell_index_in_range(width, height, px, py);
            powder_rests_on_what_is_not_fluid(before, width, height, x, y, flips[k - 1]);
            assert(false);
        }
    }
}

/// A powder cell above a solid cell never swaps with it: after a powder
/// pass both are where they were, whatever the tick and the tie-breaks.
pub proof fn powder_stays_on_solid(
    cells: Seq<Particle>,
    width: int,
    height: int,
    t: u64,
    flips: Seq<bool>,
    x: int,
    y: int,
)
    requires
        0 <= x < width,
        0 <= y,
        y + 1 < height,
        cells.len() == width * height,
        cells[cell_index(width, x, y)].state() == POWDER,
        cells[cell_index(width, x, y + 1)].state() == SOLID,
    ensures
        displaced(cells, width, height, POWDER, t, flips)[cell_index(width, x, y)]
            == cells[cell_index(width, x, y)],
        displaced(cells, width, height, POWDER, t, flips)[cell_index(width, x, y + 1)]
            == cells[cell_index(width, x, y + 1)],
{
    powder_waits_on_solid(cells, width, height, t, flips, x, y, cells.len());
}

/// The step of the powder sweep at which `(x, y)` is visited.
pub open spec fn powder_visit(t: u64, width: int, height: int, x: int, y: int) -> int {
    (height - 1 - y) * width + (if t % 2 == 0 {
        width - 1 - x
    } else {
        x
    })
}

/// The powder sweep visits `(x, y)` at step `powder_visit` and at no other;
/// all earlier steps visit rows below or the same row.
pub proof fn powder_visit_is_the_only_one(
    t: u64,
    width: int,
    height: int,
    x: int,
    y: int,
    k: int,
)
    requires
        0 <= x < width,
        0 <= y < height,
        0 <= k,
    ensures
        0 <= powder_visit(t, width, height, x, y) < width * height,
        scan_x(t, width, k) == x && scan_y(POWDER, t, width, height, k) == y <==> k
            == powder_visit(t, width, height, x, y),
        k < powder_visit(t, width, height, x, y) ==> scan_y(POWDER, t, width, height, k) >= y,
{
    let column = if t % 2 == 0 {
        width - 1 - x
    } else {
        x
    };
    let visit = powder_visit(t, width, height, x, y);
    cell_index_in_range(width, height, column, height - 1 - y);
    assert(visit == cell_index(width, column, height - 1 - y));
    vstd::arithmetic::div_mod::lemma_fundamental_div_mod(k, width);
    assert(width * (k / width) == (k / width) * width) by (nonlinear_arith);
    if k < visit {
        vstd::arithmetic::div_mod::lemma_div_is_ordered(k, visit, width);
    }
}

/// What holds until the sweep visits the powder cell at `(x, y)`: the cell,
/// the cell below it and the two cells beside it are as they were, and the
/// cell is unmarked.
proof fn powder_waits_untouched(
    cells: Seq<Particle>,
    width: int,
    height: int,
    t: u64,
    flips: Seq<bool>,
    x: int,
    y: int,
    k: nat,
)
    requires
        0 <= width,
        0 <= height,
        cells.len() == width * height,
        in_bounds(width, height, x, y),
        in_bounds(width, height, x, y + 1),
        cells[cell_index(width, x, y)].state() == POWDER,
        cells[cell_index(width, x, y + 1)].state() >= LIQUID,
        0 < x ==> cells[cell_index(width, x - 1, y)].state() != POWDER,
        cells[cell_index(width, x + 1, y)].state() != POWDER,
        k <= powder_visit(t, width, height, x, y),
    ensures
        ({
            let s = sweep(
                Sweep { cells, moved: Seq::new(cells.len(), |i: int| false) },
                width,
                height,
                POWDER,
                t,
                flips,
                k,
            );
            &&& s.cells.len() == cells.len()
            &&& s.moved.len() == cells.len()
            &&& s.cells[cell_index(width, x, y)] == cells[cell_index(width, x, y)]
            &&& s.cells[cell_index(width, x, y + 1)] == cells[cell_index(width, x, y + 1)]
            &&& s.cells[cell_index(width, x + 1, y)] == cells[cell_index(width, x + 1, y)]
            &&& 0 < x ==> s.cells[cell_index(width, x - 1, y)] == cells[cell_index(
                width,
                x - 1,
                y,
            )]
            &&& !s.moved[cell_index(width, x, y)]
        }),
    decreases k,
{
    let start = Sweep { cells, moved: Seq::new(cells.len(), |i: int| false) };
    sweep_conserves(start, width, height, POWDER, t, flips, k);
    cell_index_in_range(width, height, x, y);
    cell_index_in_range(width, height, x, y + 1);
    cell_index_in_range(width, height, x + 1, y);
    if 0 < x {
        cell_index_in_range(width, height, x - 1, y);
    }
    if k > 0 {
        let before = sweep(start, width, height, POWDER, t, flips, (k - 1) as nat);
        let px = scan_x(t, width, k - 1);
        let py = scan_y(POWDER, t, width, height, k - 1);
        let after = step(before, width, height, POWDER, px, py, flips[k - 1]);
        powder_waits_untouched(cells, width, height, t, flips, x, y, (k - 1) as nat);
        sweep_conserves(start, width, height, POWDER, t, flips, (k - 1) as nat);
        powder_visit_is_the_only_one(t, width, height, x, y, k - 1);
        assert(!(px == x && py == y));
        assert(py >= y);
        let here = cell_index(width, x, y);
        let below = cell_index(width, x, y + 1);
        let right = cell_index(width, x + 1, y);
        if is_mover(before, width, height, POWDER, px, py) {
            cell_index_in_range(width, height, px, py);
        }
        if touched(before, after, here) {
            step_touches_mover_and_target(
                before,
                width,
                height,
                POWDER,
                px,
                py,
                flips[k - 1],
                here,
            );
            assert(false);
        }
        if touched(before, after, below) {
            step_touches_mover_and_target(
                before,
                width,
                height,
                POWDER,
                px,
                py,
                flips[k - 1],
                below,
            );
            assert(py == y);
            assert(px == x - 1 || px == x + 1);
            assert(false);
        }
        if touched(before, after, right) {
            step_touches_mover_and_target(
                before,
                width,
                height,
                POWDER,
                px,
                py,
                flips[k - 1],
                right,
            );
            assert(false);
        }
        if 0 < x {
            let left = cell_index(width, x - 1, y);
            if touched(before, after, left) {
                step_touches_mover_and_target(
                    before,
                    width,
                    height,
                    POWDER,
                    px,
                    py,
                    flips[k - 1],
                    left,
                );
                assert(false);
            }
        }
    }
}

/// What holds once the sweep has visited the powder cell at `(x, y)`: the
/// cell lies one row lower, marked, and stays there.
proof fn powder_stays_landed(
    cells: Seq<Particle>,
    width: int,
    height: int,
    t: u64,
    flips: Seq<bool>,
    x: int,
    y: int,
    k: nat,
)
    requires
        0 <= width,
        0 <= height,
        cells.len() == width * height,
        in_bounds(width, height, x, y),
        cells[cell_index(width, x, y)].state() == POWDER,
        yields(cells, width, height, x, y, x, y + 1),
        0 < x ==> cells[cell_index(width, x - 1, y)].state() != POWDER,
        cells[cell_index(width, x + 1, y)].state() != POWDER,
        k > powder_visit(t, width, height, x, y),
    ensures
        ({
            let s = sweep(
                Sweep { cells, moved: Seq::new(cells.len(), |i: int| false) },
                width,
                height,
                POWDER,
                t,
                flips,
                k,
            );
            &&& s.cells[cell_index(width, x, y + 1)] == cells[cell_index(width, x, y)]
            &&& s.moved[cell_index(width, x, y + 1)]
        }),
    decreases k,
{
    let start = Sweep { cells, moved: Seq::new(cells.len(), |i: int| false) };
    let before = sweep(start, width, height, POWDER, t, flips, (k - 1) as nat);
    let px = scan_x(t, width, k - 1);
    let py = scan_y(POWDER, t, width, height, k - 1);
    let after = step(before, width, height, POWDER, px, py, flips[k - 1]);
    let below = cell_index(width, x, y + 1);
    sweep_conserves(start, width, height, POWDER, t, flips, (k - 1) as nat);
    cell_index_in_range(width, height, x, y + 1);
    if k - 1 == powder_visit(t, width, height, x, y) {
        powder_waits_untouched(cells, width, height, t, flips, x, y, (k - 1) as nat);
        powder_visit_is_the_only_one(t, width, height, x, y, k - 1);
        powder_falls_through_lighter_fluid(before, width, height, x, y, flips[k - 1]);
    } else {
        powder_stays_landed(cells, width, height, t, flips, x, y, (k - 1) as nat);
        if touched(before, after, below) {
            step_touches_mover_and_target(
                before,
                width,
                height,
                POWDER,
                px,
                py,
                flips[k - 1],
                below,
            );
            cell_index_in_range(width, height, px, py);
            assert(false);
        }
    }
}

/// A powder cell directly above a cell that yields to it, with no powder
/// beside it, has sunk by one row at the end of the powder pass, whatever the
/// tick and the tie-breaks.
pub proof fn powder_sinks_within_one_sweep(
    cells: Seq<Particle>,
    width: int,
    height: int,
    t: u64,
    flips: Seq<bool>,
    x: int,
    y: int,
)
    requires
        0 <= width,
        0 <= height,
        cells.len() == width * height,
        in_bounds(width, height, x, y),
        cells[cell_index(width, x, y)].state() == POWDER,
        yields(cells, width, height, x, y, x, y + 1),
        0 < x ==> cells[cell_index(width, x - 1, y)].state() != POWDER,
        cells[cell_index(width, x + 1, y)].state() != POWDER,
    ensures
        displaced(cells, width, height, POWDER, t, flips)[cell_index(width, x, y + 1)]
            == cells[cell_index(width, x, y)],
{
    powder_visit_is_the_only_one(t, width, height, x, y, 0);
    powder_stays_landed(cells, width, height, t, flips, x, y, cells.len());
}

} // verus!
