//! The displacement passes: powder falls, liquid flows, gas rises.
//!
//! A pass sweeps once over the grid. Each cell of the pass's phase that has
//! not moved in this sweep (the mover) looks at a short list of neighbouring
//! candidates and exchanges places with at most one of them. A target gives
//! way only if it is in bounds, less dense than the mover and itself liquid
//! or gas. A marker that travels with each cell's contents records which
//! cells have moved; it lives only for the length of one sweep.

use vstd::prelude::*;
use crate::chance::coin_flip;
use super::grid::{cell_index, cell_index_in_range, in_bounds, shifted, swap_conserves, swapped,
    total_energy, ParticleSim};
use super::material::{GAS, LIQUID, POWDER};
use super::particle::Particle;

verus! {

/// The state of a sweep in progress: the cells, and for each stored cell
/// whether its contents have already moved in this sweep.
pub struct Sweep {
    pub cells: Seq<Particle>,
    pub moved: Seq<bool>,
}

/// Whether `phase` names one of the three displacement rules.
pub open spec fn is_mobile(phase: u8) -> bool {
    phase == POWDER || phase == LIQUID || phase == GAS
}

/// Horizontal offset of candidate `i`. Candidate 0 lies straight ahead; the
/// odd candidates lie to the right and the even ones to the left, or the
/// other way round when `mirror` is set.
pub open spec fn candidate_dx(i: int, mirror: bool) -> int {
    if i == 0 {
        0
    } else if (i % 2 == 1) != mirror {
        1
    } else {
        -1
    }
}

/// Vertical offset of candidate `i`. Candidates 0 to 2 lie one row ahead,
/// which is below for powder and liquid and above for gas; candidates 3 and 4
/// lie in the mover's own row.
pub open spec fn candidate_dy(phase: u8, i: int) -> int {
    if i >= 3 {
        0
    } else if phase == GAS {
        -1
    } else {
        1
    }
}

/// Whether the cell at `(tx, ty)` gives way to the mover at `(x, y)`: it is
/// in bounds, less dense than the mover, and liquid or gas.
pub open spec fn yields(
    cells: Seq<Particle>,
    width: int,
    height: int,
    x: int,
    y: int,
    tx: int,
    ty: int,
) -> bool {
    &&& in_bounds(width, height, tx, ty)
    &&& cells[cell_index(width, x, y)].density() > cells[cell_index(width, tx, ty)].density()
    &&& cells[cell_index(width, tx, ty)].state() >= LIQUID
}

/// Whether candidate `i` of the mover at `(x, y)` yields.
pub open spec fn candidate_yields(
    cells: Seq<Particle>,
    width: int,
    height: int,
    phase: u8,
    x: int,
    y: int,
    mirror: bool,
    i: int,
) -> bool {
    yields(
        cells,
        width,
        height,
        x,
        y,
        x + candidate_dx(i, mirror),
        y + candidate_dy(phase, i),
    )
}

/// Density of the cell at candidate `i`.
pub open spec fn candidate_density(
    cells: Seq<Particle>,
    width: int,
    phase: u8,
    x: int,
    y: int,
    mirror: bool,
    i: int,
) -> int {
    cells[cell_index(width, x + candidate_dx(i, mirror), y + candidate_dy(phase, i))].density()
}

/// The powder rule. The mover drops straight down if the cell below yields.
/// Otherwise it may slide to a lower diagonal that yields, the first listed
/// one first, but only while the cell straight below it is liquid or gas.
pub open spec fn powder_choice(
    cells: Seq<Particle>,
    width: int,
    height: int,
    x: int,
    y: int,
    mirror: bool,
) -> Option<int> {
    let open_below = cells[cell_index(width, x, y + 1)].state() >= LIQUID;
    if candidate_yields(cells, width, height, POWDER, x, y, mirror, 0) {
        Some(0)
    } else if open_below && candidate_yields(cells, width, height, POWDER, x, y, mirror, 1) {
        Some(1)
    } else if open_below && candidate_yields(cells, width, height, POWDER, x, y, mirror, 2) {
        Some(2)
    } else {
        None
    }
}

/// Whether side candidate `i` (1 to 4) of a liquid or gas mover is open: it
/// yields, and the cell in the candidate's column and the mover's row is
/// liquid or gas.
pub open spec fn side_open(
    cells: Seq<Particle>,
    width: int,
    height: int,
    phase: u8,
    x: int,
    y: int,
    mirror: bool,
    i: int,
) -> bool {
    &&& candidate_yields(cells, width, height, phase, x, y, mirror, i)
    &&& cells[cell_index(width, x + candidate_dx(i, mirror), y)].state() >= LIQUID
}

/// The better of the best side candidate so far and side candidate `i`: the
/// newcomer wins only if it is open and strictly denser than the holder.
pub open spec fn denser_side(
    cells: Seq<Particle>,
    width: int,
    height: int,
    phase: u8,
    x: int,
    y: int,
    mirror: bool,
    best: Option<int>,
    i: int,
) -> Option<int> {
    if side_open(cells, width, height, phase, x, y, mirror, i) && (best is None
        || candidate_density(cells, width, phase, x, y, mirror, best->0) < candidate_density(
        cells,
        width,
        phase,
        x,
        y,
        mirror,
        i,
    )) {
        Some(i)
    } else {
        best
    }
}

/// The liquid and gas rule. The mover goes straight ahead if that cell
/// yields. Otherwise it goes to the densest open side candidate, the first
/// listed one among equals, if there is any.
pub open spec fn fluid_choice(
    cells: Seq<Particle>,
    width: int,
    height: int,
    phase: u8,
    x: int,
    y: int,
    mirror: bool,
) -> Option<int> {
    if candidate_yields(cells, width, height, phase, x, y, mirror, 0) {
        Some(0)
    } else {
        let first = denser_side(cells, width, height, phase, x, y, mirror, None, 1);
        let second = denser_side(cells, width, height, phase, x, y, mirror, first, 2);
        let third = denser_side(cells, width, height, phase, x, y, mirror, second, 3);
        denser_side(cells, width, height, phase, x, y, mirror, third, 4)
    }
}

/// The candidate that a mover of the given phase at `(x, y)` moves to, if any.
pub open spec fn choice(
    cells: Seq<Particle>,
    width: int,
    height: int,
    phase: u8,
    x: int,
    y: int,
    mirror: bool,
) -> Option<int> {
    if phase == POWDER {
        powder_choice(cells, width, height, x, y, mirror)
    } else {
        fluid_choice(cells, width, height, phase, x, y, mirror)
    }
}

/// Whether the cell at `(x, y)` is a mover of this sweep: in bounds, of the
/// pass's phase, and not yet moved. A phase that is none of powder, liquid and
/// gas has no movers.
pub open spec fn is_mover(s: Sweep, width: int, height: int, phase: u8, x: int, y: int) -> bool {
    &&& is_mobile(phase)
    &&& in_bounds(width, height, x, y)
    &&& s.cells[cell_index(width, x, y)].state() == phase
    &&& !s.moved[cell_index(width, x, y)]
}

/// One step of a sweep: what visiting `(x, y)` does. A mover with a choice
/// exchanges contents with the chosen cell; its marker is set and travels
/// with it, and the displaced cell keeps its own. Anything else is left alone.
pub open spec fn step(
    s: Sweep,
    width: int,
    height: int,
    phase: u8,
    x: int,
    y: int,
    mirror: bool,
) -> Sweep {
    if is_mover(s, width, height, phase, x, y) {
        match choice(s.cells, width, height, phase, x, y, mirror) {
            Some(i) => {
                let from = cell_index(width, x, y);
                let to = cell_index(
                    width,
                    x + candidate_dx(i, mirror),
                    y + candidate_dy(phase, i),
                );
                Sweep {
                    cells: swapped(s.cells, from, to),
                    moved: s.moved.update(from, s.moved[to]).update(to, true),
                }
            },
            None => s,
        }
    } else {
        s
    }
}

/// What the liquid and gas rule picks. Straight ahead wins whenever that
/// cell yields. Failing that, the pick is an open side candidate that no open
/// side candidate exceeds in density and that no earlier one equals; and
/// nothing is picked only if no side candidate is open.
pub proof fn fluid_choice_is_densest(
    cells: Seq<Particle>,
    width: int,
    height: int,
    phase: u8,
    x: int,
    y: int,
    mirror: bool,
)
    ensures
        candidate_yields(cells, width, height, phase, x, y, mirror, 0) <==> fluid_choice(
            cells,
            width,
            height,
            phase,
            x,
            y,
            mirror,
        ) == Some(0int),
        fluid_choice(cells, width, height, phase, x, y, mirror) matches Some(c) ==> c == 0 || {
            &&& 1 <= c < 5
            &&& side_open(cells, width, height, phase, x, y, mirror, c)
            &&& forall|i: int|
                1 <= i < 5 && #[trigger] side_open(cells, width, height, phase, x, y, mirror, i)
                    ==> candidate_density(cells, width, phase, x, y, mirror, i)
                    <= candidate_density(cells, width, phase, x, y, mirror, c)
            &&& forall|i: int|
                1 <= i < c && #[trigger] side_open(cells, width, height, phase, x, y, mirror, i)
                    ==> candidate_density(cells, width, phase, x, y, mirror, i)
                    < candidate_density(cells, width, phase, x, y, mirror, c)
        },
        fluid_choice(cells, width, height, phase, x, y, mirror) is None ==> forall|i: int|
            1 <= i < 5 ==> !#[trigger] side_open(cells, width, height, phase, x, y, mirror, i),
{
}

/// A powder mover drops straight down whenever the cell below it yields,
/// whatever the tie-break; the two cells change places and the mover is
/// marked where it lands.
pub proof fn powder_falls_through_lighter_fluid(
    s: Sweep,
    width: int,
    height: int,
    x: int,
    y: int,
    mirror: bool,
)
    requires
        is_mover(s, width, height, POWDER, x, y),
        yields(s.cells, width, height, x, y, x, y + 1),
        s.cells.len() == width * height,
        s.moved.len() == s.cells.len(),
    ensures
        step(s, width, height, POWDER, x, y, mirror).cells == swapped(
            s.cells,
            cell_index(width, x, y),
            cell_index(width, x, y + 1),
        ),
        step(s, width, height, POWDER, x, y, mirror).cells[cell_index(width, x, y + 1)]
            == s.cells[cell_index(width, x, y)],
        step(s, width, height, POWDER, x, y, mirror).cells[cell_index(width, x, y)]
            == s.cells[cell_index(width, x, y + 1)],
        step(s, width, height, POWDER, x, y, mirror).moved[cell_index(width, x, y + 1)],
{
    cell_index_in_range(width, height, x, y);
    cell_index_in_range(width, height, x, y + 1);
}

/// A powder cell above a cell that is neither liquid nor gas stays where it
/// is: it does not swap with the cell below, and it does not slide past it.
pub proof fn powder_rests_on_what_is_not_fluid(
    s: Sweep,
    width: int,
    height: int,
    x: int,
    y: int,
    mirror: bool,
)
    requires
        s.cells[cell_index(width, x, y + 1)].state() < LIQUID,
    ensures
        step(s, width, height, POWDER, x, y, mirror) == s,
{
}

/// No rule ever exchanges a mover with a cell that is not liquid or gas, or
/// that is not less dense than the mover: a step either changes nothing or
/// exchanges the mover with one of its candidates, which yields, and marks
/// the mover where it lands.
pub proof fn step_is_at_most_one_swap(
    s: Sweep,
    width: int,
    height: int,
    phase: u8,
    x: int,
    y: int,
    mirror: bool,
)
    requires
        s.cells.len() == width * height,
        s.moved.len() == s.cells.len(),
    ensures
        step(s, width, height, phase, x, y, mirror) == s || exists|i: int|
            {
                &&& 0 <= i < 5
                &&& is_mover(s, width, height, phase, x, y)
                &&& #[trigger] candidate_yields(s.cells, width, height, phase, x, y, mirror, i)
                &&& step(s, width, height, phase, x, y, mirror).cells == swapped(
                    s.cells,
                    cell_index(width, x, y),
                    cell_index(width, x + candidate_dx(i, mirror), y + candidate_dy(phase, i)),
                )
                &&& step(s, width, height, phase, x, y, mirror).moved[cell_index(
                    width,
                    x + candidate_dx(i, mirror),
                    y + candidate_dy(phase, i),
                )]
            },
{
    let picked = choice(s.cells, width, height, phase, x, y, mirror);
    if is_mover(s, width, height, phase, x, y) && picked is Some {
        let i = picked->0;
        choice_yields(s.cells, width, height, phase, x, y, mirror);
        cell_index_in_range(width, height, x, y);
        cell_index_in_range(
            width,
            height,
            x + candidate_dx(i, mirror),
            y + candidate_dy(phase, i),
        );
        assert(candidate_yields(s.cells, width, height, phase, x, y, mirror, i));
    }
}

/// Column visited at step `k` of a sweep: on even ticks the columns of a row
/// are visited from the last to the first, on odd ticks from the first to the
/// last.
pub open spec fn scan_x(t: u64, width: int, k: int) -> int {
    if t % 2 == 0 {
        width - 1 - k % width
    } else {
        k % width
    }
}

/// Row visited at step `k` of a sweep. Rows are visited one after the other,
/// from the last to the first; only the gas pass on odd ticks goes from the
/// first to the last.
pub open spec fn scan_y(phase: u8, t: u64, width: int, height: int, k: int) -> int {
    if phase == GAS && t % 2 == 1 {
        k / width
    } else {
        height - 1 - k / width
    }
}

/// The state after the first `k` steps of a sweep that starts from `start`.
/// Step `j` visits the `j`-th position of the scan order with `flips[j]` as
/// its tie-break.
pub open spec fn sweep(
    start: Sweep,
    width: int,
    height: int,
    phase: u8,
    t: u64,
    flips: Seq<bool>,
    k: nat,
) -> Sweep
    decreases k,
{
    if k == 0 {
        start
    } else {
        step(
            sweep(start, width, height, phase, t, flips, (k - 1) as nat),
            width,
            height,
            phase,
            scan_x(t, width, k - 1),
            scan_y(phase, t, width, height, k - 1),
            flips[k - 1],
        )
    }
}

/// The cells after one whole displacement pass of the given phase at tick `t`
/// over `cells`, with `flips` as the tie-breaks, one per visited position.
pub open spec fn displaced(
    cells: Seq<Particle>,
    width: int,
    height: int,
    phase: u8,
    t: u64,
    flips: Seq<bool>,
) -> Seq<Particle> {
    sweep(
        Sweep { cells, moved: Seq::new(cells.len(), |i: int| false) },
        width,
        height,
        phase,
        t,
        flips,
        cells.len(),
    ).cells
}

/// The first `k` steps of a sweep read only the first `k` tie-breaks.
pub proof fn sweep_reads_prefix(
    start: Sweep,
    width: int,
    height: int,
    phase: u8,
    t: u64,
    a: Seq<bool>,
    b: Seq<bool>,
    k: nat,
)
    requires
        k <= a.len(),
        k <= b.len(),
        forall|j: int| 0 <= j < k ==> a[j] == b[j],
    ensures
        sweep(start, width, height, phase, t, a, k) == sweep(start, width, height, phase, t, b, k),
    decreases k,
{
    if k > 0 {
        sweep_reads_prefix(start, width, height, phase, t, a, b, (k - 1) as nat);
    }
}

/// Whatever a rule chooses is one of its candidates, and that candidate
/// yields; in particular it is in bounds.
pub proof fn choice_yields(
    cells: Seq<Particle>,
    width: int,
    height: int,
    phase: u8,
    x: int,
    y: int,
    mirror: bool,
)
    ensures
        choice(cells, width, height, phase, x, y, mirror) matches Some(i) ==> 0 <= i < 5
            && candidate_yields(cells, width, height, phase, x, y, mirror, i),
        phase == POWDER ==> (choice(cells, width, height, phase, x, y, mirror) matches Some(i)
            ==> i < 3),
{
}

/// Exchanging two cells that are in bounds leaves the last column and the
/// last row as they were.
pub proof fn swap_keeps_edges(
    cells: Seq<Particle>,
    width: int,
    height: int,
    x: int,
    y: int,
    tx: int,
    ty: int,
)
    requires
        cells.len() == width * height,
        in_bounds(width, height, x, y),
        in_bounds(width, height, tx, ty),
    ensures
        forall|ex: int, ey: int|
            0 <= ex < width && 0 <= ey < height && !in_bounds(width, height, ex, ey) ==> swapped(
                cells,
                cell_index(width, x, y),
                cell_index(width, tx, ty),
            )[#[trigger] cell_index(width, ex, ey)] == cells[cell_index(width, ex, ey)],
{
    let from = cell_index(width, x, y);
    let to = cell_index(width, tx, ty);
    cell_index_in_range(width, height, x, y);
    cell_index_in_range(width, height, tx, ty);
    assert forall|ex: int, ey: int|
        0 <= ex < width && 0 <= ey < height && !in_bounds(width, height, ex, ey) implies swapped(
        cells,
        from,
        to,
    )[#[trigger] cell_index(width, ex, ey)] == cells[cell_index(width, ex, ey)] by {
        cell_index_in_range(width, height, ex, ey);
        let e = cell_index(width, ex, ey);
        assert(e != from);
        assert(e != to);
    }
}

/// A step keeps the number of cells and of markers, the cells as a multiset,
/// their total energy, and every cell of the last column and the last row.
pub proof fn step_conserves(
    s: Sweep,
    width: int,
    height: int,
    phase: u8,
    x: int,
    y: int,
    mirror: bool,
)
    requires
        0 <= width,
        0 <= height,
        s.cells.len() == width * height,
        s.moved.len() == s.cells.len(),
    ensures
        step(s, width, height, phase, x, y, mirror).cells.len() == s.cells.len(),
        step(s, width, height, phase, x, y, mirror).moved.len() == s.moved.len(),
        step(s, width, height, phase, x, y, mirror).cells.to_multiset() == s.cells.to_multiset(),
        total_energy(step(s, width, height, phase, x, y, mirror).cells) == total_energy(s.cells),
        forall|ex: int, ey: int|
            0 <= ex < width && 0 <= ey < height && !in_bounds(width, height, ex, ey) ==> step(
                s,
                width,
                height,
                phase,
                x,
                y,
                mirror,
            ).cells[#[trigger] cell_index(width, ex, ey)] == s.cells[cell_index(width, ex, ey)],
{
    let picked = choice(s.cells, width, height, phase, x, y, mirror);
    if is_mover(s, width, height, phase, x, y) && picked is Some {
        let i = picked->0;
        let tx = x + candidate_dx(i, mirror);
        let ty = y + candidate_dy(phase, i);
        choice_yields(s.cells, width, height, phase, x, y, mirror);
        cell_index_in_range(width, height, x, y);
        cell_index_in_range(width, height, tx, ty);
        swap_conserves(s.cells, cell_index(width, x, y), cell_index(width, tx, ty));
        swap_keeps_edges(s.cells, width, height, x, y, tx, ty);
    }
}

/// Every prefix of a sweep conserves what a single step conserves.
pub proof fn sweep_conserves(
    start: Sweep,
    width: int,
    height: int,
    phase: u8,
    t: u64,
    flips: Seq<bool>,
    k: nat,
)
    requires
        0 <= width,
        0 <= height,
        start.cells.len() == width * height,
        start.moved.len() == start.cells.len(),
    ensures
        sweep(start, width, height, phase, t, flips, k).cells.len() == start.cells.len(),
        sweep(start, width, height, phase, t, flips, k).moved.len() == start.moved.len(),
        sweep(start, width, height, phase, t, flips, k).cells.to_multiset()
            == start.cells.to_multiset(),
        total_energy(sweep(start, width, height, phase, t, flips, k).cells) == total_energy(
            start.cells,
        ),
        forall|ex: int, ey: int|
            0 <= ex < width && 0 <= ey < height && !in_bounds(width, height, ex, ey) ==> sweep(
                start,
                width,
                height,
                phase,
                t,
                flips,
                k,
            ).cells[#[trigger] cell_index(width, ex, ey)] == start.cells[cell_index(
                width,
                ex,
                ey,
            )],
    decreases k,
{
    if k > 0 {
        let before = sweep(start, width, height, phase, t, flips, (k - 1) as nat);
        sweep_conserves(start, width, height, phase, t, flips, (k - 1) as nat);
        step_conserves(
            before,
            width,
            height,
            phase,
            scan_x(t, width, k - 1),
            scan_y(phase, t, width, height, k - 1),
            flips[k - 1],
        );
    }
}

/// Displacement moves cells and never makes or destroys one: whatever the
/// phase, the tick and the tie-breaks, a pass keeps the number of cells, the
/// cells as a multiset and the total energy of the grid, and it leaves the
/// last column and the last row as they were.
pub proof fn displacement_conserves(
    cells: Seq<Particle>,
    width: int,
    height: int,
    phase: u8,
    t: u64,
    flips: Seq<bool>,
)
    requires
        0 <= width,
        0 <= height,
        cells.len() == width * height,
    ensures
        displaced(cells, width, height, phase, t, flips).len() == cells.len(),
        displaced(cells, width, height, phase, t, flips).to_multiset() == cells.to_multiset(),
        total_energy(displaced(cells, width, height, phase, t, flips)) == total_energy(cells),
        forall|ex: int, ey: int|
            0 <= ex < width && 0 <= ey < height && !in_bounds(width, height, ex, ey) ==> displaced(
                cells,
                width,
                height,
                phase,
                t,
                flips,
            )[#[trigger] cell_index(width, ex, ey)] == cells[cell_index(width, ex, ey)],
{
    sweep_conserves(
        Sweep { cells, moved: Seq::new(cells.len(), |i: int| false) },
        width,
        height,
        phase,
        t,
        flips,
        cells.len(),
    );
}

impl ParticleSim {
    /// The sweep state made of the grid's cells and the given markers.
    pub open spec fn sweep_state(&self, moved: Seq<bool>) -> Sweep {
        Sweep { cells: self.particles@, moved }
    }

    /// Position of candidate `i` of the mover at `(x, y)`, if it is in bounds.
    fn candidate_at(&self, phase: u8, x: usize, y: usize, mirror: bool, i: u8) -> (r: Option<
        (usize, usize),
    >)
        ensures
            match r {
                Some((tx, ty)) => tx == x + candidate_dx(i as int, mirror) && ty == y
                    + candidate_dy(phase, i as int) && self.exists_at(tx as int, ty as int),
                None => !self.exists_at(
                    x + candidate_dx(i as int, mirror),
                    y + candidate_dy(phase, i as int),
                ),
            },
    {
        let dx: i8 = if i == 0 {
            0
        } else if (i % 2 == 1) != mirror {
            1
        } else {
            -1
        };
        let dy: i8 = if i >= 3 {
            0
        } else if phase == GAS {
            -1
        } else {
            1
        };
        match (shifted(x, dx), shifted(y, dy)) {
            (Some(tx), Some(ty)) => {
                if self.particle_exists(tx, ty) {
                    Some((tx, ty))
                } else {
                    None
                }
            },
            _ => None,
        }
    }

    /// Whether the cell at `(tx, ty)` gives way to the mover at `(x, y)`.
    fn gives_way(&self, x: usize, y: usize, tx: usize, ty: usize) -> (r: bool)
        requires
            self.wf(),
            self.exists_at(x as int, y as int),
            self.exists_at(tx as int, ty as int),
        ensures
            r == yields(
                self.particles@,
                self.width as int,
                self.height as int,
                x as int,
                y as int,
                tx as int,
                ty as int,
            ),
    {
        let mover = &self.particles[self.slot(x, y)];
        let target = &self.particles[self.slot(tx, ty)];
        mover.get_density() > target.get_density() && target.get_state() >= LIQUID
    }

    /// Whether candidate `i` of the mover at `(x, y)` yields, and where it is.
    fn yielding_candidate(&self, phase: u8, x: usize, y: usize, mirror: bool, i: u8) -> (r: Option<
        (usize, usize),
    >)
        requires
            self.wf(),
            self.exists_at(x as int, y as int),
        ensures
            r is Some <==> candidate_yields(
                self.particles@,
                self.width as int,
                self.height as int,
                phase,
                x as int,
                y as int,
                mirror,
                i as int,
            ),
            r matches Some((tx, ty)) ==> tx == x + candidate_dx(i as int, mirror) && ty == y
                + candidate_dy(phase, i as int) && self.exists_at(tx as int, ty as int),
    {
        match self.candidate_at(phase, x, y, mirror, i) {
            Some((tx, ty)) => {
                if self.gives_way(x, y, tx, ty) {
                    Some((tx, ty))
                } else {
                    None
                }
            },
            None => None,
        }
    }

    /// The powder rule for the mover at `(x, y)`: the cell it moves to.
    fn powder_target(&self, x: usize, y: usize, mirror: bool) -> (r: Option<(usize, usize)>)
        requires
            self.wf(),
            self.exists_at(x as int, y as int),
        ensures
            r is Some <==> powder_choice(
                self.particles@,
                self.width as int,
                self.height as int,
                x as int,
                y as int,
                mirror,
            ) is Some,
            r matches Some((tx, ty)) ==> {
                let i = powder_choice(
                    self.particles@,
                    self.width as int,
                    self.height as int,
                    x as int,
                    y as int,
                    mirror,
                )->0;
                tx == x + candidate_dx(i, mirror) && ty == y + candidate_dy(POWDER, i)
                    && self.exists_at(tx as int, ty as int)
            },
    {
        let below = self.candidate_at(POWDER, x, y, mirror, 0);
        match below {
            None => None,
            Some((bx, by)) => {
                if self.gives_way(x, y, bx, by) {
                    return Some((bx, by));
                }
                if self.particles[self.slot(bx, by)].get_state() < LIQUID {
                    return None;
                }
                let first = self.yielding_candidate(POWDER, x, y, mirror, 1);
                if first.is_some() {
                    return first;
                }
                self.yielding_candidate(POWDER, x, y, mirror, 2)
            },
        }
    }

    /// Side candidate `i` against the best found so far: the denser open one,
    /// with its position and density.
    fn denser_side_target(
        &self,
        phase: u8,
        x: usize,
        y: usize,
        mirror: bool,
        best: Option<(u8, usize, usize, u128)>,
        i: u8,
    ) -> (r: Option<(u8, usize, usize, u128)>)
        requires
            self.wf(),
            self.exists_at(x as int, y as int),
            1 <= i < 5,
            best matches Some((b, bx, by, bd)) ==> bd == candidate_density(
                self.particles@,
                self.width as int,
                phase,
                x as int,
                y as int,
                mirror,
                b as int,
            ) && bx == x + candidate_dx(b as int, mirror) && by == y + candidate_dy(
                phase,
                b as int,
            ) && self.exists_at(bx as int, by as int),
        ensures
            (match r {
                Some((c, _, _, _)) => Some(c as int),
                None => None,
            }) == denser_side(
                self.particles@,
                self.width as int,
                self.height as int,
                phase,
                x as int,
                y as int,
                mirror,
                match best {
                    Some((b, _, _, _)) => Some(b as int),
                    None => None,
                },
                i as int,
            ),
            r matches Some((c, cx, cy, cd)) ==> cd == candidate_density(
                self.particles@,
                self.width as int,
                phase,
                x as int,
                y as int,
                mirror,
                c as int,
            ) && cx == x + candidate_dx(c as int, mirror) && cy == y + candidate_dy(
                phase,
                c as int,
            ) && self.exists_at(cx as int, cy as int),
    {
        match self.yielding_candidate(phase, x, y, mirror, i) {
            None => best,
            Some((tx, ty)) => {
                if self.particles[self.slot(tx, y)].get_state() < LIQUID {
                    return best;
                }
                let density = self.particles[self.slot(tx, ty)].get_density();
                match best {
                    Some((_, _, _, held)) => {
                        if held < density {
                            Some((i, tx, ty, density))
                        } else {
                            best
                        }
                    },
                    None => Some((i, tx, ty, density)),
                }
            },
        }
    }

    /// The liquid and gas rule for the mover at `(x, y)`: the cell it moves to.
    fn fluid_target(&self, phase: u8, x: usize, y: usize, mirror: bool) -> (r: Option<
        (usize, usize),
    >)
        requires
            self.wf(),
            self.exists_at(x as int, y as int),
        ensures
            r is Some <==> fluid_choice(
                self.particles@,
                self.width as int,
                self.height as int,
                phase,
                x as int,
                y as int,
                mirror,
            ) is Some,
            r matches Some((tx, ty)) ==> {
                let i = fluid_choice(
                    self.particles@,
                    self.width as int,
                    self.height as int,
                    phase,
                    x as int,
                    y as int,
                    mirror,
                )->0;
                tx == x + candidate_dx(i, mirror) && ty == y + candidate_dy(phase, i)
                    && self.exists_at(tx as int, ty as int)
            },
    {
        let ahead = self.yielding_candidate(phase, x, y, mirror, 0);
        if ahead.is_some() {
            return ahead;
        }
        let first = self.denser_side_target(phase, x, y, mirror, None, 1);
        let second = self.denser_side_target(phase, x, y, mirror, first, 2);
        let third = self.denser_side_target(phase, x, y, mirror, second, 3);
        match self.denser_side_target(phase, x, y, mirror, third, 4) {
            Some((_, tx, ty, _)) => Some((tx, ty)),
            None => None,
        }
    }

    /// Visits `(x, y)` in a sweep of the given phase: if the cell there is a
    /// mover and the rule of its phase finds it a place, the two cells change
    /// places. `mirror` is the tie-break between left and right; `moved`
    /// holds the sweep's markers and is updated along.
    pub fn displace_at(
        &mut self,
        moved: &mut Vec<bool>,
        phase: u8,
        x: usize,
        y: usize,
        mirror: bool,
    )
        requires
            old(self).wf(),
            old(moved)@.len() == old(self).particles@.len(),
        ensures
            final(self).wf(),
            final(self).width == old(self).width,
            final(self).height == old(self).height,
            final(moved)@.len() == old(moved)@.len(),
            final(self).sweep_state(final(moved)@) == step(
                old(self).sweep_state(old(moved)@),
                old(self).width as int,
                old(self).height as int,
                phase,
                x as int,
                y as int,
                mirror,
            ),
            !old(self).exists_at(x as int, y as int) ==> *final(self) == *old(self)
                && *final(moved) == *old(moved),
    {
        if !(phase == POWDER || phase == LIQUID || phase == GAS) || !self.particle_exists(x, y) {
            return ;
        }
        let from = self.slot(x, y);
        if moved[from] || self.particles[from].get_state() != phase {
            return ;
        }
        let target = if phase == POWDER {
            self.powder_target(x, y, mirror)
        } else {
            self.fluid_target(phase, x, y, mirror)
        };
        match target {
            Some((tx, ty)) => {
                let to = self.slot(tx, ty);
                let mover = self.particles[from];
                let other = self.particles[to];
                self.particles[from] = other;
                self.particles[to] = mover;
                let carried = moved[to];
                moved[from] = carried;
                moved[to] = true;
            },
            None => {},
        }
    }

    /// Whether a pass of the given phase draws a tie-break at `(x, y)`: only
    /// for a cell that is in bounds and of that phase.
    fn wants_flip(&self, phase: u8, x: usize, y: usize) -> (wanted: bool)
        requires
            self.wf(),
        ensures
            wanted == (self.exists_at(x as int, y as int) && self.cell(x as int, y as int).state()
                == phase),
    {
        if self.particle_exists(x, y) {
            self.particles[self.slot(x, y)].get_state() == phase
        } else {
            false
        }
    }

    /// One whole sweep of the given phase at tick `t`. The tie-breaks are
    /// read from `flips` where it is given and drawn at random where not.
    fn run_pass(&mut self, phase: u8, t: u64, flips: Option<&Vec<bool>>)
        requires
            old(self).wf(),
            flips matches Some(given) ==> given@.len() == old(self).particles@.len(),
        ensures
            final(self).wf(),
            final(self).width == old(self).width,
            final(self).height == old(self).height,
            exists|drawn: Seq<bool>|
                {
                    &&& drawn.len() == old(self).particles@.len()
                    &&& flips matches Some(given) ==> drawn == given@
                    &&& final(self).particles@ == #[trigger] displaced(
                        old(self).particles@,
                        old(self).width as int,
                        old(self).height as int,
                        phase,
                        t,
                        drawn,
                    )
                },
    {
        let n: usize = self.particles.len();
        let mut moved: Vec<bool> = vec![false; n];
        let ghost start = self.sweep_state(Seq::new(n as nat, |i: int| false));
        let ghost mut drawn: Seq<bool> = Seq::empty();
        let mut k: usize = 0;
        assert(moved@ =~= start.moved);
        while k < n
            invariant
                self.wf(),
                start == old(self).sweep_state(Seq::new(n as nat, |i: int| false)),
                self.width == old(self).width,
                self.height == old(self).height,
                n == self.particles@.len(),
                moved@.len() == n,
                k <= n,
                drawn.len() == k,
                flips matches Some(given) ==> given@.len() == n && forall|j: int|
                    0 <= j < k ==> drawn[j] == given@[j],
                self.sweep_state(moved@) == sweep(
                    start,
                    self.width as int,
                    self.height as int,
                    phase,
                    t,
                    drawn,
                    k as nat,
                ),
            decreases n - k,
        {
            assert(self.width > 0 && k / self.width < self.height) by (nonlinear_arith)
                requires
                    k < self.width * self.height,
            ;
            let column: usize = k % self.width;
            let row: usize = k / self.width;
            let x: usize = if t % 2 == 0 {
                self.width - 1 - column
            } else {
                column
            };
            let y: usize = if phase == GAS && t % 2 == 1 {
                row
            } else {
                self.height - 1 - row
            };
            let mirror: bool = match flips {
                Some(given) => given[k],
                None => self.wants_flip(phase, x, y) && coin_flip(),
            };
            proof {
                sweep_reads_prefix(
                    start,
                    self.width as int,
                    self.height as int,
                    phase,
                    t,
                    drawn,
                    drawn.push(mirror),
                    k as nat,
                );
                drawn = drawn.push(mirror);
            }
            self.displace_at(&mut moved, phase, x, y, mirror);
            k += 1;
        }
        proof {
            if let Some(given) = flips {
                assert(drawn =~= given@);
            }
            assert(self.particles@ == displaced(
                old(self).particles@,
                old(self).width as int,
                old(self).height as int,
                phase,
                t,
                drawn,
            ));
        }
    }

    /// One displacement pass of the given phase at tick `t` with the
    /// tie-breaks given: `flips[k]` decides between left and right for the
    /// `k`-th position of the scan order.
    pub fn displace_with(&mut self, phase: u8, t: u64, flips: &Vec<bool>)
        requires
            old(self).wf(),
            flips@.len() == old(self).particles@.len(),
        ensures
            final(self).wf(),
            final(self).width == old(self).width,
            final(self).height == old(self).height,
            final(self).particles@ == displaced(
                old(self).particles@,
                old(self).width as int,
                old(self).height as int,
                phase,
                t,
                flips@,
            ),
            moved_only(*old(self), *final(self)),
    {
        self.run_pass(phase, t, Some(flips));
        proof {
            old(self).displaced_is_moved_only(*self, phase, t);
        }
    }

    /// The powder pass of tick `t`: every powder cell falls one step if it
    /// can. Left and right are tried in an order drawn at random per mover.
    pub fn simulate_sand(&mut self, t: u64)
        requires
            old(self).wf(),
        ensures
            final(self).wf(),
            final(self).width == old(self).width,
            final(self).height == old(self).height,
            exists|flips: Seq<bool>|
                flips.len() == old(self).particles@.len() && final(self).particles@
                    == #[trigger] displaced(
                    old(self).particles@,
                    old(self).width as int,
                    old(self).height as int,
                    POWDER,
                    t,
                    flips,
                ),
            moved_only(*old(self), *final(self)),
    {
        self.run_pass(POWDER, t, None);
        proof {
            old(self).displaced_is_moved_only(*self, POWDER, t);
        }
    }

    /// The liquid pass of tick `t`: every liquid cell sinks or spreads one
    /// step if it can. Left and right are tried in an order drawn at random
    /// per mover.
    pub fn simulate_liquids(&mut self, t: u64)
        requires
            old(self).wf(),
        ensures
            final(self).wf(),
            final(self).width == old(self).width,
            final(self).height == old(self).height,
            exists|flips: Seq<bool>|
                flips.len() == old(self).particles@.len() && final(self).particles@
                    == #[trigger] displaced(
                    old(self).particles@,
                    old(self).width as int,
                    old(self).height as int,
                    LIQUID,
                    t,
                    flips,
                ),
            moved_only(*old(self), *final(self)),
    {
        self.run_pass(LIQUID, t, None);
        proof {
            old(self).displaced_is_moved_only(*self, LIQUID, t);
        }
    }

    /// The gas pass of tick `t`: every gas cell rises or spreads one step if
    /// it can. Left and right are tried in an order drawn at random per mover.
    pub fn simulate_gasses(&mut self, t: u64)
        requires
            old(self).wf(),
        ensures
            final(self).wf(),
            final(self).width == old(self).width,
            final(self).height == old(self).height,
            exists|flips: Seq<bool>|
                flips.len() == old(self).particles@.len() && final(self).particles@
                    == #[trigger] displaced(
                    old(self).particles@,
                    old(self).width as int,
                    old(self).height as int,
                    GAS,
                    t,
                    flips,
                ),
            moved_only(*old(self), *final(self)),
    {
        self.run_pass(GAS, t, None);
        proof {
            old(self).displaced_is_moved_only(*self, GAS, t);
        }
    }

    /// What a pass made of `self`, if `after` is the outcome of one for some
    /// tie-breaks, is a rearrangement.
    proof fn displaced_is_moved_only(self, after: ParticleSim, phase: u8, t: u64)
        requires
            self.wf(),
            after.width == self.width,
            after.height == self.height,
            exists|flips: Seq<bool>|
                flips.len() == self.particles@.len() && after.particles@ == #[trigger] displaced(
                    self.particles@,
                    self.width as int,
                    self.height as int,
                    phase,
                    t,
                    flips,
                ),
        ensures
            moved_only(self, after),
    {
        let flips = choose|flips: Seq<bool>|
            flips.len() == self.particles@.len() && after.particles@ == #[trigger] displaced(
                self.particles@,
                self.width as int,
                self.height as int,
                phase,
                t,
                flips,
            );
        displacement_conserves(
            self.particles@,
            self.width as int,
            self.height as int,
            phase,
            t,
            flips,
        );
    }
}

/// Whether `after` holds the cells of `before` rearranged: the same size, the
/// same cells as a multiset, the same total energy, and the last column and
/// the last row untouched.
pub open spec fn moved_only(before: ParticleSim, after: ParticleSim) -> bool {
    &&& after.width == before.width
    &&& after.height == before.height
    &&& after.particles@.len() == before.particles@.len()
    &&& after.particles@.to_multiset() == before.particles@.to_multiset()
    &&& total_energy(after.particles@) == total_energy(before.particles@)
    &&& forall|ex: int, ey: int|
        0 <= ex < before.width && 0 <= ey < before.height && !before.exists_at(ex, ey)
            ==> after.particles@[#[trigger] cell_index(before.width as int, ex, ey)]
            == before.particles@[cell_index(before.width as int, ex, ey)]
}

} // verus!
