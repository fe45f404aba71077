//! The heat diffusion pass.
//!
//! Every in-bounds cell in turn hands heat to, or takes heat from, each of
//! its in-bounds neighbours. The pass works in place: a cell visited later
//! sees the energies that earlier visits left behind.

use vstd::prelude::*;
use super::grid::{cell_index, cell_index_in_range, in_bounds, position_of_index, shifted,
    ParticleSim};
use super::material::GAS;
use super::particle::Particle;

verus! {

/// `a / b` rounded toward zero, for a positive `b`.
pub open spec fn toward_zero(a: int, b: int) -> int {
    if a >= 0 {
        a / b
    } else {
        -((-a) / b)
    }
}

/// The energy closest to `e` that a cell can hold: nothing below zero,
/// nothing above `u32::MAX`.
pub open spec fn clamp_energy(e: int) -> u32 {
    if e < 0 {
        0
    } else if e > u32::MAX {
        u32::MAX
    } else {
        e as u32
    }
}

/// Energy that `mover` hands to `neighbor`; negative when heat flows the
/// other way. It is the temperature difference times the mover's heat
/// capacity, over eight times the sum of both heat resistances plus one,
/// rounded toward zero.
pub open spec fn transfer(mover: Particle, neighbor: Particle) -> int {
    toward_zero(
        (mover.temperature() - neighbor.temperature()) * mover.particle_type.heat_capacity as int,
        8 * (mover.particle_type.heat_resistance as int
            + neighbor.particle_type.heat_resistance as int + 1),
    )
}

/// Horizontal offset of the `i`-th of the eight neighbours.
pub open spec fn neighbor_dx(i: int) -> int {
    if i < 3 {
        -1
    } else if i < 5 {
        0
    } else {
        1
    }
}

/// Vertical offset of the `i`-th of the eight neighbours.
pub open spec fn neighbor_dy(i: int) -> int {
    if i == 0 || i == 3 || i == 5 {
        -1
    } else if i == 1 || i == 6 {
        0
    } else {
        1
    }
}

/// Whether `(nx, ny)` is one of the eight positions around `(x, y)`.
pub open spec fn adjacent(x: int, y: int, nx: int, ny: int) -> bool {
    -1 <= nx - x <= 1 && -1 <= ny - y <= 1 && !(nx == x && ny == y)
}

/// Place of the neighbour at offset `(dx, dy)` in the order in which a
/// mover's neighbours are visited.
spec fn neighbor_rank(dx: int, dy: int) -> int {
    let place = (dx + 1) * 3 + (dy + 1);
    if place > 4 {
        place - 1
    } else {
        place
    }
}

/// Energy that the mover at `(x, y)` hands to the cell at `(nx, ny)`: the
/// transfer between the two if the cell is in bounds, nothing otherwise.
pub open spec fn flow(
    cells: Seq<Particle>,
    width: int,
    height: int,
    x: int,
    y: int,
    nx: int,
    ny: int,
) -> int {
    if in_bounds(width, height, nx, ny) {
        transfer(cells[cell_index(width, x, y)], cells[cell_index(width, nx, ny)])
    } else {
        0
    }
}

/// Energy that the mover at `(x, y)` hands to its first `n` neighbours.
pub open spec fn outflow_to(
    cells: Seq<Particle>,
    width: int,
    height: int,
    x: int,
    y: int,
    n: nat,
) -> int
    decreases n,
{
    if n == 0 {
        0
    } else {
        outflow_to(cells, width, height, x, y, (n - 1) as nat) + flow(
            cells,
            width,
            height,
            x,
            y,
            x + neighbor_dx(n - 1),
            y + neighbor_dy(n - 1),
        )
    }
}

/// Energy that the mover at `(x, y)` hands to all its neighbours together.
pub open spec fn outflow(cells: Seq<Particle>, width: int, height: int, x: int, y: int) -> int {
    outflow_to(cells, width, height, x, y, 8)
}

/// Whether the cell `c` takes what a mover hands to it. In the simplified
/// pass a gas cell is a heat sink: it takes nothing.
pub open spec fn receives(simplified: bool, c: Particle) -> bool {
    !(simplified && c.state() == GAS)
}

/// Whether the cell `c` acts as a mover. In the simplified pass a gas cell
/// does not.
pub open spec fn radiates(simplified: bool, c: Particle) -> bool {
    !(simplified && c.state() == GAS)
}

/// The cell at `(cx, cy)` after the mover at `(x, y)` has exchanged heat with
/// its neighbours. The mover loses its outflow; a neighbour that is in
/// bounds and receives gains its transfer; every other cell is as before.
/// Energies stay within `0..=u32::MAX`.
pub open spec fn heated_cell(
    cells: Seq<Particle>,
    width: int,
    height: int,
    simplified: bool,
    x: int,
    y: int,
    cx: int,
    cy: int,
) -> Particle {
    let c = cells[cell_index(width, cx, cy)];
    let mover = cells[cell_index(width, x, y)];
    if cx == x && cy == y {
        Particle { energy: clamp_energy(c.energy - outflow(cells, width, height, x, y)), ..c }
    } else if adjacent(x, y, cx, cy) && in_bounds(width, height, cx, cy) && receives(
        simplified,
        c,
    ) {
        Particle { energy: clamp_energy(c.energy + transfer(mover, c)), ..c }
    } else {
        c
    }
}

/// The cells after the visit of `(x, y)`: nothing changes unless the
/// position is in bounds and its cell radiates; then every cell is as
/// [`heated_cell`] says.
pub open spec fn heat_step(
    cells: Seq<Particle>,
    width: int,
    height: int,
    simplified: bool,
    x: int,
    y: int,
) -> Seq<Particle> {
    if in_bounds(width, height, x, y) && radiates(simplified, cells[cell_index(width, x, y)]) {
        Seq::new(
            cells.len(),
            |i: int| heated_cell(cells, width, height, simplified, x, y, i % width, i / width),
        )
    } else {
        cells
    }
}

/// The cells after the first `k` visits of a heat pass. Visits follow the
/// storage, row by row and each row from its first column on: visit `j` goes
/// to column `j % width` of row `j / width`.
pub open spec fn heat_sweep(
    cells: Seq<Particle>,
    width: int,
    height: int,
    simplified: bool,
    k: nat,
) -> Seq<Particle>
    decreases k,
{
    if k == 0 {
        cells
    } else {
        heat_step(
            heat_sweep(cells, width, height, simplified, (k - 1) as nat),
            width,
            height,
            simplified,
            (k - 1) % width,
            (k - 1) / width,
        )
    }
}

/// The cells after one whole heat pass.
pub open spec fn heated(cells: Seq<Particle>, width: int, height: int, simplified: bool) -> Seq<
    Particle,
> {
    heat_sweep(cells, width, height, simplified, cells.len())
}

/// Whether `after` holds the cells of `before` with nothing changed but
/// energies, and those only in bounds: the same size, every cell of the same
/// material and noise as before, the last column and the last row untouched.
pub open spec fn warmed_only(
    before: Seq<Particle>,
    after: Seq<Particle>,
    width: int,
    height: int,
) -> bool {
    &&& after.len() == before.len()
    &&& forall|i: int|
        0 <= i < before.len() ==> (#[trigger] after[i]).particle_type == before[i].particle_type
            && after[i].color_noise == before[i].color_noise
    &&& forall|ex: int, ey: int|
        0 <= ex < width && 0 <= ey < height && !in_bounds(width, height, ex, ey)
            ==> after[#[trigger] cell_index(width, ex, ey)] == before[cell_index(width, ex, ey)]
}

/// One visit changes nothing but energies of cells in bounds.
pub proof fn heat_step_warms_only(
    cells: Seq<Particle>,
    width: int,
    height: int,
    simplified: bool,
    x: int,
    y: int,
)
    requires
        0 <= height,
        cells.len() == width * height,
    ensures
        warmed_only(cells, heat_step(cells, width, height, simplified, x, y), width, height),
{
    let after = heat_step(cells, width, height, simplified, x, y);
    assert forall|i: int| 0 <= i < cells.len() implies (#[trigger] after[i]).particle_type
        == cells[i].particle_type && after[i].color_noise == cells[i].color_noise by {
        position_of_index(width, height, i);
    }
    assert forall|ex: int, ey: int|
        0 <= ex < width && 0 <= ey < height && !in_bounds(
            width,
            height,
            ex,
            ey,
        ) implies after[#[trigger] cell_index(width, ex, ey)] == cells[cell_index(
        width,
        ex,
        ey,
    )] by {
        cell_index_in_range(width, height, ex, ey);
    }
}

/// Every prefix of a heat pass changes nothing but energies of cells in
/// bounds.
pub proof fn heat_sweep_warms_only(
    cells: Seq<Particle>,
    width: int,
    height: int,
    simplified: bool,
    k: nat,
)
    requires
        0 <= height,
        cells.len() == width * height,
    ensures
        warmed_only(cells, heat_sweep(cells, width, height, simplified, k), width, height),
    decreases k,
{
    if k > 0 {
        let before = heat_sweep(cells, width, height, simplified, (k - 1) as nat);
        heat_sweep_warms_only(cells, width, height, simplified, (k - 1) as nat);
        heat_step_warms_only(before, width, height, simplified, (k - 1) % width, (k - 1) / width);
    }
}

/// Heat flows from the warmer cell to the colder one, and between cells of
/// equal temperature not at all.
pub proof fn heat_flows_downhill(mover: Particle, neighbor: Particle)
    requires
        mover.valid(),
    ensures
        mover.temperature() > neighbor.temperature() ==> transfer(mover, neighbor) >= 0,
        mover.temperature() < neighbor.temperature() ==> transfer(mover, neighbor) <= 0,
        mover.temperature() == neighbor.temperature() ==> transfer(mover, neighbor) == 0,
{
    let gap = mover.temperature() - neighbor.temperature();
    let capacity = mover.particle_type.heat_capacity as int;
    let divisor = 8 * (mover.particle_type.heat_resistance as int
        + neighbor.particle_type.heat_resistance as int + 1);
    assert(gap > 0 ==> gap * capacity > 0) by (nonlinear_arith)
        requires
            capacity > 0,
    ;
    assert(gap < 0 ==> gap * capacity < 0) by (nonlinear_arith)
        requires
            capacity > 0,
    ;
    assert(gap == 0 ==> gap * capacity == 0) by (nonlinear_arith);
    assert(forall|a: int| a >= 0 ==> #[trigger] (a / divisor) >= 0) by (nonlinear_arith)
        requires
            divisor > 0,
    ;
}

/// Computes [`transfer`].
fn heat_flow(mover: &Particle, neighbor: &Particle) -> (moved: i128)
    requires
        mover.valid(),
        neighbor.valid(),
    ensures
        moved == transfer(*mover, *neighbor),
        -0x2000_0000_0000_0000 < moved < 0x2000_0000_0000_0000,
{
    let from: u64 = mover.get_temperature() as u64;
    let to: u64 = neighbor.get_temperature() as u64;
    let capacity: u64 = mover.particle_type.heat_capacity as u64;
    let divisor: u64 = 8 * (mover.particle_type.heat_resistance as u64
        + neighbor.particle_type.heat_resistance as u64 + 1);
    if from >= to {
        let gap: u64 = from - to;
        assert(0 <= gap * capacity <= 0xffff_ffff * 0xffff_ffff) by (nonlinear_arith)
            requires
                0 <= gap <= 0xffff_ffff,
                0 <= capacity <= 0xffff_ffff,
        ;
        proof {
            vstd::arithmetic::div_mod::lemma_div_is_ordered_by_denominator(
                (gap * capacity) as int,
                8,
                divisor as int,
            );
        }
        ((gap * capacity) / divisor) as i128
    } else {
        let gap: u64 = to - from;
        assert(0 < gap * capacity <= 0xffff_ffff * 0xffff_ffff && (from - to) * capacity == -(gap
            * capacity)) by (nonlinear_arith)
            requires
                0 < gap <= 0xffff_ffff,
                0 < capacity <= 0xffff_ffff,
                gap == to - from,
        ;
        proof {
            vstd::arithmetic::div_mod::lemma_div_is_ordered_by_denominator(
                (gap * capacity) as int,
                8,
                divisor as int,
            );
        }
        -(((gap * capacity) / divisor) as i128)
    }
}

/// Computes [`clamp_energy`].
fn clamped(e: i128) -> (energy: u32)
    ensures
        energy == clamp_energy(e as int),
{
    if e < 0 {
        0
    } else if e > u32::MAX as i128 {
        u32::MAX
    } else {
        e as u32
    }
}

impl ParticleSim {
    /// What holds of the grid while the mover at `(x, y)` is at work and has
    /// dealt with its first `done` neighbours: those of them that are in
    /// bounds and receive have their new energy, every other cell is as it
    /// was.
    spec fn exchanging(
        self,
        before: Seq<Particle>,
        simplified: bool,
        x: int,
        y: int,
        done: int,
    ) -> bool {
        &&& self.particles@.len() == before.len()
        &&& forall|cx: int, cy: int|
            0 <= cx < self.width && 0 <= cy < self.height ==> self.particles@[#[trigger] cell_index(
                self.width as int,
                cx,
                cy,
            )] == (if adjacent(x, y, cx, cy) && neighbor_rank(cx - x, cy - y) < done {
                heated_cell(before, self.width as int, self.height as int, simplified, x, y, cx, cy)
            } else {
                before[cell_index(self.width as int, cx, cy)]
            })
    }

    /// Hands to the `i`-th neighbour of the mover at `(x, y)` what is due to
    /// it, and returns the energy that leaves the mover on this account.
    fn warm_neighbor(
        &mut self,
        Ghost(before): Ghost<Seq<Particle>>,
        simplified: bool,
        x: usize,
        y: usize,
        i: u8,
    ) -> (moved: i128)
        requires
            old(self).wf(),
            old(self).exists_at(x as int, y as int),
            i < 8,
            old(self).exchanging(before, simplified, x as int, y as int, i as int),
        ensures
            final(self).wf(),
            final(self).width == old(self).width,
            final(self).height == old(self).height,
            final(self).exchanging(before, simplified, x as int, y as int, i + 1),
            moved == flow(
                before,
                old(self).width as int,
                old(self).height as int,
                x as int,
                y as int,
                x + neighbor_dx(i as int),
                y + neighbor_dy(i as int),
            ),
            -0x2000_0000_0000_0000 < moved < 0x2000_0000_0000_0000,
    {
        let dx: i8 = if i < 3 {
            -1
        } else if i < 5 {
            0
        } else {
            1
        };
        let dy: i8 = if i == 0 || i == 3 || i == 5 {
            -1
        } else if i == 1 || i == 6 {
            0
        } else {
            1
        };
        let ghost width = self.width as int;
        let ghost height = self.height as int;
        proof {
            cell_index_in_range(width, height, x as int, y as int);
            assert(neighbor_rank(dx as int, dy as int) == i);
        }
        let mut moved: i128 = 0;
        match (shifted(x, dx), shifted(y, dy)) {
            (Some(nx), Some(ny)) => {
                if self.particle_exists(nx, ny) {
                    let from = self.slot(x, y);
                    let to = self.slot(nx, ny);
                    let mover = self.particles[from];
                    let mut neighbor = self.particles[to];
                    proof {
                        cell_index_in_range(width, height, nx as int, ny as int);
                        assert(mover == before[cell_index(width, x as int, y as int)]);
                        assert(neighbor == before[cell_index(width, nx as int, ny as int)]);
                    }
                    moved = heat_flow(&mover, &neighbor);
                    if !(simplified && neighbor.get_state() == GAS) {
                        neighbor.energy = clamped(neighbor.energy as i128 + moved);
                        self.particles[to] = neighbor;
                    }
                    proof {
                        let mover_x = x as int;
                        let mover_y = y as int;
                        assert forall|cx: int, cy: int|
                            0 <= cx < self.width && 0 <= cy
                                < self.height implies self.particles@[#[trigger] cell_index(
                            width,
                            cx,
                            cy,
                        )] == (if adjacent(mover_x, mover_y, cx, cy) && neighbor_rank(
                            cx - x,
                            cy - y,
                        ) < i + 1 {
                            heated_cell(
                                before,
                                width,
                                height,
                                simplified,
                                mover_x,
                                mover_y,
                                cx,
                                cy,
                            )
                        } else {
                            before[cell_index(width, cx, cy)]
                        }) by {
                            cell_index_in_range(width, height, cx, cy);
                        }
                    }
                }
            },
            _ => {},
        }
        moved
    }

    /// Visits `(x, y)` in a heat pass: the cell there, if it is in bounds and
    /// radiates, exchanges heat with each of its eight neighbours in turn and
    /// then gives up what it handed out in total.
    pub fn heat_at(&mut self, simplified: bool, x: usize, y: usize)
        requires
            old(self).wf(),
        ensures
            final(self).wf(),
            final(self).width == old(self).width,
            final(self).height == old(self).height,
            final(self).particles@ == heat_step(
                old(self).particles@,
                old(self).width as int,
                old(self).height as int,
                simplified,
                x as int,
                y as int,
            ),
            !old(self).exists_at(x as int, y as int) ==> *final(self) == *old(self),
    {
        if !self.particle_exists(x, y) {
            return ;
        }
        let from = self.slot(x, y);
        if simplified && self.particles[from].get_state() == GAS {
            return ;
        }
        let ghost before = self.particles@;
        let ghost width = self.width as int;
        let ghost height = self.height as int;
        let mut total: i128 = 0;
        let mut i: u8 = 0;
        proof {
            assert(self.exchanging(before, simplified, x as int, y as int, 0));
        }
        while i < 8
            invariant
                self.wf(),
                self.width == width,
                self.height == height,
                self.exists_at(x as int, y as int),
                i <= 8,
                self.exchanging(before, simplified, x as int, y as int, i as int),
                total == outflow_to(before, width, height, x as int, y as int, i as nat),
                -0x2000_0000_0000_0000 * i <= total <= 0x2000_0000_0000_0000 * i,
            decreases 8 - i,
        {
            let moved = self.warm_neighbor(Ghost(before), simplified, x, y, i);
            total = total + moved;
            i += 1;
        }
        let mut cell = self.particles[from];
        proof {
            cell_index_in_range(width, height, x as int, y as int);
            assert(cell == before[cell_index(width, x as int, y as int)]);
        }
        cell.energy = clamped(cell.energy as i128 - total);
        self.particles[from] = cell;
        proof {
            let after = heat_step(before, width, height, simplified, x as int, y as int);
            assert forall|j: int| 0 <= j < before.len() implies self.particles@[j] == after[j] by {
                position_of_index(width, height, j);
                let cx = j % width;
                let cy = j / width;
                assert(self.particles@[cell_index(width, cx, cy)] == heated_cell(
                    before,
                    width,
                    height,
                    simplified,
                    x as int,
                    y as int,
                    cx,
                    cy,
                ));
            }
            assert(self.particles@ =~= after);
        }
    }

    /// One whole heat pass, plain or simplified.
    fn run_heat(&mut self, simplified: bool)
        requires
            old(self).wf(),
        ensures
            final(self).wf(),
            final(self).width == old(self).width,
            final(self).height == old(self).height,
            final(self).particles@ == heated(
                old(self).particles@,
                old(self).width as int,
                old(self).height as int,
                simplified,
            ),
    {
        let n: usize = self.particles.len();
        let mut k: usize = 0;
        while k < n
            invariant
                self.wf(),
                self.width == old(self).width,
                self.height == old(self).height,
                n == self.particles@.len(),
                k <= n,
                self.particles@ == heat_sweep(
                    old(self).particles@,
                    self.width as int,
                    self.height as int,
                    simplified,
                    k as nat,
                ),
            decreases n - k,
        {
            assert(self.width > 0) by (nonlinear_arith)
                requires
                    k < self.width * self.height,
            ;
            let x: usize = k % self.width;
            let y: usize = k / self.width;
            self.heat_at(simplified, x, y);
            k += 1;
        }
    }

    /// The heat pass of a tick. Cells are visited in row-major order, row
    /// after row and each row from its first column on; every in-bounds cell
    /// exchanges heat with
    /// its in-bounds neighbours. Energies never leave `0..=u32::MAX`: what
    /// would fall below or rise above is held at the bound. The tick number
    /// plays no part.
    pub fn simulate_heat(&mut self, t: u64)
        requires
            old(self).wf(),
        ensures
            final(self).wf(),
            final(self).width == old(self).width,
            final(self).height == old(self).height,
            final(self).particles@ == heated(
                old(self).particles@,
                old(self).width as int,
                old(self).height as int,
                false,
            ),
            warmed_only(
                old(self).particles@,
                final(self).particles@,
                old(self).width as int,
                old(self).height as int,
            ),
    {
        self.run_heat(false);
        proof {
            heat_sweep_warms_only(
                old(self).particles@,
                old(self).width as int,
                old(self).height as int,
                false,
                old(self).particles@.len(),
            );
        }
    }

    /// The simplified heat pass of a tick: as [`ParticleSim::simulate_heat`],
    /// but a gas cell neither hands out heat nor takes any in, though what a
    /// mover would hand to a gas neighbour still leaves the mover.
    pub fn simulate_heat_simplified(&mut self, t: u64)
        requires
            old(self).wf(),
        ensures
            final(self).wf(),
            final(self).width == old(self).width,
            final(self).height == old(self).height,
            final(self).particles@ == heated(
                old(self).particles@,
                old(self).width as int,
                old(self).height as int,
                true,
            ),
            warmed_only(
                old(self).particles@,
                final(self).particles@,
                old(self).width as int,
                old(self).height as int,
            ),
    {
        self.run_heat(true);
        proof {
            heat_sweep_warms_only(
                old(self).particles@,
                old(self).width as int,
                old(self).height as int,
                true,
                old(self).particles@.len(),
            );
        }
    }
}

} // verus!
