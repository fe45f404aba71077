//! Grid storage and addressing.
//!
//! Cells are stored row by row; the cell at `(x, y)` has index
//! `x + y * width`. A position counts as in bounds only when
//! `x < width - 1` and `y < height - 1`: the last column and the last row are
//! stored and drawn, but no operation of the grid touches them.

use vstd::prelude::*;
use super::color::color_depends_on_temperature;
use super::particle::Particle;

verus! {

/// Whether `(x, y)` is a position that the grid operates on.
pub open spec fn in_bounds(width: int, height: int, x: int, y: int) -> bool {
    0 <= x < width - 1 && 0 <= y < height - 1
}

/// Index of the cell at `(x, y)` in row-major storage.
pub open spec fn cell_index(width: int, x: int, y: int) -> int {
    x + y * width
}

/// `cells` with the contents at indices `i` and `j` exchanged.
pub open spec fn swapped(cells: Seq<Particle>, i: int, j: int) -> Seq<Particle> {
    cells.update(i, cells[j]).update(j, cells[i])
}

/// `cells` with the energy of the cell at index `i` replaced.
pub open spec fn with_energy(cells: Seq<Particle>, i: int, energy: u32) -> Seq<Particle> {
    cells.update(i, Particle { energy, ..cells[i] })
}

/// The colours of all cells, in storage order.
pub open spec fn rendered(cells: Seq<Particle>) -> Seq<Seq<u8>> {
    Seq::new(cells.len(), |i: int| cells[i].color())
}

/// Sum of the energies of all cells.
pub open spec fn total_energy(cells: Seq<Particle>) -> int
    decreases cells.len(),
{
    if cells.len() == 0 {
        0
    } else {
        total_energy(cells.drop_last()) + cells.last().energy
    }
}

/// Every position inside a `width` by `height` rectangle has its index
/// inside the storage, and distinct positions have distinct indices.
pub proof fn cell_index_in_range(width: int, height: int, x: int, y: int)
    requires
        0 <= x < width,
        0 <= y < height,
    ensures
        0 <= y * width <= cell_index(width, x, y) < width * height,
        cell_index(width, x, y) / width == y,
        cell_index(width, x, y) % width == x,
{
    assert(0 <= y * width && x + y * width < width * height) by (nonlinear_arith)
        requires
            0 <= x < width,
            0 <= y < height,
    ;
    vstd::arithmetic::div_mod::lemma_fundamental_div_mod_converse(x + y * width, width, y, x);
}

/// Replacing one cell changes the total energy by the difference of the two
/// energies.
pub proof fn total_energy_update(cells: Seq<Particle>, i: int, p: Particle)
    requires
        0 <= i < cells.len(),
    ensures
        total_energy(cells.update(i, p)) == total_energy(cells) - cells[i].energy + p.energy,
    decreases cells.len(),
{
    let after = cells.update(i, p);
    if i == cells.len() - 1 {
        assert(after.drop_last() =~= cells.drop_last());
    } else {
        assert(after.drop_last() =~= cells.drop_last().update(i, p));
        total_energy_update(cells.drop_last(), i, p);
    }
}

/// Exchanging two cells keeps the number of cells, the cells themselves as a
/// multiset, and therefore the total energy.
pub proof fn swap_conserves(cells: Seq<Particle>, i: int, j: int)
    requires
        0 <= i < cells.len(),
        0 <= j < cells.len(),
    ensures
        swapped(cells, i, j).len() == cells.len(),
        swapped(cells, i, j).to_multiset() == cells.to_multiset(),
        total_energy(swapped(cells, i, j)) == total_energy(cells),
{
    let first = cells.update(i, cells[j]);
    total_energy_update(cells, i, cells[j]);
    total_energy_update(first, j, cells[i]);
    vstd::seq_lib::to_multiset_update(cells, i, cells[j]);
    vstd::seq_lib::to_multiset_update(first, j, cells[i]);
    if i == j {
        assert(swapped(cells, i, j) =~= cells);
    } else {
        cells.to_multiset_ensures();
        assert(cells.contains(cells[i]));
        assert(cells.contains(cells[j]));
        assert(swapped(cells, i, j).to_multiset() =~= cells.to_multiset());
    }
}

/// Every index of the storage belongs to exactly one position of the
/// rectangle: column `i % width` of row `i / width`.
pub proof fn position_of_index(width: int, height: int, i: int)
    requires
        0 <= i < width * height,
        0 <= height,
    ensures
        0 < width,
        0 <= i % width < width,
        0 <= i / width < height,
        cell_index(width, i % width, i / width) == i,
{
    assert(0 < width) by (nonlinear_arith)
        requires
            0 <= i < width * height,
            0 <= height,
    ;
    vstd::arithmetic::div_mod::lemma_fundamental_div_mod(i, width);
    assert(0 <= i / width < height && width * (i / width) == (i / width) * width)
        by (nonlinear_arith)
        requires
            0 <= i < width * height,
            0 < width,
            i == width * (i / width) + i % width,
            0 <= i % width < width,
    ;
}

/// `v` moved by `d`, unless that leaves the range of `usize`.
pub(crate) fn shifted(v: usize, d: i8) -> (r: Option<usize>)
    requires
        -1 <= d <= 1,
    ensures
        match r {
            Some(u) => u == v + d,
            None => v + d < 0 || v + d > usize::MAX,
        },
{
    if d < 0 {
        if v == 0 {
            None
        } else {
            Some(v - 1)
        }
    } else if d > 0 {
        if v == usize::MAX {
            None
        } else {
            Some(v + 1)
        }
    } else {
        Some(v)
    }
}

/// The grid: a fixed-size rectangle of cells.
#[derive(Debug, Clone)]
pub struct ParticleSim {
    /// All cells, row by row; the cell at `(x, y)` is `particles[x + y * width]`.
    pub particles: Vec<Particle>,
    pub width: usize,
    pub height: usize,
}

impl ParticleSim {
    /// The storage holds exactly `width * height` cells, each of a valid
    /// material.
    pub open spec fn wf(&self) -> bool {
        &&& self.particles@.len() == self.width * self.height
        &&& forall|i: int|
            0 <= i < self.particles@.len() ==> (#[trigger] self.particles@[i]).valid()
    }

    /// Whether the grid operates on `(x, y)`.
    pub open spec fn exists_at(&self, x: int, y: int) -> bool {
        in_bounds(self.width as int, self.height as int, x, y)
    }

    /// Storage index of `(x, y)`.
    pub open spec fn index_of(&self, x: int, y: int) -> int {
        cell_index(self.width as int, x, y)
    }

    /// The cell stored for `(x, y)`.
    pub open spec fn cell(&self, x: int, y: int) -> Particle {
        self.particles@[self.index_of(x, y)]
    }

    /// A grid with every cell, the last row and column included, set to
    /// `init_particle`.
    pub fn new(width: usize, height: usize, init_particle: Particle) -> (sim: ParticleSim)
        requires
            width * height <= usize::MAX,
            init_particle.valid(),
        ensures
            sim.wf(),
            sim.width == width,
            sim.height == height,
            forall|i: int| 0 <= i < width * height ==> sim.particles@[i] == init_particle,
    {
        ParticleSim { particles: vec![init_particle; width * height], width, height }
    }

    /// Run-time test of [`ParticleSim::wf`], for a grid whose fields were
    /// written from outside.
    pub fn is_well_formed(&self) -> (ok: bool)
        ensures
            ok == self.wf(),
    {
        let cells: usize = self.particles.len();
        match self.width.checked_mul(self.height) {
            None => false,
            Some(area) => {
                if area != cells {
                    return false;
                }
                let mut i: usize = 0;
                while i < cells
                    invariant
                        cells == self.particles@.len(),
                        i <= cells,
                        forall|k: int| 0 <= k < i ==> (#[trigger] self.particles@[k]).valid(),
                    decreases cells - i,
                {
                    if !self.particles[i].particle_type.is_valid() {
                        return false;
                    }
                    i += 1;
                }
                true
            },
        }
    }

    /// Storage index of a position inside the stored rectangle.
    pub(crate) fn slot(&self, x: usize, y: usize) -> (i: usize)
        requires
            self.particles@.len() == self.width * self.height,
            x < self.width,
            y < self.height,
        ensures
            i == self.index_of(x as int, y as int),
            i < self.particles@.len(),
    {
        proof {
            cell_index_in_range(self.width as int, self.height as int, x as int, y as int);
            assert(self.particles.len() <= usize::MAX);
        }
        x + y * self.width
    }

    /// Whether the grid operates on `(x, y)`: neither the last column nor the
    /// last row, nor anything beyond them.
    pub fn particle_exists(&self, x: usize, y: usize) -> (found: bool)
        ensures
            found == self.exists_at(x as int, y as int),
    {
        self.width > 0 && self.height > 0 && x < self.width - 1 && y < self.height - 1
    }

    /// Direct read of the cell stored for `(x, y)`. The position need not be
    /// in bounds, but its index must lie inside the storage.
    pub fn particle_at(&self, x: usize, y: usize) -> (p: &Particle)
        requires
            x + y * self.width < self.particles@.len(),
        ensures
            *p == self.cell(x as int, y as int),
    {
        assert(0 <= y * self.width) by (nonlinear_arith);
        assert(self.particles.len() <= usize::MAX);
        &self.particles[x + y * self.width]
    }

    /// Overwrites the cell at `(x, y)`; does nothing out of bounds.
    pub fn set_particle(&mut self, x: usize, y: usize, particle: Particle)
        requires
            old(self).wf(),
            particle.valid(),
        ensures
            final(self).wf(),
            final(self).width == old(self).width,
            final(self).height == old(self).height,
            old(self).exists_at(x as int, y as int) ==> final(self).particles@
                == old(self).particles@.update(old(self).index_of(x as int, y as int), particle),
            !old(self).exists_at(x as int, y as int) ==> *final(self) == *old(self),
    {
        if self.particle_exists(x, y) {
            let i: usize = self.slot(x, y);
            self.particles[i] = particle;
        }
    }

    /// Exchanges the cells at two positions; does nothing unless both are in
    /// bounds.
    pub fn swap_particles(&mut self, x1: usize, y1: usize, x2: usize, y2: usize)
        requires
            old(self).wf(),
        ensures
            final(self).wf(),
            final(self).width == old(self).width,
            final(self).height == old(self).height,
            old(self).exists_at(x1 as int, y1 as int) && old(self).exists_at(x2 as int, y2 as int)
                ==> final(self).particles@ == swapped(
                old(self).particles@,
                old(self).index_of(x1 as int, y1 as int),
                old(self).index_of(x2 as int, y2 as int),
            ),
            !(old(self).exists_at(x1 as int, y1 as int) && old(self).exists_at(
                x2 as int,
                y2 as int,
            )) ==> *final(self) == *old(self),
            final(self).particles@.len() == old(self).particles@.len(),
            final(self).particles@.to_multiset() == old(self).particles@.to_multiset(),
            total_energy(final(self).particles@) == total_energy(old(self).particles@),
    {
        if self.particle_exists(x1, y1) && self.particle_exists(x2, y2) {
            proof {
                cell_index_in_range(self.width as int, self.height as int, x1 as int, y1 as int);
                cell_index_in_range(self.width as int, self.height as int, x2 as int, y2 as int);
                swap_conserves(
                    self.particles@,
                    self.index_of(x1 as int, y1 as int),
                    self.index_of(x2 as int, y2 as int),
                );
            }
            let i: usize = self.slot(x1, y1);
            let j: usize = self.slot(x2, y2);
            let first = self.particles[i];
            let second = self.particles[j];
            self.particles[i] = second;
            self.particles[j] = first;
        }
    }

    /// The colour of the cell at `(x, y)`, or black out of bounds. The grid is
    /// not changed.
    pub fn get_particle_color(&mut self, x: usize, y: usize) -> (rgb: [u8; 3])
        requires
            old(self).wf(),
        ensures
            *final(self) == *old(self),
            old(self).exists_at(x as int, y as int) ==> rgb@ == old(self).cell(
                x as int,
                y as int,
            ).color(),
            !old(self).exists_at(x as int, y as int) ==> rgb@ == seq![0u8, 0u8, 0u8],
    {
        if self.particle_exists(x, y) {
            proof {
                cell_index_in_range(self.width as int, self.height as int, x as int, y as int);
            }
            self.particle_at(x, y).get_color()
        } else {
            [0, 0, 0]
        }
    }

    /// Sets the energy of the cell at `(x, y)`; does nothing out of bounds.
    /// The temperature read back afterwards is `energy` over the cell's heat
    /// capacity, rounded down.
    pub fn set_particle_energy(&mut self, x: usize, y: usize, energy: u32)
        requires
            old(self).wf(),
        ensures
            final(self).wf(),
            final(self).width == old(self).width,
            final(self).height == old(self).height,
            old(self).exists_at(x as int, y as int) ==> final(self).particles@ == with_energy(
                old(self).particles@,
                old(self).index_of(x as int, y as int),
                energy,
            ),
            old(self).exists_at(x as int, y as int) ==> final(self).cell(
                x as int,
                y as int,
            ).temperature() == energy as int / old(self).cell(
                x as int,
                y as int,
            ).particle_type.heat_capacity as int,
            !old(self).exists_at(x as int, y as int) ==> *final(self) == *old(self),
    {
        if self.particle_exists(x, y) {
            let i: usize = self.slot(x, y);
            let mut cell = self.particles[i];
            cell.energy = energy;
            self.particles[i] = cell;
        }
    }

    /// A fresh snapshot of the whole grid as colours, one per stored cell in
    /// row-major order, the last row and column included. The grid is not
    /// changed.
    pub fn render_pixels(&mut self) -> (pixels: Vec<[u8; 3]>)
        requires
            old(self).wf(),
        ensures
            *final(self) == *old(self),
            pixels@.len() == old(self).particles@.len(),
            forall|i: int|
                0 <= i < pixels@.len() ==> (#[trigger] pixels@[i])@ == rendered(
                    old(self).particles@,
                )[i],
    {
        let mut out: Vec<[u8; 3]> = Vec::new();
        let mut i: usize = 0;
        while i < self.particles.len()
            invariant
                *self == *old(self),
                self.wf(),
                i <= self.particles@.len(),
                out@.len() == i,
                forall|k: int| 0 <= k < i ==> (#[trigger] out@[k])@ == self.particles@[k].color(),
            decreases self.particles@.len() - i,
        {
            out.push(self.particles[i].get_color());
            i += 1;
        }
        out
    }
}

/// A grid of one material at one temperature and with one noise value is of
/// one colour: every pixel is the colour of any cell `p` of that material,
/// temperature and noise.
pub proof fn uniform_grid_renders_uniformly(cells: Seq<Particle>, p: Particle)
    requires
        forall|i: int|
            0 <= i < cells.len() ==> (#[trigger] cells[i]).particle_type == p.particle_type
                && cells[i].temperature() == p.temperature() && cells[i].color_noise
                == p.color_noise,
    ensures
        rendered(cells).len() == cells.len(),
        forall|i: int| 0 <= i < cells.len() ==> (#[trigger] rendered(cells)[i]) == p.color(),
{
    assert forall|i: int| 0 <= i < cells.len() implies (#[trigger] rendered(cells)[i])
        == p.color() by {
        color_depends_on_temperature(cells[i], p);
    }
}

/// The last column and the last row are out of bounds, so every mutating
/// operation addressed to them leaves the grid as it was.
pub proof fn edge_is_out_of_bounds(sim: ParticleSim, x: int, y: int)
    requires
        x == sim.width - 1 || y == sim.height - 1,
    ensures
        !sim.exists_at(x, y),
{
}

} // verus!
