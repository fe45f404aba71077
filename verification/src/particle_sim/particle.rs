//! One grid cell and the quantities derived from its energy.

use vstd::prelude::*;
use super::material::{ParticleType, DENSITY_SCALE, GAS, LIQUID, POWDER, SOLID};

verus! {

/// The physical state of one grid cell. Internal energy, in joules, is the
/// only thermal state; temperature, phase and density follow from it.
#[derive(Debug, Copy, Clone)]
pub struct Particle {
    pub particle_type: ParticleType,
    pub energy: u32,
    /// Offset added to the rendered colour; 128 is neutral.
    pub color_noise: u8,
}

impl Particle {
    /// A cell is valid when its material is.
    pub open spec fn valid(&self) -> bool {
        self.particle_type.valid()
    }

    /// Temperature in kelvin: energy over heat capacity, rounded down.
    pub open spec fn temperature(&self) -> int {
        self.energy as int / self.particle_type.heat_capacity as int
    }

    /// Phase code: below the melting point a material is `SOLID` or `POWDER`
    /// by its rigidity, from the melting point up to the boiling point it is
    /// `LIQUID`, from the boiling point on it is `GAS`.
    pub open spec fn state(&self) -> u8 {
        if self.temperature() < self.particle_type.melting_temperature {
            if self.particle_type.solid {
                SOLID
            } else {
                POWDER
            }
        } else if self.temperature() < self.particle_type.boiling_temperature {
            LIQUID
        } else {
            GAS
        }
    }

    /// The reference density of the current phase: the liquid density for a
    /// liquid, the gas density otherwise.
    pub open spec fn reference_density(&self) -> int {
        if self.state() == LIQUID {
            self.particle_type.liquid_density as int
        } else {
            self.particle_type.gas_density as int
        }
    }

    /// Density in units of `1 / DENSITY_SCALE` milligrams per cubic
    /// centimetre: the reference density times `DENSITY_SCALE + temperature`,
    /// which is the reference density scaled by `1 + temperature / DENSITY_SCALE`.
    pub open spec fn density(&self) -> int {
        self.reference_density() * (DENSITY_SCALE as int + self.temperature())
    }

    /// A cell of the given material without energy and with neutral colour
    /// noise. It is valid exactly when the material is.
    pub fn new(particle_type: ParticleType) -> (p: Particle)
        ensures
            p == (Particle { particle_type, energy: 0, color_noise: 128 }),
            p.valid() == particle_type.valid(),
    {
        Particle { particle_type, energy: 0, color_noise: 128 }
    }

    /// The phase code of the cell, see [`Particle::state`].
    pub fn get_state(&self) -> (s: u8)
        requires
            self.valid(),
        ensures
            s == self.state(),
    {
        let temperature = self.get_temperature();
        if temperature < self.particle_type.melting_temperature as u32 {
            if self.particle_type.solid {
                SOLID
            } else {
                POWDER
            }
        } else if temperature < self.particle_type.boiling_temperature as u32 {
            LIQUID
        } else {
            GAS
        }
    }

    /// The density of the cell, see [`Particle::density`]. Only the order of
    /// two densities matters to the simulation.
    pub fn get_density(&self) -> (d: u128)
        requires
            self.valid(),
        ensures
            d == self.density(),
    {
        let reference: u32 = if self.get_state() == LIQUID {
            self.particle_type.liquid_density
        } else {
            self.particle_type.gas_density
        };
        let temperature: u32 = self.get_temperature();
        assert(reference * (DENSITY_SCALE + temperature) <= 0xffff_ffff * 0x1_ffff_ffff)
            by (nonlinear_arith)
            requires
                reference <= 0xffff_ffff,
                DENSITY_SCALE + temperature <= 0x1_ffff_ffff,
        ;
        (reference as u128) * (DENSITY_SCALE as u128 + temperature as u128)
    }

    /// Replaces the colour noise and returns a copy of the updated cell.
    pub fn set_noise_value(&mut self, value: u8) -> (p: Particle)
        ensures
            *final(self) == (Particle { color_noise: value, ..*old(self) }),
            p == *final(self),
    {
        self.color_noise = value;
        *self
    }

    /// The temperature of the cell in kelvin, see [`Particle::temperature`].
    pub fn get_temperature(&self) -> (t: u32)
        requires
            self.valid(),
        ensures
            t == self.temperature(),
    {
        self.energy / self.particle_type.heat_capacity
    }

    /// Sets the energy to what the given temperature amounts to and returns a
    /// copy of the updated cell.
    pub fn set_temperature(&mut self, temperature: u32) -> (p: Particle)
        requires
            old(self).particle_type.heat_capacity * temperature <= u32::MAX,
        ensures
            *final(self) == (Particle {
                energy: (old(self).particle_type.heat_capacity * temperature) as u32,
                ..*old(self)
            }),
            p == *final(self),
            old(self).valid() ==> final(self).temperature() == temperature,
    {
        proof {
            let c = self.particle_type.heat_capacity as int;
            let t = temperature as int;
            assert(c > 0 ==> (c * t) / c == t) by (nonlinear_arith);
        }
        self.energy = self.particle_type.heat_capacity * temperature;
        *self
    }
}

/// A cell without energy is at absolute zero.
pub proof fn temperature_of_no_energy(p: Particle)
    requires
        p.valid(),
        p.energy == 0,
    ensures
        p.temperature() == 0,
{
}

/// Temperature never falls when energy is added: of two cells with the same
/// heat capacity, the one with no less energy is no colder.
pub proof fn temperature_is_monotonic(p: Particle, q: Particle)
    requires
        p.valid(),
        p.particle_type.heat_capacity == q.particle_type.heat_capacity,
        p.energy <= q.energy,
    ensures
        p.temperature() <= q.temperature(),
{
    let c = p.particle_type.heat_capacity as int;
    let a = p.energy as int;
    let b = q.energy as int;
    assert(a / c <= b / c) by (nonlinear_arith)
        requires
            c > 0,
            0 <= a <= b,
    ;
}

/// The phases meet at half-open intervals: one kelvin below the melting point
/// a material is still solid or powder; from the melting point on it is no
/// longer either; at the melting point it is liquid if the boiling point lies
/// above; at the boiling point it is gas.
pub proof fn phase_boundaries(p: Particle)
    requires
        p.valid(),
    ensures
        p.temperature() == p.particle_type.melting_temperature - 1 ==> (p.state() == (
        if p.particle_type.solid {
            SOLID
        } else {
            POWDER
        })),
        p.temperature() >= p.particle_type.melting_temperature ==> p.state() >= LIQUID,
        p.temperature() == p.particle_type.melting_temperature
            && p.particle_type.melting_temperature < p.particle_type.boiling_temperature
            ==> p.state() == LIQUID,
        p.temperature() == p.particle_type.boiling_temperature
            && p.particle_type.melting_temperature <= p.particle_type.boiling_temperature
            ==> p.state() == GAS,
        p.state() == GAS <==> p.temperature() >= p.particle_type.melting_temperature
            && p.temperature() >= p.particle_type.boiling_temperature,
{
}

} // verus!
