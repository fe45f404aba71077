//! Material descriptors and the phase codes derived from them.

use vstd::prelude::*;

verus! {

/// Phase code of a rigid material below its melting point. It never moves.
pub const SOLID: u8 = 0;

/// Phase code of a granular material below its melting point.
pub const POWDER: u8 = 1;

/// Phase code between the melting and the boiling point.
pub const LIQUID: u8 = 2;

/// Phase code at or above the boiling point.
pub const GAS: u8 = 3;

/// Densities grow by one part in `DENSITY_SCALE` per kelvin.
pub const DENSITY_SCALE: u32 = 500_000_000;

/// An immutable material descriptor, shared by value between many cells.
///
/// Colours are red, green, blue and alpha, one byte each. Densities are
/// whole milligrams per cubic centimetre, temperatures are in kelvin.
#[derive(Debug, Copy, Clone)]
pub struct ParticleType {
    pub id: u32,
    pub vapor_color: [u8; 4],
    pub liquid_color: [u8; 4],
    pub solid_color: [u8; 4],
    /// `true` for a rigid solid, `false` for a sand-like powder.
    pub solid: bool,
    pub liquid_density: u32,
    pub gas_density: u32,
    pub melting_temperature: u16,
    pub boiling_temperature: u16,
    /// Joules needed to warm one kilogram by one kelvin.
    pub heat_capacity: u32,
    /// The larger, the slower heat flows into and out of the material.
    pub heat_resistance: u16,
}

impl ParticleType {
    /// A descriptor is usable when temperatures can be derived from it, that
    /// is when its heat capacity is not zero.
    pub open spec fn valid(&self) -> bool {
        self.heat_capacity > 0
    }

    /// Run-time test of [`ParticleType::valid`].
    pub fn is_valid(&self) -> (ok: bool)
        ensures
            ok == self.valid(),
    {
        self.heat_capacity > 0
    }
}

} // verus!
