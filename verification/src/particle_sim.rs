//! The simulation engine: materials, cells, the grid and its passes.

pub mod color;
pub mod displacement;
pub mod grid;
pub mod heat;
pub mod heat_laws;
pub mod material;
pub mod particle;
pub mod sweep_laws;

pub use material::ParticleType;
pub use particle::Particle;
pub use grid::ParticleSim;
