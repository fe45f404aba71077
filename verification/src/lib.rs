//! A falling-sand style cellular automaton: granular, liquid and gaseous
//! materials on a rectangular lattice, with heat diffusion and a colour model
//! driven by temperature.

mod chance;
pub mod particle_sim;
pub mod texture;
