use falling_sand::particle_sim::{Particle, ParticleSim, ParticleType};

fn kind(id: u32, heat_capacity: u32) -> ParticleType {
    ParticleType {
        id,
        vapor_color: [10, 20, 30, 255],
        liquid_color: [40, 80, 120, 255],
        solid_color: [200, 50, 50, 255],
        solid: true,
        liquid_density: 1000,
        gas_density: 3,
        melting_temperature: 1000,
        boiling_temperature: 2000,
        heat_capacity,
        heat_resistance: 0,
    }
}

fn ids(sim: &ParticleSim) -> Vec<u32> {
    sim.particles.iter().map(|p| p.particle_type.id).collect()
}

fn energies(sim: &ParticleSim) -> Vec<u32> {
    sim.particles.iter().map(|p| p.energy).collect()
}

#[test]
fn new_grid_is_filled_with_the_seed() {
    let mut seed = Particle::new(kind(4, 10));
    seed.set_noise_value(99);
    let sim = ParticleSim::new(5, 3, seed);
    assert_eq!(sim.width, 5);
    assert_eq!(sim.height, 3);
    assert_eq!(sim.particles.len(), 15);
    assert!(sim.particles.iter().all(|p| p.particle_type.id == 4 && p.color_noise == 99));
}

#[test]
fn empty_grids_are_allowed() {
    let seed = Particle::new(kind(4, 10));
    let mut none = ParticleSim::new(0, 0, seed);
    assert_eq!(none.particles.len(), 0);
    assert!(!none.particle_exists(0, 0));
    none.set_particle(0, 0, seed);
    none.simulate_sand(0);
    none.simulate_heat(0);
    assert_eq!(none.render_pixels().len(), 0);
    let mut flat = ParticleSim::new(4, 0, seed);
    assert!(!flat.particle_exists(0, 0));
    flat.simulate_liquids(1);
    assert_eq!(flat.particles.len(), 0);
    let mut thin = ParticleSim::new(1, 6, seed);
    assert!(!thin.particle_exists(0, 0));
    thin.simulate_gasses(1);
    thin.simulate_heat_simplified(1);
    assert_eq!(thin.particles.len(), 6);
}

#[test]
fn last_column_and_last_row_do_not_exist() {
    let sim = ParticleSim::new(4, 3, Particle::new(kind(1, 10)));
    assert!(sim.particle_exists(0, 0));
    assert!(sim.particle_exists(2, 1));
    assert!(!sim.particle_exists(3, 0));
    assert!(!sim.particle_exists(0, 2));
    assert!(!sim.particle_exists(3, 2));
    assert!(!sim.particle_exists(usize::MAX, 0));
    assert!(!sim.particle_exists(0, usize::MAX));
}

#[test]
fn particle_at_reads_row_major_storage() {
    let mut sim = ParticleSim::new(4, 3, Particle::new(kind(1, 10)));
    sim.set_particle(2, 1, Particle::new(kind(9, 10)));
    assert_eq!(sim.particles[6].particle_type.id, 9);
    assert_eq!(sim.particle_at(2, 1).particle_type.id, 9);
    assert_eq!(sim.particle_at(1, 2).particle_type.id, 1);
    // a direct read reaches the last row and the last column as well
    assert_eq!(sim.particle_at(3, 2).particle_type.id, 1);
}

#[test]
fn set_particle_overwrites_one_cell() {
    let mut sim = ParticleSim::new(4, 3, Particle::new(kind(1, 10)));
    sim.set_particle(1, 0, Particle::new(kind(2, 10)));
    sim.set_particle(0, 1, Particle::new(kind(3, 10)));
    assert_eq!(ids(&sim), vec![1, 2, 1, 1, 3, 1, 1, 1, 1, 1, 1, 1]);
}

#[test]
fn mutating_the_edge_is_a_no_op() {
    let mut sim = ParticleSim::new(4, 3, Particle::new(kind(1, 10)));
    sim.set_particle(1, 1, Particle::new(kind(2, 10)));
    sim.set_particle_energy(1, 1, 77);
    let before_ids = ids(&sim);
    let before_energies = energies(&sim);

    sim.set_particle(3, 0, Particle::new(kind(5, 10)));
    sim.set_particle(0, 2, Particle::new(kind(5, 10)));
    sim.set_particle(3, 2, Particle::new(kind(5, 10)));
    sim.set_particle(4, 7, Particle::new(kind(5, 10)));
    sim.set_particle_energy(3, 1, 500);
    sim.set_particle_energy(1, 2, 500);
    sim.swap_particles(1, 1, 3, 1);
    sim.swap_particles(1, 2, 1, 1);
    sim.swap_particles(3, 0, 0, 2);

    assert_eq!(ids(&sim), before_ids);
    assert_eq!(energies(&sim), before_energies);
    assert_eq!((sim.width, sim.height), (4, 3));
}

#[test]
fn swap_exchanges_whole_cells() {
    let mut sim = ParticleSim::new(4, 3, Particle::new(kind(1, 10)));
    let mut a = Particle::new(kind(2, 10));
    a.energy = 40;
    a.set_noise_value(1);
    let mut b = Particle::new(kind(3, 20));
    b.energy = 60;
    b.set_noise_value(2);
    sim.set_particle(0, 0, a);
    sim.set_particle(2, 1, b);
    sim.swap_particles(0, 0, 2, 1);
    let first = *sim.particle_at(0, 0);
    let second = *sim.particle_at(2, 1);
    assert_eq!((first.particle_type.id, first.energy, first.color_noise), (3, 60, 2));
    assert_eq!((first.particle_type.heat_capacity, second.particle_type.heat_capacity), (20, 10));
    assert_eq!((second.particle_type.id, second.energy, second.color_noise), (2, 40, 1));
    assert_eq!(ids(&sim), vec![3, 1, 1, 1, 1, 1, 2, 1, 1, 1, 1, 1]);
    sim.swap_particles(1, 1, 1, 1);
    assert_eq!(ids(&sim), vec![3, 1, 1, 1, 1, 1, 2, 1, 1, 1, 1, 1]);
}

#[test]
fn set_energy_then_temperature_round_trips() {
    let mut sim = ParticleSim::new(4, 3, Particle::new(kind(1, 10)));
    sim.set_particle_energy(2, 1, 1234);
    assert_eq!(sim.particle_at(2, 1).energy, 1234);
    assert_eq!(sim.particle_at(2, 1).get_temperature(), 123);
    sim.set_particle(0, 0, Particle::new(kind(2, 7)));
    sim.set_particle_energy(0, 0, u32::MAX);
    assert_eq!(sim.particle_at(0, 0).get_temperature(), u32::MAX / 7);
    sim.set_particle_energy(0, 0, 6);
    assert_eq!(sim.particle_at(0, 0).get_temperature(), 0);
    assert_eq!(energies(&sim), vec![6, 0, 0, 0, 0, 0, 1234, 0, 0, 0, 0, 0]);
}

#[test]
fn particle_color_is_black_out_of_bounds() {
    let mut sim = ParticleSim::new(4, 3, Particle::new(kind(1, 10)));
    assert_eq!(sim.get_particle_color(0, 0), [200, 50, 50]);
    assert_eq!(sim.get_particle_color(2, 1), [200, 50, 50]);
    assert_eq!(sim.get_particle_color(3, 1), [0, 0, 0]);
    assert_eq!(sim.get_particle_color(1, 2), [0, 0, 0]);
    assert_eq!(sim.get_particle_color(100, 100), [0, 0, 0]);
}

#[test]
fn uniform_grid_renders_uniformly() {
    let mut sim = ParticleSim::new(4, 3, Particle::new(kind(1, 10)));
    let pixels = sim.render_pixels();
    assert_eq!(pixels.len(), 12);
    assert!(pixels.iter().all(|c| *c == [200, 50, 50]));
    assert_eq!(ids(&sim), vec![1; 12]);
}

#[test]
fn render_is_a_snapshot_in_row_major_order() {
    let mut sim = ParticleSim::new(3, 2, Particle::new(kind(1, 10)));
    let mut hot = Particle::new(kind(2, 1));
    hot.energy = 1500;
    sim.set_particle(1, 0, hot);
    let first = sim.render_pixels();
    // the hot cell is liquid at 1500 K and glows: row 3 is (255, 83, 0), halved
    assert_eq!(
        first,
        vec![[200, 50, 50], [167, 121, 120], [200, 50, 50], [200, 50, 50], [200, 50, 50], [
            200, 50, 50
        ]]
    );
    for (i, p) in sim.particles.iter().enumerate() {
        assert_eq!(first[i], p.get_color());
    }
    sim.set_particle_energy(1, 0, 0);
    let second = sim.render_pixels();
    assert_eq!(second[1], [200, 50, 50]);
    assert_eq!(first[1], [167, 121, 120]);
}

#[test]
fn well_formedness_can_be_tested_at_run_time() {
    let mut sim = ParticleSim::new(4, 3, Particle::new(kind(1, 10)));
    assert!(sim.is_well_formed());
    sim.set_particle(1, 1, Particle::new(kind(2, 3)));
    sim.swap_particles(0, 0, 1, 1);
    assert!(sim.is_well_formed());
    sim.width = 5;
    assert!(!sim.is_well_formed());
    sim.width = usize::MAX;
    assert!(!sim.is_well_formed());
    sim.width = 4;
    sim.particles.pop();
    assert!(!sim.is_well_formed());
    sim.particles.push(Particle::new(kind(3, 0)));
    assert!(!sim.is_well_formed());
    sim.particles[11] = Particle::new(kind(3, 1));
    assert!(sim.is_well_formed());
    assert!(ParticleSim::new(0, 9, Particle::new(kind(1, 10))).is_well_formed());
}
