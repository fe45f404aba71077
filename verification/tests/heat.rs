use falling_sand::particle_sim::material::{GAS, LIQUID, SOLID};
use falling_sand::particle_sim::{Particle, ParticleSim, ParticleType};

fn kind(id: u32, heat_capacity: u32, heat_resistance: u16) -> ParticleType {
    ParticleType {
        id,
        vapor_color: [0, 0, 0, 255],
        liquid_color: [0, 0, 0, 255],
        solid_color: [0, 0, 0, 255],
        solid: true,
        liquid_density: 1000,
        gas_density: 1,
        melting_temperature: 20000,
        boiling_temperature: 30000,
        heat_capacity,
        heat_resistance,
    }
}

fn air() -> ParticleType {
    ParticleType { melting_temperature: 50, boiling_temperature: 80, ..kind(9, 1, 0) }
}

fn with_energy(kind: ParticleType, energy: u32) -> Particle {
    let mut p = Particle::new(kind);
    p.energy = energy;
    p
}

/// A grid whose only in-bounds cells are `(0, 0)` and `(1, 0)`.
fn pair(a: Particle, b: Particle) -> ParticleSim {
    let mut sim = ParticleSim::new(3, 2, Particle::new(kind(0, 1, 0)));
    sim.set_particle(0, 0, a);
    sim.set_particle(1, 0, b);
    sim
}

fn energies(sim: &ParticleSim) -> Vec<u32> {
    sim.particles.iter().map(|p| p.energy).collect()
}

#[test]
fn two_cells_exchange_heat_in_turn() {
    let mut sim = pair(with_energy(kind(1, 10, 0), 1000), with_energy(kind(1, 10, 0), 0));
    sim.simulate_heat(0);
    // first visit: 100 K * 10 / 8 = 125 J to the right
    // second visit: (12 - 87) K * 10 / 8 = -93.75, rounded toward zero
    assert_eq!(energies(&sim), vec![782, 218, 0, 0, 0, 0]);
}

#[test]
fn the_tick_number_plays_no_part_in_heat() {
    for t in [0, 1, 2, 77, u64::MAX] {
        let mut sim = pair(with_energy(kind(1, 10, 0), 1000), with_energy(kind(1, 10, 0), 0));
        sim.simulate_heat(t);
        assert_eq!(energies(&sim), vec![782, 218, 0, 0, 0, 0]);
        let mut sim = pair(with_energy(kind(1, 10, 0), 1000), with_energy(kind(1, 10, 0), 0));
        sim.simulate_heat_simplified(t);
        assert_eq!(energies(&sim), vec![782, 218, 0, 0, 0, 0]);
    }
}

#[test]
fn heat_visits_one_cell_at_a_time() {
    let mut sim = pair(with_energy(kind(1, 10, 0), 1000), with_energy(kind(1, 10, 0), 0));
    sim.heat_at(false, 0, 0);
    assert_eq!(energies(&sim), vec![875, 125, 0, 0, 0, 0]);
    sim.heat_at(false, 1, 0);
    assert_eq!(energies(&sim), vec![782, 218, 0, 0, 0, 0]);
    // positions out of bounds are not visited
    sim.heat_at(false, 2, 0);
    sim.heat_at(false, 0, 1);
    sim.heat_at(true, usize::MAX, 0);
    assert_eq!(energies(&sim), vec![782, 218, 0, 0, 0, 0]);
}

#[test]
fn a_cold_mover_draws_heat_from_its_neighbour() {
    let mut sim = pair(with_energy(kind(1, 10, 0), 0), with_energy(kind(1, 10, 0), 1000));
    sim.heat_at(false, 0, 0);
    // (0 - 100) K * 10 / 8 = -125
    assert_eq!(energies(&sim), vec![125, 875, 0, 0, 0, 0]);
}

#[test]
fn heat_resistance_slows_the_exchange() {
    let mut sim = pair(with_energy(kind(1, 10, 1), 1000), with_energy(kind(2, 10, 2), 0));
    sim.simulate_heat(0);
    // divisor 8 * (1 + 2 + 1) = 32: 1000 / 32 = 31, then -930 / 32 = -29
    assert_eq!(energies(&sim), vec![940, 60, 0, 0, 0, 0]);
}

#[test]
fn the_movers_heat_capacity_scales_the_transfer() {
    let mut sim = pair(with_energy(kind(1, 40, 0), 4000), with_energy(kind(2, 10, 0), 0));
    sim.heat_at(false, 0, 0);
    // 100 K * 40 / 8 = 500
    assert_eq!(energies(&sim), vec![3500, 500, 0, 0, 0, 0]);
    let mut sim = pair(with_energy(kind(1, 40, 0), 4000), with_energy(kind(2, 10, 0), 0));
    sim.heat_at(false, 1, 0);
    // (0 - 100) K * 10 / 8 = -125
    assert_eq!(energies(&sim), vec![3875, 125, 0, 0, 0, 0]);
}

#[test]
fn energy_is_held_at_zero_instead_of_wrapping() {
    let mut sim = pair(with_energy(kind(1, 1000, 0), 0), with_energy(kind(2, 1, 0), 100));
    sim.heat_at(false, 0, 0);
    // the mover asks for 100 K * 1000 / 8 = 12500 J; the neighbour has 100
    assert_eq!(energies(&sim), vec![12500, 0, 0, 0, 0, 0]);
    sim.heat_at(false, 1, 0);
    // (0 - 12) K * 1 / 8 = -1.5, rounded toward zero
    assert_eq!(energies(&sim), vec![12499, 1, 0, 0, 0, 0]);
}

#[test]
fn a_mover_hands_heat_to_all_eight_neighbours() {
    let mut sim = ParticleSim::new(4, 4, Particle::new(kind(0, 1, 0)));
    sim.set_particle(1, 1, with_energy(kind(1, 7, 0), 62));
    sim.heat_at(false, 1, 1);
    // temperature 8; each of the 8 neighbours takes 8 K * 7 / 8 = 7 J
    assert_eq!(sim.particle_at(1, 1).energy, 6);
    for (x, y) in [(0, 0), (1, 0), (2, 0), (0, 1), (2, 1), (0, 2), (1, 2), (2, 2)] {
        assert_eq!(sim.particle_at(x, y).energy, 7);
    }
    assert_eq!(sim.particle_at(3, 3).energy, 0);
}

#[test]
fn a_mover_in_the_corner_reaches_only_the_cells_in_bounds() {
    let mut sim = ParticleSim::new(4, 4, Particle::new(kind(0, 1, 0)));
    sim.set_particle(2, 2, with_energy(kind(1, 8, 0), 80));
    sim.heat_at(false, 2, 2);
    // in bounds around (2, 2): (1, 1), (1, 2), (2, 1); 10 J each
    let energies: Vec<u32> = sim.particles.iter().map(|p| p.energy).collect();
    assert_eq!(energies, vec![0, 0, 0, 0, 0, 10, 10, 0, 0, 10, 50, 0, 0, 0, 0, 0]);
}

#[test]
fn energy_is_held_at_the_top_instead_of_wrapping() {
    let mut sim = pair(
        with_energy(kind(1, 1000, 0), 1_000_000),
        with_energy(kind(2, u32::MAX, 0), u32::MAX - 5),
    );
    sim.heat_at(false, 0, 0);
    // 1000 K * 1000 / 8 = 125000 J do not fit on top of the neighbour
    assert_eq!(energies(&sim), vec![875_000, u32::MAX, 0, 0, 0, 0]);
    sim.heat_at(false, 1, 0);
    // the neighbour, now at 1 K, asks for far more than the other cell has
    assert_eq!(energies(&sim), vec![0, u32::MAX, 0, 0, 0, 0]);
}

#[test]
fn heat_spreads_row_by_row_over_all_eight_neighbours() {
    let mut sim = ParticleSim::new(3, 3, Particle::new(kind(1, 8, 0)));
    sim.set_particle_energy(0, 0, 800);
    sim.simulate_heat(0);
    // visits (0,0), (1,0), (0,1), (1,1); with a heat capacity of 8 and no
    // resistance a transfer is the temperature difference itself
    assert_eq!(energies(&sim), vec![368, 138, 0, 144, 150, 0, 0, 0, 0]);
}

#[test]
fn a_heat_pass_is_its_visits_in_storage_order() {
    let build = || {
        let mut sim = ParticleSim::new(4, 3, Particle::new(kind(1, 8, 1)));
        sim.set_particle_energy(0, 0, 8000);
        sim.set_particle_energy(2, 1, 20_000);
        sim.set_particle_energy(1, 1, 333);
        sim
    };
    let mut whole = build();
    whole.simulate_heat(0);
    let mut stepwise = build();
    for y in 0..3 {
        for x in 0..4 {
            stepwise.heat_at(false, x, y);
        }
    }
    assert_eq!(energies(&whole), energies(&stepwise));
    let mut other = build();
    for x in 0..4 {
        for y in 0..3 {
            other.heat_at(false, x, y);
        }
    }
    assert_ne!(energies(&whole), energies(&other));
}

#[test]
fn heat_never_reaches_the_last_row_and_column() {
    let mut sim = ParticleSim::new(3, 3, Particle::new(kind(1, 8, 0)));
    sim.particles[2].energy = 80_000;
    sim.particles[5].energy = 80_000;
    sim.particles[6].energy = 80_000;
    sim.particles[7].energy = 80_000;
    sim.particles[8].energy = 80_000;
    for t in 0..5 {
        sim.simulate_heat(t);
        sim.simulate_heat_simplified(t);
    }
    assert_eq!(energies(&sim), vec![0, 0, 80_000, 0, 0, 80_000, 80_000, 80_000, 80_000]);
}

#[test]
fn heat_changes_nothing_but_energies() {
    let mut sim = ParticleSim::new(4, 4, Particle::new(kind(1, 8, 0)));
    let mut n = 0u32;
    for y in 0..3 {
        for x in 0..3 {
            let mut p = with_energy(kind(n, 3 + n, (n % 4) as u16), 1000 * n);
            p.set_noise_value(n as u8);
            sim.set_particle(x, y, p);
            n += 1;
        }
    }
    let matter = |sim: &ParticleSim| -> Vec<(u32, u32, u16, u8)> {
        sim.particles
            .iter()
            .map(|p| {
                (
                    p.particle_type.id,
                    p.particle_type.heat_capacity,
                    p.particle_type.heat_resistance,
                    p.color_noise,
                )
            })
            .collect()
    };
    let before = matter(&sim);
    let start = energies(&sim);
    sim.simulate_heat(0);
    sim.simulate_heat_simplified(1);
    assert_eq!(matter(&sim), before);
    assert_ne!(energies(&sim), start);
    assert_eq!((sim.width, sim.height, sim.particles.len()), (4, 4, 16));
}

#[test]
fn plain_heat_pass_warms_and_cools_gas_like_anything_else() {
    let hot_air = with_energy(air(), 300);
    assert_eq!(hot_air.get_state(), GAS);
    let mut sim = pair(with_energy(kind(1, 10, 0), 1000), hot_air);
    sim.simulate_heat(0);
    // (100 - 300) K * 10 / 8 = -250, then (50 - 125) K * 1 / 8 = -9.4
    assert_eq!(energies(&sim), vec![1241, 59, 0, 0, 0, 0]);
    assert_eq!(sim.particle_at(1, 0).get_state(), LIQUID);
}

#[test]
fn simplified_heat_pass_treats_gas_as_a_sink() {
    let mut sim = pair(with_energy(kind(1, 10, 0), 1000), with_energy(air(), 300));
    assert_eq!(sim.particle_at(0, 0).get_state(), SOLID);
    sim.simulate_heat_simplified(0);
    // the solid still books the -250 J that the gas would have handed over;
    // the gas keeps its energy and does not act as a mover
    assert_eq!(energies(&sim), vec![1250, 300, 0, 0, 0, 0]);
    let mut sim = pair(with_energy(kind(1, 10, 0), 4000), with_energy(air(), 300));
    sim.simulate_heat_simplified(0);
    // (400 - 300) K * 10 / 8 = 125 J leave the solid and are lost
    assert_eq!(energies(&sim), vec![3875, 300, 0, 0, 0, 0]);
}

#[test]
fn simplified_heat_pass_skips_a_gas_mover() {
    let mut sim = pair(with_energy(air(), 300), with_energy(air(), 3000));
    sim.simulate_heat_simplified(0);
    assert_eq!(energies(&sim), vec![300, 3000, 0, 0, 0, 0]);
    sim.heat_at(true, 0, 0);
    assert_eq!(energies(&sim), vec![300, 3000, 0, 0, 0, 0]);
    sim.heat_at(false, 0, 0);
    // (300 - 3000) K * 1 / 8 = -337.5
    assert_eq!(energies(&sim), vec![637, 2663, 0, 0, 0, 0]);
}

#[test]
fn two_like_cells_trend_toward_each_other() {
    let mut sim = pair(with_energy(kind(1, 10, 0), 100_000), with_energy(kind(1, 10, 0), 0));
    let gap = |sim: &ParticleSim| -> i64 {
        sim.particle_at(0, 0).get_temperature() as i64
            - sim.particle_at(1, 0).get_temperature() as i64
    };
    let mut last = gap(&sim).abs();
    assert_eq!(last, 10_000);
    for t in 0..200 {
        sim.simulate_heat(t);
        let now = gap(&sim).abs();
        assert!(now <= last);
        last = now;
        assert_eq!(sim.particle_at(0, 0).energy + sim.particle_at(1, 0).energy, 100_000);
    }
    assert!(last <= 1);
}

#[test]
fn equal_temperatures_exchange_nothing() {
    let mut sim = pair(with_energy(kind(1, 10, 0), 1009), with_energy(kind(2, 7, 3), 700));
    sim.simulate_heat(0);
    assert_eq!(energies(&sim), vec![1009, 700, 0, 0, 0, 0]);
}

#[test]
fn energy_difference_of_like_cells_never_grows_over_a_pass() {
    for (a, b) in [(16, 15), (15, 16), (100_000, 0), (0, 100_000), (31, 16), (17, 15), (640, 1)] {
        let mut sim = pair(with_energy(kind(1, 16, 0), a), with_energy(kind(1, 16, 0), b));
        let mut last = (a as i64 - b as i64).abs();
        for t in 0..300 {
            sim.simulate_heat(t);
            let (x, y) = (sim.particle_at(0, 0).energy as i64, sim.particle_at(1, 0).energy as i64);
            assert_eq!(x + y, a as i64 + b as i64);
            assert!((x - y).abs() <= last);
            last = (x - y).abs();
        }
    }
}

#[test]
fn one_kelvin_apart_a_visit_may_trade_the_temperatures() {
    let mut sim = pair(with_energy(kind(1, 16, 0), 16), with_energy(kind(1, 16, 0), 15));
    sim.heat_at(false, 0, 0);
    // 1 K * 16 / 8 = 2 J move, more than the cells were apart
    assert_eq!(energies(&sim), vec![14, 17, 0, 0, 0, 0]);
    sim.heat_at(false, 1, 0);
    assert_eq!(energies(&sim), vec![16, 15, 0, 0, 0, 0]);
}

#[test]
fn unlike_cells_may_drift_apart() {
    let mut sim = pair(with_energy(kind(1, 1000, 0), 10_000), with_energy(kind(2, 1, 0), 0));
    sim.heat_at(false, 0, 0);
    // 10 K * 1000 / 8 = 1250 J warm the light cell to 1250 K
    assert_eq!(energies(&sim), vec![8750, 1250, 0, 0, 0, 0]);
    assert_eq!(sim.particle_at(0, 0).get_temperature(), 8);
    assert_eq!(sim.particle_at(1, 0).get_temperature(), 1250);
}

#[test]
fn like_cells_at_the_ceiling_lose_what_does_not_fit() {
    // u32::MAX is a multiple of 17
    let mut sim =
        pair(with_energy(kind(1, 17, 0), u32::MAX), with_energy(kind(1, 17, 0), u32::MAX - 1));
    sim.simulate_heat(0);
    assert_eq!(energies(&sim), vec![u32::MAX, u32::MAX - 2, 0, 0, 0, 0]);
}
