use falling_sand::particle_sim::material::{DENSITY_SCALE, GAS, LIQUID, POWDER, SOLID};
use falling_sand::particle_sim::{Particle, ParticleType};

fn material(solid: bool, melting: u16, boiling: u16, heat_capacity: u32) -> ParticleType {
    ParticleType {
        id: 7,
        vapor_color: [10, 20, 30, 255],
        liquid_color: [40, 80, 120, 255],
        solid_color: [200, 50, 50, 255],
        solid,
        liquid_density: 1000,
        gas_density: 3,
        melting_temperature: melting,
        boiling_temperature: boiling,
        heat_capacity,
        heat_resistance: 0,
    }
}

fn at_temperature(kind: ParticleType, temperature: u32) -> Particle {
    let mut p = Particle::new(kind);
    p.set_temperature(temperature);
    p
}

#[test]
fn new_particle_is_cold_and_neutral() {
    let kind = material(true, 1000, 2000, 10);
    let p = Particle::new(kind);
    assert_eq!(p.energy, 0);
    assert_eq!(p.color_noise, 128);
    assert_eq!(p.particle_type.id, 7);
    assert_eq!(p.get_temperature(), 0);
}

#[test]
fn descriptor_validity_is_a_nonzero_heat_capacity() {
    assert!(material(true, 1000, 2000, 1).is_valid());
    assert!(!material(true, 1000, 2000, 0).is_valid());
}

#[test]
fn temperature_is_energy_over_heat_capacity_rounded_down() {
    let mut p = Particle::new(material(true, 1000, 2000, 10));
    p.energy = 99;
    assert_eq!(p.get_temperature(), 9);
    p.energy = 100;
    assert_eq!(p.get_temperature(), 10);
    p.energy = u32::MAX;
    assert_eq!(p.get_temperature(), 429_496_729);
}

#[test]
fn temperature_never_falls_as_energy_rises() {
    let mut p = Particle::new(material(true, 1000, 2000, 7));
    let mut last = 0;
    for energy in 0..500u32 {
        p.energy = energy;
        let t = p.get_temperature();
        assert!(t >= last);
        last = t;
    }
    assert_eq!(last, 71);
}

#[test]
fn set_temperature_stores_the_matching_energy() {
    let mut p = Particle::new(material(true, 1000, 2000, 10));
    let copy = p.set_temperature(300);
    assert_eq!(p.energy, 3000);
    assert_eq!(copy.energy, 3000);
    assert_eq!(p.get_temperature(), 300);
}

#[test]
fn set_noise_value_replaces_only_the_noise() {
    let mut p = at_temperature(material(true, 1000, 2000, 10), 5);
    let copy = p.set_noise_value(17);
    assert_eq!(p.color_noise, 17);
    assert_eq!(copy.color_noise, 17);
    assert_eq!(p.energy, 50);
    assert_eq!(copy.energy, 50);
}

#[test]
fn phases_meet_at_half_open_intervals() {
    let rigid = material(true, 1000, 2000, 10);
    let loose = material(false, 1000, 2000, 10);
    assert_eq!(at_temperature(rigid, 0).get_state(), SOLID);
    assert_eq!(at_temperature(rigid, 999).get_state(), SOLID);
    assert_eq!(at_temperature(loose, 999).get_state(), POWDER);
    assert_eq!(at_temperature(rigid, 1000).get_state(), LIQUID);
    assert_eq!(at_temperature(loose, 1000).get_state(), LIQUID);
    assert_eq!(at_temperature(rigid, 1999).get_state(), LIQUID);
    assert_eq!(at_temperature(rigid, 2000).get_state(), GAS);
    assert_eq!(at_temperature(loose, 2000).get_state(), GAS);
    assert_eq!(at_temperature(rigid, 60000).get_state(), GAS);
}

#[test]
fn phase_codes_are_ordered() {
    assert_eq!((SOLID, POWDER, LIQUID, GAS), (0, 1, 2, 3));
}

#[test]
fn a_material_that_boils_below_its_melting_point_skips_the_liquid() {
    let odd = material(false, 1000, 500, 10);
    assert_eq!(at_temperature(odd, 499).get_state(), POWDER);
    assert_eq!(at_temperature(odd, 500).get_state(), POWDER);
    assert_eq!(at_temperature(odd, 999).get_state(), POWDER);
    assert_eq!(at_temperature(odd, 1000).get_state(), GAS);
}

#[test]
fn density_takes_the_phase_reference_and_grows_with_temperature() {
    let kind = material(true, 1000, 2000, 10);
    assert_eq!(DENSITY_SCALE, 500_000_000);
    // solid: the gas density is the reference
    assert_eq!(at_temperature(kind, 0).get_density(), 3 * 500_000_000);
    assert_eq!(at_temperature(kind, 100).get_density(), 3 * 500_000_100);
    // liquid: the liquid density is the reference
    assert_eq!(at_temperature(kind, 1500).get_density(), 1000 * 500_001_500);
    // gas
    assert_eq!(at_temperature(kind, 2000).get_density(), 3 * 500_002_000);
}

#[test]
fn density_of_the_hottest_densest_cell_does_not_wrap() {
    let mut kind = material(true, 0, u16::MAX, 1);
    kind.liquid_density = u32::MAX;
    let mut p = Particle::new(kind);
    p.energy = 60000;
    assert_eq!(p.get_state(), LIQUID);
    assert_eq!(p.get_density(), 4_294_967_295u128 * 500_060_000u128);
    kind.gas_density = u32::MAX;
    let mut q = Particle::new(kind);
    q.energy = u32::MAX;
    assert_eq!(q.get_state(), GAS);
    assert_eq!(q.get_density(), 4_294_967_295u128 * 4_794_967_295u128);
}

#[test]
fn cold_solid_renders_its_base_color() {
    let p = Particle::new(material(true, 1000, 2000, 10));
    assert_eq!(p.get_color(), [200, 50, 50]);
}

#[test]
fn color_follows_the_phase() {
    let kind = material(true, 100, 200, 10);
    assert_eq!(at_temperature(kind, 99).get_color(), [200, 50, 50]);
    assert_eq!(at_temperature(kind, 100).get_color(), [40, 80, 120]);
    assert_eq!(at_temperature(kind, 199).get_color(), [40, 80, 120]);
    assert_eq!(at_temperature(kind, 200).get_color(), [10, 20, 30]);
}

#[test]
fn color_is_premultiplied_by_alpha() {
    let mut kind = material(true, 1000, 2000, 10);
    kind.solid_color = [200, 50, 51, 128];
    // 200 * 128 / 255 = 100.39, 50 * 128 / 255 = 25.09, 51 * 128 / 255 = 25.6
    assert_eq!(Particle::new(kind).get_color(), [100, 25, 25]);
    kind.solid_color = [200, 50, 51, 0];
    assert_eq!(Particle::new(kind).get_color(), [0, 0, 0]);
}

#[test]
fn noise_shifts_every_channel_and_saturates() {
    let mut p = Particle::new(material(true, 1000, 2000, 10));
    p.set_noise_value(138);
    assert_eq!(p.get_color(), [210, 60, 60]);
    p.set_noise_value(100);
    assert_eq!(p.get_color(), [172, 22, 22]);
    p.set_noise_value(0);
    assert_eq!(p.get_color(), [72, 0, 0]);
    p.set_noise_value(255);
    assert_eq!(p.get_color(), [255, 177, 177]);
}

#[test]
fn glow_starts_above_600_kelvin() {
    let mut kind = material(true, 9000, 9500, 1);
    kind.solid_color = [0, 0, 0, 255];
    assert_eq!(at_temperature(kind, 600).get_color(), [0, 0, 0]);
    // row 0 is (255, 0, 0); 255 * 601 / 3000 = 51.085
    assert_eq!(at_temperature(kind, 601).get_color(), [51, 0, 0]);
    assert_eq!(at_temperature(kind, 999).get_color(), [84, 0, 0]);
    // row 1 is (255, 25, 0); 255 / 3 = 85, 25 / 3 = 8.33
    assert_eq!(at_temperature(kind, 1000).get_color(), [85, 8, 0]);
    // row 6 is (255, 126, 0)
    assert_eq!(at_temperature(kind, 2000).get_color(), [170, 84, 0]);
    // row 11 is (255, 173, 94), scaled by exactly one
    assert_eq!(at_temperature(kind, 3000).get_color(), [255, 173, 94]);
    // row 12 is (255, 180, 107); 272, 192, 114.13
    assert_eq!(at_temperature(kind, 3200).get_color(), [255, 192, 114]);
}

#[test]
fn glow_is_added_before_the_noise_offset() {
    let mut kind = material(true, 9000, 9500, 1);
    kind.solid_color = [0, 0, 0, 255];
    let mut p = at_temperature(kind, 5000);
    p.set_noise_value(0);
    // row 21 is (255, 225, 198); times 5/3: 425, 375, 330; minus 128
    assert_eq!(p.get_color(), [255, 247, 202]);
}

#[test]
fn the_hottest_cells_render_white() {
    let mut kind = material(true, 9000, 9500, 1);
    kind.solid_color = [0, 0, 0, 255];
    assert_eq!(at_temperature(kind, 7600).get_color(), [255, 255, 255]);
    assert_eq!(at_temperature(kind, 7800).get_color(), [255, 255, 255]);
    let mut p = Particle::new(kind);
    p.energy = u32::MAX;
    p.set_noise_value(0);
    assert_eq!(p.get_color(), [255, 255, 255]);
}

#[test]
fn color_depends_on_temperature_not_on_spare_energy() {
    let kind = material(true, 1000, 2000, 10);
    let mut p = Particle::new(kind);
    let mut q = Particle::new(kind);
    p.energy = 7000;
    q.energy = 7009;
    assert_eq!(p.get_color(), q.get_color());
    // 255 * 700 / 3000 = 59.5
    assert_eq!(p.get_color(), [255, 50, 50]);
}

#[test]
fn get_color_leaves_the_cell_alone() {
    let p = at_temperature(material(true, 1000, 2000, 10), 1234);
    let before = p;
    let _ = p.get_color();
    assert_eq!(p.energy, before.energy);
    assert_eq!(p.color_noise, before.color_noise);
}
