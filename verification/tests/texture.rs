use falling_sand::texture::{metal, noise_from_byte, random};

#[test]
fn metal_is_neutral_without_strength() {
    assert_eq!(metal(0, 10, 3, 4), 128);
    assert_eq!(metal(0, 0, 3, 4), 128);
}

#[test]
fn metal_follows_a_triangle_wave() {
    // period 10: phases 0..=5 rise, 6..=9 fall back
    assert_eq!(metal(1, 10, 0, 0), 128);
    assert_eq!(metal(1, 10, 1, 0), 128 + 25);
    assert_eq!(metal(1, 10, 2, 3), 128 + 127);
    assert_eq!(metal(1, 10, 6, 0), 128 + 102);
    assert_eq!(metal(1, 10, 9, 0), 128 + 25);
    assert_eq!(metal(1, 10, 7, 3), 128);
    assert_eq!(metal(2, 10, 2, 3), 128 + 63);
}

#[test]
fn metal_accepts_the_largest_coordinates() {
    // (2^32 - 1) * 2 mod 7 = 2 * 3 mod 7 = 6, which folds back to 1
    assert_eq!(metal(1, 7, u32::MAX, u32::MAX), 128 + 36);
    assert_eq!(metal(255, u32::MAX, u32::MAX, 0), 128);
}

#[test]
fn noise_from_byte_divides_and_lifts() {
    assert_eq!(noise_from_byte(0, 255), 128);
    assert_eq!(noise_from_byte(0, 0), 128);
    assert_eq!(noise_from_byte(1, 0), 128);
    assert_eq!(noise_from_byte(1, 100), 228);
    assert_eq!(noise_from_byte(1, 127), 255);
    assert_eq!(noise_from_byte(2, 255), 255);
    assert_eq!(noise_from_byte(4, 255), 191);
    assert_eq!(noise_from_byte(255, 254), 128);
    assert_eq!(noise_from_byte(255, 255), 129);
}

#[test]
fn random_is_neutral_without_strength() {
    for _ in 0..50 {
        assert_eq!(random(0), 128);
    }
}

#[test]
fn random_stays_within_its_band() {
    for _ in 0..500 {
        assert!(random(2) >= 128);
        let soft = random(4);
        assert!((128..=191).contains(&soft));
        let faint = random(255);
        assert!(faint == 128 || faint == 129);
    }
}

#[test]
fn random_does_vary() {
    let first = random(2);
    assert!((0..400).any(|_| random(2) != first));
}
