//! Colour-noise helpers. Each returns the byte stored in a cell's
//! `color_noise`, where 128 is the neutral value.

use vstd::prelude::*;
use crate::chance::random_byte;

verus! {

/// The noise byte made from one random byte: the byte divided by the strength
/// divider, laid above the neutral value. A divider of zero switches the noise
/// off.
pub open spec fn noise_value(strength_divider: int, byte: int) -> int {
    if strength_divider == 0 {
        128
    } else {
        byte / strength_divider + 128
    }
}

/// Turns a random byte into a noise byte. With a divider of one, only the
/// lower half of the bytes leaves room above the neutral value.
pub fn noise_from_byte(strength_divider: u8, byte: u8) -> (noise: u8)
    requires
        noise_value(strength_divider as int, byte as int) <= 255,
    ensures
        noise == noise_value(strength_divider as int, byte as int),
{
    if strength_divider == 0 {
        return 128;
    }
    byte / strength_divider + 128
}

/// Random colour noise: the neutral value raised by a random byte divided by
/// `strength_divider`, or the neutral value itself when the divider is zero.
/// A divider of one is left out, because half of the bytes would not fit.
pub fn random(strength_divider: u8) -> (noise: u8)
    requires
        strength_divider != 1,
    ensures
        exists|byte: u8| noise == #[trigger] noise_value(strength_divider as int, byte as int),
        strength_divider == 0 ==> noise == 128,
        strength_divider >= 2 ==> 128 <= noise <= 128 + 255int / (strength_divider as int),
{
    if strength_divider == 0 {
        assert(noise_value(0, 0u8 as int) == 128);
        return 128;
    }
    let byte = random_byte();
    assert(byte / strength_divider <= 127 && byte / strength_divider <= 255int / (
    strength_divider as int)) by (nonlinear_arith)
        requires
            strength_divider >= 2,
            byte <= 255,
    ;
    noise_from_byte(strength_divider, byte)
}

/// Position of `x + y` inside a triangle wave of period `size`: the distance
/// of `(x + y) mod size` from the nearer end of the period.
pub open spec fn metal_wave(size: int, x: int, y: int) -> int {
    let phase = (x + y) % size;
    if phase > size / 2 {
        size - phase
    } else {
        phase
    }
}

/// The banded noise byte: the wave scaled to `0..=127`, divided by the
/// strength divider and laid around the neutral value. A divider of zero
/// switches the texture off.
pub open spec fn metal_value(strength_divider: int, size: int, x: int, y: int) -> int {
    if strength_divider == 0 {
        128
    } else {
        (metal_wave(size, x, y) * 255 / size) / strength_divider + 128
    }
}

/// The scaled wave never leaves `0..=127`, so the noise byte stays within
/// `128..=255` and cannot wrap.
pub proof fn metal_wave_bounds(size: int, x: int, y: int)
    requires
        size > 0,
        x >= 0,
        y >= 0,
    ensures
        0 <= metal_wave(size, x, y) <= size / 2,
        0 <= metal_wave(size, x, y) * 255 / size <= 127,
{
    let v = metal_wave(size, x, y);
    assert(0 <= v <= size / 2);
    assert(0 <= v * 255 / size <= 127) by (nonlinear_arith)
        requires
            size > 0,
            0 <= v <= size / 2,
    ;
}

/// Banded ("brushed metal") colour noise for the cell at `(x, y)`, repeating
/// every `size` cells along the diagonal.
pub fn metal(strength_divider: u8, size: u32, x: u32, y: u32) -> (noise: u8)
    requires
        strength_divider != 0 ==> size > 0,
    ensures
        noise == metal_value(strength_divider as int, size as int, x as int, y as int),
        noise >= 128,
        strength_divider == 0 ==> noise == 128,
{
    if strength_divider == 0 {
        return 128;
    }
    let period: u64 = size as u64;
    let mut val: u64 = (x as u64 + y as u64) % period;
    if val > period / 2 {
        val = period - val;
    }
    proof {
        metal_wave_bounds(size as int, x as int, y as int);
    }
    let scaled: u64 = val * 255 / period;
    let band: u8 = scaled as u8;
    band / strength_divider + 128
}

} // verus!
