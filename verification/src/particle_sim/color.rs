//! The colour model: a pure map from a cell's phase, temperature and noise to
//! a displayable red, green and blue triple.

use vstd::prelude::*;
use super::material::{GAS, LIQUID};
use super::particle::Particle;

verus! {

/// Colours of a glowing black body, from 800 K upwards in steps of 200 K.
pub const BLACKBODY: [[u8; 3]; 37] = [
    [255, 0, 0],
    [255, 25, 0],
    [255, 56, 0],
    [255, 83, 0],
    [255, 101, 0],
    [255, 115, 0],
    [255, 126, 0],
    [255, 137, 18],
    [255, 147, 44],
    [255, 157, 63],
    [255, 165, 79],
    [255, 173, 94],
    [255, 180, 107],
    [255, 187, 120],
    [255, 193, 132],
    [255, 199, 143],
    [255, 204, 153],
    [255, 209, 163],
    [255, 213, 173],
    [255, 217, 182],
    [255, 221, 190],
    [255, 225, 198],
    [255, 228, 206],
    [255, 232, 213],
    [255, 235, 220],
    [255, 238, 227],
    [255, 240, 233],
    [255, 243, 239],
    [255, 245, 245],
    [255, 248, 251],
    [254, 249, 255],
    [249, 246, 255],
    [245, 243, 255],
    [240, 241, 255],
    [237, 239, 255],
    [233, 237, 255],
    [230, 235, 255],
];

/// Row of [`BLACKBODY`] for a temperature: `(temperature - 800) / 200`, held
/// at row 0 from below and sent to the last row once it passes 34.
pub open spec fn blackbody_index(temperature: int) -> int {
    let step = (temperature - 800) / 200;
    if step < 0 {
        0
    } else if step > 34 {
        36
    } else {
        step
    }
}

/// What the glow adds to one channel: nothing up to 600 K, and above that the
/// black-body channel times `temperature / 3000`, rounded down.
pub open spec fn emission(temperature: int, channel: int) -> int {
    if temperature > 600 {
        BLACKBODY[blackbody_index(temperature)][channel] as int * temperature / 3000
    } else {
        0
    }
}

/// The value closest to `v` within `0..=255`.
pub open spec fn clamp_to_byte(v: int) -> int {
    if v < 0 {
        0
    } else if v > 255 {
        255
    } else {
        v
    }
}

impl Particle {
    /// The material colour of the current phase: the vapour colour for a gas,
    /// the liquid colour for a liquid, the solid colour otherwise.
    pub open spec fn base_color(&self) -> [u8; 4] {
        if self.state() == GAS {
            self.particle_type.vapor_color
        } else if self.state() == LIQUID {
            self.particle_type.liquid_color
        } else {
            self.particle_type.solid_color
        }
    }

    /// One channel of the base colour, premultiplied by its alpha.
    pub open spec fn premultiplied(&self, channel: int) -> int {
        self.base_color()[channel] as int * self.base_color()[3] as int / 255
    }

    /// One channel of the rendered colour: premultiplied base, plus glow, plus
    /// the noise offset around 128, held within a byte.
    pub open spec fn channel(&self, channel: int) -> int {
        clamp_to_byte(
            self.premultiplied(channel) + emission(self.temperature(), channel)
                + self.color_noise as int - 128,
        )
    }

    /// The rendered colour as red, green, blue.
    pub open spec fn color(&self) -> Seq<u8> {
        seq![self.channel(0) as u8, self.channel(1) as u8, self.channel(2) as u8]
    }

    /// Computes one channel of [`Particle::color`].
    fn shade(&self, base: &[u8; 4], temperature: u32, row: usize, channel: usize) -> (c: u8)
        requires
            self.valid(),
            *base == self.base_color(),
            temperature == self.temperature(),
            row == blackbody_index(temperature as int),
            channel < 3,
        ensures
            c == self.channel(channel as int),
    {
        let tint: u32 = base[channel] as u32;
        let alpha: u32 = base[3] as u32;
        assert(tint * alpha <= 255 * 255) by (nonlinear_arith)
            requires
                tint <= 255,
                alpha <= 255,
        ;
        let mut value: i64 = ((tint * alpha) / 255) as i64;
        if temperature > 600 {
            let glow: u64 = BLACKBODY[row][channel] as u64;
            assert(glow * temperature <= 255 * 0xffff_ffff) by (nonlinear_arith)
                requires
                    glow <= 255,
                    temperature <= 0xffff_ffff,
            ;
            value = value + ((glow * temperature as u64) / 3000) as i64;
        }
        value = value + self.color_noise as i64 - 128;
        if value < 0 {
            0
        } else if value > 255 {
            255
        } else {
            value as u8
        }
    }

    /// The colour with which the cell is drawn. The cell is not changed.
    pub fn get_color(&self) -> (rgb: [u8; 3])
        requires
            self.valid(),
        ensures
            rgb@ == self.color(),
    {
        let state = self.get_state();
        let base: [u8; 4] = if state == GAS {
            self.particle_type.vapor_color
        } else if state == LIQUID {
            self.particle_type.liquid_color
        } else {
            self.particle_type.solid_color
        };
        let temperature: u32 = self.get_temperature();
        let row: usize = if temperature < 1000 {
            0
        } else if temperature >= 7800 {
            36
        } else {
            ((temperature - 800) / 200) as usize
        };
        let red = self.shade(&base, temperature, row, 0);
        let green = self.shade(&base, temperature, row, 1);
        let blue = self.shade(&base, temperature, row, 2);
        [red, green, blue]
    }
}

/// The colour is a function of material, temperature and noise alone: two
/// cells that agree on these are drawn alike, whatever their energies.
pub proof fn color_depends_on_temperature(p: Particle, q: Particle)
    requires
        p.particle_type == q.particle_type,
        p.temperature() == q.temperature(),
        p.color_noise == q.color_noise,
    ensures
        p.color() == q.color(),
{
}

/// Up to 600 K nothing glows: the colour is the premultiplied base colour
/// shifted by the noise offset.
pub proof fn cold_color_is_base_plus_noise(p: Particle, channel: int)
    requires
        p.temperature() <= 600,
    ensures
        p.channel(channel) == clamp_to_byte(
            p.premultiplied(channel) + p.color_noise as int - 128,
        ),
{
}

} // verus!
