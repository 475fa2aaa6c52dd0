//! `HeatColor`: a black -> red -> yellow -> white heat ramp.

use vstd::prelude::*;
use crate::math8::{scale8_video, scale8_video_of};
use crate::rgb::Crgb;

verus! {

/// The heat ramp color of `temperature`: the temperature is first scaled to
/// `0..=191`, then split into three thirds of 64 units; within each third
/// one channel ramps up from 0 to 252 in steps of 4.
pub open spec fn heat_rgb(temperature: u8) -> Crgb {
    let t192 = scale8_video_of(temperature, 191);
    let heatramp = ((t192 % 64) * 4) as u8;
    if t192 >= 128 {
        Crgb { r: 255, g: 255, b: heatramp }
    } else if t192 >= 64 {
        Crgb { r: 255, g: heatramp, b: 0 }
    } else {
        Crgb { r: heatramp, g: 0, b: 0 }
    }
}

/// Maps a "heat" value (0 = black, 255 = white-hot) to a color along the
/// black -> red -> yellow -> white heat ramp used by fire effects.
pub fn heat_color(temperature: u8) -> (c: Crgb)
    ensures
        c == heat_rgb(temperature),
{
    // Scale 'heat' down from 0-255 to 0-191, which divides into three equal
    // 'thirds' of 64 units each.
    let t192 = scale8_video(temperature, 191);

    // A value that ramps up from zero to 252 in each 'third'.
    let heatramp = (t192 & 0x3F) << 2;
    assert(((t192 & 0x3F) << 2) == (t192 % 64) * 4) by (bit_vector);
    assert((t192 & 0x80 != 0) == (t192 >= 128)) by (bit_vector);
    assert((t192 & 0x40 != 0) == (t192 % 128 >= 64)) by (bit_vector);

    if t192 & 0x80 != 0 {
        // the hottest third
        Crgb::new(255, 255, heatramp)
    } else if t192 & 0x40 != 0 {
        // the middle third
        Crgb::new(255, heatramp, 0)
    } else {
        // the coolest third
        Crgb::new(heatramp, 0, 0)
    }
}

} // verus!
