//! The `Chsv` pixel type and the HSV/RGB conversions.
//!
//! The conversions follow FastLED's plain-C arithmetic bit for bit: the
//! "rainbow" hue mapping (even visual spacing, boosted yellow), the plain
//! "spectrum" ramp mapping, and an approximate RGB-to-HSV inverse.

use vstd::prelude::*;
use crate::math8::{
    isqrt16_of, qadd8, qadd8_of, qsub8, qsub8_of, scale8, scale8_of, scale8_video, scale8_video_of,
    sqrt16,
};
use crate::math8::{lemma_u16_low_byte, lemma_u32_low_byte};
use crate::rgb::Crgb;

verus! {

/// An 8-bit HSV pixel: hue, saturation and value, each `0..=255`.
#[derive(Debug, Clone, Copy, PartialEq, Eq, Structural)]
pub struct Chsv {
    pub hue: u8,
    pub sat: u8,
    pub val: u8,
}

impl Chsv {
    /// Builds a [`Chsv`] from its components.
    pub fn new(hue: u8, sat: u8, val: u8) -> (c: Self)
        ensures
            c == (Chsv { hue, sat, val }),
    {
        Chsv { hue, sat, val }
    }

    /// Builds a fully-saturated, full-brightness [`Chsv`] from just a hue.
    pub fn from_hue(hue: u8) -> (c: Self)
        ensures
            c == (Chsv { hue, sat: 255, val: 255 }),
    {
        Self::new(hue, 255, 255)
    }
}

impl Default for Chsv {
    /// Hue, saturation and value all zero.
    fn default() -> (c: Chsv)
        ensures
            c == (Chsv { hue: 0, sat: 0, val: 0 }),
    {
        Chsv { hue: 0, sat: 0, val: 0 }
    }
}

/// Byte addition modulo 256.
pub open spec fn add8w(a: int, b: int) -> u8 {
    ((a + b) % 256) as u8
}

// ---------------------------------------------------------------------------
// The "rainbow" mapping
// ---------------------------------------------------------------------------

/// The fully saturated, full-brightness color of `hue` on the rainbow wheel.
///
/// The wheel is cut into eight sections of 32 hues (red, orange, yellow,
/// green, aqua, blue, purple, pink); within a section the color moves
/// linearly toward the next section's, in thirds of the section's span.
/// Yellow sits higher than a plain ramp would put it.
pub open spec fn rainbow_wheel(hue: u8) -> (u8, u8, u8) {
    let offset8 = ((hue % 32) * 8) as u8;
    let third = scale8_of(offset8, 85) as int;
    let twothirds = scale8_of(offset8, 170) as int;
    let section = hue / 32;
    if section == 0 {
        ((255 - third) as u8, third as u8, 0u8)
    } else if section == 1 {
        (171u8, (85 + third) as u8, 0u8)
    } else if section == 2 {
        ((171 - twothirds) as u8, (170 + third) as u8, 0u8)
    } else if section == 3 {
        (0u8, (255 - third) as u8, third as u8)
    } else if section == 4 {
        (0u8, (171 - twothirds) as u8, (85 + twothirds) as u8)
    } else if section == 5 {
        (third as u8, 0u8, (255 - third) as u8)
    } else if section == 6 {
        ((85 + third) as u8, 0u8, (171 - third) as u8)
    } else {
        ((170 + third) as u8, 0u8, (85 - third) as u8)
    }
}

/// The "desaturation" amount for saturation `sat`: a gamma-like curve of
/// `255 - sat`.
pub open spec fn rainbow_desat(sat: u8) -> u8 {
    scale8_video_of((255 - sat) as u8, (255 - sat) as u8)
}

/// A wheel channel after saturation `sat` is applied: full saturation keeps
/// it, zero saturation turns it white, anything between scales it down and
/// lifts it by a brightness floor.
pub open spec fn rainbow_saturate(c: u8, sat: u8) -> u8 {
    if sat == 255 {
        c
    } else if sat == 0 {
        255
    } else {
        let desat = rainbow_desat(sat);
        add8w(scale8_of(c, (255 - desat) as u8) as int, desat as int)
    }
}

/// A channel after value `val` is applied: scaled by a gamma-like curve of
/// `val`.
pub open spec fn rainbow_dim(c: u8, val: u8) -> u8 {
    if val == 255 {
        c
    } else {
        scale8_of(c, scale8_video_of(val, val))
    }
}

/// One channel of the rainbow conversion.
pub open spec fn rainbow_channel(c: u8, sat: u8, val: u8) -> u8 {
    rainbow_dim(rainbow_saturate(c, sat), val)
}

/// The "rainbow" RGB color of an HSV pixel.
pub open spec fn rainbow_rgb(hsv: Chsv) -> Crgb {
    let w = rainbow_wheel(hsv.hue);
    Crgb {
        r: rainbow_channel(w.0, hsv.sat, hsv.val),
        g: rainbow_channel(w.1, hsv.sat, hsv.val),
        b: rainbow_channel(w.2, hsv.sat, hsv.val),
    }
}

/// The bit tests of the rainbow conversion, read as sections of the wheel.
proof fn lemma_hue_bits(hue: u8)
    ensures
        hue & 0x1f == hue % 32,
        ((hue & 0x1f) << 3) as int == (hue % 32) * 8,
        (hue & 0x80 == 0) == (hue / 32 < 4),
        (hue & 0x40 == 0) == ((hue / 32) % 4 < 2),
        (hue & 0x20 == 0) == ((hue / 32) % 2 == 0),
{
    assert(hue & 0x1f == hue % 32) by (bit_vector);
    assert(((hue & 0x1f) << 3) == (hue % 32) * 8) by (bit_vector);
    assert((hue & 0x80 == 0) == (hue / 32 < 4)) by (bit_vector);
    assert((hue & 0x40 == 0) == ((hue / 32) % 4 < 2)) by (bit_vector);
    assert((hue & 0x20 == 0) == ((hue / 32) % 2 == 0)) by (bit_vector);
}

/// The saturation stage of the rainbow conversion for one channel.
fn rainbow_saturate_exec(c: u8, sat: u8) -> (out: u8)
    requires
        sat != 255,
        sat != 0,
    ensures
        out == rainbow_saturate(c, sat),
{
    let mut desat = 255 - sat;
    desat = scale8_video(desat, desat);
    let satscale = 255 - desat;
    let brightness_floor = desat;
    scale8(c, satscale).wrapping_add(brightness_floor)
}

/// Converts an HSV pixel to RGB using FastLED's "rainbow" hue mapping:
/// visually even hue spacing, with yellow boosted so it doesn't look dim
/// relative to the other primaries.
#[verifier::rlimit(30)]
pub fn hsv2rgb_rainbow(hsv: Chsv) -> (c: Crgb)
    ensures
        c == rainbow_rgb(hsv),
{
    let hue = hsv.hue;
    let sat = hsv.sat;
    let val = hsv.val;

    let offset = hue & 0x1F;
    let offset8 = offset << 3;
    proof {
        lemma_hue_bits(hue);
    }

    // 256 / 3 and 2 * 256 / 3, as fractions of 256.
    let third = scale8(offset8, 85);
    let twothirds = scale8(offset8, 170);

    let mut r: u8;
    let mut g: u8;
    let mut b: u8;

    if hue & 0x80 == 0 {
        if hue & 0x40 == 0 {
            if hue & 0x20 == 0 {
                // red -> orange
                r = 255 - third;
                g = third;
                b = 0;
            } else {
                // orange -> yellow
                r = 171;
                g = 85 + third;
                b = 0;
            }
        } else {
            if hue & 0x20 == 0 {
                // yellow -> green
                r = 171 - twothirds;
                g = 170 + third;
                b = 0;
            } else {
                // green -> aqua
                r = 0;
                g = 255 - third;
                b = third;
            }
        }
    } else {
        if hue & 0x40 == 0 {
            if hue & 0x20 == 0 {
                // aqua -> blue
                r = 0;
                g = 171 - twothirds;
                b = 85 + twothirds;
            } else {
                // blue -> purple
                r = third;
                g = 0;
                b = 255 - third;
            }
        } else if hue & 0x20 == 0 {
            // purple -> pink
            r = 85 + third;
            g = 0;
            b = 171 - third;
        } else {
            // pink -> red
            r = 170 + third;
            g = 0;
            b = 85 - third;
        }
    }
    assert((r, g, b) == rainbow_wheel(hue));

    // Scale down if desaturated at all, and lift by the brightness floor.
    if sat != 255 {
        if sat == 0 {
            r = 255;
            g = 255;
            b = 255;
        } else {
            r = rainbow_saturate_exec(r, sat);
            g = rainbow_saturate_exec(g, sat);
            b = rainbow_saturate_exec(b, sat);
        }
    }
    // Scale everything down if value < 255.
    if val != 255 {
        let val = scale8_video(val, val);
        if val == 0 {
            assert(scale8_of(r, 0) == 0 && scale8_of(g, 0) == 0 && scale8_of(b, 0) == 0);
            r = 0;
            g = 0;
            b = 0;
        } else {
            r = scale8(r, val);
            g = scale8(g, val);
            b = scale8(b, val);
        }
    }
    Crgb::new(r, g, b)
}

impl From<Chsv> for Crgb {
    /// Converts via [`hsv2rgb_rainbow`].
    fn from(hsv: Chsv) -> (c: Crgb) {
        hsv2rgb_rainbow(hsv)
    }
}

impl vstd::std_specs::convert::FromSpecImpl<Chsv> for Crgb {
    open spec fn obeys_from_spec() -> bool {
        true
    }

    open spec fn from_spec(hsv: Chsv) -> Crgb {
        rainbow_rgb(hsv)
    }
}

// ---------------------------------------------------------------------------
// The "spectrum" mapping
// ---------------------------------------------------------------------------

/// The plain ramp color of `hue` (three sections of 64 hues, red to green to
/// blue and back), at saturation `sat` and value `val`: a brightness floor
/// of `val * (255 - sat) / 256`, plus the remaining amplitude ramped up or
/// down across the section.
pub open spec fn ramp_rgb(hue: u8, sat: u8, val: u8) -> Crgb {
    let floor = (val * (255 - sat)) / 256;
    let amp = val - floor;
    let offset = hue % 64;
    let up = (offset * amp) / 64 + floor;
    let down = ((63 - offset) * amp) / 64 + floor;
    let section = hue / 64;
    if section == 0 {
        Crgb { r: down as u8, g: up as u8, b: floor as u8 }
    } else if section == 1 {
        Crgb { r: floor as u8, g: down as u8, b: up as u8 }
    } else {
        Crgb { r: up as u8, g: floor as u8, b: down as u8 }
    }
}

/// The "spectrum" RGB color of an HSV pixel: the hue is first compressed
/// into the three ramp sections by `scale8(hue, 191)`.
pub open spec fn spectrum_rgb(hsv: Chsv) -> Crgb {
    ramp_rgb(scale8_of(hsv.hue, 191), hsv.sat, hsv.val)
}

/// The plain ramp-based HSV-to-RGB conversion (`hsv2rgb_raw_C`): visually
/// less even than [`hsv2rgb_rainbow`], but simpler.
#[verifier::rlimit(30)]
fn hsv2rgb_raw_c(hue: u8, sat: u8, val: u8) -> (c: Crgb)
    ensures
        c == ramp_rgb(hue, sat, val),
{
    let value = val;
    let saturation = sat;

    let invsat = 255 - saturation;
    assert((value as int * invsat as int) / 256 <= value as int) by (nonlinear_arith)
        requires
            0 <= value <= 255,
            0 <= invsat <= 255,
    ;
    let brightness_floor = ((value as u16 * invsat as u16) / 256) as u8;

    let color_amplitude = value.wrapping_sub(brightness_floor);

    let section = hue / 0x40;
    let offset = hue % 0x40;

    let rampup = offset;
    let rampdown = (0x40 - 1) - offset;

    assert((rampup as int * color_amplitude as int) / 64 <= color_amplitude as int)
        by (nonlinear_arith)
        requires
            0 <= rampup < 64,
            0 <= color_amplitude <= 255,
    ;
    assert((rampdown as int * color_amplitude as int) / 64 <= color_amplitude as int)
        by (nonlinear_arith)
        requires
            0 <= rampdown < 64,
            0 <= color_amplitude <= 255,
    ;
    let rampup_amp_adj = ((rampup as u16 * color_amplitude as u16) / (256 / 4)) as u8;
    let rampdown_amp_adj = ((rampdown as u16 * color_amplitude as u16) / (256 / 4)) as u8;

    let rampup_adj_with_floor = rampup_amp_adj.wrapping_add(brightness_floor);
    let rampdown_adj_with_floor = rampdown_amp_adj.wrapping_add(brightness_floor);

    if section != 0 {
        if section == 1 {
            Crgb::new(brightness_floor, rampdown_adj_with_floor, rampup_adj_with_floor)
        } else {
            Crgb::new(rampup_adj_with_floor, brightness_floor, rampdown_adj_with_floor)
        }
    } else {
        Crgb::new(rampdown_adj_with_floor, rampup_adj_with_floor, brightness_floor)
    }
}

/// Converts an HSV pixel to RGB using FastLED's "spectrum" hue mapping:
/// evenly-spaced hue with no yellow boost, unlike [`hsv2rgb_rainbow`].
pub fn hsv2rgb_spectrum(hsv: Chsv) -> (c: Crgb)
    ensures
        c == spectrum_rgb(hsv),
{
    let hue2 = scale8(hsv.hue, 191);
    hsv2rgb_raw_c(hue2, hsv.sat, hsv.val)
}

// ---------------------------------------------------------------------------
// Approximate RGB -> HSV
// ---------------------------------------------------------------------------

/// The fixed-point fraction `n / d` as a scale factor (`n * 256 / d`).
pub open spec fn fixfrac8_of(n: int, d: int) -> u8 {
    ((n * 256) / d) as u8
}

/// `FIXFRAC8(n, d)`: the scale factor for the fraction `n / d`.
fn fixfrac8(n: u16, d: u16) -> (r: u8)
    requires
        n < 256,
        d > 0,
        (n * 256) / (d as int) < 256,
    ensures
        r == fixfrac8_of(n as int, d as int),
{
    ((n * 256) / d) as u8
}

/// The smallest of three bytes.
pub open spec fn min3(a: u8, b: u8, c: u8) -> u8 {
    if a <= b && a <= c {
        a
    } else if b <= c {
        b
    } else {
        c
    }
}

/// Saturation as reported for a color whose smallest channel is `desat`:
/// `255 - sqrt(desat * 256)`, undoing the dimming curve the forward
/// conversion applies; exactly 255 when `desat` is zero.
pub open spec fn approx_sat(desat: u8) -> u8 {
    if desat == 0 {
        255
    } else {
        (255 - isqrt16_of((desat * 256) as u16)) as u8
    }
}

/// A channel multiplied by `65535 / d` and divided by 256, truncated to a
/// byte.
pub open spec fn boosted(c: u8, d: int) -> u8 {
    (((c * (65535int / d)) / 256) % 256) as u8
}

/// The hue estimate for channels `r`, `g`, `b` (at least one of them zero),
/// from which channel dominates and how the other two compare.
pub open spec fn approx_hue(r: u8, g: u8, b: u8) -> u8 {
    add8w(approx_hue_base(r, g, b), 1)
}

/// The hue estimate before its final increment: a base hue for the
/// dominant pair of channels plus a scaled offset within it.
pub open spec fn approx_hue_base(r: u8, g: u8, b: u8) -> int {
    if r >= g && r >= b {
        red_dominant_hue(r, g)
    } else if g >= b {
        green_dominant_hue(r, g, b)
    } else {
        blue_dominant_hue(r, b)
    }
}

/// Red is highest: purple/pink-red, red-orange or orange-yellow.
pub open spec fn red_dominant_hue(r: u8, g: u8) -> int {
    if g == 0 {
        (192 + 224) / 2 + scale8_of(qsub8_of(r, 128), fixfrac8_of(48, 128))
    } else if r - g > g {
        0 + scale8_of(g, fixfrac8_of(32, 85))
    } else {
        32 + scale8_of(qsub8_of(((g - 85 + 171 - r) % 256) as u8, 4), fixfrac8_of(32, 85))
    }
}

/// Green is highest: yellow-green or green-aqua.
pub open spec fn green_dominant_hue(r: u8, g: u8, b: u8) -> int {
    if b == 0 {
        64 + add8w(
            scale8_of(qsub8_of(171, r), 47) as int,
            scale8_of(qsub8_of(g, 171), 96) as int,
        ) / 2
    } else if g - b > b {
        96 + scale8_of(b, fixfrac8_of(32, 85))
    } else {
        128 + scale8_of(qsub8_of(b, 85), fixfrac8_of(8, 42))
    }
}

/// Blue is highest: aqua/blue-blue, blue-purple or purple-pink.
pub open spec fn blue_dominant_hue(r: u8, b: u8) -> int {
    if r == 0 {
        128 + (160 - 128) / 4 + scale8_of(qsub8_of(b, 128), fixfrac8_of(24, 128))
    } else if b - r > r {
        160 + scale8_of(r, fixfrac8_of(32, 85))
    } else {
        192 + scale8_of(qsub8_of(r, 85), fixfrac8_of(32, 85))
    }
}

/// The value estimate, from the smallest channel `desat` and the channel
/// total `total` (a zero total counted as one).
pub open spec fn approx_val(desat: u8, total: int) -> u8 {
    if total > 255 {
        255
    } else {
        let v = qadd8_of(desat, total as u8);
        if v != 255 {
            isqrt16_of((v * 256) as u16)
        } else {
            v
        }
    }
}

/// FastLED's `rgb2hsv_approximate`: remove the gray component, scale the
/// remaining color up to compensate for desaturation and for low values,
/// then read hue off the dominant channel.
pub open spec fn approx_hsv(c: Crgb) -> Chsv {
    let desat = min3(c.r, c.g, c.b);
    let r1 = (c.r - desat) as u8;
    let g1 = (c.g - desat) as u8;
    let b1 = (c.b - desat) as u8;
    let s = approx_sat(desat);
    if r1 + g1 + b1 == 0 {
        Chsv { hue: 0, sat: 0, val: (255 - s) as u8 }
    } else {
        let d: int = if s == 0 {
            1
        } else {
            s as int
        };
        let r2 = if s < 255 { boosted(r1, d) } else { r1 };
        let g2 = if s < 255 { boosted(g1, d) } else { g1 };
        let b2 = if s < 255 { boosted(b1, d) } else { b1 };
        let total0 = r2 + g2 + b2;
        let total: int = if total0 == 0 {
            1
        } else {
            total0
        };
        let r3 = if total0 < 255 { boosted(r2, total) } else { r2 };
        let g3 = if total0 < 255 { boosted(g2, total) } else { g2 };
        let b3 = if total0 < 255 { boosted(b2, total) } else { b2 };
        Chsv { hue: approx_hue(r3, g3, b3), sat: d as u8, val: approx_val(desat, total) }
    }
}

/// `c * (65535 / d) / 256`, truncated to a byte.
fn boost(c: u8, d: u32) -> (out: u8)
    requires
        0 < d <= 765,
    ensures
        out == boosted(c, d as int),
{
    let scaleup = 65535u32 / d;
    assert(c as int * scaleup as int <= 255 * 65535) by (nonlinear_arith)
        requires
            0 <= c <= 255,
            0 <= scaleup <= 65535,
    ;
    let x = (c as u32 * scaleup) / 256;
    proof {
        lemma_u32_low_byte(x);
    }
    x as u8
}

#[verifier::rlimit(30)]
fn red_dominant_hue_exec(r: u8, g: u8) -> (h: u16)
    ensures
        h == red_dominant_hue(r, g),
{
    let mut h: u16;
    if g == 0 {
        h = (192 + 224) / 2;
        h += scale8(qsub8(r, 128), fixfrac8(48, 128)) as u16;
    } else if (r as i32 - g as i32) > g as i32 {
        h = 0;
        h += scale8(g, fixfrac8(32, 85)) as u16;
    } else {
        h = 32;
        // `(g - 85) + (171 - r)` narrowed to a byte, i.e. taken modulo
        // 256; this wraps when `r > 171` or `g < 85`.
        let inner = g.wrapping_sub(85).wrapping_add(171u8.wrapping_sub(r));
        h += scale8(qsub8(inner, 4), fixfrac8(32, 85)) as u16;
    }
    h
}

#[verifier::rlimit(30)]
fn green_dominant_hue_exec(r: u8, g: u8, b: u8) -> (h: u16)
    ensures
        h == green_dominant_hue(r, g, b),
{
    let mut h: u16;
    if b == 0 {
        h = 64;
        let radj = scale8(qsub8(171, r), 47);
        let gadj = scale8(qsub8(g, 171), 96);
        let rgadj = radj.wrapping_add(gadj);
        let hueadv = rgadj / 2;
        h += hueadv as u16;
    } else if (g as i32 - b as i32) > b as i32 {
        h = 96;
        h += scale8(b, fixfrac8(32, 85)) as u16;
    } else {
        h = 128;
        h += scale8(qsub8(b, 85), fixfrac8(8, 42)) as u16;
    }
    h
}

#[verifier::rlimit(30)]
fn blue_dominant_hue_exec(r: u8, b: u8) -> (h: u16)
    ensures
        h == blue_dominant_hue(r, b),
{
    let mut h: u16;
    if r == 0 {
        h = 128 + (160 - 128) / 4;
        h += scale8(qsub8(b, 128), fixfrac8(24, 128)) as u16;
    } else if (b as i32 - r as i32) > r as i32 {
        h = 160;
        h += scale8(r, fixfrac8(32, 85)) as u16;
    } else {
        h = 192;
        h += scale8(qsub8(r, 85), fixfrac8(32, 85)) as u16;
    }
    h
}

/// The hue estimate, computed.
fn approx_hue_exec(r: u8, g: u8, b: u8) -> (hue: u8)
    ensures
        hue == approx_hue(r, g, b),
{
    // Start with which channel is highest (ties don't matter).
    let mut highest = r;
    if g > highest {
        highest = g;
    }
    if b > highest {
        highest = b;
    }

    let h: u16 = if highest == r {
        red_dominant_hue_exec(r, g)
    } else if highest == g {
        green_dominant_hue_exec(r, g, b)
    } else {
        blue_dominant_hue_exec(r, b)
    };
    proof {
        lemma_u16_low_byte(h);
    }
    (h as u8).wrapping_add(1)
}

/// The saturation estimate, computed.
fn approx_sat_exec(desat: u8) -> (s: u8)
    ensures
        s == approx_sat(desat),
{
    // saturation is opposite of desaturation
    let mut s = 255 - desat;
    if s != 255 {
        // undo 'dimming' of saturation
        s = 255 - sqrt16((255 - s) as u16 * 256);
    }
    s
}

/// The value estimate, computed.
fn approx_val_exec(desat: u8, total: u16) -> (v: u8)
    requires
        total <= 765,
    ensures
        v == approx_val(desat, total as int),
{
    if total > 255 {
        255
    } else {
        let mut v = qadd8(desat, total as u8);
        if v != 255 {
            v = sqrt16(v as u16 * 256);
        }
        v
    }
}

/// Approximates the HSV value of an RGB pixel. This is the inverse of
/// [`hsv2rgb_rainbow`] only in the loosest sense: an approximation, not an
/// exact inverse. Includes FastLED 3.6.0's orange/yellow hue wraparound
/// (the narrowing of `(g - 85) + (171 - r)` to a byte).
#[verifier::rlimit(30)]
pub fn rgb2hsv_approximate(rgb: Crgb) -> (hsv: Chsv)
    ensures
        hsv == approx_hsv(rgb),
{
    let mut r = rgb.r;
    let mut g = rgb.g;
    let mut b = rgb.b;

    // find desaturation
    let mut desat = 255u8;
    if r < desat {
        desat = r;
    }
    if g < desat {
        desat = g;
    }
    if b < desat {
        desat = b;
    }
    assert(desat == min3(rgb.r, rgb.g, rgb.b));

    // remove saturation from all channels
    r = r.wrapping_sub(desat);
    g = g.wrapping_sub(desat);
    b = b.wrapping_sub(desat);

    let mut s = approx_sat_exec(desat);

    // a shade of gray
    if r as u16 + g as u16 + b as u16 == 0 {
        return Chsv::new(0, 0, 255 - s);
    }

    // scale all channels up to compensate for desaturation
    if s < 255 {
        if s == 0 {
            s = 1;
        }
        r = boost(r, s as u32);
        g = boost(g, s as u32);
        b = boost(b, s as u32);
    }

    // The clamped total, not the unclamped one, feeds the value below.
    let mut total = r as u16 + g as u16 + b as u16;

    // scale all channels up to compensate for low values
    if total < 255 {
        if total == 0 {
            total = 1;
        }
        r = boost(r, total as u32);
        g = boost(g, total as u32);
        b = boost(b, total as u32);
    }

    let v = approx_val_exec(desat, total);

    let h = approx_hue_exec(r, g, b);
    Chsv::new(h, s, v)
}

// ---------------------------------------------------------------------------
// Named hues
// ---------------------------------------------------------------------------

/// Pre-defined hue values for [`Chsv`], FastLED's `HSVHue`.
#[derive(Debug, Clone, Copy, PartialEq, Eq, Structural)]
pub enum HsvHue {
    /// Red (0)
    Red,
    /// Orange (32)
    Orange,
    /// Yellow (64)
    Yellow,
    /// Green (96)
    Green,
    /// Aqua (128)
    Aqua,
    /// Blue (160)
    Blue,
    /// Purple (192)
    Purple,
    /// Pink (224)
    Pink,
}

impl HsvHue {
    /// The hue byte of a named hue: its position on the wheel times 32.
    pub open spec fn hue_byte(self) -> u8 {
        match self {
            HsvHue::Red => 0,
            HsvHue::Orange => 32,
            HsvHue::Yellow => 64,
            HsvHue::Green => 96,
            HsvHue::Aqua => 128,
            HsvHue::Blue => 160,
            HsvHue::Purple => 192,
            HsvHue::Pink => 224,
        }
    }
}

impl From<HsvHue> for u8 {
    /// The hue byte of a named hue.
    fn from(hue: HsvHue) -> (v: u8) {
        match hue {
            HsvHue::Red => 0,
            HsvHue::Orange => 32,
            HsvHue::Yellow => 64,
            HsvHue::Green => 96,
            HsvHue::Aqua => 128,
            HsvHue::Blue => 160,
            HsvHue::Purple => 192,
            HsvHue::Pink => 224,
        }
    }
}

impl vstd::std_specs::convert::FromSpecImpl<HsvHue> for u8 {
    open spec fn obeys_from_spec() -> bool {
        true
    }

    open spec fn from_spec(hue: HsvHue) -> u8 {
        hue.hue_byte()
    }
}

} // verus!
