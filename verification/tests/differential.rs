//! Differential tests: `color8` against a model of FastLED 3.6.0's C
//! arithmetic, written below in C style (integer promotion to `i32`,
//! narrowing by `as u8`/`as u16`), bit for bit.
//!
//! The HSV conversions are swept over all 2^24 inputs.

use color8::{
    Chsv, ChsvPalette16, ChsvPalette32, ChsvPalette256, ColorBlend, Crgb, CrgbPalette16,
    CrgbPalette32, CrgbPalette256, GradientDirection, color_from_palette16,
    color_from_palette16_hsv, color_from_palette32, color_from_palette32_hsv,
    color_from_palette256, color_from_palette256_hsv, heat_color, hsv2rgb_rainbow,
    hsv2rgb_spectrum, rgb2hsv_approximate,
};

// ---------------------------------------------------------------------------
// The C model
// ---------------------------------------------------------------------------

type Rgb = (u8, u8, u8);

fn c_scale8(i: u8, scale: u8) -> u8 {
    ((i as i32 * (1 + scale as i32)) >> 8) as u8
}

fn c_scale8_video(i: u8, scale: u8) -> u8 {
    let j = ((i as i32 * scale as i32) >> 8) as u8;
    j.wrapping_add(if i != 0 && scale != 0 { 1 } else { 0 })
}

fn c_qadd8(i: u8, j: u8) -> u8 {
    let t = i as i32 + j as i32;
    if t > 255 { 255 } else { t as u8 }
}

fn c_qsub8(i: u8, j: u8) -> u8 {
    let t = i as i32 - j as i32;
    if t < 0 { 0 } else { t as u8 }
}

fn c_qmul8(i: u8, j: u8) -> u8 {
    let p = i as i32 * j as i32;
    if p > 255 { 255 } else { p as u8 }
}

fn c_sqrt16(x: u16) -> u8 {
    let mut r: u32 = 0;
    while (r + 1) * (r + 1) <= x as u32 {
        r += 1;
    }
    r as u8
}

fn c_blend8(a: u8, b: u8, amount: u8) -> u8 {
    let mut partial: u16 = ((a as u16) << 8) | b as u16;
    partial = (partial as i32 + b as i32 * amount as i32) as u16;
    partial = (partial as i32 - a as i32 * amount as i32) as u16;
    (partial >> 8) as u8
}

fn c_hsv2rgb_rainbow(hue: u8, sat: u8, val: u8) -> Rgb {
    let offset = hue & 0x1F;
    let offset8 = offset << 3;
    let third = c_scale8(offset8, (256 / 3) as u8);
    let (mut r, mut g, mut b): (u8, u8, u8);
    if hue & 0x80 == 0 {
        if hue & 0x40 == 0 {
            if hue & 0x20 == 0 {
                r = (255 - third as i32) as u8;
                g = third;
                b = 0;
            } else {
                r = 171;
                g = (85 + third as i32) as u8;
                b = 0;
            }
        } else if hue & 0x20 == 0 {
            let twothirds = c_scale8(offset8, ((256 * 2) / 3) as u8);
            r = (171 - twothirds as i32) as u8;
            g = (170 + third as i32) as u8;
            b = 0;
        } else {
            r = 0;
            g = (255 - third as i32) as u8;
            b = third;
        }
    } else if hue & 0x40 == 0 {
        if hue & 0x20 == 0 {
            let twothirds = c_scale8(offset8, ((256 * 2) / 3) as u8);
            r = 0;
            g = (171 - twothirds as i32) as u8;
            b = (85 + twothirds as i32) as u8;
        } else {
            r = third;
            g = 0;
            b = (255 - third as i32) as u8;
        }
    } else if hue & 0x20 == 0 {
        r = (85 + third as i32) as u8;
        g = 0;
        b = (171 - third as i32) as u8;
    } else {
        r = (170 + third as i32) as u8;
        g = 0;
        b = (85 - third as i32) as u8;
    }
    if sat != 255 {
        if sat == 0 {
            r = 255;
            g = 255;
            b = 255;
        } else {
            let desat = c_scale8_video(255 - sat, 255 - sat);
            let satscale = 255 - desat;
            r = (c_scale8(r, satscale) as i32 + desat as i32) as u8;
            g = (c_scale8(g, satscale) as i32 + desat as i32) as u8;
            b = (c_scale8(b, satscale) as i32 + desat as i32) as u8;
        }
    }
    if val != 255 {
        let v = c_scale8_video(val, val);
        if v == 0 {
            r = 0;
            g = 0;
            b = 0;
        } else {
            r = c_scale8(r, v);
            g = c_scale8(g, v);
            b = c_scale8(b, v);
        }
    }
    (r, g, b)
}

fn c_hsv2rgb_raw(hue: u8, sat: u8, val: u8) -> Rgb {
    let invsat = 255 - sat as i32;
    let brightness_floor = ((val as i32 * invsat) / 256) as u8;
    let color_amplitude = (val as i32 - brightness_floor as i32) as u8;
    let section = hue / 0x40;
    let offset = hue % 0x40;
    let rampup = offset as i32;
    let rampdown = (0x40 - 1) - offset as i32;
    let rampup_amp_adj = ((rampup * color_amplitude as i32) / (256 / 4)) as u8;
    let rampdown_amp_adj = ((rampdown * color_amplitude as i32) / (256 / 4)) as u8;
    let up = (rampup_amp_adj as i32 + brightness_floor as i32) as u8;
    let down = (rampdown_amp_adj as i32 + brightness_floor as i32) as u8;
    if section != 0 {
        if section == 1 {
            (brightness_floor, down, up)
        } else {
            (up, brightness_floor, down)
        }
    } else {
        (down, up, brightness_floor)
    }
}

fn c_hsv2rgb_spectrum(hue: u8, sat: u8, val: u8) -> Rgb {
    c_hsv2rgb_raw(c_scale8(hue, 191), sat, val)
}

fn c_fixfrac8(n: i32, d: i32) -> u8 {
    ((n * 256) / d) as u8
}

fn c_rgb2hsv_approximate(r0: u8, g0: u8, b0: u8) -> (u8, u8, u8) {
    let (mut r, mut g, mut b) = (r0, g0, b0);
    let mut desat: u8 = 255;
    if r < desat {
        desat = r;
    }
    if g < desat {
        desat = g;
    }
    if b < desat {
        desat = b;
    }
    r = (r as i32 - desat as i32) as u8;
    g = (g as i32 - desat as i32) as u8;
    b = (b as i32 - desat as i32) as u8;
    let mut s: u8 = 255 - desat;
    if s != 255 {
        s = (255 - c_sqrt16(((255 - s as i32) * 256) as u16) as i32) as u8;
    }
    if r as i32 + g as i32 + b as i32 == 0 {
        return (0, 0, 255 - s);
    }
    if s < 255 {
        if s == 0 {
            s = 1;
        }
        let scaleup: u32 = 65535 / s as u32;
        r = ((r as u32 * scaleup) / 256) as u8;
        g = ((g as u32 * scaleup) / 256) as u8;
        b = ((b as u32 * scaleup) / 256) as u8;
    }
    let mut total: u16 = r as u16 + g as u16 + b as u16;
    if total < 255 {
        if total == 0 {
            total = 1;
        }
        let scaleup: u32 = 65535 / total as u32;
        r = ((r as u32 * scaleup) / 256) as u8;
        g = ((g as u32 * scaleup) / 256) as u8;
        b = ((b as u32 * scaleup) / 256) as u8;
    }
    let v: u8 = if total > 255 {
        255
    } else {
        let mut v = c_qadd8(desat, total as u8);
        if v != 255 {
            v = c_sqrt16(v as u16 * 256);
        }
        v
    };
    let mut highest = r;
    if g > highest {
        highest = g;
    }
    if b > highest {
        highest = b;
    }
    let mut h: i32;
    if highest == r {
        if g == 0 {
            h = (192 + 224) / 2;
            h += c_scale8(c_qsub8(r, 128), c_fixfrac8(48, 128)) as i32;
        } else if (r as i32 - g as i32) > g as i32 {
            h = 0;
            h += c_scale8(g, c_fixfrac8(32, 85)) as i32;
        } else {
            h = 32;
            let inner = (g as i32 - 85) + (171 - r as i32);
            h += c_scale8(c_qsub8(inner as u8, 4), c_fixfrac8(32, 85)) as i32;
        }
    } else if highest == g {
        if b == 0 {
            h = 64;
            let radj = c_scale8(c_qsub8(171, r), 47);
            let gadj = c_scale8(c_qsub8(g, 171), 96);
            let rgadj = (radj as i32 + gadj as i32) as u8;
            h += (rgadj / 2) as i32;
        } else if (g as i32 - b as i32) > b as i32 {
            h = 96;
            h += c_scale8(b, c_fixfrac8(32, 85)) as i32;
        } else {
            h = 128;
            h += c_scale8(c_qsub8(b, 85), c_fixfrac8(8, 42)) as i32;
        }
    } else if r == 0 {
        h = 128 + (160 - 128) / 4;
        h += c_scale8(c_qsub8(b, 128), c_fixfrac8(24, 128)) as i32;
    } else if (b as i32 - r as i32) > r as i32 {
        h = 160;
        h += c_scale8(r, c_fixfrac8(32, 85)) as i32;
    } else {
        h = 192;
        h += c_scale8(c_qsub8(r, 85), c_fixfrac8(32, 85)) as i32;
    }
    (((h as u8) as i32 + 1) as u8, s, v)
}

fn c_nblend_rgb(e: Rgb, o: Rgb, amount: u8) -> Rgb {
    if amount == 0 {
        return e;
    }
    if amount == 255 {
        return o;
    }
    (c_blend8(e.0, o.0, amount), c_blend8(e.1, o.1, amount), c_blend8(e.2, o.2, amount))
}

fn c_nblend_hsv(e: (u8, u8, u8), o: (u8, u8, u8), amount: u8, code: i32) -> (u8, u8, u8) {
    if amount == 0 {
        return e;
    }
    if amount == 255 {
        return o;
    }
    let keep = 255 - amount;
    let mut huedelta8 = (o.0 as i32 - e.0 as i32) as u8;
    let mut code = code;
    if code == 2 {
        code = 0;
        if huedelta8 > 127 {
            code = 1;
        }
    }
    if code == 3 {
        code = 0;
        if huedelta8 < 128 {
            code = 1;
        }
    }
    let hue = if code == 0 {
        (e.0 as i32 + c_scale8(huedelta8, amount) as i32) as u8
    } else {
        huedelta8 = (-(huedelta8 as i32)) as u8;
        (e.0 as i32 - c_scale8(huedelta8, amount) as i32) as u8
    };
    let sat = (c_scale8(e.1, keep) as i32 + c_scale8(o.1, amount) as i32) as u8;
    let val = (c_scale8(e.2, keep) as i32 + c_scale8(o.2, amount) as i32) as u8;
    (hue, sat, val)
}

fn c_fade_using_color(c: Rgb, mask: Rgb) -> Rgb {
    (c_scale8(c.0, mask.0), c_scale8(c.1, mask.1), c_scale8(c.2, mask.2))
}

fn c_fill_gradient_rgb2(num_leds: u16, c1: Rgb, c2: Rgb) -> Vec<Rgb> {
    let mut leds = vec![(0u8, 0u8, 0u8); num_leds as usize];
    let startpos: u16 = 0;
    let endpos: u16 = num_leds.wrapping_sub(1);
    let (sc, ec) = (c1, c2);
    let rdistance87 = ((ec.0 as i32 - sc.0 as i32) << 7) as i16;
    let gdistance87 = ((ec.1 as i32 - sc.1 as i32) << 7) as i16;
    let bdistance87 = ((ec.2 as i32 - sc.2 as i32) << 7) as i16;
    let pixeldistance: u16 = endpos.wrapping_sub(startpos);
    let divisor: i16 = if pixeldistance != 0 { pixeldistance as i16 } else { 1 };
    let mut rdelta87 = (rdistance87 as i32 / divisor as i32) as i16;
    let mut gdelta87 = (gdistance87 as i32 / divisor as i32) as i16;
    let mut bdelta87 = (bdistance87 as i32 / divisor as i32) as i16;
    rdelta87 = (rdelta87 as i32 * 2) as i16;
    gdelta87 = (gdelta87 as i32 * 2) as i16;
    bdelta87 = (bdelta87 as i32 * 2) as i16;
    let mut r88: u16 = (sc.0 as u16) << 8;
    let mut g88: u16 = (sc.1 as u16) << 8;
    let mut b88: u16 = (sc.2 as u16) << 8;
    let mut i = startpos as u32;
    while i <= endpos as u32 {
        leds[i as usize] = ((r88 >> 8) as u8, (g88 >> 8) as u8, (b88 >> 8) as u8);
        r88 = (r88 as i32 + rdelta87 as i32) as u16;
        g88 = (g88 as i32 + gdelta87 as i32) as u16;
        b88 = (b88 as i32 + bdelta87 as i32) as u16;
        i += 1;
    }
    leds
}

fn c_heat_color(temperature: u8) -> Rgb {
    let t192 = c_scale8_video(temperature, 191);
    let mut heatramp = t192 & 0x3F;
    heatramp = (heatramp as i32 * 4) as u8;
    if t192 & 0x80 != 0 {
        (255, 255, heatramp)
    } else if t192 & 0x40 != 0 {
        (255, heatramp, 0)
    } else {
        (heatramp, 0, 0)
    }
}

fn c_map8(index: u8, lo: u8, hi: u8) -> u8 {
    (c_scale8(index, hi - lo) as i32 + lo as i32) as u8
}

fn c_color_from_palette_rgb(pal: &[Rgb], index: u8, brightness: u8, blend: i32) -> Rgb {
    // 16 entries: nibble split; 32 entries: 5/3 split.
    let n = pal.len();
    let (hi, lo, f2, top): (usize, u8, u8, u8) = if n == 16 {
        let index = if blend == 2 { c_map8(index, 0, 239) } else { index };
        ((index >> 4) as usize, index & 0x0F, (index & 0x0F) << 4, 15)
    } else {
        let index = if blend == 2 { c_map8(index, 0, 247) } else { index };
        ((index >> 3) as usize, index & 0x07, (index & 0x07) << 5, 31)
    };
    let (mut red1, mut green1, mut blue1) = pal[hi];
    if lo != 0 && blend != 0 {
        let next = if hi == top as usize { 0 } else { hi + 1 };
        let f1 = 255 - f2;
        let (red2, green2, blue2) = pal[next];
        red1 = (c_scale8(red1, f1) as i32 + c_scale8(red2, f2) as i32) as u8;
        green1 = (c_scale8(green1, f1) as i32 + c_scale8(green2, f2) as i32) as u8;
        blue1 = (c_scale8(blue1, f1) as i32 + c_scale8(blue2, f2) as i32) as u8;
    }
    if brightness != 255 {
        if brightness != 0 {
            let b = brightness + 1;
            if red1 != 0 {
                red1 = c_scale8(red1, b);
            }
            if green1 != 0 {
                green1 = c_scale8(green1, b);
            }
            if blue1 != 0 {
                blue1 = c_scale8(blue1, b);
            }
        } else {
            red1 = 0;
            green1 = 0;
            blue1 = 0;
        }
    }
    (red1, green1, blue1)
}

fn c_color_from_palette256(pal: &[Rgb], index: u8, brightness: u8) -> Rgb {
    let (mut red, mut green, mut blue) = pal[index as usize];
    if brightness != 255 {
        let b = brightness + 1;
        red = c_scale8_video(red, b);
        green = c_scale8_video(green, b);
        blue = c_scale8_video(blue, b);
    }
    (red, green, blue)
}

fn c_color_from_palette_hsv(pal: &[(u8, u8, u8)], index: u8, brightness: u8, blend: i32) -> (u8, u8, u8) {
    let n = pal.len();
    let (hi, lo, f2, top): (usize, u8, u8, u8) = if n == 16 {
        let index = if blend == 2 { c_map8(index, 0, 239) } else { index };
        ((index >> 4) as usize, index & 0x0F, (index & 0x0F) << 4, 15)
    } else {
        let index = if blend == 2 { c_map8(index, 0, 247) } else { index };
        ((index >> 3) as usize, index & 0x07, (index & 0x07) << 5, 31)
    };
    let (mut hue1, mut sat1, mut val1) = pal[hi];
    if lo != 0 && blend != 0 {
        let next = if hi == top as usize { 0 } else { hi + 1 };
        let f1 = 255 - f2;
        let (mut hue2, mut sat2, mut val2) = pal[next];
        if sat1 == 0 || val1 == 0 {
            hue1 = hue2;
        }
        if sat2 == 0 || val2 == 0 {
            hue2 = hue1;
        }
        sat1 = c_scale8(sat1, f1);
        val1 = c_scale8(val1, f1);
        sat2 = c_scale8(sat2, f2);
        val2 = c_scale8(val2, f2);
        sat1 = (sat1 as i32 + sat2 as i32) as u8;
        val1 = (val1 as i32 + val2 as i32) as u8;
        let delta_hue = (hue2 as i32 - hue1 as i32) as u8;
        if delta_hue & 0x80 != 0 {
            hue1 = (hue1 as i32 - c_scale8((256 - delta_hue as i32) as u8, f2) as i32) as u8;
        } else {
            hue1 = (hue1 as i32 + c_scale8(delta_hue, f2) as i32) as u8;
        }
    }
    if brightness != 255 {
        val1 = c_scale8_video(val1, brightness);
    }
    (hue1, sat1, val1)
}

fn c_color_from_palette256_hsv(pal: &[(u8, u8, u8)], index: u8, brightness: u8) -> (u8, u8, u8) {
    let (hue, sat, mut val) = pal[index as usize];
    if brightness != 255 {
        val = c_scale8_video(val, brightness);
    }
    (hue, sat, val)
}

// ---------------------------------------------------------------------------
// HSV <-> RGB conversions, over the full 2^24 input domain
// ---------------------------------------------------------------------------

#[test]
fn hsv2rgb_rainbow_matches_reference_exhaustive() {
    for hue in 0..=255u8 {
        for sat in 0..=255u8 {
            for val in 0..=255u8 {
                let got = hsv2rgb_rainbow(Chsv::new(hue, sat, val));
                let want = c_hsv2rgb_rainbow(hue, sat, val);
                assert_eq!(
                    (got.r, got.g, got.b),
                    want,
                    "hsv2rgb_rainbow(hue={hue},sat={sat},val={val})"
                );
            }
        }
    }
}

#[test]
fn hsv2rgb_spectrum_matches_reference_exhaustive() {
    for hue in 0..=255u8 {
        for sat in 0..=255u8 {
            for val in 0..=255u8 {
                let got = hsv2rgb_spectrum(Chsv::new(hue, sat, val));
                let want = c_hsv2rgb_spectrum(hue, sat, val);
                assert_eq!(
                    (got.r, got.g, got.b),
                    want,
                    "hsv2rgb_spectrum(hue={hue},sat={sat},val={val})"
                );
            }
        }
    }
}

#[test]
fn rgb2hsv_approximate_matches_reference_exhaustive() {
    for r in 0..=255u8 {
        for g in 0..=255u8 {
            for b in 0..=255u8 {
                let got = rgb2hsv_approximate(Crgb::new(r, g, b));
                let want = c_rgb2hsv_approximate(r, g, b);
                assert_eq!(
                    (got.hue, got.sat, got.val),
                    want,
                    "rgb2hsv_approximate(r={r},g={g},b={b})"
                );
            }
        }
    }
}

// ---------------------------------------------------------------------------
// Crgb operators
// ---------------------------------------------------------------------------

/// A color whose channels are distinct bijective functions of `x`, so a
/// sweep over `x` drives each channel through every byte value.
fn spread_a(x: u8) -> Rgb {
    (x, x ^ 0x5A, x.wrapping_add(77))
}

fn spread_b(y: u8) -> Rgb {
    (y, y ^ 0x33, y.wrapping_add(140))
}

fn crgb(t: Rgb) -> Crgb {
    Crgb::new(t.0, t.1, t.2)
}

fn tuple(c: Crgb) -> Rgb {
    (c.r, c.g, c.b)
}

fn c_add(a: Rgb, b: Rgb) -> Rgb {
    (c_qadd8(a.0, b.0), c_qadd8(a.1, b.1), c_qadd8(a.2, b.2))
}

fn c_sub(a: Rgb, b: Rgb) -> Rgb {
    (c_qsub8(a.0, b.0), c_qsub8(a.1, b.1), c_qsub8(a.2, b.2))
}

fn c_and(a: Rgb, b: Rgb) -> Rgb {
    let m = |x: u8, y: u8| if y < x { y } else { x };
    (m(a.0, b.0), m(a.1, b.1), m(a.2, b.2))
}

fn c_or(a: Rgb, b: Rgb) -> Rgb {
    let m = |x: u8, y: u8| if y > x { y } else { x };
    (m(a.0, b.0), m(a.1, b.1), m(a.2, b.2))
}

fn c_scalar(a: Rgb, f: impl Fn(u8) -> u8) -> Rgb {
    (f(a.0), f(a.1), f(a.2))
}

#[test]
fn crgb_binary_operators_match_reference_exhaustive() {
    for x in 0..=255u8 {
        let a = spread_a(x);
        for y in 0..=255u8 {
            let b = spread_b(y);
            let (ca, cb) = (crgb(a), crgb(b));

            assert_eq!(tuple(ca + cb), c_add(a, b), "Crgb::add({a:?},{b:?})");
            assert_eq!(tuple(ca - cb), c_sub(a, b), "Crgb::sub({a:?},{b:?})");
            assert_eq!(tuple(ca & cb), c_and(a, b), "Crgb::bitand({a:?},{b:?})");
            assert_eq!(tuple(ca | cb), c_or(a, b), "Crgb::bitor({a:?},{b:?})");
            assert_eq!(
                tuple(ca.scale8_rgb(cb)),
                c_fade_using_color(a, b),
                "Crgb::scale8_rgb({a:?},{b:?})"
            );
        }
    }
}

#[test]
fn crgb_scalar_operators_match_reference_exhaustive() {
    for x in 0..=255u8 {
        let a = spread_a(x);
        let ca = crgb(a);

        assert_eq!(tuple(-ca), c_scalar(a, |v| 255 - v), "Crgb::neg({a:?})");

        for d in 0..=255u8 {
            assert_eq!(tuple(ca * d), c_scalar(a, |v| c_qmul8(v, d)), "Crgb::mul({a:?},{d})");

            // dividing by zero is out of the defined domain, in the C too
            if d != 0 {
                assert_eq!(tuple(ca / d), c_scalar(a, |v| v / d), "Crgb::div({a:?},{d})");
            }

            let mut scaled = ca;
            scaled.nscale8(d);
            assert_eq!(tuple(scaled), c_scalar(a, |v| c_scale8(v, d)), "Crgb::nscale8({a:?},{d})");

            let mut scaled_video = ca;
            scaled_video.nscale8_video(d);
            assert_eq!(
                tuple(scaled_video),
                c_scalar(a, |v| c_scale8_video(v, d)),
                "Crgb::nscale8_video({a:?},{d})"
            );

            // `%` is a synonym for nscale8_video.
            assert_eq!(
                tuple(ca % d),
                c_scalar(a, |v| c_scale8_video(v, d)),
                "Crgb::rem({a:?},{d})"
            );

            let mut added = ca;
            added.add_to_rgb(d);
            assert_eq!(tuple(added), c_scalar(a, |v| c_qadd8(v, d)), "Crgb::add_to_rgb({a:?},{d})");

            let mut subbed = ca;
            subbed.subtract_from_rgb(d);
            assert_eq!(
                tuple(subbed),
                c_scalar(a, |v| c_qsub8(v, d)),
                "Crgb::subtract_from_rgb({a:?},{d})"
            );

            let mut faded = ca;
            faded.fade_to_black_by(d);
            assert_eq!(
                tuple(faded),
                c_scalar(a, |v| c_scale8(v, 255 - d)),
                "Crgb::fade_to_black_by({a:?},{d})"
            );

            let mut faded_light = ca;
            faded_light.fade_light_by(d);
            assert_eq!(
                tuple(faded_light),
                c_scalar(a, |v| c_scale8_video(v, 255 - d)),
                "Crgb::fade_light_by({a:?},{d})"
            );
        }
    }
}

// ---------------------------------------------------------------------------
// blend / nblend
// ---------------------------------------------------------------------------

#[test]
fn blend8_full_range_matches_reference_exhaustive() {
    for a in 0..=255u8 {
        for b in 0..=255u8 {
            for amount in 0..=255u8 {
                assert_eq!(
                    lib8tion::blend8_8bit_full_range(a, b, amount),
                    c_blend8(a, b, amount),
                    "blend8_8bit_full_range({a},{b},{amount})"
                );
            }
        }
    }
}

#[test]
fn nblend_rgb_matches_reference_exhaustive() {
    for x in 0..=255u8 {
        let e = spread_a(x);
        for y in 0..=255u8 {
            let o = spread_b(y);
            for amount in [0u8, 1, 2, 127, 128, 129, 253, 254, 255] {
                let mut got = crgb(e);
                color8::nblend(&mut got, crgb(o), amount);
                assert_eq!(tuple(got), c_nblend_rgb(e, o, amount), "nblend({e:?},{o:?},{amount})");
            }
        }
    }

    for amount in 0..=255u8 {
        for x in [0u8, 1, 63, 127, 128, 200, 254, 255] {
            let e = spread_a(x);
            let o = spread_b(x.wrapping_mul(7).wrapping_add(31));
            let mut got = crgb(e);
            color8::nblend(&mut got, crgb(o), amount);
            assert_eq!(tuple(got), c_nblend_rgb(e, o, amount), "nblend({e:?},{o:?},{amount})");
        }
    }
}

#[test]
fn nblend_hsv_matches_reference_exhaustive() {
    let directions = [
        (GradientDirection::Forward, 0i32),
        (GradientDirection::Backward, 1),
        (GradientDirection::Shortest, 2),
        (GradientDirection::Longest, 3),
    ];

    for (dir, code) in directions {
        for eh in 0..=255u8 {
            for oh in 0..=255u8 {
                for amount in [0u8, 1, 127, 128, 254, 255] {
                    let e = Chsv::new(eh, 200, 100);
                    let o = Chsv::new(oh, 50, 240);

                    let mut got = e;
                    color8::nblend_hsv(&mut got, o, amount, dir);

                    let want = c_nblend_hsv((e.hue, e.sat, e.val), (o.hue, o.sat, o.val), amount, code);
                    assert_eq!(
                        (got.hue, got.sat, got.val),
                        want,
                        "nblend_hsv(h={eh}->{oh}, amount={amount}, dir={code})"
                    );
                }
            }
        }

        for es in [0u8, 1, 128, 254, 255] {
            for os in [0u8, 1, 128, 254, 255] {
                for ev in [0u8, 1, 128, 254, 255] {
                    for ov in [0u8, 1, 128, 254, 255] {
                        for amount in 0..=255u8 {
                            let e = Chsv::new(37, es, ev);
                            let o = Chsv::new(211, os, ov);

                            let mut got = e;
                            color8::nblend_hsv(&mut got, o, amount, dir);

                            let want = c_nblend_hsv(
                                (e.hue, e.sat, e.val),
                                (o.hue, o.sat, o.val),
                                amount,
                                code,
                            );
                            assert_eq!(
                                (got.hue, got.sat, got.val),
                                want,
                                "nblend_hsv(sat {es}->{os}, val {ev}->{ov}, amount={amount}, dir={code})"
                            );
                        }
                    }
                }
            }
        }
    }
}

#[test]
fn fade_using_color_matches_reference_exhaustive() {
    for x in 0..=255u8 {
        let c = spread_a(x);
        for y in 0..=255u8 {
            let mask = spread_b(y);
            let mut leds = [crgb(c)];
            color8::fade_using_color(&mut leds, crgb(mask));
            assert_eq!(
                tuple(leds[0]),
                c_fade_using_color(c, mask),
                "fade_using_color({c:?},{mask:?})"
            );
        }
    }
}

// ---------------------------------------------------------------------------
// fill_gradient_RGB
// ---------------------------------------------------------------------------

#[test]
fn fill_gradient_rgb_matches_reference() {
    let colors = [
        (0u8, 0u8, 0u8),
        (255, 255, 255),
        (255, 0, 0),
        (0, 255, 0),
        (0, 0, 255),
        (1, 2, 3),
        (254, 253, 252),
        (128, 64, 192),
        (17, 200, 91),
        (0, 0, 58),
        (0, 0, 73),
    ];

    // 322 is where a short ramp (blue 58 -> 73) truncates its 8.7
    // fixed-point step hard enough to stop 3 short of the end color.
    for num_leds in [1u16, 2, 3, 4, 5, 7, 8, 16, 17, 60, 144, 255, 256, 300, 322, 1000] {
        for &c1 in &colors {
            for &c2 in &colors {
                let mut leds = vec![Crgb::default(); num_leds as usize];
                color8::fill_gradient_rgb(&mut leds, crgb(c1), crgb(c2));

                let want = c_fill_gradient_rgb2(num_leds, c1, c2);
                let got: Vec<_> = leds.iter().copied().map(tuple).collect();

                assert_eq!(got, want, "fill_gradient_rgb(n={num_leds},{c1:?},{c2:?})");
            }
        }
    }
}

// ---------------------------------------------------------------------------
// HeatColor
// ---------------------------------------------------------------------------

#[test]
fn heat_color_matches_reference_exhaustive() {
    for temperature in 0..=255u8 {
        let got = tuple(heat_color(temperature));
        let want = c_heat_color(temperature);
        assert_eq!(got, want, "heat_color(temperature={temperature})");
    }
}

// ---------------------------------------------------------------------------
// ColorFromPalette
// ---------------------------------------------------------------------------

fn make_palette16(seed: u8) -> [Crgb; 16] {
    core::array::from_fn(|i| {
        let i = i as u8;
        Crgb::new(
            i.wrapping_mul(17).wrapping_add(seed),
            i.wrapping_mul(53).wrapping_add(seed).wrapping_add(1),
            i.wrapping_mul(101).wrapping_add(seed).wrapping_add(2),
        )
    })
}

fn make_palette32(seed: u8) -> [Crgb; 32] {
    core::array::from_fn(|i| {
        let i = i as u8;
        Crgb::new(
            i.wrapping_mul(7).wrapping_add(seed),
            i.wrapping_mul(31).wrapping_add(seed).wrapping_add(1),
            i.wrapping_mul(61).wrapping_add(seed).wrapping_add(2),
        )
    })
}

fn make_palette256(seed: u8) -> [Crgb; 256] {
    core::array::from_fn(|i| {
        let i = i as u8;
        Crgb::new(
            i.wrapping_add(seed),
            i.wrapping_mul(3).wrapping_add(seed).wrapping_add(1),
            i.wrapping_mul(5).wrapping_add(seed).wrapping_add(2),
        )
    })
}

/// HSV palettes zero `sat` or `val` on some entries, so the black/white
/// hue adoption in the hue blend is exercised.
fn make_hsv_palette16(seed: u8) -> [Chsv; 16] {
    core::array::from_fn(|i| {
        let i = i as u8;
        let sat = if i % 4 == 0 { 0 } else { i.wrapping_mul(37).wrapping_add(seed) };
        let val = if i % 5 == 0 { 0 } else { i.wrapping_mul(59).wrapping_add(seed).wrapping_add(1) };
        Chsv::new(i.wrapping_mul(83).wrapping_add(seed).wrapping_add(2), sat, val)
    })
}

fn make_hsv_palette32(seed: u8) -> [Chsv; 32] {
    core::array::from_fn(|i| {
        let i = i as u8;
        let sat = if i % 4 == 0 { 0 } else { i.wrapping_mul(19).wrapping_add(seed) };
        let val = if i % 5 == 0 { 0 } else { i.wrapping_mul(29).wrapping_add(seed).wrapping_add(1) };
        Chsv::new(i.wrapping_mul(41).wrapping_add(seed).wrapping_add(2), sat, val)
    })
}

fn make_hsv_palette256(seed: u8) -> [Chsv; 256] {
    core::array::from_fn(|i| {
        let i = i as u8;
        let sat = if i % 4 == 0 { 0 } else { i.wrapping_mul(3).wrapping_add(seed) };
        let val = if i % 5 == 0 { 0 } else { i.wrapping_mul(5).wrapping_add(seed).wrapping_add(1) };
        Chsv::new(i.wrapping_add(seed).wrapping_add(2), sat, val)
    })
}

fn hsv_tuple(c: Chsv) -> (u8, u8, u8) {
    (c.hue, c.sat, c.val)
}

const BLEND_MODES: [ColorBlend; 3] =
    [ColorBlend::NoBlend, ColorBlend::LinearBlend, ColorBlend::LinearBlendNoWrap];

fn blend_code(b: ColorBlend) -> i32 {
    match b {
        ColorBlend::NoBlend => 0,
        ColorBlend::LinearBlend => 1,
        ColorBlend::LinearBlendNoWrap => 2,
    }
}

const SEEDS: [u8; 3] = [0, 77, 255];

#[test]
fn color_from_palette16_matches_reference_exhaustive() {
    for seed in SEEDS {
        let entries = make_palette16(seed);
        let pal = CrgbPalette16::new(entries);
        let ref_pal = entries.map(tuple);
        for blend in BLEND_MODES {
            for index in 0..=255u8 {
                for brightness in 0..=255u8 {
                    let got = tuple(color_from_palette16(&pal, index, brightness, blend));
                    let want = c_color_from_palette_rgb(&ref_pal, index, brightness, blend_code(blend));
                    assert_eq!(
                        got, want,
                        "color_from_palette16(seed={seed},index={index},brightness={brightness},blend={blend:?})"
                    );
                }
            }
        }
    }
}

#[test]
fn color_from_palette32_matches_reference_exhaustive() {
    for seed in SEEDS {
        let entries = make_palette32(seed);
        let pal = CrgbPalette32::new(entries);
        let ref_pal = entries.map(tuple);
        for blend in BLEND_MODES {
            for index in 0..=255u8 {
                for brightness in 0..=255u8 {
                    let got = tuple(color_from_palette32(&pal, index, brightness, blend));
                    let want = c_color_from_palette_rgb(&ref_pal, index, brightness, blend_code(blend));
                    assert_eq!(
                        got, want,
                        "color_from_palette32(seed={seed},index={index},brightness={brightness},blend={blend:?})"
                    );
                }
            }
        }
    }
}

#[test]
fn color_from_palette256_matches_reference_exhaustive() {
    for seed in SEEDS {
        let entries = make_palette256(seed);
        let pal = CrgbPalette256::new(entries);
        let ref_pal = entries.map(tuple);
        for index in 0..=255u8 {
            for brightness in 0..=255u8 {
                let got = tuple(color_from_palette256(&pal, index, brightness));
                let want = c_color_from_palette256(&ref_pal, index, brightness);
                assert_eq!(
                    got, want,
                    "color_from_palette256(seed={seed},index={index},brightness={brightness})"
                );
            }
        }
    }
}

#[test]
fn color_from_palette16_hsv_matches_reference_exhaustive() {
    for seed in SEEDS {
        let entries = make_hsv_palette16(seed);
        let pal = ChsvPalette16::new(entries);
        let ref_pal = entries.map(hsv_tuple);
        for blend in BLEND_MODES {
            for index in 0..=255u8 {
                for brightness in 0..=255u8 {
                    let got = hsv_tuple(color_from_palette16_hsv(&pal, index, brightness, blend));
                    let want = c_color_from_palette_hsv(&ref_pal, index, brightness, blend_code(blend));
                    assert_eq!(
                        got, want,
                        "color_from_palette16_hsv(seed={seed},index={index},brightness={brightness},blend={blend:?})"
                    );
                }
            }
        }
    }
}

#[test]
fn color_from_palette32_hsv_matches_reference_exhaustive() {
    for seed in SEEDS {
        let entries = make_hsv_palette32(seed);
        let pal = ChsvPalette32::new(entries);
        let ref_pal = entries.map(hsv_tuple);
        for blend in BLEND_MODES {
            for index in 0..=255u8 {
                for brightness in 0..=255u8 {
                    let got = hsv_tuple(color_from_palette32_hsv(&pal, index, brightness, blend));
                    let want = c_color_from_palette_hsv(&ref_pal, index, brightness, blend_code(blend));
                    assert_eq!(
                        got, want,
                        "color_from_palette32_hsv(seed={seed},index={index},brightness={brightness},blend={blend:?})"
                    );
                }
            }
        }
    }
}

#[test]
fn color_from_palette256_hsv_matches_reference_exhaustive() {
    for seed in SEEDS {
        let entries = make_hsv_palette256(seed);
        let pal = ChsvPalette256::new(entries);
        let ref_pal = entries.map(hsv_tuple);
        for index in 0..=255u8 {
            for brightness in 0..=255u8 {
                let got = hsv_tuple(color_from_palette256_hsv(&pal, index, brightness));
                let want = c_color_from_palette256_hsv(&ref_pal, index, brightness);
                assert_eq!(
                    got, want,
                    "color_from_palette256_hsv(seed={seed},index={index},brightness={brightness})"
                );
            }
        }
    }
}
