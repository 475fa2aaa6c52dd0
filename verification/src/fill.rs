//! Array fill, fade and gradient helpers.
//!
//! Each function fills a whole `&mut [T]` end to end; an empty slice is left
//! as it is. Gradients run in 8.7 fixed point per channel, exactly as
//! FastLED's, including its truncation of the per-pixel step.

use vstd::prelude::*;
use vstd::arithmetic::div_mod::{lemma_add_mod_noop, lemma_mod_twice, lemma_sub_mod_noop};
use vstd::arithmetic::mul::{lemma_mul_is_distributive_add_other_way, lemma_mul_is_distributive_sub};
use crate::math8::lemma_u16_low_byte;
use crate::hsv::{Chsv, hsv2rgb_rainbow, rainbow_rgb};
use crate::rgb::Crgb;

verus! {

/// A pixel type that a [`Chsv`] can be written into.
///
/// The fills that compute colors in HSV write them through this conversion:
/// into a `Chsv` slice unchanged, into a `Crgb` slice through
/// [`hsv2rgb_rainbow`].
pub trait FromHsv: Copy + Sized {
    /// The pixel that `hsv` converts to.
    spec fn hsv_image(hsv: Chsv) -> Self;

    /// Converts an HSV pixel into this pixel type.
    fn from_hsv(hsv: Chsv) -> (p: Self)
        ensures
            p == Self::hsv_image(hsv),
    ;
}

impl FromHsv for Chsv {
    open spec fn hsv_image(hsv: Chsv) -> Chsv {
        hsv
    }

    fn from_hsv(hsv: Chsv) -> (p: Chsv) {
        hsv
    }
}

impl FromHsv for Crgb {
    open spec fn hsv_image(hsv: Chsv) -> Crgb {
        rainbow_rgb(hsv)
    }

    fn from_hsv(hsv: Chsv) -> (p: Crgb) {
        hsv2rgb_rainbow(hsv)
    }
}

/// Advancing an accumulator that holds `(a + k * d) mod m` by `d`, modulo
/// `m`, gives the accumulator for `k + 1`; likewise going backwards.
pub proof fn lemma_mod_step(a: int, k: int, d: int, m: int)
    requires
        m > 0,
    ensures
        (((a + k * d) % m) + d) % m == (a + (k + 1) * d) % m,
        (((a - k * d) % m) - d) % m == (a - (k + 1) * d) % m,
{
    lemma_mul_is_distributive_add_other_way(d, k, 1);
    lemma_add_mod_noop(a + k * d, d, m);
    lemma_add_mod_noop((a + k * d) % m, d, m);
    lemma_mod_twice(a + k * d, m);
    lemma_sub_mod_noop(a - k * d, d, m);
    lemma_sub_mod_noop((a - k * d) % m, d, m);
    lemma_mod_twice(a - k * d, m);
}

/// Fills every pixel with a single color.
pub fn fill_solid<T: Copy>(leds: &mut [T], color: T)
    ensures
        final(leds)@ == Seq::new(old(leds)@.len(), |i: int| color),
{
    let n = leds.len();
    let mut i: usize = 0;
    while i < n
        invariant
            n == leds@.len(),
            0 <= i <= n,
            forall|j: int| 0 <= j < i ==> leds@[j] == color,
        decreases n - i,
    {
        leds[i] = color;
        i += 1;
    }
    assert(leds@ =~= Seq::new(n as nat, |i: int| color));
}

/// The hue of pixel `i` of a rainbow starting at `initial` and stepping by
/// `delta` per pixel, wrapping around the wheel.
pub open spec fn rainbow_hue(initial: u8, delta: u8, i: int) -> u8 {
    ((initial + i * delta) % 256) as u8
}

/// Fills with a rainbow, starting at `initial_hue` and stepping the hue by
/// `delta_hue` per pixel (wrapping around the color wheel). Saturation is
/// fixed at 240 and value at 255.
pub fn fill_rainbow<T: FromHsv>(leds: &mut [T], initial_hue: u8, delta_hue: u8)
    ensures
        final(leds)@ == Seq::new(
            old(leds)@.len(),
            |i: int| T::hsv_image(Chsv { hue: rainbow_hue(initial_hue, delta_hue, i), sat: 240, val: 255 }),
        ),
{
    let n = leds.len();
    let mut hsv = Chsv::new(initial_hue, 240, 255);
    let mut i: usize = 0;
    while i < n
        invariant
            n == leds@.len(),
            0 <= i <= n,
            hsv == (Chsv { hue: rainbow_hue(initial_hue, delta_hue, i as int), sat: 240, val: 255 }),
            forall|j: int|
                0 <= j < i ==> leds@[j] == T::hsv_image(
                    Chsv { hue: rainbow_hue(initial_hue, delta_hue, j), sat: 240, val: 255 },
                ),
        decreases n - i,
    {
        leds[i] = T::from_hsv(hsv);
        proof {
            lemma_mod_step(initial_hue as int, i as int, delta_hue as int, 256);
        }
        hsv.hue = hsv.hue.wrapping_add(delta_hue);
        i += 1;
    }
    assert(leds@ =~= Seq::new(
        n as nat,
        |i: int| T::hsv_image(Chsv { hue: rainbow_hue(initial_hue, delta_hue, i), sat: 240, val: 255 }),
    ));
}

/// The 16-bit hue offset (8.8 fixed point) after `i` steps of `change`,
/// forward or backward.
pub open spec fn circular_offset(change: int, reversed: bool, i: int) -> int {
    if reversed {
        (0 - i * change) % 65536
    } else {
        (0 + i * change) % 65536
    }
}

/// The hue of pixel `i` of a circular rainbow over `n` pixels starting at
/// `initial`: the wheel is split into steps of `65535 / n` in 8.8 fixed
/// point (the length taken as a 16-bit number).
pub open spec fn circular_hue(initial: u8, n: int, reversed: bool, i: int) -> u8 {
    stepped_hue(initial, 65535int / (n % 65536), reversed, i)
}

/// The hue after `i` steps of `change` (8.8 fixed point) from `initial`.
pub open spec fn stepped_hue(initial: u8, change: int, reversed: bool, i: int) -> u8 {
    ((initial + circular_offset(change, reversed, i) / 256) % 256) as u8
}

/// One step of the circular rainbow's 16-bit hue offset.
proof fn lemma_circular_step(change: u16, reversed: bool, i: int, off: u16, next: u16)
    requires
        i >= 0,
        off as int == circular_offset(change as int, reversed, i),
        reversed ==> next == vstd::wrapping::u16_specs::wrapping_sub(off, change),
        !reversed ==> next == vstd::wrapping::u16_specs::wrapping_add(off, change),
    ensures
        next as int == circular_offset(change as int, reversed, i + 1),
{
    lemma_mod_step(0, i, change as int, 65536);
}

proof fn lemma_usize_low_half(x: usize)
    ensures
        (x as u16) as int == (x as int) % 65536,
{
    assert((x as u16) as int == (x as int) % 65536) by (bit_vector);
}

proof fn lemma_u16_high_byte(x: u16)
    ensures
        (x >> 8) as int == (x as int) / 256,
{
    assert((x >> 8) as int == (x as int) / 256) by (bit_vector);
}

/// Fills with exactly one full turn around the color wheel, spread evenly
/// across the whole slice, starting at `initial_hue`. Set `reversed` to
/// travel counter-clockwise.
///
/// The hue step is `65535 / n` in 8.8 fixed point, with the length `n`
/// taken as a 16-bit number: a nonempty slice whose length is a multiple of
/// 65536 would divide by zero and is not accepted.
#[verifier::rlimit(30)]
pub fn fill_rainbow_circular<T: FromHsv>(leds: &mut [T], initial_hue: u8, reversed: bool)
    requires
        old(leds)@.len() == 0 || old(leds)@.len() % 65536 != 0,
    ensures
        final(leds)@ == Seq::new(
            old(leds)@.len(),
            |i: int|
                T::hsv_image(
                    Chsv { hue: circular_hue(initial_hue, old(leds)@.len() as int, reversed, i), sat: 240, val: 255 },
                ),
        ),
{
    if leds.is_empty() {
        assert(leds@ =~= Seq::new(
            leds@.len(),
            |i: int|
                T::hsv_image(
                    Chsv { hue: circular_hue(initial_hue, leds@.len() as int, reversed, i), sat: 240, val: 255 },
                ),
        ));
        return;  // avoid div/0
    }
    let n = leds.len();
    let ghost len = n as int;

    let mut hsv = Chsv::new(initial_hue, 240, 255);

    // Hue change per LED, kept at 8 extra bits of precision.
    proof {
        lemma_usize_low_half(n);
    }
    let hue_change = 65535u16 / n as u16;
    let mut hue_offset = 0u16;

    let mut i: usize = 0;
    while i < n
        invariant
            n == leds@.len(),
            len == n,
            0 <= i <= n,
            hue_offset as int == circular_offset(hue_change as int, reversed, i as int),
            hsv == (Chsv { hue: stepped_hue(initial_hue, hue_change as int, reversed, i as int), sat: 240, val: 255 }),
            forall|j: int|
                0 <= j < i ==> leds@[j] == T::hsv_image(
                    Chsv { hue: stepped_hue(initial_hue, hue_change as int, reversed, j), sat: 240, val: 255 },
                ),
        decreases n - i,
    {
        leds[i] = T::from_hsv(hsv);
        let ghost prev = hue_offset;
        if reversed {
            hue_offset = hue_offset.wrapping_sub(hue_change);
        } else {
            hue_offset = hue_offset.wrapping_add(hue_change);
        }
        proof {
            lemma_circular_step(hue_change, reversed, i as int, prev, hue_offset);
            lemma_u16_high_byte(hue_offset);
        }
        hsv.hue = initial_hue.wrapping_add((hue_offset >> 8) as u8);
        i += 1;
    }
    assert(hue_change as int == 65535int / (len % 65536));
    assert(leds@ =~= Seq::new(
        len as nat,
        |i: int|
            T::hsv_image(Chsv { hue: circular_hue(initial_hue, len, reversed, i), sat: 240, val: 255 }),
    ));
}

/// Scales every pixel down toward black by `fade_by`:
/// `nscale8(255 - fade_by)` on each.
pub fn fade_to_black_by(leds: &mut [Crgb], fade_by: u8)
    ensures
        final(leds)@ == old(leds)@.map_values(|c: Crgb| c.scaled((255 - fade_by) as u8)),
{
    nscale8(leds, 255 - fade_by);
}

/// Scales every pixel "video" style by `255 - fade_by`: a lit channel never
/// fully extinguishes unless `fade_by` is 255.
pub fn fade_light_by(leds: &mut [Crgb], fade_by: u8)
    ensures
        final(leds)@ == old(leds)@.map_values(|c: Crgb| c.scaled_video((255 - fade_by) as u8)),
{
    nscale8_video(leds, 255 - fade_by);
}

/// Scales every pixel by `scale` using plain-math dimming.
pub fn nscale8(leds: &mut [Crgb], scale: u8)
    ensures
        final(leds)@ == old(leds)@.map_values(|c: Crgb| c.scaled(scale)),
{
    let ghost orig = leds@;
    let n = leds.len();
    let mut i: usize = 0;
    while i < n
        invariant
            n == leds@.len(),
            n == orig.len(),
            0 <= i <= n,
            forall|j: int| 0 <= j < i ==> leds@[j] == orig[j].scaled(scale),
            forall|j: int| i <= j < n ==> leds@[j] == orig[j],
        decreases n - i,
    {
        let mut c = leds[i];
        c.nscale8(scale);
        leds[i] = c;
        i += 1;
    }
    assert(leds@ =~= orig.map_values(|c: Crgb| c.scaled(scale)));
}

/// Scales every pixel by `scale` using "video" dimming.
pub fn nscale8_video(leds: &mut [Crgb], scale: u8)
    ensures
        final(leds)@ == old(leds)@.map_values(|c: Crgb| c.scaled_video(scale)),
{
    let ghost orig = leds@;
    let n = leds.len();
    let mut i: usize = 0;
    while i < n
        invariant
            n == leds@.len(),
            n == orig.len(),
            0 <= i <= n,
            forall|j: int| 0 <= j < i ==> leds@[j] == orig[j].scaled_video(scale),
            forall|j: int| i <= j < n ==> leds@[j] == orig[j],
        decreases n - i,
    {
        let mut c = leds[i];
        c.nscale8_video(scale);
        leds[i] = c;
        i += 1;
    }
    assert(leds@ =~= orig.map_values(|c: Crgb| c.scaled_video(scale)));
}

/// `fade_video`: FastLED's other name for [`fade_light_by`].
pub fn fade_video(leds: &mut [Crgb], fade_by: u8)
    ensures
        final(leds)@ == old(leds)@.map_values(|c: Crgb| c.scaled_video((255 - fade_by) as u8)),
{
    fade_light_by(leds, fade_by);
}

/// `fade_raw`: FastLED's other name for [`fade_to_black_by`].
pub fn fade_raw(leds: &mut [Crgb], fade_by: u8)
    ensures
        final(leds)@ == old(leds)@.map_values(|c: Crgb| c.scaled((255 - fade_by) as u8)),
{
    fade_to_black_by(leds, fade_by);
}

/// `nscale8_raw`: FastLED's other name for [`nscale8`].
pub fn nscale8_raw(leds: &mut [Crgb], scale: u8)
    ensures
        final(leds)@ == old(leds)@.map_values(|c: Crgb| c.scaled(scale)),
{
    nscale8(leds, scale);
}

/// Fades every pixel by scaling each channel with the matching channel of
/// `colormask`, so the strip fades *through* a color rather than straight
/// to black.
pub fn fade_using_color(leds: &mut [Crgb], colormask: Crgb)
    ensures
        final(leds)@ == old(leds)@.map_values(|c: Crgb| c.scaled_rgb(colormask)),
{
    let ghost orig = leds@;
    let n = leds.len();
    let mut i: usize = 0;
    while i < n
        invariant
            n == leds@.len(),
            n == orig.len(),
            0 <= i <= n,
            forall|j: int| 0 <= j < i ==> leds@[j] == orig[j].scaled_rgb(colormask),
            forall|j: int| i <= j < n ==> leds@[j] == orig[j],
        decreases n - i,
    {
        let mut c = leds[i];
        c.nscale8_rgb(colormask);
        leds[i] = c;
        i += 1;
    }
    assert(leds@ =~= orig.map_values(|c: Crgb| c.scaled_rgb(colormask)));
}

// ---------------------------------------------------------------------------
// Gradients
// ---------------------------------------------------------------------------

/// The magnitude of an integer.
pub open spec fn abs_int(x: int) -> int {
    if x < 0 {
        -x
    } else {
        x
    }
}

/// Integer division truncated toward zero, as Rust's `/` on signed
/// integers.
pub open spec fn trunc_div(a: int, b: int) -> int {
    let q = abs_int(a) / abs_int(b);
    if (a < 0) == (b < 0) {
        q
    } else {
        -q
    }
}

/// A 16-bit pattern read as a two's-complement signed number.
pub open spec fn signed16(x: int) -> int {
    if x < 32768 {
        x
    } else {
        x - 65536
    }
}

/// The per-pixel step, as a 16-bit pattern in 8.8 fixed point, of a ramp
/// covering `distance87` (8.7 fixed point) over `span` pixels: the distance
/// divided by the span (read as a signed 16-bit number, and as 1 when
/// zero), truncated toward zero, then doubled, modulo 2^16.
pub open spec fn ramp_step(distance87: int, span: int) -> int {
    let divisor = if span == 0 {
        1
    } else {
        signed16(span)
    };
    (2 * trunc_div(distance87, divisor)) % 65536
}

/// A channel `k` pixels into a ramp that starts at `start` and advances by
/// the 8.8 fixed-point `step` per pixel, in 16-bit wrapping arithmetic: the
/// high byte of `start * 256 + k * step` modulo 2^16.
pub open spec fn ramp_value(start: u8, step: int, k: int) -> u8 {
    (accumulated16(start * 256, step, k) / 256) as u8
}

/// `base + k * step` modulo 2^16: a 16-bit accumulator after `k` wrapping
/// additions of `step`.
#[verifier::opaque]
pub open spec fn accumulated16(base: int, step: int, k: int) -> int {
    (base + k * step) % 65536
}

/// The accumulator starts at `base` and advances by one wrapping addition
/// of `step` at a time.
pub proof fn lemma_accumulated16(base: int, step: int, k: int)
    requires
        0 <= base < 65536,
    ensures
        accumulated16(base, step, 0) == base,
        0 <= accumulated16(base, step, k) < 65536,
        accumulated16(base, step, k + 1) == (accumulated16(base, step, k) + step) % 65536,
{
    reveal(accumulated16);
    lemma_mod_step(base, k, step, 65536);
}

/// The channel `k` pixels into the ramp from `from` to `to` over `span`
/// pixels.
pub open spec fn ramp_channel(from: u8, to: u8, span: int, k: int) -> u8 {
    ramp_value(from, ramp_step((to - from) * 128, span), k)
}

/// Pixel `k` of the RGB ramp from `c1` to `c2` over `span` pixels.
pub open spec fn rgb_ramp_pixel(c1: Crgb, c2: Crgb, span: int, k: int) -> Crgb {
    Crgb {
        r: ramp_channel(c1.r, c2.r, span, k),
        g: ramp_channel(c1.g, c2.g, span, k),
        b: ramp_channel(c1.b, c2.b, span, k),
    }
}

/// `s` with positions `start_pos ..= end_pos` (endpoints in either order)
/// overwritten by the RGB ramp between the two colors; positions past the
/// end of `s` are skipped.
pub open spec fn rgb_range_fill(
    s: Seq<Crgb>,
    start_pos: u16,
    start_color: Crgb,
    end_pos: u16,
    end_color: Crgb,
) -> Seq<Crgb> {
    let swap = end_pos < start_pos;
    let lo: int = if swap { end_pos as int } else { start_pos as int };
    let hi: int = if swap { start_pos as int } else { end_pos as int };
    let c_lo = if swap { end_color } else { start_color };
    let c_hi = if swap { start_color } else { end_color };
    Seq::new(
        s.len(),
        |i: int|
            if lo <= i <= hi {
                rgb_ramp_pixel(c_lo, c_hi, hi - lo, i - lo)
            } else {
                s[i]
            },
    )
}

proof fn lemma_i16_pattern(x: i16)
    ensures
        (x as u16) as int == (x as int) % 65536,
{
    assert(x >= 0 ==> (x as u16) as int == x as int) by (bit_vector);
    assert(x < 0 ==> (x as u16) as int == x as int + 65536) by (bit_vector);
}

proof fn lemma_u16_signed(x: u16)
    ensures
        (x as i16) as int == signed16(x as int),
{
    assert(x < 32768 ==> (x as i16) as int == x as int) by (bit_vector);
    assert(x >= 32768 ==> (x as i16) as int == x as int - 65536) by (bit_vector);
}

/// Truncating signed division of an 8.7 fixed-point distance.
fn trunc_div_i16(a: i16, b: i16) -> (q: i16)
    requires
        -32640 <= a <= 32640,
        b != 0,
    ensures
        q as int == trunc_div(a as int, b as int),
        -32640 <= q <= 32640,
{
    let ua: u32 = if a < 0 {
        (-(a as i32)) as u32
    } else {
        a as u32
    };
    let ub: u32 = if b < 0 {
        (-(b as i32)) as u32
    } else {
        b as u32
    };
    let uq = ua / ub;
    assert(uq <= ua) by (nonlinear_arith)
        requires
            ub >= 1,
            uq == ua / ub,
    ;
    if (a < 0) == (b < 0) {
        uq as i16
    } else {
        -(uq as i16)
    }
}

/// The 16-bit step of a ramp over `divisor` pixels covering `distance87`.
fn ramp_step_exec(distance87: i16, divisor: i16, ghost_span: Ghost<int>) -> (step: u16)
    requires
        -32640 <= distance87 <= 32640,
        divisor == (if ghost_span@ == 0 { 1 } else { signed16(ghost_span@) }),
        divisor != 0,
    ensures
        step as int == ramp_step(distance87 as int, ghost_span@),
{
    let delta87 = trunc_div_i16(distance87, divisor).wrapping_mul(2);
    proof {
        lemma_i16_pattern(delta87);
    }
    delta87 as u16
}

proof fn lemma_byte_to_88(x: u8)
    ensures
        ((x as u16) << 8) as int == x as int * 256,
{
    assert(((x as u16) << 8) as int == x as int * 256) by (bit_vector);
}

/// Fills `leds[start_pos ..= end_pos]` with an RGB-space gradient between
/// two colors, interpolating with 8 extra bits of fractional precision per
/// channel.
///
/// If `end_pos < start_pos` the two endpoints are swapped. Indices at or
/// past the end of the slice are skipped. A span wider than 32767 pixels is
/// read as a negative signed 16-bit divisor, as FastLED's arithmetic does.
#[verifier::rlimit(30)]
pub fn fill_gradient_rgb_range(
    leds: &mut [Crgb],
    start_pos: u16,
    start_color: Crgb,
    end_pos: u16,
    end_color: Crgb,
)
    ensures
        final(leds)@ == rgb_range_fill(old(leds)@, start_pos, start_color, end_pos, end_color),
{
    let ghost orig = leds@;
    // if the points are in the wrong order, straighten them
    let (start_pos, end_pos, start_color, end_color) = if end_pos < start_pos {
        (end_pos, start_pos, end_color, start_color)
    } else {
        (start_pos, end_pos, start_color, end_color)
    };

    // The channel distances in 8.7 fixed point (`distance << 7`).
    let rdistance87 = (end_color.r as i16 - start_color.r as i16) * 128;
    let gdistance87 = (end_color.g as i16 - start_color.g as i16) * 128;
    let bdistance87 = (end_color.b as i16 - start_color.b as i16) * 128;

    let pixeldistance = end_pos - start_pos;
    let ghost span = pixeldistance as int;
    // The u16 distance is read as an i16 here: a span wider than 32767
    // pixels goes negative, and the gradient runs backwards.
    proof {
        lemma_u16_signed(pixeldistance);
    }
    let divisor: i16 = if pixeldistance != 0 {
        pixeldistance as i16
    } else {
        1
    };

    let rstep = ramp_step_exec(rdistance87, divisor, Ghost(span));
    let gstep = ramp_step_exec(gdistance87, divisor, Ghost(span));
    let bstep = ramp_step_exec(bdistance87, divisor, Ghost(span));

    proof {
        lemma_byte_to_88(start_color.r);
        lemma_byte_to_88(start_color.g);
        lemma_byte_to_88(start_color.b);
    }
    let mut r88 = (start_color.r as u16) << 8;
    let mut g88 = (start_color.g as u16) << 8;
    let mut b88 = (start_color.b as u16) << 8;
    proof {
        lemma_accumulated16(start_color.r * 256, rstep as int, 0);
        lemma_accumulated16(start_color.g * 256, gstep as int, 0);
        lemma_accumulated16(start_color.b * 256, bstep as int, 0);
    }

    let n = leds.len();
    let mut i: u32 = start_pos as u32;
    while i <= end_pos as u32
        invariant
            n == leds@.len(),
            n == orig.len(),
            start_pos <= end_pos,
            span == end_pos - start_pos,
            start_pos <= i <= end_pos as int + 1,
            rstep as int == ramp_step((end_color.r - start_color.r) * 128, span),
            gstep as int == ramp_step((end_color.g - start_color.g) * 128, span),
            bstep as int == ramp_step((end_color.b - start_color.b) * 128, span),
            r88 as int == accumulated16(start_color.r * 256, rstep as int, i - start_pos),
            g88 as int == accumulated16(start_color.g * 256, gstep as int, i - start_pos),
            b88 as int == accumulated16(start_color.b * 256, bstep as int, i - start_pos),
            forall|j: int|
                0 <= j < n ==> leds@[j] == (if start_pos <= j < i {
                    rgb_ramp_pixel(start_color, end_color, span, j - start_pos)
                } else {
                    orig[j]
                }),
        decreases end_pos as int + 1 - i,
    {
        proof {
            lemma_u16_high_byte(r88);
            lemma_u16_high_byte(g88);
            lemma_u16_high_byte(b88);
        }
        if (i as usize) < n {
            leds[i as usize] = Crgb::new((r88 >> 8) as u8, (g88 >> 8) as u8, (b88 >> 8) as u8);
        }
        proof {
            lemma_accumulated16(start_color.r * 256, rstep as int, i - start_pos);
            lemma_accumulated16(start_color.g * 256, gstep as int, i - start_pos);
            lemma_accumulated16(start_color.b * 256, bstep as int, i - start_pos);
        }
        r88 = r88.wrapping_add(rstep);
        g88 = g88.wrapping_add(gstep);
        b88 = b88.wrapping_add(bstep);
        i += 1;
    }
    assert(leds@ =~= rgb_range_fill(orig, start_pos, start_color, end_pos, end_color));
}

/// `s` filled end to end with the RGB ramp from `c1` to `c2`, the last
/// index taken as a 16-bit number; an empty `s` stays empty.
pub open spec fn rgb_strip_fill(s: Seq<Crgb>, c1: Crgb, c2: Crgb) -> Seq<Crgb> {
    if s.len() == 0 {
        s
    } else {
        rgb_range_fill(s, 0, c1, ((s.len() - 1) % 65536) as u16, c2)
    }
}

/// Fills the whole slice with an RGB-space gradient from `c1` to `c2`.
///
/// The last index is taken as a 16-bit number.
pub fn fill_gradient_rgb(leds: &mut [Crgb], c1: Crgb, c2: Crgb)
    ensures
        final(leds)@ == rgb_strip_fill(old(leds)@, c1, c2),
{
    if leds.is_empty() {
        return;
    }
    proof {
        lemma_usize_low_half((leds.len() - 1) as usize);
    }
    let last = (leds.len() - 1) as u16;
    fill_gradient_rgb_range(leds, 0, c1, last, c2);
}

/// `s` filled with the RGB ramp from `c1` to `c2` over its first half and
/// from `c2` to `c3` over the rest, the length taken as a 16-bit number;
/// an empty `s` stays empty.
pub open spec fn rgb_strip_fill3(s: Seq<Crgb>, c1: Crgb, c2: Crgb, c3: Crgb) -> Seq<Crgb> {
    let n = s.len() % 65536;
    let half = (n / 2) as u16;
    let last = (n - 1) as u16;
    if s.len() == 0 {
        s
    } else {
        rgb_range_fill(rgb_range_fill(s, 0, c1, half, c2), half, c2, last, c3)
    }
}

/// Fills the whole slice with a three-stop RGB-space gradient: `c1` to `c2`
/// over the first half, `c2` to `c3` over the rest.
///
/// The length is taken as a 16-bit number; a nonempty slice whose length is
/// a multiple of 65536 would underflow and is not accepted.
pub fn fill_gradient_rgb3(leds: &mut [Crgb], c1: Crgb, c2: Crgb, c3: Crgb)
    requires
        old(leds)@.len() == 0 || old(leds)@.len() % 65536 != 0,
    ensures
        final(leds)@ == rgb_strip_fill3(old(leds)@, c1, c2, c3),
{
    if leds.is_empty() {
        return;
    }
    proof {
        lemma_usize_low_half(leds.len());
    }
    let num_leds = leds.len() as u16;
    let half = num_leds / 2;
    let last = num_leds - 1;
    fill_gradient_rgb_range(leds, 0, c1, half, c2);
    fill_gradient_rgb_range(leds, half, c2, last, c3);
}

/// `s` filled with the RGB ramps from `c1` to `c2`, `c2` to `c3` and `c3`
/// to `c4` over its thirds, the length taken as a 16-bit number; an empty
/// `s` stays empty.
pub open spec fn rgb_strip_fill4(s: Seq<Crgb>, c1: Crgb, c2: Crgb, c3: Crgb, c4: Crgb) -> Seq<
    Crgb,
> {
    let n = s.len() % 65536;
    let onethird = (n / 3) as u16;
    let twothirds = ((n * 2) / 3) as u16;
    let last = (n - 1) as u16;
    if s.len() == 0 {
        s
    } else {
        rgb_range_fill(
            rgb_range_fill(rgb_range_fill(s, 0, c1, onethird, c2), onethird, c2, twothirds, c3),
            twothirds,
            c3,
            last,
            c4,
        )
    }
}

/// Fills the whole slice with a four-stop RGB-space gradient over thirds of
/// the slice.
///
/// The length is taken as a 16-bit number `n`; `n * 2` must not overflow
/// 16 bits and `n - 1` must not underflow.
pub fn fill_gradient_rgb4(leds: &mut [Crgb], c1: Crgb, c2: Crgb, c3: Crgb, c4: Crgb)
    requires
        old(leds)@.len() == 0 || (old(leds)@.len() % 65536 != 0 && old(leds)@.len() % 65536
            < 32768),
    ensures
        final(leds)@ == rgb_strip_fill4(old(leds)@, c1, c2, c3, c4),
{
    if leds.is_empty() {
        return;
    }
    proof {
        lemma_usize_low_half(leds.len());
    }
    let num_leds = leds.len() as u16;
    let onethird = num_leds / 3;
    let twothirds = (num_leds * 2) / 3;
    let last = num_leds - 1;
    fill_gradient_rgb_range(leds, 0, c1, onethird, c2);
    fill_gradient_rgb_range(leds, onethird, c2, twothirds, c3);
    fill_gradient_rgb_range(leds, twothirds, c3, last, c4);
}

/// Which way around the color wheel a hue gradient travels.
#[derive(Debug, Clone, Copy, PartialEq, Eq, Structural)]
pub enum GradientDirection {
    /// Hue always goes clockwise around the color wheel.
    Forward,
    /// Hue always goes counter-clockwise around the color wheel.
    Backward,
    /// Hue goes whichever way is shortest.
    Shortest,
    /// Hue goes whichever way is longest.
    Longest,
}

impl Default for GradientDirection {
    /// [`GradientDirection::Shortest`].
    fn default() -> (d: GradientDirection)
        ensures
            d == GradientDirection::Shortest,
    {
        GradientDirection::Shortest
    }
}

/// Whether a hue move of `huedelta8` steps clockwise is made clockwise
/// under `direction`: `Shortest` goes clockwise for deltas up to 127,
/// `Longest` for deltas of 128 and more.
pub open spec fn travels_forward(direction: GradientDirection, huedelta8: u8) -> bool {
    match direction {
        GradientDirection::Forward => true,
        GradientDirection::Backward => false,
        GradientDirection::Shortest => huedelta8 <= 127,
        GradientDirection::Longest => huedelta8 >= 128,
    }
}

/// Resolves `Shortest`/`Longest` against a clockwise hue delta.
pub(crate) fn resolve_direction(direction: GradientDirection, huedelta8: u8) -> (forward: bool)
    ensures
        forward == travels_forward(direction, huedelta8),
{
    let direction = match direction {
        GradientDirection::Shortest => {
            if huedelta8 > 127 {
                GradientDirection::Backward
            } else {
                GradientDirection::Forward
            }
        },
        GradientDirection::Longest => {
            if huedelta8 < 128 {
                GradientDirection::Backward
            } else {
                GradientDirection::Forward
            }
        },
        other => other,
    };
    match direction {
        GradientDirection::Forward => true,
        _ => false,
    }
}

/// The endpoints of an HSV ramp after hue adoption: an end that is black
/// (`val == 0`) or white (`sat == 0`) takes the other end's hue, the far
/// end first.
pub open spec fn hsv_ramp_ends(c_lo: Chsv, c_hi: Chsv) -> (Chsv, Chsv) {
    let hi = if c_hi.val == 0 || c_hi.sat == 0 {
        Chsv { hue: c_lo.hue, ..c_hi }
    } else {
        c_hi
    };
    let lo = if c_lo.val == 0 || c_lo.sat == 0 {
        Chsv { hue: hi.hue, ..c_lo }
    } else {
        c_lo
    };
    (lo, hi)
}

/// The hue distance (8.7 fixed point) of a ramp from `c1` to `c2` around
/// the wheel in `direction`: clockwise the delta `c2.hue - c1.hue` modulo
/// 256, counter-clockwise minus its complement (zero for equal hues).
pub open spec fn hue_distance87(c1: Chsv, c2: Chsv, direction: GradientDirection) -> int {
    let huedelta8 = ((c2.hue - c1.hue) % 256) as u8;
    if travels_forward(direction, huedelta8) {
        huedelta8 * 128
    } else {
        -(((256 - huedelta8) % 256) * 128)
    }
}

/// Pixel `k` of the HSV ramp from `c1` to `c2` over `span` pixels.
pub open spec fn hsv_ramp_pixel(
    c1: Chsv,
    c2: Chsv,
    direction: GradientDirection,
    span: int,
    k: int,
) -> Chsv {
    Chsv {
        hue: ramp_value(c1.hue, ramp_step(hue_distance87(c1, c2, direction), span), k),
        sat: ramp_channel(c1.sat, c2.sat, span, k),
        val: ramp_channel(c1.val, c2.val, span, k),
    }
}

/// `s` with positions `start_pos ..= end_pos` (endpoints in either order)
/// overwritten by the HSV ramp between the two colors, converted into the
/// pixel type; positions past the end of `s` are skipped.
pub open spec fn hsv_range_fill<T: FromHsv>(
    s: Seq<T>,
    start_pos: u16,
    start_color: Chsv,
    end_pos: u16,
    end_color: Chsv,
    direction: GradientDirection,
) -> Seq<T> {
    let swap = end_pos < start_pos;
    let lo: int = if swap { end_pos as int } else { start_pos as int };
    let hi: int = if swap { start_pos as int } else { end_pos as int };
    let ends = if swap {
        hsv_ramp_ends(end_color, start_color)
    } else {
        hsv_ramp_ends(start_color, end_color)
    };
    Seq::new(
        s.len(),
        |i: int|
            if lo <= i <= hi {
                T::hsv_image(hsv_ramp_pixel(ends.0, ends.1, direction, hi - lo, i - lo))
            } else {
                s[i]
            },
    )
}

/// The ramp endpoints after hue adoption, and the hue distance between them
/// in 8.7 fixed point.
fn hsv_ramp_prepare(start_color: Chsv, end_color: Chsv, direction: GradientDirection) -> (r: (
    Chsv,
    Chsv,
    i16,
))
    ensures
        (r.0, r.1) == hsv_ramp_ends(start_color, end_color),
        r.2 == hue_distance87(r.0, r.1, direction),
        -32640 <= r.2 <= 32640,
{
    let mut start_color = start_color;
    let mut end_color = end_color;
    // Fading toward black or white: the end hue doesn't matter, so take the
    // start hue and ramp smoothly.
    if end_color.val == 0 || end_color.sat == 0 {
        end_color.hue = start_color.hue;
    }
    // Fading in from black or white: take the hue from the far end.
    if start_color.val == 0 || start_color.sat == 0 {
        start_color.hue = end_color.hue;
    }

    let huedelta8 = end_color.hue.wrapping_sub(start_color.hue);
    let forward = resolve_direction(direction, huedelta8);

    let huedistance87: i16 = if forward {
        huedelta8 as i16 * 128
    } else {
        // `(uint8_t)(256 - huedelta8)` truncates to 0 when huedelta8 is 0,
        // so a zero-width backward gradient stays put.
        proof {
            lemma_u16_low_byte(256u16.wrapping_sub(huedelta8 as u16));
        }
        let back = (256u16.wrapping_sub(huedelta8 as u16)) as u8;
        -(back as i16 * 128)
    };
    (start_color, end_color, huedistance87)
}

/// Fills `leds[start_pos ..= end_pos]` with an HSV-space gradient between
/// two colors, interpolating hue around the color wheel in the direction
/// given by `direction`.
#[verifier::rlimit(30)]
pub fn fill_gradient_range<T: FromHsv>(
    leds: &mut [T],
    start_pos: u16,
    start_color: Chsv,
    end_pos: u16,
    end_color: Chsv,
    direction: GradientDirection,
)
    ensures
        final(leds)@ == hsv_range_fill(
            old(leds)@,
            start_pos,
            start_color,
            end_pos,
            end_color,
            direction,
        ),
{
    let ghost orig = leds@;
    // if the points are in the wrong order, straighten them
    let (start_pos, end_pos, start_color, end_color) = if end_pos < start_pos {
        (end_pos, start_pos, end_color, start_color)
    } else {
        (start_pos, end_pos, start_color, end_color)
    };
    let ghost ends = hsv_ramp_ends(start_color, end_color);
    let (start_color, end_color, huedistance87) = hsv_ramp_prepare(
        start_color,
        end_color,
        direction,
    );
    let satdistance87 = (end_color.sat as i16 - start_color.sat as i16) * 128;
    let valdistance87 = (end_color.val as i16 - start_color.val as i16) * 128;

    let pixeldistance = end_pos - start_pos;
    let ghost span = pixeldistance as int;
    proof {
        lemma_u16_signed(pixeldistance);
    }
    let divisor: i16 = if pixeldistance != 0 {
        pixeldistance as i16
    } else {
        1
    };

    let huestep = ramp_step_exec(huedistance87, divisor, Ghost(span));
    let satstep = ramp_step_exec(satdistance87, divisor, Ghost(span));
    let valstep = ramp_step_exec(valdistance87, divisor, Ghost(span));

    proof {
        lemma_byte_to_88(start_color.hue);
        lemma_byte_to_88(start_color.sat);
        lemma_byte_to_88(start_color.val);
    }
    let mut hue88 = (start_color.hue as u16) << 8;
    let mut sat88 = (start_color.sat as u16) << 8;
    let mut val88 = (start_color.val as u16) << 8;
    proof {
        lemma_accumulated16(start_color.hue * 256, huestep as int, 0);
        lemma_accumulated16(start_color.sat * 256, satstep as int, 0);
        lemma_accumulated16(start_color.val * 256, valstep as int, 0);
    }

    let n = leds.len();
    let mut i: u32 = start_pos as u32;
    while i <= end_pos as u32
        invariant
            n == leds@.len(),
            n == orig.len(),
            start_pos <= end_pos,
            span == end_pos - start_pos,
            start_pos <= i <= end_pos as int + 1,
            huestep as int == ramp_step(hue_distance87(start_color, end_color, direction), span),
            satstep as int == ramp_step((end_color.sat - start_color.sat) * 128, span),
            valstep as int == ramp_step((end_color.val - start_color.val) * 128, span),
            hue88 as int == accumulated16(start_color.hue * 256, huestep as int, i - start_pos),
            sat88 as int == accumulated16(start_color.sat * 256, satstep as int, i - start_pos),
            val88 as int == accumulated16(start_color.val * 256, valstep as int, i - start_pos),
            forall|j: int|
                0 <= j < n ==> leds@[j] == (if start_pos <= j < i {
                    T::hsv_image(
                        hsv_ramp_pixel(start_color, end_color, direction, span, j - start_pos),
                    )
                } else {
                    orig[j]
                }),
        decreases end_pos as int + 1 - i,
    {
        proof {
            lemma_u16_high_byte(hue88);
            lemma_u16_high_byte(sat88);
            lemma_u16_high_byte(val88);
        }
        if (i as usize) < n {
            leds[i as usize] = T::from_hsv(
                Chsv::new((hue88 >> 8) as u8, (sat88 >> 8) as u8, (val88 >> 8) as u8),
            );
        }
        proof {
            lemma_accumulated16(start_color.hue * 256, huestep as int, i - start_pos);
            lemma_accumulated16(start_color.sat * 256, satstep as int, i - start_pos);
            lemma_accumulated16(start_color.val * 256, valstep as int, i - start_pos);
        }
        hue88 = hue88.wrapping_add(huestep);
        sat88 = sat88.wrapping_add(satstep);
        val88 = val88.wrapping_add(valstep);
        i += 1;
    }
    assert(leds@ =~= hsv_range_fill(orig, start_pos, ends.0, end_pos, ends.1, direction)) by {
        assert(hsv_ramp_ends(ends.0, ends.1) == ends);
    }
}

/// `s` filled end to end with the HSV ramp from `c1` to `c2` in
/// `direction`, the last index taken as a 16-bit number; an empty `s` stays
/// empty.
pub open spec fn hsv_strip_fill<T: FromHsv>(
    s: Seq<T>,
    c1: Chsv,
    c2: Chsv,
    direction: GradientDirection,
) -> Seq<T> {
    if s.len() == 0 {
        s
    } else {
        hsv_range_fill(s, 0, c1, ((s.len() - 1) % 65536) as u16, c2, direction)
    }
}

/// Fills the whole slice with an HSV-space gradient from `c1` to `c2`.
///
/// The last index is taken as a 16-bit number.
pub fn fill_gradient<T: FromHsv>(leds: &mut [T], c1: Chsv, c2: Chsv, direction: GradientDirection)
    ensures
        final(leds)@ == hsv_strip_fill(old(leds)@, c1, c2, direction),
{
    if leds.is_empty() {
        return;
    }
    proof {
        lemma_usize_low_half((leds.len() - 1) as usize);
    }
    let last = (leds.len() - 1) as u16;
    fill_gradient_range(leds, 0, c1, last, c2, direction);
}

/// `s` filled with the HSV ramp from `c1` to `c2` over its first half and
/// from `c2` to `c3` over the rest, in `direction`, the length taken as a
/// 16-bit number; an empty `s` stays empty.
pub open spec fn hsv_strip_fill3<T: FromHsv>(
    s: Seq<T>,
    c1: Chsv,
    c2: Chsv,
    c3: Chsv,
    direction: GradientDirection,
) -> Seq<T> {
    let n = s.len() % 65536;
    let half = (n / 2) as u16;
    let last = (n - 1) as u16;
    if s.len() == 0 {
        s
    } else {
        hsv_range_fill(hsv_range_fill(s, 0, c1, half, c2, direction), half, c2, last, c3, direction)
    }
}

/// Fills the whole slice with a three-stop HSV-space gradient: `c1` to `c2`
/// over the first half, `c2` to `c3` over the rest.
///
/// The length is taken as a 16-bit number; a nonempty slice whose length is
/// a multiple of 65536 would underflow and is not accepted.
pub fn fill_gradient3<T: FromHsv>(
    leds: &mut [T],
    c1: Chsv,
    c2: Chsv,
    c3: Chsv,
    direction: GradientDirection,
)
    requires
        old(leds)@.len() == 0 || old(leds)@.len() % 65536 != 0,
    ensures
        final(leds)@ == hsv_strip_fill3(old(leds)@, c1, c2, c3, direction),
{
    if leds.is_empty() {
        return;
    }
    proof {
        lemma_usize_low_half(leds.len());
    }
    let num_leds = leds.len() as u16;
    let half = num_leds / 2;
    let last = num_leds - 1;
    fill_gradient_range(leds, 0, c1, half, c2, direction);
    fill_gradient_range(leds, half, c2, last, c3, direction);
}

/// `s` filled with the HSV ramps from `c1` to `c2`, `c2` to `c3` and `c3`
/// to `c4` over its thirds, in `direction`, the length taken as a 16-bit
/// number; an empty `s` stays empty.
pub open spec fn hsv_strip_fill4<T: FromHsv>(
    s: Seq<T>,
    c1: Chsv,
    c2: Chsv,
    c3: Chsv,
    c4: Chsv,
    direction: GradientDirection,
) -> Seq<T> {
    let n = s.len() % 65536;
    let onethird = (n / 3) as u16;
    let twothirds = ((n * 2) / 3) as u16;
    let last = (n - 1) as u16;
    if s.len() == 0 {
        s
    } else {
        hsv_range_fill(
            hsv_range_fill(
                hsv_range_fill(s, 0, c1, onethird, c2, direction),
                onethird,
                c2,
                twothirds,
                c3,
                direction,
            ),
            twothirds,
            c3,
            last,
            c4,
            direction,
        )
    }
}

/// Fills the whole slice with a four-stop HSV-space gradient over thirds of
/// the slice.
///
/// The length is taken as a 16-bit number `n`; `n * 2` must not overflow
/// 16 bits and `n - 1` must not underflow.
pub fn fill_gradient4<T: FromHsv>(
    leds: &mut [T],
    c1: Chsv,
    c2: Chsv,
    c3: Chsv,
    c4: Chsv,
    direction: GradientDirection,
)
    requires
        old(leds)@.len() == 0 || (old(leds)@.len() % 65536 != 0 && old(leds)@.len() % 65536
            < 32768),
    ensures
        final(leds)@ == hsv_strip_fill4(old(leds)@, c1, c2, c3, c4, direction),
{
    if leds.is_empty() {
        return;
    }
    proof {
        lemma_usize_low_half(leds.len());
    }
    let num_leds = leds.len() as u16;
    let onethird = num_leds / 3;
    let twothirds = (num_leds * 2) / 3;
    let last = num_leds - 1;
    fill_gradient_range(leds, 0, c1, onethird, c2, direction);
    fill_gradient_range(leds, onethird, c2, twothirds, c3, direction);
    fill_gradient_range(leds, twothirds, c3, last, c4, direction);
}

} // verus!
