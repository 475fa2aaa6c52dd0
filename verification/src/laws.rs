//! Properties that hold of the color operations as a whole, over every
//! input: the algebra of the pixel operators, the scaling conventions, the
//! blend endpoints and directions, palette lookups, gradient palettes, and
//! the shape of gradients and rainbows.

use vstd::prelude::*;
use crate::blend::{blend_hsv_of, blend_rgb};
use crate::fill::{
    FromHsv, GradientDirection, abs_int, accumulated16, circular_hue, hsv_range_fill,
    hsv_strip_fill, hsv_strip_fill3, hsv_strip_fill4, lemma_accumulated16, rainbow_hue,
    ramp_channel, ramp_step, ramp_value, rgb_range_fill, rgb_strip_fill, rgb_strip_fill3,
    rgb_strip_fill4, travels_forward, trunc_div,
};
use crate::gradient_palette::{
    black_slots, compact_gradient, full_gradient, gradient_segments, segment_slots, stop_count,
};
use crate::heat::heat_rgb;
use crate::hsv::{Chsv, add8w, approx_hsv, rainbow_rgb};
use crate::math8::{blend8_of, qadd8_of, qsub8_of, scale8_of, scale8_video_of};
use crate::palette::{
    ColorBlend, dimmed_hsv, effective_index, palette16_hsv, palette16_rgb, palette256_rgb,
    palette32_hsv, palette32_rgb,
};
use crate::rgb::{Crgb, max8, min8};
use vstd::arithmetic::div_mod::{
    lemma_add_mod_noop, lemma_div_is_ordered, lemma_div_pos_is_pos, lemma_fundamental_div_mod,
    lemma_mod_bound, lemma_mod_multiples_vanish, lemma_mod_pos_bound, lemma_mod_twice,
    lemma_small_mod,
};

verus! {

// ---------------------------------------------------------------------------
// Byte-level facts
// ---------------------------------------------------------------------------

/// Scaling by 255 keeps a byte, scaling by 0 zeroes it, and scaling never
/// makes a byte larger.
pub proof fn scale8_bounds(x: u8, s: u8)
    ensures
        scale8_of(x, 255) == x,
        scale8_of(x, 0) == 0,
        scale8_of(x, s) <= x,
{
    assert(x * (s + 1) <= x * 256) by (nonlinear_arith)
        requires
            s <= 255,
            x >= 0,
    ;
}

/// "Video" scaling by a nonzero factor keeps a nonzero byte nonzero, and
/// zero stays zero.
pub proof fn scale8_video_keeps_lit(x: u8, s: u8)
    requires
        s != 0,
    ensures
        (scale8_video_of(x, s) == 0) == (x == 0),
{
    assert((x as int * s as int) / 256 <= 254) by (nonlinear_arith)
        requires
            x <= 255,
            s <= 255,
    ;
}

/// A full-range blend lies between its two ends, is the first end at
/// amount 0 and the second at amount 255, and blending a byte with itself
/// gives that byte.
pub proof fn blend8_bounds(a: u8, b: u8, t: u8)
    ensures
        min8(a, b) <= blend8_of(a, b, t) <= max8(a, b),
        blend8_of(a, b, 0) == a,
        blend8_of(a, b, 255) == b,
        blend8_of(a, a, t) == a,
{
    let lo = min8(a, b) as int;
    let hi = max8(a, b) as int;
    let v = a * (256 - t) + b * (t + 1);
    assert(lo * 257 <= v <= hi * 257) by (nonlinear_arith)
        requires
            v == a * (256 - t) + b * (t + 1),
            0 <= t <= 255,
            lo <= a <= hi,
            lo <= b <= hi,
            lo >= 0,
    ;
    assert(a * (256 - t) + a * (t + 1) == a * 257) by (nonlinear_arith);
}

// ---------------------------------------------------------------------------
// Pixel operators
// ---------------------------------------------------------------------------

/// `a + b` saturates channel by channel and never lowers a channel;
/// `a - b` saturates at zero and never raises one.
pub proof fn add_sub_saturate(a: Crgb, b: Crgb)
    ensures
        a.qadd(b).r == (if a.r + b.r > 255 { 255 } else { a.r + b.r }),
        a.qadd(b).g == (if a.g + b.g > 255 { 255 } else { a.g + b.g }),
        a.qadd(b).b == (if a.b + b.b > 255 { 255 } else { a.b + b.b }),
        a.qadd(b).r >= a.r && a.qadd(b).g >= a.g && a.qadd(b).b >= a.b,
        a.qsub(b).r == (if a.r < b.r { 0 } else { a.r - b.r }),
        a.qsub(b).g == (if a.g < b.g { 0 } else { a.g - b.g }),
        a.qsub(b).b == (if a.b < b.b { 0 } else { a.b - b.b }),
        a.qsub(b).r <= a.r && a.qsub(b).g <= a.g && a.qsub(b).b <= a.b,
{
}

/// `a & b` and `a | b` bracket their inputs: the channel-wise minimum never
/// exceeds the channel-wise maximum, and each lies between the two inputs.
pub proof fn and_or_bracket(a: Crgb, b: Crgb)
    ensures
        a.min_with(b).r <= a.r && a.min_with(b).r <= b.r,
        a.min_with(b).g <= a.g && a.min_with(b).g <= b.g,
        a.min_with(b).b <= a.b && a.min_with(b).b <= b.b,
        a.max_with(b).r >= a.r && a.max_with(b).r >= b.r,
        a.max_with(b).g >= a.g && a.max_with(b).g >= b.g,
        a.max_with(b).b >= a.b && a.max_with(b).b >= b.b,
        a.min_with(b).r <= a.max_with(b).r,
        a.min_with(b).g <= a.max_with(b).g,
        a.min_with(b).b <= a.max_with(b).b,
{
}

/// Inverting twice gives the pixel back.
pub proof fn neg_is_involution(a: Crgb)
    ensures
        a.inverted().inverted() == a,
{
}

/// `a & b` picks, channel by channel, one of the two inputs (the smaller)
/// and `a | b` the other (the larger); both are commutative.
pub proof fn and_or_pick_an_input(a: Crgb, b: Crgb)
    ensures
        a.min_with(b).r == a.r || a.min_with(b).r == b.r,
        a.min_with(b).g == a.g || a.min_with(b).g == b.g,
        a.min_with(b).b == a.b || a.min_with(b).b == b.b,
        a.max_with(b).r == a.r || a.max_with(b).r == b.r,
        a.max_with(b).g == a.g || a.max_with(b).g == b.g,
        a.max_with(b).b == a.b || a.max_with(b).b == b.b,
        a.min_with(b) == b.min_with(a),
        a.max_with(b) == b.max_with(a),
{
}

/// Each channel and its inverse add up to 255.
pub proof fn inverse_complements(a: Crgb)
    ensures
        a.inverted().r + a.r == 255,
        a.inverted().g + a.g == 255,
        a.inverted().b + a.b == 255,
{
}

/// The scalar operators leave a pixel alone at their neutral operand
/// (`+ 0`, `- 0`, `* 1`, `/ 1`, `>> 0`, `& 255`, `| 0`); `* 0` gives black;
/// capping at `d` leaves no channel above `d` and keeps those at or below
/// it; flooring at `d` leaves none below `d` and keeps those at or above it.
pub proof fn scalar_operators_neutral_and_bounds(a: Crgb, d: u8)
    ensures
        a.plus_scalar(0) == a,
        a.minus_scalar(0) == a,
        a.times_scalar(1) == a,
        a.times_scalar(0) == Crgb::black(),
        a.over_scalar(1) == a,
        a.shifted_right(0) == a,
        a.capped(255) == a,
        a.floored(0) == a,
        a.capped(d).r <= d && (a.r <= d ==> a.capped(d).r == a.r),
        a.capped(d).g <= d && (a.g <= d ==> a.capped(d).g == a.g),
        a.capped(d).b <= d && (a.b <= d ==> a.capped(d).b == a.b),
        a.floored(d).r >= d && (a.r >= d ==> a.floored(d).r == a.r),
        a.floored(d).g >= d && (a.g >= d ==> a.floored(d).g == a.g),
        a.floored(d).b >= d && (a.b >= d ==> a.floored(d).b == a.b),
{
    let (r, g, b) = (a.r, a.g, a.b);
    assert(r >> 0u8 == r && g >> 0u8 == g && b >> 0u8 == b) by (bit_vector);
}

/// Plain scaling is monotone in the scale: a larger scale never gives a
/// smaller channel.
pub proof fn scaling_is_monotone(a: Crgb, s: u8, t: u8)
    requires
        s <= t,
    ensures
        a.scaled(s).r <= a.scaled(t).r,
        a.scaled(s).g <= a.scaled(t).g,
        a.scaled(s).b <= a.scaled(t).b,
{
    assert forall|x: u8| #[trigger] scale8_of(x, s) <= scale8_of(x, t) by {
        assert(x * (s + 1) <= x * (t + 1)) by (nonlinear_arith)
            requires
                s <= t,
                x >= 0,
        ;
        assert(x * (t + 1) <= 255 * 256) by (nonlinear_arith)
            requires
                t <= 255,
                x <= 255,
                x >= 0,
        ;
        lemma_div_is_ordered(x * (s + 1), x * (t + 1), 256);
        lemma_div_is_ordered(x * (t + 1), 65280int, 256);
        assert(0 <= x * (s + 1)) by (nonlinear_arith)
            requires
                x >= 0,
                s >= 0,
        ;
        lemma_div_pos_is_pos(x * (s + 1), 256);
    }
}

/// Plain scaling by 255 keeps a pixel, by 0 turns it black, and never
/// brightens a channel; so fading to black by 255 gives black.
pub proof fn nscale8_bounds(a: Crgb, s: u8)
    ensures
        a.scaled(255) == a,
        a.scaled(0) == Crgb::black(),
        a.scaled((255 - 255) as u8) == Crgb::black(),
        a.scaled(s).r <= a.r && a.scaled(s).g <= a.g && a.scaled(s).b <= a.b,
{
    scale8_bounds(a.r, s);
    scale8_bounds(a.g, s);
    scale8_bounds(a.b, s);
}

/// "Video" scaling by a nonzero factor keeps exactly the lit channels lit.
pub proof fn nscale8_video_keeps_lit(a: Crgb, s: u8)
    requires
        s != 0,
    ensures
        (a.scaled_video(s).r == 0) == (a.r == 0),
        (a.scaled_video(s).g == 0) == (a.g == 0),
        (a.scaled_video(s).b == 0) == (a.b == 0),
{
    scale8_video_keeps_lit(a.r, s);
    scale8_video_keeps_lit(a.g, s);
    scale8_video_keeps_lit(a.b, s);
}

/// Fading through a color mask never brightens a pixel, and a white mask
/// leaves it unchanged.
pub proof fn fade_using_color_bounds(c: Crgb, mask: Crgb)
    ensures
        c.scaled_rgb(mask).r <= c.r && c.scaled_rgb(mask).g <= c.g && c.scaled_rgb(mask).b <= c.b,
        c.scaled_rgb(Crgb { r: 255, g: 255, b: 255 }) == c,
{
    scale8_bounds(c.r, mask.r);
    scale8_bounds(c.g, mask.g);
    scale8_bounds(c.b, mask.b);
}

// ---------------------------------------------------------------------------
// Blending
// ---------------------------------------------------------------------------

/// An RGB blend gives the first color at amount 0 and the second at amount
/// 255, stays channel by channel between the two, and blending a color
/// with itself gives that color.
pub proof fn blend_rgb_bounds(a: Crgb, b: Crgb, t: u8)
    ensures
        blend_rgb(a, b, 0) == a,
        blend_rgb(a, b, 255) == b,
        blend_rgb(a, a, t) == a,
        min8(a.r, b.r) <= blend_rgb(a, b, t).r <= max8(a.r, b.r),
        min8(a.g, b.g) <= blend_rgb(a, b, t).g <= max8(a.g, b.g),
        min8(a.b, b.b) <= blend_rgb(a, b, t).b <= max8(a.b, b.b),
{
    blend8_bounds(a.r, b.r, t);
    blend8_bounds(a.g, b.g, t);
    blend8_bounds(a.b, b.b, t);
}

/// An HSV blend gives the first color at amount 0 and the second at amount
/// 255, whatever the direction; so at those amounts the direction makes no
/// difference.
pub proof fn blend_hsv_endpoints(a: Chsv, b: Chsv, direction: GradientDirection)
    ensures
        blend_hsv_of(a, b, 0, direction) == a,
        blend_hsv_of(a, b, 255, direction) == b,
        blend_hsv_of(a, b, 0, GradientDirection::Forward) == blend_hsv_of(
            a,
            b,
            0,
            GradientDirection::Backward,
        ),
        blend_hsv_of(a, b, 255, GradientDirection::Forward) == blend_hsv_of(
            a,
            b,
            255,
            GradientDirection::Backward,
        ),
{
}

// ---------------------------------------------------------------------------
// Color conversions
// ---------------------------------------------------------------------------

/// Zero value renders black, whatever the hue and saturation.
pub proof fn rainbow_zero_value_is_black(hue: u8, sat: u8)
    ensures
        rainbow_rgb(Chsv { hue, sat, val: 0 }) == Crgb::black(),
{
    let w = crate::hsv::rainbow_wheel(hue);
    assert(scale8_video_of(0, 0) == 0);
    scale8_bounds(crate::hsv::rainbow_saturate(w.0, sat), 0);
    scale8_bounds(crate::hsv::rainbow_saturate(w.1, sat), 0);
    scale8_bounds(crate::hsv::rainbow_saturate(w.2, sat), 0);
}

/// Zero saturation renders a gray: all three channels agree, whatever the
/// hue.
pub proof fn rainbow_zero_saturation_is_gray(hue: u8, val: u8)
    ensures
        rainbow_rgb(Chsv { hue, sat: 0, val }).r == rainbow_rgb(Chsv { hue, sat: 0, val }).g,
        rainbow_rgb(Chsv { hue, sat: 0, val }).g == rainbow_rgb(Chsv { hue, sat: 0, val }).b,
{
}

/// A gray is reported as fully unsaturated with hue 0, and black as
/// `(0, 0, 0)`.
pub proof fn approx_gray_is_unsaturated(v: u8)
    ensures
        approx_hsv(Crgb { r: v, g: v, b: v }).sat == 0,
        approx_hsv(Crgb { r: v, g: v, b: v }).hue == 0,
        approx_hsv(Crgb::black()) == (Chsv { hue: 0, sat: 0, val: 0 }),
{
}

// ---------------------------------------------------------------------------
// Rainbows
// ---------------------------------------------------------------------------

/// A circular rainbow starts at its initial hue.
pub proof fn circular_rainbow_starts_at_initial_hue(initial: u8, n: int, reversed: bool)
    ensures
        circular_hue(initial, n, reversed, 0) == initial,
{
}

/// A clockwise circular rainbow over `n` pixels (`1 <= n < 65536`) turns
/// the hue clockwise from the initial hue without ever coming back past
/// it: the clockwise distance from the initial hue never shrinks along the
/// strip.
pub proof fn circular_rainbow_turns_clockwise(initial: u8, n: int, i: int, j: int)
    requires
        1 <= n < 65536,
        0 <= i <= j < n,
    ensures
        hue_cw(initial, circular_hue(initial, n, false, i)) <= hue_cw(
            initial,
            circular_hue(initial, n, false, j),
        ),
{
    let change = 65535int / n;
    lemma_small_mod(n as nat, 65536);
    lemma_fundamental_div_mod(65535, n);
    lemma_mod_bound(65535, n);
    assert(n * change <= 65535);
    assert(0 <= i * change <= j * change <= (n - 1) * change) by (nonlinear_arith)
        requires
            0 <= i <= j <= n - 1,
            change >= 0,
    ;
    assert((n - 1) * change < 65536) by (nonlinear_arith)
        requires
            n * change <= 65535,
            change >= 0,
            n >= 1,
    ;
    lemma_small_mod((i * change) as nat, 65536);
    lemma_small_mod((j * change) as nat, 65536);
    lemma_div_is_ordered(i * change, j * change, 256);
    lemma_div_is_ordered(j * change, 65535int, 256);
    lemma_div_pos_is_pos(i * change, 256);
    assert(crate::fill::circular_offset(change, false, i) == i * change);
    assert(crate::fill::circular_offset(change, false, j) == j * change);
    lemma_hue_turn(initial, (i * change) / 256);
    lemma_hue_turn(initial, (j * change) / 256);
}

/// A pixel channel that follows a ramp from `from` to `to`: pixel `j` lies
/// between the two ends, and pixel `i <= j` is no further along the ramp.
pub open spec fn follows_ramp(at_i: u8, at_j: u8, from: u8, to: u8) -> bool {
    &&& min8(from, to) <= at_j <= max8(from, to)
    &&& from <= to ==> at_i <= at_j
    &&& from > to ==> at_i >= at_j
}

/// The 16-bit accumulator of a ramp over `1 ..= 32767` pixels never wraps:
/// after `k` steps it holds `from * 256 +- 2 * k * q`, `q` being the
/// truncated per-pixel 8.7 step, and `2 * span * q` never exceeds the
/// distance in 8.8 fixed point.
proof fn lemma_ramp_accumulator(from: u8, to: u8, span: int, k: int)
    requires
        1 <= span <= 32767,
        0 <= k <= span,
    ensures
        ({
            let q = abs_int((to - from) * 128) / span;
            &&& 0 <= k * q <= span * q <= abs_int((to - from) * 128)
            &&& accumulated16(from * 256, ramp_step((to - from) * 128, span), k) == (if to >= from {
                from * 256 + 2 * (k * q)
            } else {
                from * 256 - 2 * (k * q)
            })
        }),
{
    let d = (to - from) * 128;
    let ad = abs_int(d);
    let q = ad / span;
    lemma_fundamental_div_mod(ad, span);
    assert(0 <= ad % span);
    assert(span * q <= ad);
    assert(0 <= k * q <= span * q) by (nonlinear_arith)
        requires
            0 <= k <= span,
            q >= 0,
    ;
    assert(trunc_div(d, span) == (if d >= 0 {
        q
    } else {
        -q
    }));
    reveal(accumulated16);
    let step = ramp_step(d, span);
    let kq = k * q;
    assert(ad <= 32640);
    if to >= from {
        assert(ad == d);
        assert(step == 2 * q);
        assert(k * step == 2 * kq) by (nonlinear_arith)
            requires
                step == 2 * q,
                kq == k * q,
        ;
        assert(0 <= from * 256 + 2 * kq < 65536);
        lemma_small_mod((from * 256 + 2 * kq) as nat, 65536);
        assert(accumulated16(from * 256, step, k) == from * 256 + 2 * kq);
    } else if q == 0 {
        assert(step == 0);
        assert(k * step == 0) by (nonlinear_arith)
            requires
                step == 0,
        ;
        assert(kq == 0);
        lemma_small_mod((from * 256) as nat, 65536);
        assert(accumulated16(from * 256, step, k) == from * 256 - 2 * kq);
    } else {
        assert(ad == -d);
        assert(step == 65536 - 2 * q);
        assert(k * step == 65536 * k + (0 - 2 * kq)) by (nonlinear_arith)
            requires
                step == 65536 - 2 * q,
                kq == k * q,
        ;
        lemma_mod_multiples_vanish(k, from * 256 - 2 * kq, 65536);
        assert(0 <= from * 256 - 2 * kq < 65536);
        lemma_small_mod((from * 256 - 2 * kq) as nat, 65536);
        assert(accumulated16(from * 256, step, k) == from * 256 - 2 * kq);
    }
}

/// One channel of an RGB ramp over `1 ..= 32767` pixels starts exactly at
/// its start value, never leaves the interval between its two ends, and
/// never reverses direction.
pub proof fn ramp_channel_shape(from: u8, to: u8, span: int, i: int, j: int)
    requires
        1 <= span <= 32767,
        0 <= i <= j <= span,
    ensures
        ramp_channel(from, to, span, 0) == from,
        follows_ramp(ramp_channel(from, to, span, i), ramp_channel(from, to, span, j), from, to),
{
    lemma_ramp_accumulator(from, to, span, 0);
    lemma_ramp_accumulator(from, to, span, i);
    lemma_ramp_accumulator(from, to, span, j);
    let q = abs_int((to - from) * 128) / span;
    assert(i * q <= j * q) by (nonlinear_arith)
        requires
            0 <= i <= j,
            q >= 0,
    ;
    let step = ramp_step((to - from) * 128, span);
    let ai = accumulated16(from * 256, step, i);
    let aj = accumulated16(from * 256, step, j);
    assert(ramp_channel(from, to, span, i) == (ai / 256) as u8);
    assert(ramp_channel(from, to, span, j) == (aj / 256) as u8);
    assert(ramp_channel(from, to, span, 0) == ((from * 256) / 256) as u8);
    if to >= from {
        lemma_div_is_ordered(from * 256, ai, 256);
        lemma_div_is_ordered(ai, aj, 256);
        lemma_div_is_ordered(aj, to * 256, 256);
        lemma_div_is_ordered(from * 256, aj, 256);
    } else {
        lemma_div_is_ordered(aj, ai, 256);
        lemma_div_is_ordered(to * 256, aj, 256);
        lemma_div_is_ordered(aj, from * 256, 256);
    }
}

/// One channel of a ramp over `1 ..= 32767` pixels ends within
/// `(span + 128) / 128` of its end value (less than one unit for spans up
/// to 127): the truncation of the per-pixel step is all it loses.
pub proof fn ramp_channel_reaches_end(from: u8, to: u8, span: int)
    requires
        1 <= span <= 32767,
    ensures
        abs_int(to - ramp_channel(from, to, span, span)) * 128 < span + 128,
{
    lemma_ramp_accumulator(from, to, span, span);
    let ad = abs_int((to - from) * 128);
    let q = ad / span;
    lemma_fundamental_div_mod(ad, span);
    lemma_mod_pos_bound(ad, span);
    assert(ad - span < span * q);
    let step = ramp_step((to - from) * 128, span);
    let acc = accumulated16(from * 256, step, span);
    assert(0 <= acc);
    lemma_fundamental_div_mod(acc, 256);
    lemma_mod_pos_bound(acc, 256);
    assert(ramp_channel(from, to, span, span) == (acc / 256) as u8);
    if to >= from {
        assert(acc == from * 256 + 2 * (span * q));
        assert(acc <= to * 256);
    } else {
        assert(acc == from * 256 - 2 * (span * q));
        assert(acc >= to * 256);
    }
}

/// A two-stop RGB gradient over `2 ..= 32768` pixels starts exactly at the
/// first color, keeps every channel within the interval between the two
/// colors, and never reverses direction on any channel.
pub proof fn gradient_rgb_shape(s: Seq<Crgb>, c1: Crgb, c2: Crgb, i: int, j: int)
    requires
        2 <= s.len() <= 32768,
        0 <= i <= j < s.len(),
    ensures
        ({
            let g = rgb_strip_fill(s, c1, c2);
            &&& g.len() == s.len()
            &&& g[0] == c1
            &&& follows_ramp(g[i].r, g[j].r, c1.r, c2.r)
            &&& follows_ramp(g[i].g, g[j].g, c1.g, c2.g)
            &&& follows_ramp(g[i].b, g[j].b, c1.b, c2.b)
        }),
{
    let span = s.len() - 1;
    ramp_channel_shape(c1.r, c2.r, span, i, j);
    ramp_channel_shape(c1.g, c2.g, span, i, j);
    ramp_channel_shape(c1.b, c2.b, span, i, j);
}

/// Giving a gradient's endpoints in the other order fills the same range
/// with the same ramp (for distinct endpoints).
pub proof fn gradient_rgb_endpoint_order(
    s: Seq<Crgb>,
    a: u16,
    c1: Crgb,
    b: u16,
    c2: Crgb,
)
    requires
        a != b,
    ensures
        rgb_range_fill(s, a, c1, b, c2) == rgb_range_fill(s, b, c2, a, c1),
{
    assert(rgb_range_fill(s, a, c1, b, c2) =~= rgb_range_fill(s, b, c2, a, c1));
}

/// A gradient whose two endpoints are the same position paints that one
/// pixel with the first color.
pub proof fn gradient_rgb_single_pixel(s: Seq<Crgb>, a: u16, c1: Crgb, c2: Crgb)
    requires
        a < s.len(),
    ensures
        rgb_range_fill(s, a, c1, a, c2)[a as int] == c1,
{
    lemma_accumulated16(c1.r * 256, ramp_step((c2.r - c1.r) * 128, 0), 0);
    lemma_accumulated16(c1.g * 256, ramp_step((c2.g - c1.g) * 128, 0), 0);
    lemma_accumulated16(c1.b * 256, ramp_step((c2.b - c1.b) * 128, 0), 0);
}

/// Giving an HSV gradient's endpoints in the other order fills the same
/// range with the same ramp (for distinct endpoints): the gradient always
/// runs from the lower position's color to the higher position's.
pub proof fn gradient_hsv_endpoint_order(
    s: Seq<Chsv>,
    a: u16,
    c1: Chsv,
    b: u16,
    c2: Chsv,
    direction: GradientDirection,
)
    requires
        a != b,
    ensures
        hsv_range_fill(s, a, c1, b, c2, direction) == hsv_range_fill(s, b, c2, a, c1, direction),
{
    assert(hsv_range_fill(s, a, c1, b, c2, direction) =~= hsv_range_fill(s, b, c2, a, c1, direction));
}

/// A gradient drawn over positions `a ..= b` (`a < b`, at most 32767 apart,
/// all inside the slice) starts exactly at the first color at `a`, keeps
/// every channel between the two colors and monotone along the range, and
/// ends at `b` within `(b - a + 128) / 128` of the second color on every
/// channel.
pub proof fn gradient_rgb_range_shape(
    s: Seq<Crgb>,
    a: u16,
    c1: Crgb,
    b: u16,
    c2: Crgb,
    i: int,
    j: int,
)
    requires
        a < b,
        b - a <= 32767,
        b < s.len(),
        a <= i <= j <= b,
    ensures
        ({
            let g = rgb_range_fill(s, a, c1, b, c2);
            let span = b - a;
            &&& g.len() == s.len()
            &&& g[a as int] == c1
            &&& follows_ramp(g[i].r, g[j].r, c1.r, c2.r)
            &&& follows_ramp(g[i].g, g[j].g, c1.g, c2.g)
            &&& follows_ramp(g[i].b, g[j].b, c1.b, c2.b)
            &&& abs_int(c2.r - g[b as int].r) * 128 < span + 128
            &&& abs_int(c2.g - g[b as int].g) * 128 < span + 128
            &&& abs_int(c2.b - g[b as int].b) * 128 < span + 128
        }),
{
    let span = b - a;
    ramp_channel_shape(c1.r, c2.r, span, i - a, j - a);
    ramp_channel_shape(c1.g, c2.g, span, i - a, j - a);
    ramp_channel_shape(c1.b, c2.b, span, i - a, j - a);
    ramp_channel_reaches_end(c1.r, c2.r, span);
    ramp_channel_reaches_end(c1.g, c2.g, span);
    ramp_channel_reaches_end(c1.b, c2.b, span);
}

/// A gradient over positions `a ..= b` is the same ramp wherever it is
/// drawn: its pixel at `a + k` is pixel `k` of the gradient between the same
/// colors drawn from position 0 over `b - a` pixels.
pub proof fn gradient_rgb_range_shift(
    s: Seq<Crgb>,
    t: Seq<Crgb>,
    a: u16,
    c1: Crgb,
    b: u16,
    c2: Crgb,
    k: int,
)
    requires
        a <= b,
        0 <= k <= b - a,
        a + k < s.len(),
        k < t.len(),
    ensures
        rgb_range_fill(s, a, c1, b, c2)[a + k] == rgb_range_fill(t, 0, c1, (b - a) as u16, c2)[k],
{
}

/// An HSV gradient over positions `a ..= b` (`a < b`, at most 32767 apart,
/// inside the slice) ramps saturation and value like the RGB channels:
/// each starts exactly at the first color's, stays between the two colors
/// and monotone, and ends at `b` within `(b - a + 128) / 128` of the second
/// color's.
pub proof fn gradient_hsv_range_sat_val(
    s: Seq<Chsv>,
    a: u16,
    c1: Chsv,
    b: u16,
    c2: Chsv,
    direction: GradientDirection,
    i: int,
    j: int,
)
    requires
        a < b,
        b - a <= 32767,
        b < s.len(),
        a <= i <= j <= b,
    ensures
        ({
            let g = hsv_range_fill(s, a, c1, b, c2, direction);
            let span = b - a;
            &&& g.len() == s.len()
            &&& g[a as int].sat == c1.sat
            &&& g[a as int].val == c1.val
            &&& follows_ramp(g[i].sat, g[j].sat, c1.sat, c2.sat)
            &&& follows_ramp(g[i].val, g[j].val, c1.val, c2.val)
            &&& abs_int(c2.sat - g[b as int].sat) * 128 < span + 128
            &&& abs_int(c2.val - g[b as int].val) * 128 < span + 128
        }),
{
    let span = b - a;
    let g = hsv_range_fill(s, a, c1, b, c2, direction);
    assert(g[a as int] == <Chsv as FromHsv>::hsv_image(g[a as int]));
    ramp_channel_shape(c1.sat, c2.sat, span, i - a, j - a);
    ramp_channel_shape(c1.val, c2.val, span, i - a, j - a);
    ramp_channel_reaches_end(c1.sat, c2.sat, span);
    ramp_channel_reaches_end(c1.val, c2.val, span);
}

/// An HSV gradient toward black (`val == 0`) or white (`sat == 0`) keeps
/// the start color's hue on every pixel: the end color's hue byte has no
/// effect.
pub proof fn gradient_hsv_to_black_or_white_keeps_hue(
    s: Seq<Chsv>,
    a: u16,
    c1: Chsv,
    b: u16,
    c2: Chsv,
    direction: GradientDirection,
    i: int,
)
    requires
        a <= b,
        c2.val == 0 || c2.sat == 0,
        a <= i <= b,
        i < s.len(),
    ensures
        hsv_range_fill(s, a, c1, b, c2, direction)[i].hue == c1.hue,
{
    let span = (b - a) as int;
    let ends = crate::fill::hsv_ramp_ends(c1, c2);
    assert(ends.0.hue == c1.hue && ends.1.hue == c1.hue);
    assert(crate::fill::hue_distance87(ends.0, ends.1, direction) == 0);
    let step = ramp_step(0, span);
    assert(step == 0);
    reveal(accumulated16);
    assert(accumulated16(c1.hue * 256, 0, i - a) == c1.hue * 256) by {
        assert((i - a) * 0 == 0) by (nonlinear_arith);
        lemma_small_mod((c1.hue * 256) as nat, 65536);
    }
    let g = hsv_range_fill(s, a, c1, b, c2, direction);
    assert(g[i] == <Chsv as FromHsv>::hsv_image(g[i]));
}

/// A gradient filled end to end over a strip of `2 ..= 32768` pixels starts
/// exactly at the first color (RGB) or at its saturation and value (HSV),
/// and its last pixel is within `(n - 1 + 128) / 128` of the second color
/// on every RGB channel, and on saturation and value.
pub proof fn strip_gradient_reaches_both_ends(
    s: Seq<Crgb>,
    t: Seq<Chsv>,
    c1: Crgb,
    c2: Crgb,
    h1: Chsv,
    h2: Chsv,
    direction: GradientDirection,
)
    requires
        2 <= s.len() <= 32768,
        2 <= t.len() <= 32768,
    ensures
        ({
            let g = rgb_strip_fill(s, c1, c2);
            let last = s.len() - 1;
            &&& g.len() == s.len()
            &&& g[0] == c1
            &&& abs_int(c2.r - g[last].r) * 128 < last + 128
            &&& abs_int(c2.g - g[last].g) * 128 < last + 128
            &&& abs_int(c2.b - g[last].b) * 128 < last + 128
        }),
        ({
            let g = hsv_strip_fill(t, h1, h2, direction);
            let last = t.len() - 1;
            &&& g.len() == t.len()
            &&& g[0].sat == h1.sat && g[0].val == h1.val
            &&& abs_int(h2.sat - g[last].sat) * 128 < last + 128
            &&& abs_int(h2.val - g[last].val) * 128 < last + 128
        }),
{
    let ls = ((s.len() - 1) % 65536) as u16;
    let lt = ((t.len() - 1) % 65536) as u16;
    assert(ls == s.len() - 1);
    assert(lt == t.len() - 1);
    gradient_rgb_range_shape(s, 0, c1, ls, c2, 0, 0);
    gradient_hsv_range_sat_val(t, 0, h1, lt, h2, direction, 0, 0);
}

/// A three-stop RGB strip gradient over `3 ..= 32768` pixels is exactly the
/// first color at pixel 0 and the middle color at pixel `n / 2`, and its
/// last pixel is within `(n - 1 - n / 2 + 128) / 128` of the last color on
/// every channel; the HSV one likewise on saturation and value.
pub proof fn strip_gradient3_hits_its_stops(
    s: Seq<Crgb>,
    t: Seq<Chsv>,
    c1: Crgb,
    c2: Crgb,
    c3: Crgb,
    h1: Chsv,
    h2: Chsv,
    h3: Chsv,
    direction: GradientDirection,
)
    requires
        3 <= s.len() <= 32768,
        3 <= t.len() <= 32768,
    ensures
        ({
            let g = rgb_strip_fill3(s, c1, c2, c3);
            let n = s.len() as int;
            let span = n - 1 - n / 2;
            &&& g.len() == n
            &&& g[0] == c1
            &&& g[n / 2] == c2
            &&& abs_int(c3.r - g[n - 1].r) * 128 < span + 128
            &&& abs_int(c3.g - g[n - 1].g) * 128 < span + 128
            &&& abs_int(c3.b - g[n - 1].b) * 128 < span + 128
        }),
        ({
            let g = hsv_strip_fill3(t, h1, h2, h3, direction);
            let n = t.len() as int;
            let span = n - 1 - n / 2;
            &&& g.len() == n
            &&& g[0].sat == h1.sat && g[0].val == h1.val
            &&& g[n / 2].sat == h2.sat && g[n / 2].val == h2.val
            &&& abs_int(h3.sat - g[n - 1].sat) * 128 < span + 128
            &&& abs_int(h3.val - g[n - 1].val) * 128 < span + 128
        }),
{
    let n = s.len() as int;
    lemma_small_mod(n as nat, 65536);
    let half = (n / 2) as u16;
    let last = (n - 1) as u16;
    let inner = rgb_range_fill(s, 0, c1, half, c2);
    gradient_rgb_range_shape(s, 0, c1, half, c2, 0, 0);
    gradient_rgb_range_shape(inner, half, c2, last, c3, half as int, half as int);
    let m = t.len() as int;
    lemma_small_mod(m as nat, 65536);
    let halft = (m / 2) as u16;
    let lastt = (m - 1) as u16;
    let innert = hsv_range_fill(t, 0, h1, halft, h2, direction);
    gradient_hsv_range_sat_val(t, 0, h1, halft, h2, direction, 0, 0);
    gradient_hsv_range_sat_val(innert, halft, h2, lastt, h3, direction, halft as int, halft as int);
}

/// A four-stop RGB strip gradient over `4 ..= 32767` pixels is exactly the
/// first color at pixel 0, the second at pixel `n / 3` and the third at
/// pixel `2 * n / 3`, and its last pixel is within
/// `(n - 1 - 2 * n / 3 + 128) / 128` of the last color on every channel;
/// the HSV one likewise on saturation and value.
pub proof fn strip_gradient4_hits_its_stops(
    s: Seq<Crgb>,
    t: Seq<Chsv>,
    c1: Crgb,
    c2: Crgb,
    c3: Crgb,
    c4: Crgb,
    h1: Chsv,
    h2: Chsv,
    h3: Chsv,
    h4: Chsv,
    direction: GradientDirection,
)
    requires
        4 <= s.len() < 32768,
        4 <= t.len() < 32768,
    ensures
        ({
            let g = rgb_strip_fill4(s, c1, c2, c3, c4);
            let n = s.len() as int;
            let span = n - 1 - (n * 2) / 3;
            &&& g.len() == n
            &&& g[0] == c1
            &&& g[n / 3] == c2
            &&& g[(n * 2) / 3] == c3
            &&& abs_int(c4.r - g[n - 1].r) * 128 < span + 128
            &&& abs_int(c4.g - g[n - 1].g) * 128 < span + 128
            &&& abs_int(c4.b - g[n - 1].b) * 128 < span + 128
        }),
        ({
            let g = hsv_strip_fill4(t, h1, h2, h3, h4, direction);
            let n = t.len() as int;
            let span = n - 1 - (n * 2) / 3;
            &&& g.len() == n
            &&& g[0].sat == h1.sat && g[0].val == h1.val
            &&& g[n / 3].sat == h2.sat && g[n / 3].val == h2.val
            &&& g[(n * 2) / 3].sat == h3.sat && g[(n * 2) / 3].val == h3.val
            &&& abs_int(h4.sat - g[n - 1].sat) * 128 < span + 128
            &&& abs_int(h4.val - g[n - 1].val) * 128 < span + 128
        }),
{
    let n = s.len() as int;
    lemma_small_mod(n as nat, 65536);
    let a = (n / 3) as u16;
    let b = ((n * 2) / 3) as u16;
    let last = (n - 1) as u16;
    let g1 = rgb_range_fill(s, 0, c1, a, c2);
    let g2 = rgb_range_fill(g1, a, c2, b, c3);
    gradient_rgb_range_shape(s, 0, c1, a, c2, 0, 0);
    gradient_rgb_range_shape(g1, a, c2, b, c3, a as int, a as int);
    gradient_rgb_range_shape(g2, b, c3, last, c4, b as int, b as int);
    let m = t.len() as int;
    lemma_small_mod(m as nat, 65536);
    let at = (m / 3) as u16;
    let bt = ((m * 2) / 3) as u16;
    let lastt = (m - 1) as u16;
    let t1 = hsv_range_fill(t, 0, h1, at, h2, direction);
    let t2 = hsv_range_fill(t1, at, h2, bt, h3, direction);
    gradient_hsv_range_sat_val(t, 0, h1, at, h2, direction, 0, 0);
    gradient_hsv_range_sat_val(t1, at, h2, bt, h3, direction, at as int, at as int);
    gradient_hsv_range_sat_val(t2, bt, h3, lastt, h4, direction, bt as int, bt as int);
}

/// A gradient drawn over positions `a ..= b` (endpoints in either order)
/// leaves every other pixel of the slice as it was, RGB or HSV alike.
pub proof fn gradient_range_leaves_rest(
    s: Seq<Crgb>,
    t: Seq<Chsv>,
    a: u16,
    b: u16,
    c1: Crgb,
    c2: Crgb,
    h1: Chsv,
    h2: Chsv,
    direction: GradientDirection,
    p: int,
)
    requires
        p < a && p < b || p > a && p > b,
    ensures
        rgb_range_fill(s, a, c1, b, c2).len() == s.len(),
        hsv_range_fill(t, a, h1, b, h2, direction).len() == t.len(),
        0 <= p < s.len() ==> rgb_range_fill(s, a, c1, b, c2)[p] == s[p],
        0 <= p < t.len() ==> hsv_range_fill(t, a, h1, b, h2, direction)[p] == t[p],
{
}

/// An HSV gradient from black (`val == 0`) or white (`sat == 0`) toward a
/// color that is neither takes that color's hue on every pixel: the start
/// color's hue byte has no effect.
pub proof fn gradient_hsv_from_black_or_white_takes_end_hue(
    s: Seq<Chsv>,
    a: u16,
    c1: Chsv,
    b: u16,
    c2: Chsv,
    direction: GradientDirection,
    i: int,
)
    requires
        a <= b,
        c1.val == 0 || c1.sat == 0,
        c2.val != 0 && c2.sat != 0,
        a <= i <= b,
        i < s.len(),
    ensures
        hsv_range_fill(s, a, c1, b, c2, direction)[i].hue == c2.hue,
{
    let span = (b - a) as int;
    let ends = crate::fill::hsv_ramp_ends(c1, c2);
    assert(ends.0.hue == c2.hue && ends.1.hue == c2.hue);
    assert(crate::fill::hue_distance87(ends.0, ends.1, direction) == 0);
    let step = ramp_step(0, span);
    assert(step == 0);
    reveal(accumulated16);
    assert(accumulated16(c2.hue * 256, 0, i - a) == c2.hue * 256) by {
        assert((i - a) * 0 == 0) by (nonlinear_arith);
        lemma_small_mod((c2.hue * 256) as nat, 65536);
    }
    let g = hsv_range_fill(s, a, c1, b, c2, direction);
    assert(g[i] == <Chsv as FromHsv>::hsv_image(g[i]));
}

/// An HSV gradient starts at the first color's saturation and value, and at
/// its hue too unless the first color is black or white (then the hue is
/// taken from the far end).
pub proof fn gradient_hsv_anchors_start(
    s: Seq<Chsv>,
    c1: Chsv,
    c2: Chsv,
    direction: GradientDirection,
)
    requires
        s.len() >= 1,
    ensures
        ({
            let g = hsv_strip_fill(s, c1, c2, direction);
            &&& g.len() == s.len()
            &&& g[0].sat == c1.sat
            &&& g[0].val == c1.val
            &&& (c1.val != 0 && c1.sat != 0) ==> g[0].hue == c1.hue
        }),
{
    let span = ((s.len() - 1) % 65536) as int;
    let g = hsv_range_fill(s, 0, c1, ((s.len() - 1) % 65536) as u16, c2, direction);
    lemma_accumulated16(c1.sat * 256, ramp_step((c2.sat - c1.sat) * 128, span), 0);
    lemma_accumulated16(c1.val * 256, ramp_step((c2.val - c1.val) * 128, span), 0);
    assert(g[0] == <Chsv as FromHsv>::hsv_image(g[0]));
    let ends = crate::fill::hsv_ramp_ends(c1, c2);
    lemma_accumulated16(
        ends.0.hue * 256,
        ramp_step(crate::fill::hue_distance87(ends.0, ends.1, direction), span),
        0,
    );
}

/// The clockwise distance around the color wheel from hue `a` to hue `b`.
pub open spec fn hue_cw(a: u8, b: u8) -> int {
    (b - a) % 256
}

/// A ramp started at `start` is the ramp started at 0 turned by `start`
/// around the wheel: the 16-bit accumulator wraps exactly as a hue does.
proof fn lemma_ramp_value_turned(start: u8, step: int, k: int)
    ensures
        ramp_value(start, step, k) as int == (start + ramp_value(0, step, k)) % 256,
        0 <= ramp_value(0, step, k) < 256,
{
    reveal(accumulated16);
    let x = k * step;
    let y = x % 65536;
    lemma_mod_bound(x, 65536);
    assert(0 * 256 + x == x);
    lemma_fundamental_div_mod(y, 256);
    lemma_mod_bound(y, 256);
    let z = start * 256 + y;
    lemma_add_mod_noop(start * 256, x, 65536);
    lemma_small_mod((start * 256) as nat, 65536);
    lemma_mod_twice(x, 65536);
    assert((start * 256 + x) % 65536 == z % 65536);
    lemma_small_mod(y as nat, 65536);
    assert(ramp_value(0, step, k) as int == y / 256);
    let q = y / 256;
    assert(z == 256 * (start + q) + y % 256);
    if z < 65536 {
        lemma_small_mod(z as nat, 65536);
        lemma_fundamental_div_mod(z, 256);
        lemma_mod_bound(z, 256);
        assert(z / 256 == start + q);
        lemma_small_mod((start + q) as nat, 256);
    } else {
        lemma_fundamental_div_mod(z, 65536);
        lemma_mod_bound(z, 65536);
        assert(z / 65536 == 1);
        let w = z - 65536;
        assert(z % 65536 == w);
        assert(w == 256 * (start + q - 256) + y % 256);
        lemma_fundamental_div_mod(w, 256);
        lemma_mod_bound(w, 256);
        assert(w / 256 == start + q - 256);
        lemma_fundamental_div_mod(start + q, 256);
        lemma_mod_bound(start + q, 256);
        assert((start + q) / 256 == 1);
    }
}

/// A clockwise distance of `r` from `h`, for `0 <= r < 256`, is `r`.
proof fn lemma_hue_turn(h: u8, r: int)
    requires
        0 <= r < 256,
    ensures
        hue_cw(h, ((h + r) % 256) as u8) == r,
        hue_cw(((h - r) % 256) as u8, h) == r,
{
    lemma_fundamental_div_mod(h + r, 256);
    lemma_mod_bound(h + r, 256);
    let a = (h + r) % 256;
    assert(a == h + r || a == h + r - 256);
    lemma_fundamental_div_mod(a - h, 256);
    lemma_mod_bound(a - h, 256);
    lemma_fundamental_div_mod(h - r, 256);
    lemma_mod_bound(h - r, 256);
    let b = (h - r) % 256;
    assert(b == h - r || b == h - r + 256);
    lemma_fundamental_div_mod(h - b, 256);
    lemma_mod_bound(h - b, 256);
}

/// On a counter-clockwise hue ramp of distance `e` (stepping by `step`, the
/// step of the channel ramp from `e` down to 0), the distance travelled
/// counter-clockwise from the start hue after `k` pixels is `e` minus the
/// channel ramp's value there.
proof fn lemma_counter_clockwise_travel(h: u8, e: u8, step: int, span: int, k: int)
    requires
        step == ramp_step((0u8 - e) * 128, span),
        ramp_channel(e, 0, span, k) <= e,
    ensures
        hue_cw(ramp_value(h, step, k), h) == e - ramp_channel(e, 0, span, k),
{
    let r = ramp_channel(e, 0, span, k) as int;
    lemma_ramp_value_turned(e, step, k);
    lemma_ramp_value_turned(h, step, k);
    let r0 = ramp_value(0, step, k) as int;
    assert(r == (e + r0) % 256);
    let t = (e + r0) / 256;
    lemma_fundamental_div_mod(e + r0, 256);
    assert(h + r0 == h - (e - r) + 256 * t);
    assert((h + r0) % 256 == (h - (e - r)) % 256) by {
        lemma_mod_multiples_vanish(t, h - (e - r), 256);
    }
    lemma_hue_turn(h, e - r);
}

/// On a clockwise hue ramp of distance `d` over `span` pixels, the
/// clockwise distance travelled from the start hue `h` grows along the ramp,
/// never passes `d`, and ends within `(span + 128) / 128` of it.
proof fn lemma_clockwise_travel(h: u8, d: u8, span: int, i: int, j: int)
    requires
        1 <= span <= 32767,
        0 <= i <= j <= span,
    ensures
        ({
            let step = ramp_step((d - 0u8) * 128, span);
            &&& hue_cw(h, ramp_value(h, step, i)) <= hue_cw(h, ramp_value(h, step, j)) <= d
            &&& (d - hue_cw(h, ramp_value(h, step, span))) * 128 < span + 128
        }),
{
    let step = ramp_step((d - 0u8) * 128, span);
    lemma_ramp_value_turned(h, step, i);
    lemma_ramp_value_turned(h, step, j);
    lemma_ramp_value_turned(h, step, span);
    ramp_channel_shape(0, d, span, i, j);
    ramp_channel_shape(0, d, span, i, i);
    ramp_channel_reaches_end(0, d, span);
    lemma_hue_turn(h, ramp_value(0, step, i) as int);
    lemma_hue_turn(h, ramp_value(0, step, j) as int);
    lemma_hue_turn(h, ramp_value(0, step, span) as int);
}

/// On a counter-clockwise hue ramp of distance `e` over `span` pixels, the
/// counter-clockwise distance travelled from the start hue `h` grows along
/// the ramp, never passes `e`, and ends within `(span + 128) / 128` of it.
proof fn lemma_counter_clockwise_ramp(h: u8, e: u8, span: int, i: int, j: int)
    requires
        1 <= span <= 32767,
        0 <= i <= j <= span,
    ensures
        ({
            let step = ramp_step((0u8 - e) * 128, span);
            &&& hue_cw(ramp_value(h, step, i), h) <= hue_cw(ramp_value(h, step, j), h) <= e
            &&& (e - hue_cw(ramp_value(h, step, span), h)) * 128 < span + 128
        }),
{
    let step = ramp_step((0u8 - e) * 128, span);
    ramp_channel_shape(e, 0, span, i, j);
    ramp_channel_shape(e, 0, span, i, i);
    ramp_channel_shape(e, 0, span, span, span);
    ramp_channel_reaches_end(e, 0, span);
    lemma_counter_clockwise_travel(h, e, step, span, i);
    lemma_counter_clockwise_travel(h, e, step, span, j);
    lemma_counter_clockwise_travel(h, e, step, span, span);
}

/// The hue of a pixel of an HSV gradient between two colors that are
/// neither black nor white, drawn over `a ..= b`.
proof fn lemma_hsv_fill_hue(
    s: Seq<Chsv>,
    a: u16,
    c1: Chsv,
    b: u16,
    c2: Chsv,
    direction: GradientDirection,
    i: int,
)
    requires
        a <= i <= b,
        b < s.len(),
        c1.val != 0 && c1.sat != 0,
        c2.val != 0 && c2.sat != 0,
    ensures
        hsv_range_fill(s, a, c1, b, c2, direction)[i].hue == ramp_value(
            c1.hue,
            ramp_step(crate::fill::hue_distance87(c1, c2, direction), b - a),
            i - a,
        ),
{
    let g = hsv_range_fill(s, a, c1, b, c2, direction);
    assert(crate::fill::hsv_ramp_ends(c1, c2) == (c1, c2));
    assert(g[i] == <Chsv as FromHsv>::hsv_image(g[i]));
}

/// An HSV gradient over positions `a ..= b` (`a < b`, at most 32767 apart,
/// inside the slice) between two colors that are neither black nor white
/// moves its hue one way around the wheel. Where the direction resolves
/// clockwise for the clockwise distance `d` from the start hue to the end
/// hue, the clockwise distance already travelled from the start hue is 0 at
/// `a`, never shrinks along the range, never passes `d`, and ends at `b`
/// within `(b - a + 128) / 128` of `d`; otherwise the same holds of the
/// counter-clockwise distance travelled and the counter-clockwise distance
/// `256 - d` (0 for equal hues).
pub proof fn gradient_hsv_range_hue_travel(
    s: Seq<Chsv>,
    a: u16,
    c1: Chsv,
    b: u16,
    c2: Chsv,
    direction: GradientDirection,
    i: int,
    j: int,
)
    requires
        a < b,
        b - a <= 32767,
        b < s.len(),
        a <= i <= j <= b,
        c1.val != 0 && c1.sat != 0,
        c2.val != 0 && c2.sat != 0,
    ensures
        ({
            let g = hsv_range_fill(s, a, c1, b, c2, direction);
            let span = b - a;
            let d = hue_cw(c1.hue, c2.hue);
            &&& g[a as int].hue == c1.hue
            &&& travels_forward(direction, d as u8) ==> {
                &&& hue_cw(c1.hue, g[i].hue) <= hue_cw(c1.hue, g[j].hue) <= d
                &&& (d - hue_cw(c1.hue, g[b as int].hue)) * 128 < span + 128
            }
            &&& !travels_forward(direction, d as u8) ==> {
                let e = hue_cw(c2.hue, c1.hue);
                &&& hue_cw(g[i].hue, c1.hue) <= hue_cw(g[j].hue, c1.hue) <= e
                &&& (e - hue_cw(g[b as int].hue, c1.hue)) * 128 < span + 128
            }
        }),
{
    let span = b - a;
    let d = hue_cw(c1.hue, c2.hue);
    let hd = crate::fill::hue_distance87(c1, c2, direction);
    let step = ramp_step(hd, span);
    lemma_hsv_fill_hue(s, a, c1, b, c2, direction, i);
    lemma_hsv_fill_hue(s, a, c1, b, c2, direction, j);
    lemma_hsv_fill_hue(s, a, c1, b, c2, direction, b as int);
    lemma_hsv_fill_hue(s, a, c1, b, c2, direction, a as int);
    lemma_accumulated16(c1.hue * 256, step, 0);
    assert(ramp_value(c1.hue, step, 0) == c1.hue);
    lemma_mod_bound(c2.hue - c1.hue, 256);
    lemma_mod_bound(c1.hue - c2.hue, 256);
    if travels_forward(direction, d as u8) {
        assert(hd == ((d as u8) - 0u8) * 128);
        lemma_clockwise_travel(c1.hue, d as u8, span, i - a, j - a);
    } else {
        let e = hue_cw(c2.hue, c1.hue);
        assert(((256 - (d as u8)) % 256) == e) by {
            lemma_fundamental_div_mod(c2.hue - c1.hue, 256);
            lemma_fundamental_div_mod(c1.hue - c2.hue, 256);
            lemma_fundamental_div_mod(256 - d, 256);
            lemma_mod_bound(256 - d, 256);
        }
        assert(hd == (0u8 - (e as u8)) * 128);
        lemma_counter_clockwise_ramp(c1.hue, e as u8, span, i - a, j - a);
    }
}

/// `Shortest` blends clockwise exactly when the clockwise hue distance is at
/// most 127 and `Longest` exactly when it is at least 128: each gives the
/// same color as `Forward` or `Backward` accordingly.
pub proof fn blend_hsv_resolves_direction(a: Chsv, b: Chsv, amount: u8)
    ensures
        ({
            let d = hue_cw(a.hue, b.hue);
            let cw = blend_hsv_of(a, b, amount, GradientDirection::Forward);
            let ccw = blend_hsv_of(a, b, amount, GradientDirection::Backward);
            &&& blend_hsv_of(a, b, amount, GradientDirection::Shortest) == (if d <= 127 {
                cw
            } else {
                ccw
            })
            &&& blend_hsv_of(a, b, amount, GradientDirection::Longest) == (if d >= 128 {
                cw
            } else {
                ccw
            })
        }),
{
    lemma_mod_bound(b.hue - a.hue, 256);
}

/// Between its endpoints (amount `1 ..= 254`), an HSV blend turns the hue
/// from the first color's toward the second's the way the direction
/// resolves, never past the second's: clockwise at most the clockwise
/// distance, counter-clockwise at most the counter-clockwise one. Its
/// saturation and value lie between the two colors', at most one below the
/// smaller.
pub proof fn blend_hsv_moves_toward_overlay(
    a: Chsv,
    b: Chsv,
    amount: u8,
    direction: GradientDirection,
)
    requires
        0 < amount < 255,
    ensures
        ({
            let c = blend_hsv_of(a, b, amount, direction);
            let d = hue_cw(a.hue, b.hue);
            &&& travels_forward(direction, d as u8) ==> hue_cw(a.hue, c.hue) <= d
            &&& !travels_forward(direction, d as u8) ==> hue_cw(c.hue, a.hue) <= hue_cw(
                b.hue,
                a.hue,
            )
            &&& min8(a.sat, b.sat) - 1 <= c.sat <= max8(a.sat, b.sat)
            &&& min8(a.val, b.val) - 1 <= c.val <= max8(a.val, b.val)
        }),
{
    let c = blend_hsv_of(a, b, amount, direction);
    let d = hue_cw(a.hue, b.hue);
    lemma_mod_bound(b.hue - a.hue, 256);
    lemma_mod_bound(a.hue - b.hue, 256);
    lemma_blend_channel(a.sat, b.sat, amount);
    lemma_blend_channel(a.val, b.val, amount);
    if travels_forward(direction, d as u8) {
        let s = scale8_of(d as u8, amount);
        scale8_bounds(d as u8, amount);
        lemma_hue_turn(a.hue, s as int);
    } else {
        let e = hue_cw(b.hue, a.hue);
        assert(((256 - (d as u8)) % 256) == e) by {
            lemma_fundamental_div_mod(b.hue - a.hue, 256);
            lemma_fundamental_div_mod(a.hue - b.hue, 256);
            lemma_fundamental_div_mod(256 - d, 256);
            lemma_mod_bound(256 - d, 256);
        }
        let s = scale8_of(e as u8, amount);
        scale8_bounds(e as u8, amount);
        assert(a.hue as int + -(s as int) == a.hue - s);
        lemma_hue_turn(a.hue, s as int);
    }
}

/// The heat ramp never cools as the temperature rises: each channel is
/// nondecreasing in the temperature; 0 is black.
pub proof fn heat_ramp_is_monotone(t1: u8, t2: u8)
    requires
        t1 <= t2,
    ensures
        heat_rgb(t1).r <= heat_rgb(t2).r,
        heat_rgb(t1).g <= heat_rgb(t2).g,
        heat_rgb(t1).b <= heat_rgb(t2).b,
        heat_rgb(0) == Crgb::black(),
{
    assert(t1 * 191 <= t2 * 191) by (nonlinear_arith)
        requires
            t1 <= t2,
    ;
    lemma_div_is_ordered(t1 * 191, t2 * 191, 256);
    assert((t2 as int * 191) / 256 <= 190) by (nonlinear_arith)
        requires
            t2 <= 255,
    ;
    let a = scale8_video_of(t1, 191);
    let b = scale8_video_of(t2, 191);
    assert(a <= b);
    assert(scale8_video_of(0, 191) == 0);
}

/// The spectrum conversion never lights a channel above the value: zero
/// value is black, and zero saturation is a gray (all channels equal).
pub proof fn spectrum_stays_within_value(hsv: Chsv)
    ensures
        ({
            let c = crate::hsv::spectrum_rgb(hsv);
            c.r <= hsv.val && c.g <= hsv.val && c.b <= hsv.val
        }),
        hsv.val == 0 ==> crate::hsv::spectrum_rgb(hsv) == Crgb::black(),
        hsv.sat == 0 ==> crate::hsv::spectrum_rgb(hsv).r == crate::hsv::spectrum_rgb(hsv).g
            && crate::hsv::spectrum_rgb(hsv).g == crate::hsv::spectrum_rgb(hsv).b,
{
    let val = hsv.val as int;
    let sat = hsv.sat as int;
    let floor = (val * (255 - sat)) / 256;
    assert(0 <= val * (255 - sat) <= val * 255) by (nonlinear_arith)
        requires
            0 <= val <= 255,
            0 <= sat <= 255,
    ;
    lemma_div_is_ordered(val * (255 - sat), val * 255, 256);
    lemma_div_pos_is_pos(val * (255 - sat), 256);
    assert((val * 255) / 256 <= val) by {
        lemma_div_is_ordered(val * 255, val * 256, 256);
        assert((val * 256) / 256 == val) by {
            lemma_fundamental_div_mod(val * 256, 256);
            lemma_mod_multiples_vanish(val, 0, 256);
        }
    }
    let amp = val - floor;
    assert(amp >= 0);
    let hue = scale8_of(hsv.hue, 191);
    let offset = hue % 64;
    assert(0 <= offset * amp <= 63 * amp && 0 <= (63 - offset) * amp <= 63 * amp) by (nonlinear_arith)
        requires
            0 <= offset <= 63,
            amp >= 0,
    ;
    lemma_div_is_ordered(offset * amp, 64 * amp, 64);
    lemma_div_is_ordered((63 - offset) * amp, 64 * amp, 64);
    lemma_div_pos_is_pos(offset * amp, 64);
    lemma_div_pos_is_pos((63 - offset) * amp, 64);
    assert((64 * amp) / 64 == amp) by {
        lemma_fundamental_div_mod(64 * amp, 64);
        lemma_mod_multiples_vanish(amp, 0, 64);
    }
    if val == 0 {
        assert(floor == 0);
        assert(amp == 0);
        assert(offset * amp == 0 && (63 - offset) * amp == 0);
    }
    if sat == 0 && val > 0 {
        assert(val * 255 == 256 * (val - 1) + (256 - val));
        assert(floor == val - 1) by {
            lemma_fundamental_div_mod(val * 255, 256);
            lemma_mod_bound(val * 255, 256);
        }
        assert(amp == 1);
        assert(offset * amp == offset && (63 - offset) * amp == 63 - offset) by (nonlinear_arith)
            requires
                amp == 1,
        ;
        assert(offset / 64 == 0 && (63 - offset) / 64 == 0);
    }
}

/// A fully saturated rainbow color always leaves at least one channel dark.
pub proof fn rainbow_full_saturation_has_dark_channel(hue: u8, val: u8)
    ensures
        ({
            let c = rainbow_rgb(Chsv { hue, sat: 255, val });
            c.r == 0 || c.g == 0 || c.b == 0
        }),
{
    assert(scale8_of(0, scale8_video_of(val, val)) == 0);
}

// ---------------------------------------------------------------------------
// Palettes
// ---------------------------------------------------------------------------

/// With `LinearBlendNoWrap`, a 16-entry lookup never reaches the last entry
/// as its base, so it never blends toward a wrapped-around first entry; the
/// same holds of a 32-entry lookup.
pub proof fn no_wrap_stays_below_last_entry(index: u8)
    ensures
        effective_index(index, ColorBlend::LinearBlendNoWrap, 239) / 16 < 15,
        effective_index(index, ColorBlend::LinearBlendNoWrap, 247) / 8 < 31,
{
    assert(index * 240 <= 255 * 240 && index * 248 <= 255 * 248) by (nonlinear_arith)
        requires
            index <= 255,
    ;
}

/// A byte blended from `a` toward `b` by `f / 255` (`f` nonzero), as the
/// palette lookups blend neighbouring entries, lies between the two, at
/// most one below the smaller.
proof fn lemma_blend_channel(a: u8, b: u8, f: u8)
    requires
        f != 0,
    ensures
        min8(a, b) - 1 <= add8w(scale8_of(a, (255 - f) as u8) as int, scale8_of(b, f) as int)
            <= max8(a, b),
{
    let lo = min8(a, b) as int;
    let hi = max8(a, b) as int;
    let x = a * (256 - f);
    let y = b * (f + 1);
    assert(lo * 257 <= x + y <= hi * 257) by (nonlinear_arith)
        requires
            x == a * (256 - f),
            y == b * (f + 1),
            1 <= f <= 255,
            lo <= a <= hi,
            lo <= b <= hi,
            lo >= 0,
    ;
    assert(x >= 0 && y >= 0) by (nonlinear_arith)
        requires
            x == a * (256 - f),
            y == b * (f + 1),
            1 <= f <= 255,
            a >= 0,
            b >= 0,
    ;
    lemma_fundamental_div_mod(x, 256);
    lemma_fundamental_div_mod(y, 256);
    lemma_mod_pos_bound(x, 256);
    lemma_mod_pos_bound(y, 256);
    let s = x / 256 + y / 256;
    assert(256 * s <= x + y);
    assert(256 * s > x + y - 512);
    assert(s <= hi) by {
        assert(256 * s <= hi * 257);
        assert(hi * 257 < 256 * (hi + 1));
    }
    assert(s >= lo - 1) by {
        assert(256 * s > lo * 257 - 512);
        assert(lo * 257 - 512 >= 256 * (lo - 2));
    }
    assert(scale8_of(a, (255 - f) as u8) as int == x / 256);
    assert(scale8_of(b, f) as int == y / 256);
    lemma_small_mod(s as nat, 256);
}

/// Looking up a 16-entry RGB palette without blending, at full brightness,
/// gives the entry picked by the index's high nibble, and an index on an
/// entry boundary gives that entry under any blending that does not rescale
/// the index; likewise for 32-entry palettes and the index's top five bits.
/// Brightness 0 gives black, and a lower brightness never brightens a
/// channel of what full brightness gives.
pub proof fn palette_rgb_lookup_picks_entries(
    e16: Seq<Crgb>,
    e32: Seq<Crgb>,
    index: u8,
    brightness: u8,
    blend: ColorBlend,
)
    requires
        e16.len() == 16,
        e32.len() == 32,
    ensures
        palette16_rgb(e16, index, 255, ColorBlend::NoBlend) == e16[index as int / 16],
        palette32_rgb(e32, index, 255, ColorBlend::NoBlend) == e32[index as int / 8],
        blend != ColorBlend::LinearBlendNoWrap && index % 16 == 0 ==> palette16_rgb(e16, index, 255, blend)
            == e16[index as int / 16],
        blend != ColorBlend::LinearBlendNoWrap && index % 8 == 0 ==> palette32_rgb(e32, index, 255, blend)
            == e32[index as int / 8],
        palette16_rgb(e16, index, 0, blend) == Crgb::black(),
        palette32_rgb(e32, index, 0, blend) == Crgb::black(),
        ({
            let dim = palette16_rgb(e16, index, brightness, blend);
            let full = palette16_rgb(e16, index, 255, blend);
            dim.r <= full.r && dim.g <= full.g && dim.b <= full.b
        }),
        ({
            let dim = palette32_rgb(e32, index, brightness, blend);
            let full = palette32_rgb(e32, index, 255, blend);
            dim.r <= full.r && dim.g <= full.g && dim.b <= full.b
        }),
{
    let full16 = palette16_rgb(e16, index, 255, blend);
    let full32 = palette32_rgb(e32, index, 255, blend);
    scale8_bounds(full16.r, (brightness + 1) as u8);
    scale8_bounds(full16.g, (brightness + 1) as u8);
    scale8_bounds(full16.b, (brightness + 1) as u8);
    scale8_bounds(full32.r, (brightness + 1) as u8);
    scale8_bounds(full32.g, (brightness + 1) as u8);
    scale8_bounds(full32.b, (brightness + 1) as u8);
}

/// A blended lookup between entries `a` and `b` by `f / 255` stays between
/// them on every channel, at most one below the smaller.
proof fn lemma_blend_pixel(a: Crgb, b: Crgb, f: u8, c: Crgb)
    requires
        f == 0 ==> c == a,
        f != 0 ==> c == crate::palette::mix_rgb(a, b, f),
    ensures
        min8(a.r, b.r) - 1 <= c.r <= max8(a.r, b.r),
        min8(a.g, b.g) - 1 <= c.g <= max8(a.g, b.g),
        min8(a.b, b.b) - 1 <= c.b <= max8(a.b, b.b),
{
    if f != 0 {
        lemma_blend_channel(a.r, b.r, f);
        lemma_blend_channel(a.g, b.g, f);
        lemma_blend_channel(a.b, b.b, f);
    }
}

/// A linearly blended lookup of a 16-entry RGB palette at full brightness
/// lies, on every channel, between the entry picked by the index's high
/// nibble and the next entry (wrapping from the last to the first), at most
/// one below the smaller; likewise for 32-entry palettes.
pub proof fn palette_rgb_blend_stays_between(e16: Seq<Crgb>, e32: Seq<Crgb>, index: u8)
    requires
        e16.len() == 16,
        e32.len() == 32,
    ensures
        ({
            let c = palette16_rgb(e16, index, 255, ColorBlend::LinearBlend);
            let a = e16[index as int / 16];
            let b = e16[(index as int / 16 + 1) % 16];
            &&& min8(a.r, b.r) - 1 <= c.r <= max8(a.r, b.r)
            &&& min8(a.g, b.g) - 1 <= c.g <= max8(a.g, b.g)
            &&& min8(a.b, b.b) - 1 <= c.b <= max8(a.b, b.b)
        }),
        ({
            let c = palette32_rgb(e32, index, 255, ColorBlend::LinearBlend);
            let a = e32[index as int / 8];
            let b = e32[(index as int / 8 + 1) % 32];
            &&& min8(a.r, b.r) - 1 <= c.r <= max8(a.r, b.r)
            &&& min8(a.g, b.g) - 1 <= c.g <= max8(a.g, b.g)
            &&& min8(a.b, b.b) - 1 <= c.b <= max8(a.b, b.b)
        }),
{
    let hi16 = index as int / 16;
    let hi32 = index as int / 8;
    assert(crate::palette::next_slot(hi16, 16) == (hi16 + 1) % 16);
    assert(crate::palette::next_slot(hi32, 32) == (hi32 + 1) % 32);
    lemma_blend_pixel(
        e16[hi16],
        e16[(hi16 + 1) % 16],
        ((index % 16) * 16) as u8,
        palette16_rgb(e16, index, 255, ColorBlend::LinearBlend),
    );
    lemma_blend_pixel(
        e32[hi32],
        e32[(hi32 + 1) % 32],
        ((index % 8) * 32) as u8,
        palette32_rgb(e32, index, 255, ColorBlend::LinearBlend),
    );
}

/// A 256-entry RGB palette lookup at full brightness is the entry itself,
/// and a lower brightness never brightens a channel and never turns a lit
/// channel dark.
pub proof fn palette256_rgb_lookup(entries: Seq<Crgb>, index: u8, brightness: u8)
    requires
        entries.len() == 256,
    ensures
        palette256_rgb(entries, index, 255) == entries[index as int],
        ({
            let c = palette256_rgb(entries, index, brightness);
            let e = entries[index as int];
            &&& c.r <= e.r && c.g <= e.g && c.b <= e.b
            &&& (c.r == 0) == (e.r == 0)
            &&& (c.g == 0) == (e.g == 0)
            &&& (c.b == 0) == (e.b == 0)
        }),
{
    let e = entries[index as int];
    if brightness != 255 {
        let s = (brightness + 1) as u8;
        lemma_video_dims(e.r, s);
        lemma_video_dims(e.g, s);
        lemma_video_dims(e.b, s);
    }
}

/// "Video" scaling by a factor below 256 never makes a byte larger.
proof fn lemma_video_dims(x: u8, s: u8)
    requires
        s != 0,
    ensures
        scale8_video_of(x, s) <= x,
        (scale8_video_of(x, s) == 0) == (x == 0),
{
    scale8_video_keeps_lit(x, s);
    if x != 0 {
        assert(x * s <= x * 255) by (nonlinear_arith)
            requires
                s <= 255,
                x >= 0,
        ;
        assert((x * s) / 256 < x) by (nonlinear_arith)
            requires
                x * s <= x * 255,
                x >= 1,
        ;
    }
}

/// Looking up an HSV palette changes only the value for brightness: hue
/// and saturation are those of the full-brightness lookup, and the value
/// is never raised; without blending (or on an entry boundary) the
/// full-brightness lookup is the entry itself.
pub proof fn palette_hsv_lookup_picks_entries(
    e16: Seq<Chsv>,
    e32: Seq<Chsv>,
    e256: Seq<Chsv>,
    index: u8,
    brightness: u8,
    blend: ColorBlend,
)
    requires
        e16.len() == 16,
        e32.len() == 32,
        e256.len() == 256,
    ensures
        palette16_hsv(e16, index, 255, ColorBlend::NoBlend) == e16[index as int / 16],
        palette32_hsv(e32, index, 255, ColorBlend::NoBlend) == e32[index as int / 8],
        blend != ColorBlend::LinearBlendNoWrap && index % 16 == 0 ==> palette16_hsv(e16, index, 255, blend)
            == e16[index as int / 16],
        blend != ColorBlend::LinearBlendNoWrap && index % 8 == 0 ==> palette32_hsv(e32, index, 255, blend)
            == e32[index as int / 8],
        dimmed_hsv(e256[index as int], 255) == e256[index as int],
        ({
            let dim = palette16_hsv(e16, index, brightness, blend);
            let full = palette16_hsv(e16, index, 255, blend);
            dim.hue == full.hue && dim.sat == full.sat && dim.val <= full.val
        }),
        ({
            let dim = palette32_hsv(e32, index, brightness, blend);
            let full = palette32_hsv(e32, index, 255, blend);
            dim.hue == full.hue && dim.sat == full.sat && dim.val <= full.val
        }),
        ({
            let dim = dimmed_hsv(e256[index as int], brightness);
            let full = e256[index as int];
            dim.hue == full.hue && dim.sat == full.sat && dim.val <= full.val
        }),
{
    let full16 = palette16_hsv(e16, index, 255, blend);
    let full32 = palette32_hsv(e32, index, 255, blend);
    if brightness != 255 {
        lemma_video_dims_any(full16.val, brightness);
        lemma_video_dims_any(full32.val, brightness);
        lemma_video_dims_any(e256[index as int].val, brightness);
    }
}

/// "Video" scaling by a factor below 255 never makes a byte larger.
proof fn lemma_video_dims_any(x: u8, s: u8)
    requires
        s != 255,
    ensures
        scale8_video_of(x, s) <= x,
{
    if s != 0 {
        lemma_video_dims(x, s);
    }
}

/// Blending palette entry `a` toward `b` by `f / 255` (`f` nonzero), both
/// neither black nor white, turns the hue the shorter way around the wheel
/// and never past `b`'s; saturation and value stay between the two
/// entries', at most one below the smaller.
proof fn lemma_mix_hsv_short_way(a: Chsv, b: Chsv, f: u8)
    requires
        f != 0,
    ensures
        ({
            let c = crate::palette::mix_hsv(a, b, f);
            let d = hue_cw(a.hue, b.hue);
            &&& (a.sat != 0 && a.val != 0 && b.sat != 0 && b.val != 0) ==> {
                &&& d <= 127 ==> hue_cw(a.hue, c.hue) <= d
                &&& d >= 128 ==> hue_cw(c.hue, a.hue) <= hue_cw(b.hue, a.hue)
            }
            &&& min8(a.sat, b.sat) - 1 <= c.sat <= max8(a.sat, b.sat)
            &&& min8(a.val, b.val) - 1 <= c.val <= max8(a.val, b.val)
        }),
{
    lemma_blend_channel(a.sat, b.sat, f);
    lemma_blend_channel(a.val, b.val, f);
    let d = hue_cw(a.hue, b.hue);
    lemma_mod_bound(b.hue - a.hue, 256);
    lemma_mod_bound(a.hue - b.hue, 256);
    if a.sat != 0 && a.val != 0 && b.sat != 0 && b.val != 0 {
        if d <= 127 {
            scale8_bounds(d as u8, f);
            lemma_hue_turn(a.hue, scale8_of(d as u8, f) as int);
        } else {
            assert(256 - d == hue_cw(b.hue, a.hue)) by {
                lemma_fundamental_div_mod(b.hue - a.hue, 256);
                lemma_fundamental_div_mod(a.hue - b.hue, 256);
            }
            let back = (256 - d) as u8;
            scale8_bounds(back, f);
            assert(a.hue as int + -(scale8_of(back, f) as int) == a.hue - scale8_of(back, f));
            lemma_hue_turn(a.hue, scale8_of(back, f) as int);
        }
    }
}

/// A linearly blended lookup of a 16- or 32-entry HSV palette at full
/// brightness, between two neighbouring entries that are neither black nor
/// white, turns the hue from the lower entry's the shorter way around the
/// wheel, never past the next entry's; its saturation and value lie
/// between the two entries', at most one below the smaller.
pub proof fn palette_hsv_blend_takes_short_way(e16: Seq<Chsv>, e32: Seq<Chsv>, index: u8)
    requires
        e16.len() == 16,
        e32.len() == 32,
    ensures
        ({
            let c = palette16_hsv(e16, index, 255, ColorBlend::LinearBlend);
            let a = e16[index as int / 16];
            let b = e16[(index as int / 16 + 1) % 16];
            let d = hue_cw(a.hue, b.hue);
            &&& (a.sat != 0 && a.val != 0 && b.sat != 0 && b.val != 0) ==> {
                &&& d <= 127 ==> hue_cw(a.hue, c.hue) <= d
                &&& d >= 128 ==> hue_cw(c.hue, a.hue) <= hue_cw(b.hue, a.hue)
            }
            &&& min8(a.sat, b.sat) - 1 <= c.sat <= max8(a.sat, b.sat)
            &&& min8(a.val, b.val) - 1 <= c.val <= max8(a.val, b.val)
        }),
        ({
            let c = palette32_hsv(e32, index, 255, ColorBlend::LinearBlend);
            let a = e32[index as int / 8];
            let b = e32[(index as int / 8 + 1) % 32];
            let d = hue_cw(a.hue, b.hue);
            &&& (a.sat != 0 && a.val != 0 && b.sat != 0 && b.val != 0) ==> {
                &&& d <= 127 ==> hue_cw(a.hue, c.hue) <= d
                &&& d >= 128 ==> hue_cw(c.hue, a.hue) <= hue_cw(b.hue, a.hue)
            }
            &&& min8(a.sat, b.sat) - 1 <= c.sat <= max8(a.sat, b.sat)
            &&& min8(a.val, b.val) - 1 <= c.val <= max8(a.val, b.val)
        }),
{
    let hi16 = index as int / 16;
    let hi32 = index as int / 8;
    assert(crate::palette::next_slot(hi16, 16) == (hi16 + 1) % 16);
    assert(crate::palette::next_slot(hi32, 32) == (hi32 + 1) % 32);
    let frac16 = ((index % 16) * 16) as u8;
    let frac32 = ((index % 8) * 32) as u8;
    if frac16 != 0 {
        lemma_mix_hsv_short_way(e16[hi16], e16[(hi16 + 1) % 16], frac16);
    } else {
        lemma_hue_turn(e16[hi16].hue, 0);
        lemma_small_mod(e16[hi16].hue as nat, 256);
    }
    if frac32 != 0 {
        lemma_mix_hsv_short_way(e32[hi32], e32[(hi32 + 1) % 32], frac32);
    } else {
        lemma_hue_turn(e32[hi32].hue, 0);
        lemma_small_mod(e32[hi32].hue as nat, 256);
    }
}

/// A gradient byte stream too short to hold a single stop gives an
/// all-black palette.
pub proof fn short_gradient_is_black(bytes: Seq<u8>)
    requires
        bytes.len() < 4,
    ensures
        compact_gradient(bytes, 16, 16) == black_slots(16),
        compact_gradient(bytes, 32, 8) == black_slots(32),
        full_gradient(bytes) == black_slots(256),
{
}

/// When a gradient is compacted, each new segment starts in a fresh slot
/// after the last one written (unless that was the last slot), and a
/// segment over increasing gradient indices never ends before it starts.
pub proof fn compacted_segments_start_fresh(
    index_start: int,
    index_end: int,
    divisor: int,
    max_slot: int,
    last_slot_used: int,
)
    requires
        0 <= index_start <= index_end,
        divisor > 0,
        last_slot_used < max_slot,
    ensures
        segment_slots(index_start, index_end, divisor, max_slot, true, last_slot_used).0
            > last_slot_used,
        segment_slots(index_start, index_end, divisor, max_slot, true, last_slot_used).0
            <= segment_slots(index_start, index_end, divisor, max_slot, true, last_slot_used).1,
{
    lemma_div_is_ordered(index_start, index_end, divisor);
}

/// The gradient index of stop `j` of a gradient byte stream.
pub open spec fn stop_index(bytes: Seq<u8>, j: int) -> int {
    bytes[4 * j] as int
}

/// The color of stop `j` of a gradient byte stream.
pub open spec fn stop_color(bytes: Seq<u8>, j: int) -> Crgb {
    Crgb { r: bytes[4 * j + 1], g: bytes[4 * j + 2], b: bytes[4 * j + 3] }
}

/// Every whole stop has a larger gradient index than the one before it.
pub open spec fn stops_increase(bytes: Seq<u8>) -> bool {
    forall|j: int|
        1 <= j < bytes.len() / 4 ==> #[trigger] stop_index(bytes, j) > stop_index(bytes, j - 1)
}

/// Drawing the 256-slot segments from stop `i` on leaves every slot below
/// the current start index as it was, and puts the current start color in
/// the slot at the start index whenever another segment follows.
proof fn lemma_segments_keep_prefix(
    bytes: Seq<u8>,
    entries: Seq<Crgb>,
    rgbstart: Crgb,
    last: int,
    i: int,
    p: int,
)
    requires
        1 <= i,
        i - 1 < bytes.len() / 4,
        stops_increase(bytes),
        entries.len() == 256,
        0 <= p <= stop_index(bytes, i - 1),
        p < stop_index(bytes, i - 1) || (i < bytes.len() / 4 && stop_index(bytes, i - 1) < 255),
    ensures
        gradient_segments(bytes, 1, 255, false, entries, rgbstart, last, stop_index(bytes, i - 1), i)[p]
            == (if p < stop_index(bytes, i - 1) {
            entries[p]
        } else {
            rgbstart
        }),
    decreases bytes.len() / 4 - i,
{
    let index_start = stop_index(bytes, i - 1);
    if index_start >= 255 || i >= bytes.len() / 4 {
    } else {
        let index_end = stop_index(bytes, i);
        assert(index_end > index_start);
        let rgbend = stop_color(bytes, i);
        let slots = segment_slots(index_start, index_end, 1, 255, false, last);
        assert(slots == (index_start, index_end));
        let entries2 = rgb_range_fill(entries, index_start as u16, rgbstart, index_end as u16, rgbend);
        assert(entries2.len() == 256);
        lemma_accumulated16(rgbstart.r * 256, ramp_step((rgbend.r - rgbstart.r) * 128, index_end - index_start), 0);
        lemma_accumulated16(rgbstart.g * 256, ramp_step((rgbend.g - rgbstart.g) * 128, index_end - index_start), 0);
        lemma_accumulated16(rgbstart.b * 256, ramp_step((rgbend.b - rgbstart.b) * 128, index_end - index_start), 0);
        assert(entries2[index_start] == rgbstart);
        assert(gradient_segments(bytes, 1, 255, false, entries, rgbstart, last, index_start, i)
            == gradient_segments(bytes, 1, 255, false, entries2, rgbend, last, index_end, i + 1));
        lemma_segments_keep_prefix(bytes, entries2, rgbend, last, i + 1, p);
    }
}

/// Drawing the 256-slot segments from stop `i` on, with the previous stop's
/// color as start color, leaves every later non-final stop's color in the
/// slot at its index.
proof fn lemma_segments_hit_stops(
    bytes: Seq<u8>,
    entries: Seq<Crgb>,
    last: int,
    i: int,
    k: int,
)
    requires
        1 <= i,
        i - 1 <= k,
        k + 1 < bytes.len() / 4,
        stops_increase(bytes),
        entries.len() == 256,
    ensures
        gradient_segments(
            bytes,
            1,
            255,
            false,
            entries,
            stop_color(bytes, i - 1),
            last,
            stop_index(bytes, i - 1),
            i,
        )[stop_index(bytes, k)] == stop_color(bytes, k),
    decreases bytes.len() / 4 - i,
{
    assert(stop_index(bytes, i) > stop_index(bytes, i - 1));
    if k == i - 1 {
        assert(stop_index(bytes, k + 1) > stop_index(bytes, k));
        lemma_segments_keep_prefix(bytes, entries, stop_color(bytes, i - 1), last, i, stop_index(bytes, k));
    } else {
        let index_start = stop_index(bytes, i - 1);
        let index_end = stop_index(bytes, i);
        let rgbend = stop_color(bytes, i);
        let entries2 = rgb_range_fill(
            entries,
            index_start as u16,
            stop_color(bytes, i - 1),
            index_end as u16,
            rgbend,
        );
        assert(segment_slots(index_start, index_end, 1, 255, false, last) == (index_start, index_end));
        assert(gradient_segments(bytes, 1, 255, false, entries, stop_color(bytes, i - 1), last, index_start, i)
            == gradient_segments(bytes, 1, 255, false, entries2, rgbend, last, index_end, i + 1));
        lemma_segments_hit_stops(bytes, entries2, last, i + 1, k);
    }
}

/// A well-formed gradient (first stop at index 0, stop indices increasing)
/// parsed into 256 slots holds every stop's color, exactly, in the slot at
/// that stop's index; the final stop's slot is where the last ramp ends.
pub proof fn gradient_palette_hits_its_stops(bytes: Seq<u8>, k: int)
    requires
        bytes[0] == 0,
        stops_increase(bytes),
        0 <= k,
        k + 1 < bytes.len() / 4,
    ensures
        full_gradient(bytes)[stop_index(bytes, k)] == stop_color(bytes, k),
{
    assert(stop_index(bytes, 0) == 0);
    assert(black_slots(256).len() == 256);
    lemma_segments_hit_stops(bytes, black_slots(256), -1, 1, k);
}

/// Drawing the 256-slot segments from stop `i` on, with the previous stop's
/// color as start color, leaves in each slot between a later stop `k` and
/// the next one what the RGB gradient fill between those two stops draws
/// there (the final slot included when the next stop is at 255).
proof fn lemma_segments_between_stops(
    bytes: Seq<u8>,
    entries: Seq<Crgb>,
    last: int,
    i: int,
    k: int,
    p: int,
)
    requires
        1 <= i,
        i - 1 <= k,
        k + 1 < bytes.len() / 4,
        stops_increase(bytes),
        entries.len() == 256,
        stop_index(bytes, k) <= p < stop_index(bytes, k + 1) || p == stop_index(bytes, k + 1) == 255,
    ensures
        gradient_segments(
            bytes,
            1,
            255,
            false,
            entries,
            stop_color(bytes, i - 1),
            last,
            stop_index(bytes, i - 1),
            i,
        )[p] == rgb_range_fill(
            black_slots(256),
            stop_index(bytes, k) as u16,
            stop_color(bytes, k),
            stop_index(bytes, k + 1) as u16,
            stop_color(bytes, k + 1),
        )[p],
    decreases bytes.len() / 4 - i,
{
    assert(stop_index(bytes, i) > stop_index(bytes, i - 1));
    let index_start = stop_index(bytes, i - 1);
    let index_end = stop_index(bytes, i);
    let rgbend = stop_color(bytes, i);
    let entries2 = rgb_range_fill(
        entries,
        index_start as u16,
        stop_color(bytes, i - 1),
        index_end as u16,
        rgbend,
    );
    assert(segment_slots(index_start, index_end, 1, 255, false, last) == (index_start, index_end));
    assert(gradient_segments(bytes, 1, 255, false, entries, stop_color(bytes, i - 1), last, index_start, i)
        == gradient_segments(bytes, 1, 255, false, entries2, rgbend, last, index_end, i + 1));
    if k == i - 1 {
        if p < index_end {
            lemma_segments_keep_prefix(bytes, entries2, rgbend, last, i + 1, p);
        }
    } else {
        lemma_segments_between_stops(bytes, entries2, last, i + 1, k, p);
    }
}

/// A well-formed gradient (first stop at index 0, stop indices increasing)
/// parsed into 256 slots holds, from each stop up to the next, exactly what
/// the RGB gradient fill draws between the two stops' indices and colors;
/// when the last stop is at index 255, the final slot is that ramp's end.
pub proof fn gradient_palette_follows_fill(bytes: Seq<u8>, k: int, p: int)
    requires
        bytes[0] == 0,
        stops_increase(bytes),
        0 <= k,
        k + 1 < bytes.len() / 4,
        stop_index(bytes, k) <= p < stop_index(bytes, k + 1) || p == stop_index(bytes, k + 1) == 255,
    ensures
        full_gradient(bytes)[p] == rgb_range_fill(
            black_slots(256),
            stop_index(bytes, k) as u16,
            stop_color(bytes, k),
            stop_index(bytes, k + 1) as u16,
            stop_color(bytes, k + 1),
        )[p],
{
    assert(stop_index(bytes, 0) == 0);
    assert(black_slots(256).len() == 256);
    lemma_segments_between_stops(bytes, black_slots(256), -1, 1, k, p);
}

/// Every whole stop of a gradient byte stream falls in a later palette slot
/// (its index divided by `divisor`) than the stop before it.
pub open spec fn stop_slots_increase(bytes: Seq<u8>, divisor: int) -> bool {
    forall|j: int|
        1 <= j < bytes.len() / 4 ==> #[trigger] (stop_index(bytes, j) / divisor) > stop_index(
            bytes,
            j - 1,
        ) / divisor
}

/// With compaction, drawing the segments from stop `i` on, right after the
/// segment that ended in stop `i - 1`'s slot, leaves that slot and every
/// slot before it as they were.
proof fn lemma_compact_keep_prefix(
    bytes: Seq<u8>,
    divisor: int,
    max_slot: int,
    entries: Seq<Crgb>,
    rgbstart: Crgb,
    i: int,
    p: int,
)
    requires
        1 <= i,
        i - 1 < bytes.len() / 4,
        divisor > 0,
        255int / divisor == max_slot,
        stop_slots_increase(bytes, divisor),
        entries.len() == max_slot + 1,
        0 <= p <= stop_index(bytes, i - 1) / divisor,
    ensures
        gradient_segments(
            bytes,
            divisor,
            max_slot,
            true,
            entries,
            rgbstart,
            stop_index(bytes, i - 1) / divisor,
            stop_index(bytes, i - 1),
            i,
        )[p] == entries[p],
    decreases bytes.len() / 4 - i,
{
    let index_start = stop_index(bytes, i - 1);
    if index_start >= 255 || i >= bytes.len() / 4 {
    } else {
        let index_end = stop_index(bytes, i);
        let sl0 = index_start / divisor;
        let sl1 = index_end / divisor;
        lemma_div_is_ordered(index_end, 255, divisor);
        assert(sl1 > sl0);
        let rgbend = stop_color(bytes, i);
        assert(segment_slots(index_start, index_end, divisor, max_slot, true, sl0) == (sl0 + 1, sl1));
        let entries2 = rgb_range_fill(entries, (sl0 + 1) as u16, rgbstart, sl1 as u16, rgbend);
        assert(entries2[p] == entries[p]);
        assert(gradient_segments(bytes, divisor, max_slot, true, entries, rgbstart, sl0, index_start, i)
            == gradient_segments(bytes, divisor, max_slot, true, entries2, rgbend, sl1, index_end, i + 1));
        lemma_compact_keep_prefix(bytes, divisor, max_slot, entries2, rgbend, i + 1, p);
    }
}

/// With compaction, drawing the segments from stop `i` on, right after the
/// segment that ended in stop `i - 1`'s slot, leaves in the slots from just
/// after a later stop `k`'s slot through stop `k + 1`'s slot what the RGB
/// gradient fill between those slots and the two stops' colors draws there.
proof fn lemma_compact_between_stops(
    bytes: Seq<u8>,
    divisor: int,
    max_slot: int,
    entries: Seq<Crgb>,
    i: int,
    k: int,
    p: int,
)
    requires
        1 <= i,
        i - 1 <= k,
        k + 1 < bytes.len() / 4,
        divisor > 0,
        255int / divisor == max_slot,
        stop_slots_increase(bytes, divisor),
        entries.len() == max_slot + 1,
        stop_index(bytes, k) / divisor + 1 <= p <= stop_index(bytes, k + 1) / divisor,
    ensures
        gradient_segments(
            bytes,
            divisor,
            max_slot,
            true,
            entries,
            stop_color(bytes, i - 1),
            stop_index(bytes, i - 1) / divisor,
            stop_index(bytes, i - 1),
            i,
        )[p] == rgb_range_fill(
            black_slots(max_slot + 1),
            (stop_index(bytes, k) / divisor + 1) as u16,
            stop_color(bytes, k),
            (stop_index(bytes, k + 1) / divisor) as u16,
            stop_color(bytes, k + 1),
        )[p],
    decreases bytes.len() / 4 - i,
{
    let index_start = stop_index(bytes, i - 1);
    let index_end = stop_index(bytes, i);
    let sl0 = index_start / divisor;
    let sl1 = index_end / divisor;
    lemma_div_is_ordered(index_end, 255, divisor);
    lemma_div_is_ordered(index_start, 255, divisor);
    assert(sl1 > sl0);
    assert(index_start < 255) by {
        if index_start >= 255 {
            assert(sl0 == max_slot);
        }
    }
    let rgbend = stop_color(bytes, i);
    assert(segment_slots(index_start, index_end, divisor, max_slot, true, sl0) == (sl0 + 1, sl1));
    let entries2 = rgb_range_fill(entries, (sl0 + 1) as u16, stop_color(bytes, i - 1), sl1 as u16, rgbend);
    assert(gradient_segments(bytes, divisor, max_slot, true, entries, stop_color(bytes, i - 1), sl0, index_start, i)
        == gradient_segments(bytes, divisor, max_slot, true, entries2, rgbend, sl1, index_end, i + 1));
    if k == i - 1 {
        lemma_compact_keep_prefix(bytes, divisor, max_slot, entries2, rgbend, i + 1, p);
    } else {
        lemma_compact_between_stops(bytes, divisor, max_slot, entries2, i + 1, k, p);
    }
}

/// A well-formed gradient (first stop at index 0) with fewer than 16 stops,
/// each in a later slot than the one before, compacted into `n` slots
/// (`255 / divisor == n - 1`): the first segment fills slots 0 through the
/// second stop's slot, and every later segment starts in the slot right
/// after the previous stop's and runs through its own stop's slot, each
/// slot holding what the RGB gradient fill between those slots and the two
/// stops' colors draws there.
pub proof fn compact_palette_follows_fill(bytes: Seq<u8>, n: int, divisor: int, k: int, p: int)
    requires
        divisor > 0,
        255int / divisor == n - 1,
        bytes[0] == 0,
        stop_count(bytes) < 16,
        stop_slots_increase(bytes, divisor),
        0 <= k,
        k + 1 < bytes.len() / 4,
        (if k == 0 {
            0
        } else {
            stop_index(bytes, k) / divisor + 1
        }) <= p <= stop_index(bytes, k + 1) / divisor,
    ensures
        compact_gradient(bytes, n, divisor)[p] == rgb_range_fill(
            black_slots(n),
            (if k == 0 {
                0
            } else {
                stop_index(bytes, k) / divisor + 1
            }) as u16,
            stop_color(bytes, k),
            (stop_index(bytes, k + 1) / divisor) as u16,
            stop_color(bytes, k + 1),
        )[p],
{
    let max_slot = n - 1;
    assert(black_slots(n).len() == n);
    let index_end = stop_index(bytes, 1);
    let sl1 = index_end / divisor;
    lemma_div_is_ordered(index_end, 255, divisor);
    assert(sl1 > stop_index(bytes, 0) / divisor);
    assert(stop_index(bytes, 0) == 0);
    assert(segment_slots(0, index_end, divisor, max_slot, true, -1) == (0int, sl1));
    let c0 = stop_color(bytes, 0);
    let entries2 = rgb_range_fill(black_slots(n), 0, c0, sl1 as u16, stop_color(bytes, 1));
    assert(compact_gradient(bytes, n, divisor) == gradient_segments(
        bytes, divisor, max_slot, true, black_slots(n), c0, -1, 0, 1));
    assert(gradient_segments(bytes, divisor, max_slot, true, black_slots(n), c0, -1, 0, 1)
        == gradient_segments(bytes, divisor, max_slot, true, entries2, stop_color(bytes, 1), sl1, index_end, 2));
    if k == 0 {
        lemma_compact_keep_prefix(bytes, divisor, max_slot, entries2, stop_color(bytes, 1), 2, p);
    } else {
        lemma_compact_between_stops(bytes, divisor, max_slot, entries2, 2, k, p);
    }
}

/// When compacting, a segment (over increasing gradient indices) pushed to
/// start after the last slot used still ends at its own end slot (`index_end / divisor`) unless that lies
/// before its new start, in which case it is drawn in the start slot alone.
pub proof fn compacted_segment_keeps_its_end(
    index_start: int,
    index_end: int,
    divisor: int,
    max_slot: int,
    last_slot_used: int,
)
    requires
        divisor > 0,
        index_start <= index_end,
    ensures
        ({
            let slots = segment_slots(index_start, index_end, divisor, max_slot, true, last_slot_used);
            slots.1 == (if index_end / divisor < slots.0 {
                slots.0
            } else {
                index_end / divisor
            })
        }),
{
    lemma_div_is_ordered(index_start, index_end, divisor);
}

/// The segment that ends at gradient index 255 always reaches the last slot,
/// compacted or not.
pub proof fn final_segment_reaches_last_slot(
    index_start: int,
    divisor: int,
    max_slot: int,
    compact: bool,
    last_slot_used: int,
)
    requires
        divisor > 0,
        255int / divisor == max_slot,
        last_slot_used <= max_slot,
    ensures
        segment_slots(index_start, 255, divisor, max_slot, compact, last_slot_used).1 == max_slot,
{
}

/// The RGB rainbow fill is the HSV rainbow fill put through the rainbow
/// conversion, pixel by pixel.
pub proof fn rainbow_fill_rgb_is_converted_hsv(n: nat, initial: u8, delta: u8)
    ensures
        Seq::new(
            n,
            |i: int|
                <Crgb as FromHsv>::hsv_image(
                    Chsv { hue: rainbow_hue(initial, delta, i), sat: 240, val: 255 },
                ),
        ) == Seq::new(
            n,
            |i: int|
                <Chsv as FromHsv>::hsv_image(
                    Chsv { hue: rainbow_hue(initial, delta, i), sat: 240, val: 255 },
                ),
        ).map_values(|h: Chsv| rainbow_rgb(h)),
{
    assert(Seq::new(
        n,
        |i: int|
            <Crgb as FromHsv>::hsv_image(
                Chsv { hue: rainbow_hue(initial, delta, i), sat: 240, val: 255 },
            ),
    ) =~= Seq::new(
        n,
        |i: int|
            <Chsv as FromHsv>::hsv_image(
                Chsv { hue: rainbow_hue(initial, delta, i), sat: 240, val: 255 },
            ),
    ).map_values(|h: Chsv| rainbow_rgb(h)));
}

} // verus!
