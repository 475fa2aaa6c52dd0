//! The 8-bit arithmetic primitives the color operations are built on.
//!
//! Each primitive is computed by the `lib8tion` crate; the open spec
//! functions here state, over plain integers, what each call returns.

use vstd::prelude::*;
use lib8tion::Fract8;

verus! {

/// Saturating byte addition: `min(i + j, 255)`.
pub open spec fn qadd8_of(i: u8, j: u8) -> u8 {
    if i + j > 255 {
        255
    } else {
        (i + j) as u8
    }
}

/// Saturating byte subtraction: `max(i - j, 0)`.
pub open spec fn qsub8_of(i: u8, j: u8) -> u8 {
    if i < j {
        0
    } else {
        (i - j) as u8
    }
}

/// Saturating byte multiplication: `min(i * j, 255)`.
pub open spec fn qmul8_of(i: u8, j: u8) -> u8 {
    if i * j > 255 {
        255
    } else {
        (i * j) as u8
    }
}

/// Fixed-point scaling of `i` by `(scale + 1) / 256`, rounded down.
pub open spec fn scale8_of(i: u8, scale: u8) -> u8 {
    ((i * (scale + 1)) / 256) as u8
}

/// "Video" scaling: `i * scale / 256` rounded down, plus one whenever both
/// `i` and `scale` are nonzero, so that a lit value never scales to zero.
pub open spec fn scale8_video_of(i: u8, scale: u8) -> u8 {
    ((i * scale) / 256 + (if i != 0 && scale != 0 {
        1int
    } else {
        0int
    })) as u8
}

/// Full-range blend of `a` toward `b` by `amount / 256`:
/// `(a * (256 - amount) + b * (amount + 1)) / 256`.
pub open spec fn blend8_of(a: u8, b: u8, amount: u8) -> u8 {
    ((a * (256 - amount) + b * (amount + 1)) / 256) as u8
}

/// The largest `k' <= k` whose square is at most `x` (zero if none).
pub open spec fn isqrt_upto(x: int, k: nat) -> nat
    decreases k,
{
    if k == 0 || k * k <= x {
        k
    } else {
        isqrt_upto(x, (k - 1) as nat)
    }
}

/// The integer square root of a 16-bit value: the largest byte whose square
/// is at most `x`.
pub open spec fn isqrt16_of(x: u16) -> u8 {
    isqrt_upto(x as int, 255) as u8
}

/// Narrowing to a byte keeps the value modulo 256.
pub proof fn lemma_u32_low_byte(x: u32)
    ensures
        (x as u8) as int == (x as int) % 256,
{
    assert(x as u8 == (x % 256) as u8) by (bit_vector);
}

/// Narrowing to a byte keeps the value modulo 256.
pub proof fn lemma_u16_low_byte(x: u16)
    ensures
        (x as u8) as int == (x as int) % 256,
{
    assert(x as u8 == (x % 256) as u8) by (bit_vector);
}

/// `lib8tion::qadd8`: saturating byte addition.
#[verifier::external_body]
pub(crate) fn qadd8(i: u8, j: u8) -> (r: u8)
    ensures
        r == qadd8_of(i, j),
{
    lib8tion::qadd8(i, j)
}

/// `lib8tion::qsub8`: saturating byte subtraction.
#[verifier::external_body]
pub(crate) fn qsub8(i: u8, j: u8) -> (r: u8)
    ensures
        r == qsub8_of(i, j),
{
    lib8tion::qsub8(i, j)
}

/// `lib8tion::qmul8`: byte multiplication saturating at 255.
#[verifier::external_body]
pub(crate) fn qmul8(i: u8, j: u8) -> (r: u8)
    ensures
        r == qmul8_of(i, j),
{
    lib8tion::qmul8(i, j)
}

/// `lib8tion::scale8`: `(i * (1 + scale)) >> 8` in 16-bit arithmetic, which
/// cannot overflow, so it is the exact quotient.
#[verifier::external_body]
pub(crate) fn scale8(i: u8, scale: u8) -> (r: u8)
    ensures
        r == scale8_of(i, scale),
{
    lib8tion::scale8(i, Fract8(scale))
}

/// `lib8tion::scale8_video`: `((i * scale) >> 8) + (i != 0 && scale != 0)`.
#[verifier::external_body]
pub(crate) fn scale8_video(i: u8, scale: u8) -> (r: u8)
    ensures
        r == scale8_video_of(i, scale),
{
    lib8tion::scale8_video(i, Fract8(scale))
}

/// `lib8tion::nscale8x3`: applies `scale8` to each of the three bytes in place.
#[verifier::external_body]
pub(crate) fn nscale8x3(r: &mut u8, g: &mut u8, b: &mut u8, scale: u8)
    ensures
        *final(r) == scale8_of(*old(r), scale),
        *final(g) == scale8_of(*old(g), scale),
        *final(b) == scale8_of(*old(b), scale),
{
    lib8tion::nscale8x3(r, g, b, Fract8(scale))
}

/// `lib8tion::nscale8x3_video`: applies `scale8_video` to each of the three
/// bytes in place.
#[verifier::external_body]
pub(crate) fn nscale8x3_video(r: &mut u8, g: &mut u8, b: &mut u8, scale: u8)
    ensures
        *final(r) == scale8_video_of(*old(r), scale),
        *final(g) == scale8_video_of(*old(g), scale),
        *final(b) == scale8_video_of(*old(b), scale),
{
    lib8tion::nscale8x3_video(r, g, b, Fract8(scale))
}

/// `lib8tion::blend8_8bit_full_range`: computes
/// `((a << 8 | b) + b * amount - a * amount) >> 8` with wrapping 16-bit
/// arithmetic; the true value lies in `0..=65535`, so no wrap takes effect.
#[verifier::external_body]
pub(crate) fn blend8_8bit_full_range(a: u8, b: u8, amount: u8) -> (r: u8)
    ensures
        r == blend8_of(a, b, amount),
{
    lib8tion::blend8_8bit_full_range(a, b, amount)
}

/// `lib8tion::sqrt16`: a binary search for the integer square root, which for
/// a 16-bit input always fits in a byte.
#[verifier::external_body]
pub(crate) fn sqrt16(x: u16) -> (r: u8)
    ensures
        r == isqrt16_of(x),
{
    lib8tion::sqrt16(x)
}

} // verus!
