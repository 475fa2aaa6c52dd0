//! Blending one color or strip toward another.
//!
//! The `n`-prefixed forms mutate in place; the unprefixed forms return a
//! new value. RGB blending is per channel with the full-range blend (an
//! amount of 255 lands exactly on the overlay); HSV blending travels around
//! the color wheel in the direction a [`GradientDirection`] gives.

use vstd::prelude::*;
use crate::fill::{GradientDirection, resolve_direction, travels_forward};
use crate::hsv::{Chsv, add8w};
use crate::math8::{blend8_8bit_full_range, blend8_of, scale8, scale8_of};
use crate::rgb::Crgb;

verus! {

/// `p1` blended toward `p2` by `amount / 256`, channel by channel:
/// `(c1 * (256 - amount) + c2 * (amount + 1)) / 256`.
pub open spec fn blend_rgb(p1: Crgb, p2: Crgb, amount: u8) -> Crgb {
    Crgb {
        r: blend8_of(p1.r, p2.r, amount),
        g: blend8_of(p1.g, p2.g, amount),
        b: blend8_of(p1.b, p2.b, amount),
    }
}

/// Blends `existing` toward `overlay` in place, by `amount_of_overlay / 256`.
///
/// `0` leaves `existing` untouched; `255` replaces it with `overlay`.
pub fn nblend(existing: &mut Crgb, overlay: Crgb, amount_of_overlay: u8)
    ensures
        *final(existing) == blend_rgb(*old(existing), overlay, amount_of_overlay),
{
    if amount_of_overlay == 0 {
        return;
    }
    if amount_of_overlay == 255 {
        *existing = overlay;
        return;
    }
    existing.r = blend8_8bit_full_range(existing.r, overlay.r, amount_of_overlay);
    existing.g = blend8_8bit_full_range(existing.g, overlay.g, amount_of_overlay);
    existing.b = blend8_8bit_full_range(existing.b, overlay.b, amount_of_overlay);
}

/// Returns `p1` blended toward `p2` by `amount_of_p2 / 256`, leaving both
/// inputs untouched.
pub fn blend(p1: Crgb, p2: Crgb, amount_of_p2: u8) -> (c: Crgb)
    ensures
        c == blend_rgb(p1, p2, amount_of_p2),
{
    let mut nu = p1;
    nblend(&mut nu, p2, amount_of_p2);
    nu
}

/// Blends each pixel of `existing` toward the matching pixel of `overlay`,
/// in place. The shorter of the two slices bounds the work; pixels of
/// `existing` past the end of `overlay` are left as they are.
pub fn nblend_slice(existing: &mut [Crgb], overlay: &[Crgb], amount_of_overlay: u8)
    ensures
        final(existing)@ == Seq::new(
            old(existing)@.len(),
            |i: int|
                if i < overlay@.len() {
                    blend_rgb(old(existing)@[i], overlay@[i], amount_of_overlay)
                } else {
                    old(existing)@[i]
                },
        ),
{
    let ghost orig = existing@;
    let n = if existing.len() < overlay.len() {
        existing.len()
    } else {
        overlay.len()
    };
    let mut i: usize = 0;
    while i < n
        invariant
            existing@.len() == orig.len(),
            n <= orig.len(),
            n <= overlay@.len(),
            n == orig.len() || n == overlay@.len(),
            0 <= i <= n,
            forall|j: int|
                0 <= j < orig.len() ==> existing@[j] == (if j < i {
                    blend_rgb(orig[j], overlay@[j], amount_of_overlay)
                } else {
                    orig[j]
                }),
        decreases n - i,
    {
        let mut e = existing[i];
        nblend(&mut e, overlay[i], amount_of_overlay);
        existing[i] = e;
        i += 1;
    }
    assert(existing@ =~= Seq::new(
        orig.len(),
        |i: int|
            if i < overlay@.len() {
                blend_rgb(orig[i], overlay@[i], amount_of_overlay)
            } else {
                orig[i]
            },
    ));
}

/// Writes `src1` blended toward `src2` into `dest`, pixel by pixel. The
/// number of pixels written is the shortest of the three slices; the rest
/// of `dest` is left as it is.
pub fn blend_slice(src1: &[Crgb], src2: &[Crgb], dest: &mut [Crgb], amount_of_src2: u8)
    ensures
        final(dest)@ == Seq::new(
            old(dest)@.len(),
            |i: int|
                if i < src1@.len() && i < src2@.len() {
                    blend_rgb(src1@[i], src2@[i], amount_of_src2)
                } else {
                    old(dest)@[i]
                },
        ),
{
    let ghost orig = dest@;
    let mut n = dest.len();
    if src1.len() < n {
        n = src1.len();
    }
    if src2.len() < n {
        n = src2.len();
    }
    let mut i: usize = 0;
    while i < n
        invariant
            dest@.len() == orig.len(),
            n <= orig.len(),
            n <= src1@.len(),
            n <= src2@.len(),
            n == orig.len() || n == src1@.len() || n == src2@.len(),
            0 <= i <= n,
            forall|j: int|
                0 <= j < orig.len() ==> dest@[j] == (if j < i {
                    blend_rgb(src1@[j], src2@[j], amount_of_src2)
                } else {
                    orig[j]
                }),
        decreases n - i,
    {
        dest[i] = blend(src1[i], src2[i], amount_of_src2);
        i += 1;
    }
    assert(dest@ =~= Seq::new(
        orig.len(),
        |i: int|
            if i < src1@.len() && i < src2@.len() {
                blend_rgb(src1@[i], src2@[i], amount_of_src2)
            } else {
                orig[i]
            },
    ));
}

/// `existing` blended toward `overlay` in HSV space by `amount / 256`.
///
/// Amount 0 keeps `existing` and 255 gives `overlay`. Otherwise the hue
/// moves by `scale8` of the hue delta in the resolved direction (clockwise
/// by the delta `overlay.hue - existing.hue`, counter-clockwise by its
/// complement), and saturation and value are the byte sum, modulo 256, of
/// the two sides scaled by `255 - amount` and `amount`.
pub open spec fn blend_hsv_of(
    existing: Chsv,
    overlay: Chsv,
    amount: u8,
    direction: GradientDirection,
) -> Chsv {
    if amount == 0 {
        existing
    } else if amount == 255 {
        overlay
    } else {
        let keep = (255 - amount) as u8;
        let huedelta8 = ((overlay.hue - existing.hue) % 256) as u8;
        let hue = if travels_forward(direction, huedelta8) {
            add8w(existing.hue as int, scale8_of(huedelta8, amount) as int)
        } else {
            add8w(
                existing.hue as int,
                -(scale8_of(((256 - huedelta8) % 256) as u8, amount) as int),
            )
        };
        Chsv {
            hue,
            sat: add8w(scale8_of(existing.sat, keep) as int, scale8_of(overlay.sat, amount) as int),
            val: add8w(scale8_of(existing.val, keep) as int, scale8_of(overlay.val, amount) as int),
        }
    }
}

/// Blends `existing` toward `overlay` in place in HSV space, travelling
/// around the color wheel in the direction given by `direction`.
pub fn nblend_hsv(
    existing: &mut Chsv,
    overlay: Chsv,
    amount_of_overlay: u8,
    direction: GradientDirection,
)
    ensures
        *final(existing) == blend_hsv_of(*old(existing), overlay, amount_of_overlay, direction),
{
    if amount_of_overlay == 0 {
        return;
    }
    if amount_of_overlay == 255 {
        *existing = overlay;
        return;
    }

    let amount_of_keep = 255 - amount_of_overlay;

    let mut huedelta8 = overlay.hue.wrapping_sub(existing.hue);

    if resolve_direction(direction, huedelta8) {
        existing.hue = existing.hue.wrapping_add(scale8(huedelta8, amount_of_overlay));
    } else {
        // the counter-clockwise distance: the two's complement negation
        huedelta8 = 0u8.wrapping_sub(huedelta8);
        existing.hue = existing.hue.wrapping_sub(scale8(huedelta8, amount_of_overlay));
    }

    // Both terms are bytes and the sum is stored in a byte, so it wraps
    // rather than saturating.
    existing.sat = scale8(existing.sat, amount_of_keep).wrapping_add(
        scale8(overlay.sat, amount_of_overlay),
    );
    existing.val = scale8(existing.val, amount_of_keep).wrapping_add(
        scale8(overlay.val, amount_of_overlay),
    );
}

/// Returns `p1` blended toward `p2` in HSV space, leaving both inputs
/// untouched.
pub fn blend_hsv(p1: Chsv, p2: Chsv, amount_of_p2: u8, direction: GradientDirection) -> (c: Chsv)
    ensures
        c == blend_hsv_of(p1, p2, amount_of_p2, direction),
{
    let mut nu = p1;
    nblend_hsv(&mut nu, p2, amount_of_p2, direction);
    nu
}

/// Blends each pixel of `existing` toward the matching pixel of `overlay`
/// in HSV space, in place. Pixels of `existing` past the end of `overlay`
/// are left as they are.
pub fn nblend_hsv_slice(
    existing: &mut [Chsv],
    overlay: &[Chsv],
    amount_of_overlay: u8,
    direction: GradientDirection,
)
    ensures
        final(existing)@ == Seq::new(
            old(existing)@.len(),
            |i: int|
                if i < overlay@.len() {
                    blend_hsv_of(old(existing)@[i], overlay@[i], amount_of_overlay, direction)
                } else {
                    old(existing)@[i]
                },
        ),
{
    let ghost orig = existing@;
    let n = if existing.len() < overlay.len() {
        existing.len()
    } else {
        overlay.len()
    };
    let mut i: usize = 0;
    while i < n
        invariant
            existing@.len() == orig.len(),
            n <= orig.len(),
            n <= overlay@.len(),
            n == orig.len() || n == overlay@.len(),
            0 <= i <= n,
            forall|j: int|
                0 <= j < orig.len() ==> existing@[j] == (if j < i {
                    blend_hsv_of(orig[j], overlay@[j], amount_of_overlay, direction)
                } else {
                    orig[j]
                }),
        decreases n - i,
    {
        let mut e = existing[i];
        nblend_hsv(&mut e, overlay[i], amount_of_overlay, direction);
        existing[i] = e;
        i += 1;
    }
    assert(existing@ =~= Seq::new(
        orig.len(),
        |i: int|
            if i < overlay@.len() {
                blend_hsv_of(orig[i], overlay@[i], amount_of_overlay, direction)
            } else {
                orig[i]
            },
    ));
}

/// Writes `src1` blended toward `src2` into `dest`, pixel by pixel, in HSV
/// space. The number of pixels written is the shortest of the three
/// slices; the rest of `dest` is left as it is.
pub fn blend_hsv_slice(
    src1: &[Chsv],
    src2: &[Chsv],
    dest: &mut [Chsv],
    amount_of_src2: u8,
    direction: GradientDirection,
)
    ensures
        final(dest)@ == Seq::new(
            old(dest)@.len(),
            |i: int|
                if i < src1@.len() && i < src2@.len() {
                    blend_hsv_of(src1@[i], src2@[i], amount_of_src2, direction)
                } else {
                    old(dest)@[i]
                },
        ),
{
    let ghost orig = dest@;
    let mut n = dest.len();
    if src1.len() < n {
        n = src1.len();
    }
    if src2.len() < n {
        n = src2.len();
    }
    let mut i: usize = 0;
    while i < n
        invariant
            dest@.len() == orig.len(),
            n <= orig.len(),
            n <= src1@.len(),
            n <= src2@.len(),
            n == orig.len() || n == src1@.len() || n == src2@.len(),
            0 <= i <= n,
            forall|j: int|
                0 <= j < orig.len() ==> dest@[j] == (if j < i {
                    blend_hsv_of(src1@[j], src2@[j], amount_of_src2, direction)
                } else {
                    orig[j]
                }),
        decreases n - i,
    {
        dest[i] = blend_hsv(src1[i], src2[i], amount_of_src2, direction);
        i += 1;
    }
    assert(dest@ =~= Seq::new(
        orig.len(),
        |i: int|
            if i < src1@.len() && i < src2@.len() {
                blend_hsv_of(src1@[i], src2@[i], amount_of_src2, direction)
            } else {
                orig[i]
            },
    ));
}

} // verus!
