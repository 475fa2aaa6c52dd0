//! `Crgb`, an 8-bit RGB pixel, with its arithmetic and scaling operators.
//!
//! Every channel operation has defined overflow behavior: additions and
//! multiplications saturate at `0xFF`, subtractions saturate at `0x00`, and
//! scalings use the fixed-point conventions of `lib8tion`.

use vstd::prelude::*;
use crate::math8::{
    nscale8x3, nscale8x3_video, qadd8, qadd8_of, qmul8, qmul8_of, qsub8, qsub8_of, scale8,
    scale8_of, scale8_video_of,
};

verus! {

/// An 8-bit RGB pixel.
#[derive(Debug, Clone, Copy, PartialEq, Eq, Structural)]
pub struct Crgb {
    pub r: u8,
    pub g: u8,
    pub b: u8,
}

/// The smaller of two bytes.
pub open spec fn min8(a: u8, b: u8) -> u8 {
    if a < b {
        a
    } else {
        b
    }
}

/// The larger of two bytes.
pub open spec fn max8(a: u8, b: u8) -> u8 {
    if a < b {
        b
    } else {
        a
    }
}

impl Crgb {
    /// The pixel with every channel zero.
    pub open spec fn black() -> Crgb {
        Crgb { r: 0, g: 0, b: 0 }
    }

    /// Channel-wise saturating sum.
    pub open spec fn qadd(self, o: Crgb) -> Crgb {
        Crgb { r: qadd8_of(self.r, o.r), g: qadd8_of(self.g, o.g), b: qadd8_of(self.b, o.b) }
    }

    /// Channel-wise saturating difference.
    pub open spec fn qsub(self, o: Crgb) -> Crgb {
        Crgb { r: qsub8_of(self.r, o.r), g: qsub8_of(self.g, o.g), b: qsub8_of(self.b, o.b) }
    }

    /// A constant added to every channel, saturating.
    pub open spec fn plus_scalar(self, d: u8) -> Crgb {
        Crgb { r: qadd8_of(self.r, d), g: qadd8_of(self.g, d), b: qadd8_of(self.b, d) }
    }

    /// A constant subtracted from every channel, saturating.
    pub open spec fn minus_scalar(self, d: u8) -> Crgb {
        Crgb { r: qsub8_of(self.r, d), g: qsub8_of(self.g, d), b: qsub8_of(self.b, d) }
    }

    /// Every channel multiplied by `d`, saturating.
    pub open spec fn times_scalar(self, d: u8) -> Crgb {
        Crgb { r: qmul8_of(self.r, d), g: qmul8_of(self.g, d), b: qmul8_of(self.b, d) }
    }

    /// Every channel divided by `d`, rounded down.
    pub open spec fn over_scalar(self, d: u8) -> Crgb
        recommends
            d != 0,
    {
        Crgb { r: self.r / d, g: self.g / d, b: self.b / d }
    }

    /// Every channel shifted right by `d` bits, i.e. divided by `2^d`.
    pub open spec fn shifted_right(self, d: u8) -> Crgb
        recommends
            d < 8,
    {
        Crgb { r: self.r >> d, g: self.g >> d, b: self.b >> d }
    }

    /// Channel-wise minimum.
    pub open spec fn min_with(self, o: Crgb) -> Crgb {
        Crgb { r: min8(self.r, o.r), g: min8(self.g, o.g), b: min8(self.b, o.b) }
    }

    /// Channel-wise maximum.
    pub open spec fn max_with(self, o: Crgb) -> Crgb {
        Crgb { r: max8(self.r, o.r), g: max8(self.g, o.g), b: max8(self.b, o.b) }
    }

    /// Every channel capped at `d`.
    pub open spec fn capped(self, d: u8) -> Crgb {
        Crgb { r: min8(self.r, d), g: min8(self.g, d), b: min8(self.b, d) }
    }

    /// Every channel raised to at least `d`.
    pub open spec fn floored(self, d: u8) -> Crgb {
        Crgb { r: max8(self.r, d), g: max8(self.g, d), b: max8(self.b, d) }
    }

    /// Every channel inverted: `255 - c`.
    pub open spec fn inverted(self) -> Crgb {
        Crgb { r: (255 - self.r) as u8, g: (255 - self.g) as u8, b: (255 - self.b) as u8 }
    }

    /// Every channel scaled by `(s + 1) / 256` ("plain math" dimming).
    pub open spec fn scaled(self, s: u8) -> Crgb {
        Crgb { r: scale8_of(self.r, s), g: scale8_of(self.g, s), b: scale8_of(self.b, s) }
    }

    /// Every channel scaled "video" style by `s / 256`.
    pub open spec fn scaled_video(self, s: u8) -> Crgb {
        Crgb {
            r: scale8_video_of(self.r, s),
            g: scale8_video_of(self.g, s),
            b: scale8_video_of(self.b, s),
        }
    }

    /// Each channel scaled by the matching channel of `s`.
    pub open spec fn scaled_rgb(self, s: Crgb) -> Crgb {
        Crgb { r: scale8_of(self.r, s.r), g: scale8_of(self.g, s.g), b: scale8_of(self.b, s.b) }
    }

    /// Builds a [`Crgb`] from its components.
    pub fn new(r: u8, g: u8, b: u8) -> (c: Self)
        ensures
            c == (Crgb { r, g, b }),
    {
        Crgb { r, g, b }
    }

    /// `true` if all three channels are zero.
    pub fn is_black(&self) -> (res: bool)
        ensures
            res == (self.r == 0 && self.g == 0 && self.b == 0),
    {
        self.r == 0 && self.g == 0 && self.b == 0
    }

    /// Adds a constant to each channel, saturating at `0xFF`.
    pub fn add_to_rgb(&mut self, d: u8) -> (ret: &mut Self)
        ensures
            *ret == old(self).plus_scalar(d),
            *final(self) == *final(ret),
    {
        self.r = qadd8(self.r, d);
        self.g = qadd8(self.g, d);
        self.b = qadd8(self.b, d);
        self
    }

    /// Subtracts a constant from each channel, saturating at `0x00`.
    pub fn subtract_from_rgb(&mut self, d: u8) -> (ret: &mut Self)
        ensures
            *ret == old(self).minus_scalar(d),
            *final(self) == *final(ret),
    {
        self.r = qsub8(self.r, d);
        self.g = qsub8(self.g, d);
        self.b = qsub8(self.b, d);
        self
    }

    /// Scales down to `scaledown/256` of the current brightness using
    /// "plain math" dimming: low light levels may dim all the way to black.
    pub fn nscale8(&mut self, scaledown: u8) -> (ret: &mut Self)
        ensures
            *ret == old(self).scaled(scaledown),
            *final(self) == *final(ret),
    {
        nscale8x3(&mut self.r, &mut self.g, &mut self.b, scaledown);
        self
    }

    /// Scales down to `scaledown/256` of the current brightness, "video"
    /// style: a nonzero channel never dims all the way to zero.
    pub fn nscale8_video(&mut self, scaledown: u8) -> (ret: &mut Self)
        ensures
            *ret == old(self).scaled_video(scaledown),
            *final(self) == *final(ret),
    {
        nscale8x3_video(&mut self.r, &mut self.g, &mut self.b, scaledown);
        self
    }

    /// Scales each channel by the matching channel of `scaledown`.
    pub fn nscale8_rgb(&mut self, scaledown: Crgb) -> (ret: &mut Self)
        ensures
            *ret == old(self).scaled_rgb(scaledown),
            *final(self) == *final(ret),
    {
        self.r = scale8(self.r, scaledown.r);
        self.g = scale8(self.g, scaledown.g);
        self.b = scale8(self.b, scaledown.b);
        self
    }

    /// Returns a copy of this pixel scaled down by `scaledown/256` ("plain
    /// math" dimming, as [`Crgb::nscale8`]).
    pub fn scale8(&self, scaledown: u8) -> (c: Crgb)
        ensures
            c == self.scaled(scaledown),
    {
        let mut out = *self;
        out.nscale8(scaledown);
        out
    }

    /// Returns a copy of this pixel with each channel scaled by the
    /// matching channel of `scaledown`.
    pub fn scale8_rgb(&self, scaledown: Crgb) -> (c: Crgb)
        ensures
            c == self.scaled_rgb(scaledown),
    {
        let mut out = *self;
        out.nscale8_rgb(scaledown);
        out
    }

    /// `fadeToBlackBy`: [`Crgb::nscale8`] expressed as a fade,
    /// `nscale8(255 - fadefactor)`.
    pub fn fade_to_black_by(&mut self, fadefactor: u8) -> (ret: &mut Self)
        ensures
            *ret == old(self).scaled((255 - fadefactor) as u8),
            *final(self) == *final(ret),
    {
        self.nscale8(255 - fadefactor)
    }

    /// `fadeLightBy`: [`Crgb::nscale8_video`] expressed as a fade,
    /// `nscale8_video(255 - fadefactor)`.
    pub fn fade_light_by(&mut self, fadefactor: u8) -> (ret: &mut Self)
        ensures
            *ret == old(self).scaled_video((255 - fadefactor) as u8),
            *final(self) == *final(ret),
    {
        self.nscale8_video(255 - fadefactor)
    }
}

impl Default for Crgb {
    /// Black.
    fn default() -> (c: Crgb)
        ensures
            c == Crgb::black(),
    {
        Crgb { r: 0, g: 0, b: 0 }
    }
}

impl core::ops::Add for Crgb {
    type Output = Crgb;

    /// Channel-wise saturating addition.
    fn add(self, rhs: Crgb) -> (c: Crgb) {
        Crgb::new(qadd8(self.r, rhs.r), qadd8(self.g, rhs.g), qadd8(self.b, rhs.b))
    }
}

impl vstd::std_specs::ops::AddSpecImpl for Crgb {
    open spec fn obeys_add_spec() -> bool {
        true
    }

    open spec fn add_req(self, rhs: Crgb) -> bool {
        true
    }

    open spec fn add_spec(self, rhs: Crgb) -> Crgb {
        self.qadd(rhs)
    }
}

impl core::ops::AddAssign for Crgb {
    fn add_assign(&mut self, rhs: Crgb)
        ensures
            *final(self) == old(self).qadd(rhs),
    {
        *self = *self + rhs;
    }
}

impl core::ops::Sub for Crgb {
    type Output = Crgb;

    /// Channel-wise saturating subtraction.
    fn sub(self, rhs: Crgb) -> (c: Crgb) {
        Crgb::new(qsub8(self.r, rhs.r), qsub8(self.g, rhs.g), qsub8(self.b, rhs.b))
    }
}

impl vstd::std_specs::ops::SubSpecImpl for Crgb {
    open spec fn obeys_sub_spec() -> bool {
        true
    }

    open spec fn sub_req(self, rhs: Crgb) -> bool {
        true
    }

    open spec fn sub_spec(self, rhs: Crgb) -> Crgb {
        self.qsub(rhs)
    }
}

impl core::ops::SubAssign for Crgb {
    fn sub_assign(&mut self, rhs: Crgb)
        ensures
            *final(self) == old(self).qsub(rhs),
    {
        *self = *self - rhs;
    }
}

impl core::ops::Mul<u8> for Crgb {
    type Output = Crgb;

    /// Every channel multiplied by `d`, saturating.
    fn mul(self, d: u8) -> (c: Crgb) {
        Crgb::new(qmul8(self.r, d), qmul8(self.g, d), qmul8(self.b, d))
    }
}

impl vstd::std_specs::ops::MulSpecImpl<u8> for Crgb {
    open spec fn obeys_mul_spec() -> bool {
        true
    }

    open spec fn mul_req(self, d: u8) -> bool {
        true
    }

    open spec fn mul_spec(self, d: u8) -> Crgb {
        self.times_scalar(d)
    }
}

impl core::ops::MulAssign<u8> for Crgb {
    fn mul_assign(&mut self, d: u8)
        ensures
            *final(self) == old(self).times_scalar(d),
    {
        *self = *self * d;
    }
}

impl core::ops::Div<u8> for Crgb {
    type Output = Crgb;

    /// Every channel divided by `d`; `d` must be nonzero.
    fn div(self, d: u8) -> (c: Crgb) {
        Crgb::new(self.r / d, self.g / d, self.b / d)
    }
}

impl vstd::std_specs::ops::DivSpecImpl<u8> for Crgb {
    open spec fn obeys_div_spec() -> bool {
        true
    }

    open spec fn div_req(self, d: u8) -> bool {
        d != 0
    }

    open spec fn div_spec(self, d: u8) -> Crgb {
        self.over_scalar(d)
    }
}

impl core::ops::DivAssign<u8> for Crgb {
    fn div_assign(&mut self, d: u8)
        requires
            d != 0,
        ensures
            *final(self) == old(self).over_scalar(d),
    {
        *self = *self / d;
    }
}

impl core::ops::Shr<u8> for Crgb {
    type Output = Crgb;

    /// Every channel shifted right by `d` bits; `d` must be below 8.
    fn shr(self, d: u8) -> (c: Crgb) {
        Crgb::new(self.r >> d, self.g >> d, self.b >> d)
    }
}

impl vstd::std_specs::ops::ShrSpecImpl<u8> for Crgb {
    open spec fn obeys_shr_spec() -> bool {
        true
    }

    open spec fn shr_req(self, d: u8) -> bool {
        d < 8
    }

    open spec fn shr_spec(self, d: u8) -> Crgb {
        self.shifted_right(d)
    }
}

impl core::ops::ShrAssign<u8> for Crgb {
    fn shr_assign(&mut self, d: u8)
        requires
            d < 8,
        ensures
            *final(self) == old(self).shifted_right(d),
    {
        *self = *self >> d;
    }
}

/// The smaller of two bytes, computed.
fn byte_min(a: u8, b: u8) -> (m: u8)
    ensures
        m == min8(a, b),
{
    if a < b {
        a
    } else {
        b
    }
}

/// The larger of two bytes, computed.
fn byte_max(a: u8, b: u8) -> (m: u8)
    ensures
        m == max8(a, b),
{
    if a < b {
        b
    } else {
        a
    }
}

impl core::ops::BitAnd for Crgb {
    type Output = Crgb;

    /// Combines two pixels, taking the smaller value of each channel.
    fn bitand(self, rhs: Crgb) -> (c: Crgb) {
        Crgb::new(byte_min(self.r, rhs.r), byte_min(self.g, rhs.g), byte_min(self.b, rhs.b))
    }
}

impl vstd::std_specs::ops::BitAndSpecImpl for Crgb {
    open spec fn obeys_bitand_spec() -> bool {
        true
    }

    open spec fn bitand_req(self, rhs: Crgb) -> bool {
        true
    }

    open spec fn bitand_spec(self, rhs: Crgb) -> Crgb {
        self.min_with(rhs)
    }
}

impl core::ops::BitAndAssign for Crgb {
    fn bitand_assign(&mut self, rhs: Crgb)
        ensures
            *final(self) == old(self).min_with(rhs),
    {
        *self = *self & rhs;
    }
}

impl core::ops::BitAndAssign<u8> for Crgb {
    /// Caps every channel at `d`.
    fn bitand_assign(&mut self, d: u8)
        ensures
            *final(self) == old(self).capped(d),
    {
        self.r = byte_min(self.r, d);
        self.g = byte_min(self.g, d);
        self.b = byte_min(self.b, d);
    }
}

impl core::ops::BitOr for Crgb {
    type Output = Crgb;

    /// Combines two pixels, taking the larger value of each channel.
    fn bitor(self, rhs: Crgb) -> (c: Crgb) {
        Crgb::new(byte_max(self.r, rhs.r), byte_max(self.g, rhs.g), byte_max(self.b, rhs.b))
    }
}

impl vstd::std_specs::ops::BitOrSpecImpl for Crgb {
    open spec fn obeys_bitor_spec() -> bool {
        true
    }

    open spec fn bitor_req(self, rhs: Crgb) -> bool {
        true
    }

    open spec fn bitor_spec(self, rhs: Crgb) -> Crgb {
        self.max_with(rhs)
    }
}

impl core::ops::BitOrAssign for Crgb {
    fn bitor_assign(&mut self, rhs: Crgb)
        ensures
            *final(self) == old(self).max_with(rhs),
    {
        *self = *self | rhs;
    }
}

impl core::ops::BitOrAssign<u8> for Crgb {
    /// Raises every channel to at least `d`.
    fn bitor_assign(&mut self, d: u8)
        ensures
            *final(self) == old(self).floored(d),
    {
        self.r = byte_max(self.r, d);
        self.g = byte_max(self.g, d);
        self.b = byte_max(self.b, d);
    }
}

impl core::ops::Rem<u8> for Crgb {
    type Output = Crgb;

    /// `%` is a synonym for [`Crgb::nscale8_video`]: "scale down by a
    /// percentage".
    fn rem(self, scaledown: u8) -> (c: Crgb) {
        let mut out = self;
        out.nscale8_video(scaledown);
        out
    }
}

impl vstd::std_specs::ops::RemSpecImpl<u8> for Crgb {
    open spec fn obeys_rem_spec() -> bool {
        true
    }

    open spec fn rem_req(self, scaledown: u8) -> bool {
        true
    }

    open spec fn rem_spec(self, scaledown: u8) -> Crgb {
        self.scaled_video(scaledown)
    }
}

impl core::ops::RemAssign<u8> for Crgb {
    fn rem_assign(&mut self, scaledown: u8)
        ensures
            *final(self) == old(self).scaled_video(scaledown),
    {
        self.nscale8_video(scaledown);
    }
}

impl core::ops::Neg for Crgb {
    type Output = Crgb;

    /// Inverts each channel.
    fn neg(self) -> (c: Crgb) {
        Crgb::new(255 - self.r, 255 - self.g, 255 - self.b)
    }
}

impl vstd::std_specs::ops::NegSpecImpl for Crgb {
    open spec fn obeys_neg_spec() -> bool {
        true
    }

    open spec fn neg_req(self) -> bool {
        true
    }

    open spec fn neg_spec(self) -> Crgb {
        self.inverted()
    }
}

} // verus!
