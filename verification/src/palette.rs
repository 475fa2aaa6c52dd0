//! Color palettes and `ColorFromPalette`.
//!
//! Brightness handling differs between the palette kinds, as in FastLED:
//! - `CrgbPalette16`/`32`: `brightness == 0` forces black; otherwise plain
//!   `scale8(x, brightness + 1)`.
//! - `CrgbPalette256`: `scale8_video(x, brightness + 1)`, with no
//!   `brightness == 0` special case.
//! - `ChsvPalette16`/`32`/`256`: only `val` is scaled, by
//!   `scale8_video(val, brightness)`.
//!
//! `LinearBlendNoWrap` rescales the index with `scale8(index, N)` first,
//! `N` being 239 for the 16-entry palettes and 247 for the 32-entry ones,
//! so that the top of the range lands exactly on the last entry.

use vstd::prelude::*;
use crate::hsv::{Chsv, add8w};
use crate::math8::{scale8, scale8_of, scale8_video, scale8_video_of};
use crate::rgb::Crgb;

verus! {

/// How the 16- and 32-entry `color_from_palette*` functions blend between
/// adjacent palette entries.
#[derive(Debug, Clone, Copy, PartialEq, Eq, Structural)]
pub enum ColorBlend {
    /// No interpolation: step to the nearest lower entry.
    NoBlend,
    /// Linearly interpolate between entries, wrapping from the last entry
    /// back to the first as the index crosses 255 -> 0.
    LinearBlend,
    /// Linearly interpolate between entries, but rescale the index first so
    /// that the top of the range lands exactly on the last entry.
    LinearBlendNoWrap,
}

/// A 16-entry RGB color palette, indexed by a `u8` via
/// [`color_from_palette16`].
#[derive(Debug, Clone, Copy, PartialEq, Eq)]
pub struct CrgbPalette16(pub [Crgb; 16]);

/// A 32-entry RGB color palette, indexed by a `u8` via
/// [`color_from_palette32`].
#[derive(Debug, Clone, Copy, PartialEq, Eq)]
pub struct CrgbPalette32(pub [Crgb; 32]);

/// A 256-entry RGB color palette: one entry per possible `u8` index.
#[derive(Debug, Clone, Copy, PartialEq, Eq)]
pub struct CrgbPalette256(pub [Crgb; 256]);

/// A 16-entry HSV color palette, indexed by a `u8` via
/// [`color_from_palette16_hsv`].
#[derive(Debug, Clone, Copy, PartialEq, Eq)]
pub struct ChsvPalette16(pub [Chsv; 16]);

/// A 32-entry HSV color palette, indexed by a `u8` via
/// [`color_from_palette32_hsv`].
#[derive(Debug, Clone, Copy, PartialEq, Eq)]
pub struct ChsvPalette32(pub [Chsv; 32]);

/// A 256-entry HSV color palette: one entry per possible `u8` index.
#[derive(Debug, Clone, Copy, PartialEq, Eq)]
pub struct ChsvPalette256(pub [Chsv; 256]);

impl CrgbPalette16 {
    /// Builds a palette from its 16 entries.
    pub fn new(entries: [Crgb; 16]) -> (p: Self)
        ensures
            p.0 == entries,
    {
        CrgbPalette16(entries)
    }
}

impl CrgbPalette32 {
    /// Builds a palette from its 32 entries.
    pub fn new(entries: [Crgb; 32]) -> (p: Self)
        ensures
            p.0 == entries,
    {
        CrgbPalette32(entries)
    }
}

impl CrgbPalette256 {
    /// Builds a palette from its 256 entries.
    pub fn new(entries: [Crgb; 256]) -> (p: Self)
        ensures
            p.0 == entries,
    {
        CrgbPalette256(entries)
    }
}

impl ChsvPalette16 {
    /// Builds a palette from its 16 entries.
    pub fn new(entries: [Chsv; 16]) -> (p: Self)
        ensures
            p.0 == entries,
    {
        ChsvPalette16(entries)
    }
}

impl ChsvPalette32 {
    /// Builds a palette from its 32 entries.
    pub fn new(entries: [Chsv; 32]) -> (p: Self)
        ensures
            p.0 == entries,
    {
        ChsvPalette32(entries)
    }
}

impl ChsvPalette256 {
    /// Builds a palette from its 256 entries.
    pub fn new(entries: [Chsv; 256]) -> (p: Self)
        ensures
            p.0 == entries,
    {
        ChsvPalette256(entries)
    }
}

impl core::ops::Index<usize> for CrgbPalette16 {
    type Output = Crgb;

    fn index(&self, i: usize) -> (e: &Crgb)
        ensures
            *e == self.0@[i as int],
    {
        &self.0[i]
    }
}

impl vstd::std_specs::core::IndexSpecImpl<usize> for CrgbPalette16 {
    open spec fn index_req(&self, i: &usize) -> bool {
        *i < 16
    }
}

impl core::ops::Index<usize> for CrgbPalette32 {
    type Output = Crgb;

    fn index(&self, i: usize) -> (e: &Crgb)
        ensures
            *e == self.0@[i as int],
    {
        &self.0[i]
    }
}

impl vstd::std_specs::core::IndexSpecImpl<usize> for CrgbPalette32 {
    open spec fn index_req(&self, i: &usize) -> bool {
        *i < 32
    }
}

impl core::ops::Index<usize> for CrgbPalette256 {
    type Output = Crgb;

    fn index(&self, i: usize) -> (e: &Crgb)
        ensures
            *e == self.0@[i as int],
    {
        &self.0[i]
    }
}

impl vstd::std_specs::core::IndexSpecImpl<usize> for CrgbPalette256 {
    open spec fn index_req(&self, i: &usize) -> bool {
        *i < 256
    }
}

impl core::ops::Index<usize> for ChsvPalette16 {
    type Output = Chsv;

    fn index(&self, i: usize) -> (e: &Chsv)
        ensures
            *e == self.0@[i as int],
    {
        &self.0[i]
    }
}

impl vstd::std_specs::core::IndexSpecImpl<usize> for ChsvPalette16 {
    open spec fn index_req(&self, i: &usize) -> bool {
        *i < 16
    }
}

impl core::ops::Index<usize> for ChsvPalette32 {
    type Output = Chsv;

    fn index(&self, i: usize) -> (e: &Chsv)
        ensures
            *e == self.0@[i as int],
    {
        &self.0[i]
    }
}

impl vstd::std_specs::core::IndexSpecImpl<usize> for ChsvPalette32 {
    open spec fn index_req(&self, i: &usize) -> bool {
        *i < 32
    }
}

impl core::ops::Index<usize> for ChsvPalette256 {
    type Output = Chsv;

    fn index(&self, i: usize) -> (e: &Chsv)
        ensures
            *e == self.0@[i as int],
    {
        &self.0[i]
    }
}

impl vstd::std_specs::core::IndexSpecImpl<usize> for ChsvPalette256 {
    open spec fn index_req(&self, i: &usize) -> bool {
        *i < 256
    }
}

/// The index actually looked up: `LinearBlendNoWrap` first rescales it by
/// `scale8(index, top)`.
pub open spec fn effective_index(index: u8, blend: ColorBlend, top: u8) -> u8 {
    match blend {
        ColorBlend::LinearBlendNoWrap => scale8_of(index, top),
        _ => index,
    }
}

/// The entry after `hi`, wrapping from the last entry back to the first.
pub open spec fn next_slot(hi: int, len: int) -> int {
    if hi + 1 == len {
        0
    } else {
        hi + 1
    }
}

/// `e0` blended toward `e1` by `f2 / 255`: each channel is
/// `scale8(c0, 255 - f2) + scale8(c1, f2)`, summed modulo 256.
pub open spec fn mix_rgb(e0: Crgb, e1: Crgb, f2: u8) -> Crgb {
    let f1 = (255 - f2) as u8;
    Crgb {
        r: add8w(scale8_of(e0.r, f1) as int, scale8_of(e1.r, f2) as int),
        g: add8w(scale8_of(e0.g, f1) as int, scale8_of(e1.g, f2) as int),
        b: add8w(scale8_of(e0.b, f1) as int, scale8_of(e1.b, f2) as int),
    }
}

/// Entry `hi` of `entries`, blended toward the next entry by `f2 / 255`
/// unless `blend` is `NoBlend` or `f2` is zero.
pub open spec fn lookup_rgb(entries: Seq<Crgb>, hi: int, f2: u8, blend: ColorBlend) -> Crgb {
    if blend == ColorBlend::NoBlend || f2 == 0 {
        entries[hi]
    } else {
        mix_rgb(entries[hi], entries[next_slot(hi, entries.len() as int)], f2)
    }
}

/// The brightness stage of the 16- and 32-entry RGB lookups: 255 keeps the
/// color, 0 gives black, anything else scales by `brightness + 1`.
pub open spec fn dimmed_rgb(c: Crgb, brightness: u8) -> Crgb {
    if brightness == 255 {
        c
    } else if brightness == 0 {
        Crgb::black()
    } else {
        c.scaled((brightness + 1) as u8)
    }
}

/// `ColorFromPalette` on a 16-entry RGB palette: the high nibble of the
/// index picks the entry, the low nibble (times 16) the blend toward the
/// next one.
pub open spec fn palette16_rgb(entries: Seq<Crgb>, index: u8, brightness: u8, blend: ColorBlend) -> Crgb {
    let i = effective_index(index, blend, 239);
    dimmed_rgb(lookup_rgb(entries, (i / 16) as int, ((i % 16) * 16) as u8, blend), brightness)
}

/// `ColorFromPalette` on a 32-entry RGB palette: the top five bits of the
/// index pick the entry, the low three (times 32) the blend toward the
/// next one.
pub open spec fn palette32_rgb(entries: Seq<Crgb>, index: u8, brightness: u8, blend: ColorBlend) -> Crgb {
    let i = effective_index(index, blend, 247);
    dimmed_rgb(lookup_rgb(entries, (i / 8) as int, ((i % 8) * 32) as u8, blend), brightness)
}

/// `ColorFromPalette` on a 256-entry RGB palette: the entry itself, scaled
/// "video" style by `brightness + 1` unless the brightness is 255.
pub open spec fn palette256_rgb(entries: Seq<Crgb>, index: u8, brightness: u8) -> Crgb {
    if brightness == 255 {
        entries[index as int]
    } else {
        entries[index as int].scaled_video((brightness + 1) as u8)
    }
}

/// Entry `hi` blended toward its (possibly wrapped-around) neighbor by
/// `f2 / 255`.
fn interpolate_rgb(entries: &[Crgb], hi: usize, f2: u8, blend: ColorBlend) -> (c: Crgb)
    requires
        hi < entries@.len(),
    ensures
        c == lookup_rgb(entries@, hi as int, f2, blend),
{
    let e0 = entries[hi];
    let no_blend = match blend {
        ColorBlend::NoBlend => true,
        _ => false,
    };
    if no_blend || f2 == 0 {
        return e0;
    }
    let next = if hi + 1 == entries.len() {
        0
    } else {
        hi + 1
    };
    let e1 = entries[next];
    let f1 = 255 - f2;

    // The two scale8 terms are summed into a byte, which wraps rather than
    // saturates.
    Crgb::new(
        scale8(e0.r, f1).wrapping_add(scale8(e1.r, f2)),
        scale8(e0.g, f1).wrapping_add(scale8(e1.g, f2)),
        scale8(e0.b, f1).wrapping_add(scale8(e1.b, f2)),
    )
}

/// The brightness stage of the 16- and 32-entry RGB lookups.
fn apply_brightness_rgb(entry: Crgb, brightness: u8) -> (c: Crgb)
    ensures
        c == dimmed_rgb(entry, brightness),
{
    let mut entry = entry;
    if brightness == 255 {
        return entry;
    }
    if brightness == 0 {
        return Crgb::new(0, 0, 0);
    }
    let b2 = brightness + 1;
    entry.r = scale8(entry.r, b2);
    entry.g = scale8(entry.g, b2);
    entry.b = scale8(entry.b, b2);
    entry
}

/// The rescaled index, when `blend` asks for it.
fn rescale_index(index: u8, blend: ColorBlend, top: u8) -> (i: u8)
    ensures
        i == effective_index(index, blend, top),
{
    match blend {
        ColorBlend::LinearBlendNoWrap => scale8(index, top),
        _ => index,
    }
}

proof fn lemma_index_split(index: u8)
    ensures
        (index >> 4) as int == index / 16,
        ((index & 0x0F) << 4) as int == (index % 16) * 16,
        (index >> 3) as int == index / 8,
        ((index & 0x07) << 5) as int == (index % 8) * 32,
{
    assert((index >> 4) as int == index / 16) by (bit_vector);
    assert(((index & 0x0F) << 4) as int == (index % 16) * 16) by (bit_vector);
    assert((index >> 3) as int == index / 8) by (bit_vector);
    assert(((index & 0x07) << 5) as int == (index % 8) * 32) by (bit_vector);
}

/// `ColorFromPalette` against a 16-entry RGB palette.
pub fn color_from_palette16(pal: &CrgbPalette16, index: u8, brightness: u8, blend: ColorBlend) -> (c: Crgb)
    ensures
        c == palette16_rgb(pal.0@, index, brightness, blend),
{
    let index = rescale_index(index, blend, 239);
    proof {
        lemma_index_split(index);
    }
    let hi4 = (index >> 4) as usize;
    let lo4 = index & 0x0F;
    let f2 = lo4 << 4;

    let entry = interpolate_rgb(&pal.0, hi4, f2, blend);
    apply_brightness_rgb(entry, brightness)
}

/// `ColorFromPalette` against a 32-entry RGB palette.
pub fn color_from_palette32(pal: &CrgbPalette32, index: u8, brightness: u8, blend: ColorBlend) -> (c: Crgb)
    ensures
        c == palette32_rgb(pal.0@, index, brightness, blend),
{
    let index = rescale_index(index, blend, 247);
    proof {
        lemma_index_split(index);
    }
    let hi5 = (index >> 3) as usize;
    let lo3 = index & 0x07;
    let f2 = lo3 << 5;

    let entry = interpolate_rgb(&pal.0, hi5, f2, blend);
    apply_brightness_rgb(entry, brightness)
}

/// `ColorFromPalette` against a 256-entry RGB palette. Every index maps to
/// exactly one entry, so there is nothing to interpolate between.
pub fn color_from_palette256(pal: &CrgbPalette256, index: u8, brightness: u8) -> (c: Crgb)
    ensures
        c == palette256_rgb(pal.0@, index, brightness),
{
    let mut entry = pal.0[index as usize];
    if brightness != 255 {
        let b2 = brightness + 1;
        entry.r = scale8_video(entry.r, b2);
        entry.g = scale8_video(entry.g, b2);
        entry.b = scale8_video(entry.b, b2);
    }
    entry
}

/// `e0` blended toward `e1` by `f2 / 255` in HSV: saturation and value
/// blend like RGB channels; an entry that is black or white (`val == 0` or
/// `sat == 0`) first adopts the other's hue, and the hue then moves along
/// the shorter way around the wheel.
pub open spec fn mix_hsv(e0: Chsv, e1: Chsv, f2: u8) -> Chsv {
    let f1 = (255 - f2) as u8;
    Chsv {
        hue: mix_hue(e0, e1, f2),
        sat: add8w(scale8_of(e0.sat, f1) as int, scale8_of(e1.sat, f2) as int),
        val: add8w(scale8_of(e0.val, f1) as int, scale8_of(e1.val, f2) as int),
    }
}

/// The hue of [`mix_hsv`].
pub open spec fn mix_hue(e0: Chsv, e1: Chsv, f2: u8) -> u8 {
    let hue1 = if e0.sat == 0 || e0.val == 0 {
        e1.hue
    } else {
        e0.hue
    };
    let hue2 = if e1.sat == 0 || e1.val == 0 {
        hue1
    } else {
        e1.hue
    };
    let deltahue = ((hue2 - hue1) % 256) as u8;
    if deltahue >= 128 {
        add8w(hue1 as int, -(scale8_of((256 - deltahue) as u8, f2) as int))
    } else {
        add8w(hue1 as int, scale8_of(deltahue, f2) as int)
    }
}

/// Entry `hi` of `entries`, blended toward the next entry by `f2 / 255`
/// unless `blend` is `NoBlend` or `f2` is zero.
pub open spec fn lookup_hsv(entries: Seq<Chsv>, hi: int, f2: u8, blend: ColorBlend) -> Chsv {
    if blend == ColorBlend::NoBlend || f2 == 0 {
        entries[hi]
    } else {
        mix_hsv(entries[hi], entries[next_slot(hi, entries.len() as int)], f2)
    }
}

/// The brightness stage of the HSV lookups: unless the brightness is 255,
/// the value is scaled "video" style by it.
pub open spec fn dimmed_hsv(c: Chsv, brightness: u8) -> Chsv {
    if brightness == 255 {
        c
    } else {
        Chsv { val: scale8_video_of(c.val, brightness), ..c }
    }
}

/// `ColorFromPalette` on a 16-entry HSV palette.
pub open spec fn palette16_hsv(entries: Seq<Chsv>, index: u8, brightness: u8, blend: ColorBlend) -> Chsv {
    let i = effective_index(index, blend, 239);
    dimmed_hsv(lookup_hsv(entries, (i / 16) as int, ((i % 16) * 16) as u8, blend), brightness)
}

/// `ColorFromPalette` on a 32-entry HSV palette.
pub open spec fn palette32_hsv(entries: Seq<Chsv>, index: u8, brightness: u8, blend: ColorBlend) -> Chsv {
    let i = effective_index(index, blend, 247);
    dimmed_hsv(lookup_hsv(entries, (i / 8) as int, ((i % 8) * 32) as u8, blend), brightness)
}

/// Entry `hi` blended toward its (possibly wrapped-around) neighbor by
/// `f2 / 255`, in HSV.
#[verifier::rlimit(30)]
fn interpolate_hsv(entries: &[Chsv], hi: usize, f2: u8, blend: ColorBlend) -> (c: Chsv)
    requires
        hi < entries@.len(),
    ensures
        c == lookup_hsv(entries@, hi as int, f2, blend),
{
    let e0 = entries[hi];
    let no_blend = match blend {
        ColorBlend::NoBlend => true,
        _ => false,
    };
    if no_blend || f2 == 0 {
        return e0;
    }
    let next = if hi + 1 == entries.len() {
        0
    } else {
        hi + 1
    };
    mix_hsv_exec(e0, entries[next], f2)
}

/// The hue of [`mix_hsv`], computed.
#[verifier::rlimit(30)]
fn mix_hue_exec(e0: Chsv, e1: Chsv, f2: u8) -> (hue: u8)
    ensures
        hue == mix_hue(e0, e1, f2),
{
    let mut hue1 = e0.hue;
    let mut hue2 = e1.hue;
    if e0.sat == 0 || e0.val == 0 {
        hue1 = hue2;
    }
    if e1.sat == 0 || e1.val == 0 {
        hue2 = hue1;
    }

    let deltahue = hue2.wrapping_sub(hue1);
    assert((deltahue & 0x80 != 0) == (deltahue >= 128)) by (bit_vector);
    if deltahue & 0x80 != 0 {
        let reverse_delta = (256u16 - deltahue as u16) as u8;
        hue1.wrapping_sub(scale8(reverse_delta, f2))
    } else {
        hue1.wrapping_add(scale8(deltahue, f2))
    }
}

/// [`mix_hsv`], computed.
fn mix_hsv_exec(e0: Chsv, e1: Chsv, f2: u8) -> (c: Chsv)
    ensures
        c == mix_hsv(e0, e1, f2),
{
    let f1 = 255 - f2;
    let sat = scale8(e0.sat, f1).wrapping_add(scale8(e1.sat, f2));
    let val = scale8(e0.val, f1).wrapping_add(scale8(e1.val, f2));
    let hue = mix_hue_exec(e0, e1, f2);
    Chsv::new(hue, sat, val)
}

/// `ColorFromPalette` against a 16-entry HSV palette.
pub fn color_from_palette16_hsv(pal: &ChsvPalette16, index: u8, brightness: u8, blend: ColorBlend) -> (c: Chsv)
    ensures
        c == palette16_hsv(pal.0@, index, brightness, blend),
{
    let index = rescale_index(index, blend, 239);
    proof {
        lemma_index_split(index);
    }
    let hi4 = (index >> 4) as usize;
    let lo4 = index & 0x0F;
    let f2 = lo4 << 4;

    let mut entry = interpolate_hsv(&pal.0, hi4, f2, blend);
    if brightness != 255 {
        entry.val = scale8_video(entry.val, brightness);
    }
    entry
}

/// `ColorFromPalette` against a 32-entry HSV palette.
pub fn color_from_palette32_hsv(pal: &ChsvPalette32, index: u8, brightness: u8, blend: ColorBlend) -> (c: Chsv)
    ensures
        c == palette32_hsv(pal.0@, index, brightness, blend),
{
    let index = rescale_index(index, blend, 247);
    proof {
        lemma_index_split(index);
    }
    let hi5 = (index >> 3) as usize;
    let lo3 = index & 0x07;
    let f2 = lo3 << 5;

    let mut entry = interpolate_hsv(&pal.0, hi5, f2, blend);
    if brightness != 255 {
        entry.val = scale8_video(entry.val, brightness);
    }
    entry
}

/// `ColorFromPalette` against a 256-entry HSV palette. Every index maps to
/// exactly one entry, so there is nothing to interpolate between.
pub fn color_from_palette256_hsv(pal: &ChsvPalette256, index: u8, brightness: u8) -> (c: Chsv)
    ensures
        c == dimmed_hsv(pal.0@[index as int], brightness),
{
    let mut entry = pal.0[index as usize];
    if brightness != 255 {
        entry.val = scale8_video(entry.val, brightness);
    }
    entry
}

} // verus!
