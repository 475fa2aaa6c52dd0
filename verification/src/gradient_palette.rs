//! Parsing FastLED's gradient-palette byte format into `CrgbPalette16`,
//! `CrgbPalette32` and `CrgbPalette256`.
//!
//! The format is a flat run of 4-byte stops, `index, r, g, b`, starting at
//! `index == 0` and ending with a stop whose `index == 255`. Between stops,
//! colors are linearly interpolated in RGB space exactly as
//! [`fill_gradient_rgb_range`] does.
//!
//! Squeezing a gradient into 16 or 32 slots could silently erase a color
//! that spans only a stop or two, so when the gradient has fewer than 16
//! stops (the same threshold for both sizes), each new segment is forced to
//! start in a fresh slot after the last one written. With 16 or more stops
//! segments may overlap. The 256-entry palette has a slot per index and
//! needs none of this.
//!
//! Malformed input (no `index == 255` terminator before the bytes run out)
//! stops the parse; slots never reached stay black. An empty or too-short
//! slice gives an all-black palette.

use vstd::prelude::*;
use crate::fill::{fill_gradient_rgb_range, rgb_range_fill};
use crate::palette::{CrgbPalette16, CrgbPalette32, CrgbPalette256};
use crate::rgb::Crgb;

verus! {

/// Stop `i` of a gradient byte stream, if the bytes hold it whole: its
/// index byte and its color.
pub open spec fn stop_at(bytes: Seq<u8>, i: int) -> Option<(u8, Crgb)> {
    if 0 <= i < bytes.len() / 4 {
        Some((bytes[4 * i], Crgb { r: bytes[4 * i + 1], g: bytes[4 * i + 2], b: bytes[4 * i + 3] }))
    } else {
        None
    }
}

/// The number of stops from stop `i` on up to and including the first
/// terminator (`index == 255`), counted from the start; every whole stop if
/// there is no terminator.
pub open spec fn stops_through_terminator(bytes: Seq<u8>, i: int) -> int
    decreases bytes.len() / 4 - i,
{
    if i < 0 || i >= bytes.len() / 4 {
        (bytes.len() / 4) as int
    } else if bytes[4 * i] == 255 {
        i + 1
    } else {
        stops_through_terminator(bytes, i + 1)
    }
}

/// The number of stops up to and including the first terminator, or every
/// whole stop if there is none.
pub open spec fn stop_count(bytes: Seq<u8>) -> int {
    stops_through_terminator(bytes, 0)
}

/// The slots `(start, end)` that a segment spanning gradient indices
/// `index_start ..= index_end` is drawn over: the indices divided by
/// `divisor`, and, when compacting, pushed to start right after
/// `last_slot_used` if it would otherwise start at or before it (and that
/// slot is not the last).
pub open spec fn segment_slots(
    index_start: int,
    index_end: int,
    divisor: int,
    max_slot: int,
    compact: bool,
    last_slot_used: int,
) -> (int, int) {
    let istart = index_start / divisor;
    let iend = index_end / divisor;
    if compact && istart <= last_slot_used && last_slot_used < max_slot {
        let s = last_slot_used + 1;
        (s, if iend < s { s } else { iend })
    } else {
        (istart, iend)
    }
}

/// The slots after drawing the segments from stop `i` on, each an RGB
/// ramp from the previous stop's color (`rgbstart`, at gradient index
/// `index_start`) to the stop's own; drawing ends after the segment that
/// reaches index 255 or when the stops run out.
pub open spec fn gradient_segments(
    bytes: Seq<u8>,
    divisor: int,
    max_slot: int,
    compact: bool,
    entries: Seq<Crgb>,
    rgbstart: Crgb,
    last_slot_used: int,
    index_start: int,
    i: int,
) -> Seq<Crgb>
    decreases bytes.len() / 4 - i,
{
    if index_start >= 255 || i < 0 || i >= bytes.len() / 4 {
        entries
    } else {
        let index_end = bytes[4 * i] as int;
        let rgbend = Crgb { r: bytes[4 * i + 1], g: bytes[4 * i + 2], b: bytes[4 * i + 3] };
        let slots = segment_slots(index_start, index_end, divisor, max_slot, compact, last_slot_used);
        let last = if compact {
            slots.1
        } else {
            last_slot_used
        };
        gradient_segments(
            bytes,
            divisor,
            max_slot,
            compact,
            rgb_range_fill(entries, slots.0 as u16, rgbstart, slots.1 as u16, rgbend),
            rgbend,
            last,
            index_end,
            i + 1,
        )
    }
}

/// `n` black slots.
pub open spec fn black_slots(n: int) -> Seq<Crgb> {
    Seq::new(n as nat, |i: int| Crgb::black())
}

/// The `n`-slot palette that a gradient byte stream describes, with
/// gradient indices divided by `divisor` to find slots and compaction when
/// the gradient has fewer than 16 stops.
pub open spec fn compact_gradient(bytes: Seq<u8>, n: int, divisor: int) -> Seq<Crgb> {
    if bytes.len() / 4 == 0 {
        black_slots(n)
    } else {
        gradient_segments(
            bytes,
            divisor,
            n - 1,
            stop_count(bytes) < 16,
            black_slots(n),
            Crgb { r: bytes[1], g: bytes[2], b: bytes[3] },
            -1,
            0,
            1,
        )
    }
}

/// The 256-slot palette that a gradient byte stream describes: one slot per
/// gradient index, no compaction.
pub open spec fn full_gradient(bytes: Seq<u8>) -> Seq<Crgb> {
    if bytes.len() / 4 == 0 {
        black_slots(256)
    } else {
        gradient_segments(
            bytes,
            1,
            255,
            false,
            black_slots(256),
            Crgb { r: bytes[1], g: bytes[2], b: bytes[3] },
            -1,
            0,
            1,
        )
    }
}

/// Stop `i` of the byte stream, if the bytes hold it whole.
fn entry_at(bytes: &[u8], i: usize) -> (e: Option<(u8, Crgb)>)
    ensures
        e == stop_at(bytes@, i as int),
{
    if i < bytes.len() / 4 {
        let k = 4 * i;
        Some((bytes[k], Crgb::new(bytes[k + 1], bytes[k + 2], bytes[k + 3])))
    } else {
        None
    }
}

/// The number of stops up to and including the first `index == 255`
/// terminator, or every whole stop if the slice never has one.
fn count_stops(bytes: &[u8]) -> (n: usize)
    ensures
        n == stop_count(bytes@),
{
    let total = bytes.len() / 4;
    let mut i: usize = 0;
    while i < total
        invariant
            total == bytes@.len() / 4,
            0 <= i <= total,
            stops_through_terminator(bytes@, i as int) == stop_count(bytes@),
        decreases total - i,
    {
        match entry_at(bytes, i) {
            Some((index, _)) => {
                if index == 255 {
                    return i + 1;
                }
            },
            None => {},
        }
        i += 1;
    }
    total
}

/// The shared body of the 16- and 32-slot parsers: `divisor` maps a
/// `0..=255` gradient index down to a slot (16 for the 16-slot palette, 8
/// for the 32-slot one) and `max_slot` is the highest slot.
#[verifier::rlimit(30)]
fn build_compact<const N: usize>(bytes: &[u8], divisor: u16, max_slot: i16) -> (entries: [Crgb; N])
    requires
        1 <= divisor <= 16,
        N == max_slot + 1,
        N * divisor as int >= 256,
        N <= 32,
    ensures
        entries@ == compact_gradient(bytes@, N as int, divisor as int),
{
    let mut entries = [Crgb::new(0, 0, 0); N];
    assert(entries@ =~= black_slots(N as int));

    let mut rgbstart = match entry_at(bytes, 0) {
        Some((_, c)) => c,
        None => {
            return entries;
        },
    };

    let count = count_stops(bytes);
    let compact = count < 16;
    let ghost target = compact_gradient(bytes@, N as int, divisor as int);
    let total = bytes.len() / 4;
    let mut last_slot_used: i16 = -1;
    let mut index_start: u16 = 0;
    let mut i: usize = 1;

    while index_start < 255
        invariant
            1 <= divisor <= 16,
            N == max_slot + 1,
            N <= 32,
            compact == (stop_count(bytes@) < 16),
            entries@.len() == N,
            -1 <= last_slot_used <= max_slot,
            index_start <= 255,
            total == bytes@.len() / 4,
            1 <= i <= total,
            N * divisor as int >= 256,
            gradient_segments(
                bytes@,
                divisor as int,
                max_slot as int,
                compact,
                entries@,
                rgbstart,
                last_slot_used as int,
                index_start as int,
                i as int,
            ) == target,
        ensures
            entries@ == target,
        decreases bytes@.len() / 4 - i,
    {
        let (index_end_byte, rgbend) = match entry_at(bytes, i) {
            Some(stop) => stop,
            None => {
                break;
            },
        };
        let index_end = index_end_byte as u16;

        let mut istart8 = (index_start / divisor) as i16;
        let mut iend8 = (index_end / divisor) as i16;
        assert(index_end / divisor < N) by (nonlinear_arith)
            requires
                index_end <= 255,
                1 <= divisor,
                N * divisor >= 256,
        ;

        if compact {
            if istart8 <= last_slot_used && last_slot_used < max_slot {
                istart8 = last_slot_used + 1;
                if iend8 < istart8 {
                    iend8 = istart8;
                }
            }
            last_slot_used = iend8;
        }
        fill_gradient_rgb_range(&mut entries, istart8 as u16, rgbstart, iend8 as u16, rgbend);

        index_start = index_end;
        rgbstart = rgbend;
        i += 1;
    }
    entries
}

/// Parses a gradient-palette byte stream into a 16-entry palette.
pub fn crgb_palette16_from_gradient(bytes: &[u8]) -> (p: CrgbPalette16)
    ensures
        p.0@ == compact_gradient(bytes@, 16, 16),
{
    CrgbPalette16::new(build_compact::<16>(bytes, 16, 15))
}

/// Parses a gradient-palette byte stream into a 32-entry palette.
pub fn crgb_palette32_from_gradient(bytes: &[u8]) -> (p: CrgbPalette32)
    ensures
        p.0@ == compact_gradient(bytes@, 32, 8),
{
    CrgbPalette32::new(build_compact::<32>(bytes, 8, 31))
}

/// Parses a gradient-palette byte stream into a 256-entry palette. Every
/// gradient index has its own slot, so nothing needs to be compacted.
#[verifier::rlimit(30)]
pub fn crgb_palette256_from_gradient(bytes: &[u8]) -> (p: CrgbPalette256)
    ensures
        p.0@ == full_gradient(bytes@),
{
    let mut entries = [Crgb::new(0, 0, 0); 256];
    assert(entries@ =~= black_slots(256));

    match entry_at(bytes, 0) {
        Some((_, first)) => {
            let mut rgbstart = first;
            let ghost target = full_gradient(bytes@);
            let total = bytes.len() / 4;
            let mut index_start: u16 = 0;
            let mut i: usize = 1;

            while index_start < 255
                invariant
                    entries@.len() == 256,
                    index_start <= 255,
                    total == bytes@.len() / 4,
                    1 <= i <= total,
                    gradient_segments(
                        bytes@,
                        1,
                        255,
                        false,
                        entries@,
                        rgbstart,
                        -1,
                        index_start as int,
                        i as int,
                    ) == target,
                ensures
                    entries@ == target,
                decreases bytes@.len() / 4 - i,
            {
                let (index_end_byte, rgbend) = match entry_at(bytes, i) {
                    Some(stop) => stop,
                    None => {
                        break;
                    },
                };
                let index_end = index_end_byte as u16;

                fill_gradient_rgb_range(&mut entries, index_start, rgbstart, index_end, rgbend);

                index_start = index_end;
                rgbstart = rgbend;
                i += 1;
            }
        },
        None => {},
    }
    CrgbPalette256::new(entries)
}

} // verus!
