//! Invariant properties of the color operations, checked on pseudo-random
//! inputs drawn from a fixed-seed generator (so every run checks the same
//! cases).

use color8::{
    Chsv, Crgb, GradientDirection, fill_gradient, fill_gradient_rgb, fill_rainbow,
    fill_rainbow_circular, fill_solid, hsv2rgb_rainbow, rgb2hsv_approximate,
};

/// A small xorshift generator.
struct Gen(u64);

impl Gen {
    fn new(seed: u64) -> Gen {
        Gen(seed | 1)
    }

    fn next(&mut self) -> u64 {
        let mut x = self.0;
        x ^= x << 13;
        x ^= x >> 7;
        x ^= x << 17;
        self.0 = x;
        x
    }

    fn byte(&mut self) -> u8 {
        (self.next() >> 24) as u8
    }

    fn below(&mut self, n: usize) -> usize {
        (self.next() % n as u64) as usize
    }

    fn range(&mut self, lo: usize, hi: usize) -> usize {
        lo + self.below(hi - lo)
    }

    fn crgb(&mut self) -> Crgb {
        Crgb::new(self.byte(), self.byte(), self.byte())
    }

    fn chsv(&mut self) -> Chsv {
        Chsv::new(self.byte(), self.byte(), self.byte())
    }

    fn direction(&mut self) -> GradientDirection {
        match self.below(4) {
            0 => GradientDirection::Forward,
            1 => GradientDirection::Backward,
            2 => GradientDirection::Shortest,
            _ => GradientDirection::Longest,
        }
    }

    fn crgbs(&mut self, max_len: usize) -> Vec<Crgb> {
        let n = self.below(max_len);
        (0..n).map(|_| self.crgb()).collect()
    }
}

const CASES: usize = 256;

// ---------------------------------------------------------------------------
// Fill functions
// ---------------------------------------------------------------------------

#[test]
fn fill_solid_writes_the_same_color_everywhere() {
    let mut g = Gen::new(1);
    for _ in 0..CASES {
        let color = g.crgb();
        let n = g.below(500);
        let mut leds = vec![Crgb::default(); n];
        fill_solid(&mut leds, color);
        assert!(leds.iter().all(|&c| c == color));
        assert_eq!(leds.len(), n);
    }
}

#[test]
fn fill_rainbow_steps_hue_by_delta() {
    let mut g = Gen::new(2);
    for _ in 0..CASES {
        let (initial, delta, n) = (g.byte(), g.byte(), g.below(500));
        let mut leds = vec![Chsv::default(); n];
        fill_rainbow(&mut leds, initial, delta);
        for (i, led) in leds.iter().enumerate() {
            let expected_hue = initial.wrapping_add((delta as usize * i) as u8);
            assert_eq!(led.hue, expected_hue, "pixel {}", i);
            assert_eq!(led.sat, 240);
            assert_eq!(led.val, 255);
        }
    }
}

#[test]
fn fill_rainbow_rgb_agrees_with_converting_the_hsv_fill() {
    let mut g = Gen::new(3);
    for _ in 0..CASES {
        let (initial, delta, n) = (g.byte(), g.byte(), g.below(300));
        let mut as_hsv = vec![Chsv::default(); n];
        fill_rainbow(&mut as_hsv, initial, delta);
        let mut as_rgb = vec![Crgb::default(); n];
        fill_rainbow(&mut as_rgb, initial, delta);
        for (i, (h, r)) in as_hsv.iter().zip(as_rgb.iter()).enumerate() {
            assert_eq!(hsv2rgb_rainbow(*h), *r, "pixel {}", i);
        }
    }
}

#[test]
fn fill_rainbow_circular_starts_at_the_initial_hue() {
    let mut g = Gen::new(4);
    for _ in 0..CASES {
        let (initial, reversed, n) = (g.byte(), g.below(2) == 1, g.range(1, 500));
        let mut leds = vec![Chsv::default(); n];
        fill_rainbow_circular(&mut leds, initial, reversed);
        assert_eq!(leds[0].hue, initial);
        assert!(leds.iter().all(|c| c.sat == 240 && c.val == 255));
    }
}

#[test]
fn fill_gradient_rgb_anchors_its_start_and_never_overshoots() {
    let mut g = Gen::new(5);
    for _ in 0..CASES {
        let (c1, c2, n) = (g.crgb(), g.crgb(), g.range(2, 500));
        let mut leds = vec![Crgb::default(); n];
        fill_gradient_rgb(&mut leds, c1, c2);
        assert_eq!(leds[0], c1);
        let last = leds[n - 1];
        for (got, from, to) in [(last.r, c1.r, c2.r), (last.g, c1.g, c2.g), (last.b, c1.b, c2.b)] {
            let (lo, hi) = (from.min(to), from.max(to));
            assert!(got >= lo && got <= hi, "endpoint {} escaped [{}, {}]", got, lo, hi);
        }
    }
}

#[test]
fn fill_gradient_rgb_is_monotonic_per_channel() {
    let mut g = Gen::new(6);
    for _ in 0..CASES {
        let (c1, c2, n) = (g.crgb(), g.crgb(), g.range(2, 300));
        let mut leds = vec![Crgb::default(); n];
        fill_gradient_rgb(&mut leds, c1, c2);
        for ch in 0..3 {
            let get = |c: &Crgb| match ch {
                0 => c.r,
                1 => c.g,
                _ => c.b,
            };
            let ascending = get(&c2) >= get(&c1);
            for w in leds.windows(2) {
                let (a, b) = (get(&w[0]), get(&w[1]));
                if ascending {
                    assert!(b >= a, "channel {} fell from {} to {}", ch, a, b);
                } else {
                    assert!(b <= a, "channel {} rose from {} to {}", ch, a, b);
                }
            }
        }
    }
}

#[test]
fn fill_gradient_hsv_anchors_its_start() {
    let mut g = Gen::new(7);
    for _ in 0..CASES {
        let (c1, c2, dir, n) = (g.chsv(), g.chsv(), g.direction(), g.range(2, 300));
        let mut leds = vec![Chsv::default(); n];
        fill_gradient(&mut leds, c1, c2, dir);
        assert_eq!(leds[0].sat, c1.sat);
        assert_eq!(leds[0].val, c1.val);
        if c1.val != 0 && c1.sat != 0 {
            assert_eq!(leds[0].hue, c1.hue);
        }
    }
}

#[test]
fn fills_never_touch_memory_outside_the_slice() {
    let mut g = Gen::new(8);
    for _ in 0..CASES {
        let (color, n) = (g.crgb(), g.below(64));
        let mut leds = vec![Crgb::default(); n];
        fill_solid(&mut leds, color);
        fill_rainbow(&mut leds, 0, 7);
        fill_rainbow_circular(&mut leds, 0, false);
        fill_gradient_rgb(&mut leds, Crgb::new(0, 0, 0), color);
        assert_eq!(leds.len(), n);
    }
}

// ---------------------------------------------------------------------------
// blend / nblend
// ---------------------------------------------------------------------------

#[test]
fn blend_hits_both_endpoints_exactly() {
    let mut g = Gen::new(9);
    for _ in 0..CASES {
        let (a, b) = (g.crgb(), g.crgb());
        assert_eq!(color8::blend(a, b, 0), a);
        assert_eq!(color8::blend(a, b, 255), b);
    }
}

#[test]
fn blend_stays_between_its_endpoints() {
    let mut g = Gen::new(10);
    for _ in 0..CASES {
        let (a, b, amount) = (g.crgb(), g.crgb(), g.byte());
        let r = color8::blend(a, b, amount);
        for (got, x, y) in [(r.r, a.r, b.r), (r.g, a.g, b.g), (r.b, a.b, b.b)] {
            assert!(got >= x.min(y) && got <= x.max(y), "{} escaped [{}, {}]", got, x.min(y), x.max(y));
        }
    }
}

#[test]
fn blend_of_identical_colors_is_that_color() {
    let mut g = Gen::new(11);
    for _ in 0..CASES {
        let (a, amount) = (g.crgb(), g.byte());
        assert_eq!(color8::blend(a, a, amount), a);
    }
}

#[test]
fn nblend_agrees_with_blend() {
    let mut g = Gen::new(12);
    for _ in 0..CASES {
        let (a, b, amount) = (g.crgb(), g.crgb(), g.byte());
        let mut mutated = a;
        color8::nblend(&mut mutated, b, amount);
        assert_eq!(mutated, color8::blend(a, b, amount));
    }
}

#[test]
fn nblend_slice_is_pointwise_nblend() {
    let mut g = Gen::new(13);
    for _ in 0..CASES {
        let (a, b, amount) = (g.crgbs(64), g.crgbs(64), g.byte());
        let mut slice = a.clone();
        color8::nblend_slice(&mut slice, &b, amount);
        let overlap = a.len().min(b.len());
        for i in 0..overlap {
            assert_eq!(slice[i], color8::blend(a[i], b[i], amount), "pixel {}", i);
        }
        for i in overlap..a.len() {
            assert_eq!(slice[i], a[i], "untouched tail pixel {}", i);
        }
    }
}

#[test]
fn blend_hsv_hits_both_endpoints() {
    let mut g = Gen::new(14);
    for _ in 0..CASES {
        let (a, b, dir) = (g.chsv(), g.chsv(), g.direction());
        assert_eq!(color8::blend_hsv(a, b, 0, dir), a);
        assert_eq!(color8::blend_hsv(a, b, 255, dir), b);
    }
}

#[test]
fn blend_hsv_forward_and_backward_agree_at_the_endpoints() {
    let mut g = Gen::new(15);
    for _ in 0..CASES {
        let (a, b) = (g.chsv(), g.chsv());
        for amount in [0u8, 255] {
            let f = color8::blend_hsv(a, b, amount, GradientDirection::Forward);
            let bw = color8::blend_hsv(a, b, amount, GradientDirection::Backward);
            assert_eq!(f, bw, "amount {}", amount);
        }
    }
}

#[test]
fn fade_using_color_never_brightens() {
    let mut g = Gen::new(16);
    for _ in 0..CASES {
        let (leds, mask) = (g.crgbs(64), g.crgb());
        let mut faded = leds.clone();
        color8::fade_using_color(&mut faded, mask);
        for (before, after) in leds.iter().zip(faded.iter()) {
            assert!(after.r <= before.r && after.g <= before.g && after.b <= before.b);
        }
    }
}

#[test]
fn fade_using_color_with_white_mask_is_the_identity() {
    let mut g = Gen::new(17);
    for _ in 0..CASES {
        let leds = g.crgbs(64);
        let mut faded = leds.clone();
        color8::fade_using_color(&mut faded, Crgb::new(255, 255, 255));
        assert_eq!(faded, leds);
    }
}

// ---------------------------------------------------------------------------
// Algebraic facts about the pixel operators
// ---------------------------------------------------------------------------

#[test]
fn add_saturates_and_never_decreases_a_channel() {
    let mut g = Gen::new(18);
    for _ in 0..CASES {
        let (a, b) = (g.crgb(), g.crgb());
        let r = a + b;
        assert!(r.r >= a.r && r.g >= a.g && r.b >= a.b);
        assert_eq!(r.r, a.r.saturating_add(b.r));
        assert_eq!(r.g, a.g.saturating_add(b.g));
        assert_eq!(r.b, a.b.saturating_add(b.b));
    }
}

#[test]
fn sub_saturates_and_never_increases_a_channel() {
    let mut g = Gen::new(19);
    for _ in 0..CASES {
        let (a, b) = (g.crgb(), g.crgb());
        let r = a - b;
        assert!(r.r <= a.r && r.g <= a.g && r.b <= a.b);
        assert_eq!(r.r, a.r.saturating_sub(b.r));
        assert_eq!(r.g, a.g.saturating_sub(b.g));
        assert_eq!(r.b, a.b.saturating_sub(b.b));
    }
}

#[test]
fn bitand_and_bitor_bracket_their_inputs() {
    let mut g = Gen::new(20);
    for _ in 0..CASES {
        let (a, b) = (g.crgb(), g.crgb());
        let lo = a & b;
        let hi = a | b;
        assert_eq!(lo.r, a.r.min(b.r));
        assert_eq!(hi.r, a.r.max(b.r));
        assert!(lo.r <= hi.r && lo.g <= hi.g && lo.b <= hi.b);
    }
}

#[test]
fn neg_is_its_own_inverse() {
    let mut g = Gen::new(21);
    for _ in 0..CASES {
        let a = g.crgb();
        assert_eq!(-(-a), a);
    }
}

#[test]
fn nscale8_by_255_is_the_identity() {
    let mut g = Gen::new(22);
    for _ in 0..CASES {
        let a = g.crgb();
        let mut scaled = a;
        scaled.nscale8(255);
        assert_eq!(scaled, a);
    }
}

#[test]
fn nscale8_by_zero_is_black() {
    let mut g = Gen::new(23);
    for _ in 0..CASES {
        let mut scaled = g.crgb();
        scaled.nscale8(0);
        assert!(scaled.is_black());
    }
}

#[test]
fn nscale8_video_keeps_lit_channels_lit() {
    let mut g = Gen::new(24);
    for _ in 0..CASES {
        let a = g.crgb();
        let scale = g.range(1, 256) as u8;
        let mut scaled = a;
        scaled.nscale8_video(scale);
        assert_eq!(scaled.r == 0, a.r == 0);
        assert_eq!(scaled.g == 0, a.g == 0);
        assert_eq!(scaled.b == 0, a.b == 0);
    }
}

#[test]
fn nscale8_never_brightens() {
    let mut g = Gen::new(25);
    for _ in 0..CASES {
        let (a, scale) = (g.crgb(), g.byte());
        let mut scaled = a;
        scaled.nscale8(scale);
        assert!(scaled.r <= a.r && scaled.g <= a.g && scaled.b <= a.b);
    }
}

#[test]
fn fade_to_black_by_255_reaches_black() {
    let mut g = Gen::new(26);
    for _ in 0..CASES {
        let mut faded = g.crgb();
        faded.fade_to_black_by(255);
        assert!(faded.is_black());
    }
}

#[test]
fn hsv_with_zero_value_renders_black() {
    for hue in 0..=255u8 {
        for sat in 0..=255u8 {
            assert!(hsv2rgb_rainbow(Chsv::new(hue, sat, 0)).is_black());
        }
    }
}

#[test]
fn hsv_with_zero_saturation_renders_gray() {
    for hue in 0..=255u8 {
        for val in 0..=255u8 {
            let c = hsv2rgb_rainbow(Chsv::new(hue, 0, val));
            assert_eq!(c.r, c.g);
            assert_eq!(c.g, c.b);
        }
    }
}

#[test]
fn rgb2hsv_reports_gray_as_unsaturated() {
    for v in 0..=255u8 {
        let hsv = rgb2hsv_approximate(Crgb::new(v, v, v));
        assert_eq!(hsv.sat, 0, "gray {} reported saturation {}", v, hsv.sat);
    }
}
