//! `color8`: fast 8-bit color primitives.
//!
//! The `Crgb`/`Chsv` pixel types with their arithmetic and scaling
//! operators, the HSV/RGB conversions, fills, gradients, blends and
//! palettes of FastLED's `colorutils` (3.6.0 arithmetic), each with a
//! contract that states its result exactly. All arithmetic has defined
//! overflow behavior: saturating, wrapping or truncating as FastLED's C.

pub mod blend;
pub mod fill;
pub mod gradient_palette;
pub mod heat;
pub mod hsv;
pub mod laws;
pub mod math8;
pub mod palette;
pub mod rgb;

pub use blend::{
    blend, blend_hsv, blend_hsv_slice, blend_slice, nblend, nblend_hsv, nblend_hsv_slice,
    nblend_slice,
};
pub use fill::{
    FromHsv, GradientDirection, fade_light_by, fade_raw, fade_to_black_by, fade_using_color,
    fade_video, fill_gradient, fill_gradient_range, fill_gradient_rgb, fill_gradient_rgb_range,
    fill_gradient_rgb3, fill_gradient_rgb4, fill_gradient3, fill_gradient4, fill_rainbow,
    fill_rainbow_circular, fill_solid, nscale8, nscale8_raw, nscale8_video,
};
pub use gradient_palette::{
    crgb_palette16_from_gradient, crgb_palette256_from_gradient, crgb_palette32_from_gradient,
};
pub use heat::heat_color;
pub use hsv::{Chsv, HsvHue, hsv2rgb_rainbow, hsv2rgb_spectrum, rgb2hsv_approximate};
pub use palette::{
    ChsvPalette16, ChsvPalette32, ChsvPalette256, ColorBlend, CrgbPalette16, CrgbPalette32,
    CrgbPalette256, color_from_palette16, color_from_palette16_hsv, color_from_palette32,
    color_from_palette32_hsv, color_from_palette256, color_from_palette256_hsv,
};
pub use rgb::Crgb;
