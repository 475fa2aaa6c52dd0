# color8

Fast 8-bit color primitives in the style of FastLED's `colorutils`, with
every operation specified and proved in Verus.

- `src/math8.rs`: the `lib8tion` byte primitives the library calls
  (saturating arithmetic, fixed-point scaling, full-range blend, integer
  square root), each behind a small wrapper whose contract states its
  result as a formula.
- `src/rgb.rs`: `Crgb` and its operators (`+ - * / >> & | % -`, in-place
  forms, scaling and fading).
- `src/hsv.rs`: `Chsv`, `HsvHue`, the rainbow and spectrum HSV-to-RGB
  conversions and the approximate RGB-to-HSV inverse.
- `src/heat.rs`: the black-red-yellow-white heat ramp.
- `src/fill.rs`: solid, rainbow and gradient fills, strip fades and scales.
- `src/blend.rs`: RGB and HSV blends, single pixels and slices.
- `src/palette.rs`: 16/32/256-entry palettes and `ColorFromPalette`.
- `src/gradient_palette.rs`: parsing gradient-palette byte streams.
- `src/laws.rs`: properties proved over all inputs (operator algebra,
  scaling bounds, blend endpoints, gradient shape, palette facts).

`tests/differential.rs` compares the library bit for bit against a model
of FastLED 3.6.0's C arithmetic; `tests/properties.rs` and
`tests/scenarios.rs` check invariants and exact values.
