//! Theme configuration: defaults and font raster settings.

use vstd::prelude::*;

verus! {

/// Default text cursor blink rate (delay between switching states), in ms
pub fn cursor_blink_rate_ms() -> (r: u32)
    ensures
        r == 600,
{
    600
}

/// Default scale multiplier for fixed-precision glyph rastering
pub fn scale_steps() -> (r: u8)
    ensures
        r == 4,
{
    4
}

/// Default sub-pixel positioning threshold (text height in pixels)
pub fn subpixel_threshold() -> (r: u8)
    ensures
        r == 0,
{
    0
}

/// Default number of sub-pixel positioning steps
pub fn subpixel_steps() -> (r: u8)
    ensures
        r == 5,
{
    5
}

/// Font raster settings
///
/// These are not used by the theme, but passed through to the rendering
/// backend.
#[derive(Clone, Copy, Debug, PartialEq, Eq, Structural)]
pub struct RasterConfig {
    /// Raster mode/engine (backend dependent)
    pub mode: u8,
    /// Scale multiplier for fixed-precision: an integer `n >= 1`, where
    /// `n * h < (1 << 24)` for text height `h` in pixels
    pub scale_steps: u8,
    /// Text with height less than this threshold uses sub-pixel positioning
    pub subpixel_threshold: u8,
    /// Number of sub-pixel positioning steps (1 to 16; 1 means none)
    pub subpixel_steps: u8,
}

impl Default for RasterConfig {
    fn default() -> (r: Self)
        ensures
            r == (RasterConfig { mode: 0, scale_steps: 4, subpixel_threshold: 0, subpixel_steps: 5 }),
    {
        RasterConfig {
            mode: 0,
            scale_steps: scale_steps(),
            subpixel_threshold: subpixel_threshold(),
            subpixel_steps: subpixel_steps(),
        }
    }
}

} // verus!
