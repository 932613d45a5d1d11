//! The software renderer: texture atlases for images and glyphs, pixel
//! formats and blending.

pub mod atlas;
pub mod blend;
pub mod window;
pub mod shared;
pub mod draw;
