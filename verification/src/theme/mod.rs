//! Theme support: configuration defaults, colour schemes and the
//! optionally-owning reference used by theme trait objects.

pub mod colors;
pub mod config;
pub mod dst;
pub mod anim;
