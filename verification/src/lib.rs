//! Verified core logic of the KAS GUI toolkit: view controllers (clerks,
//! filters, list and grid index arithmetic, selection), the software
//! renderer's texture atlases, blending and clip regions, the procedural
//! macros' parsers and code generators (layouts, collections, widget and
//! trait derivation), theme configuration and animation state.
#![allow(unused_imports)]

pub mod canvas;
pub mod geom;
pub mod macros;
pub mod soft;
pub mod theme;
pub mod view;

