//! Code generation behind the toolkit's procedural macros.
//!
//! Macro input arrives as a flat sequence of tokens ([`tokens::Tok`]); the
//! generated items are Rust source text, which the macro front end turns
//! back into a token stream.

pub mod tokens;
pub mod delegate;
pub mod collection;
pub mod autoimpl;
pub mod scope;
pub mod derive;
pub mod widget;
pub mod singleton;
pub mod layout;
pub mod make_layout;
pub mod extends;
pub mod parse;
pub mod collection_parse;
pub mod layout_parse;
pub mod widget_emit;
pub mod parser;
