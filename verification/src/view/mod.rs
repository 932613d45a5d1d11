//! View controllers and shared data: clerks, filters, list and grid
//! position arithmetic and selection.

pub mod clerk;
pub mod filter;
pub mod selection;
pub mod index;
pub mod list;
pub mod grid;
