//! Render an already parsed and scaled recipe as styled, wrapped text.

pub mod dedup;
pub mod document;
pub mod header;
pub mod metadata;
pub mod model;
pub mod render;
pub mod step;
pub mod style;
pub mod tables;
pub mod text;
pub mod wrap;

pub use render::print_human;
