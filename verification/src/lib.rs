//! Directory-tree listing: which entries of a tree are shown, in what order, and how each
//! line is drawn. The library decides; reading directories and printing is left to the caller.

pub mod args;
pub mod glyph;
pub mod listing;
pub mod reach;
pub mod render;
pub mod style;
pub mod tree;
