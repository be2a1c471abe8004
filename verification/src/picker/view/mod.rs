//! What the picker shows.

pub mod overlays;
pub mod panels;
pub mod rows;
pub mod text;
pub mod theme;
