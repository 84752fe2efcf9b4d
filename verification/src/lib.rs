//! Color pallets: hex codes, terminal swatches and the layout of a swatch grid.

pub mod color;
pub mod grid;
pub mod hex;
pub mod present;
pub mod swatch;
