//! A string-art plan generator: lays out anchor pins along a frame
//! boundary, turns a source image into an intensity grid, and greedily
//! selects an ordered sequence of threads whose overlaid darkness
//! approximates the image.

pub mod errors;
pub mod grid;
pub mod pins;
pub mod planner;
pub mod session;
pub mod viewport;

pub use errors::ArtError;
pub use grid::IntensityGrid;
pub use pins::{Pin, Shape};
pub use session::ArtSession;
pub use viewport::ViewParams;
