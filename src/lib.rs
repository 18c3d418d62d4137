//! Automatic exploration of the Mandelbrot set: escape-time solving on a
//! pixel grid, boundary-complexity scoring of a coarse grid, the zoom
//! decisions that follow from it, command-line value extraction, and the
//! framing of the final image.

pub mod coord;
pub mod mandelbrot;
pub mod options;
pub mod output;
