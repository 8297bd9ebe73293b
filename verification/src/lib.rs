//! Energy maps of raster images: for every pixel a measure of how much
//! the image varies around it, taken from finite differences along the
//! rows and the columns, scaled against the largest energy of the image
//! and written as bytes.

pub mod config;
pub mod energy;
pub mod field;
pub mod laws;
pub mod normalize;
pub mod process;
pub mod raster;
pub mod rgb;
