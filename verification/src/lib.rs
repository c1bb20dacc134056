pub mod bodypix;
pub mod error;
pub mod grid;
pub mod image_utils;
pub mod probability;
pub mod raster;
