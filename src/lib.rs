//! Batch cropping of image files: decimal coordinates read from the command
//! line, the argument groups that give a crop's extent, the pixel rectangle
//! on a decoded image, the choice of files in a directory, and the lines
//! reported for each file.

pub mod coord;
pub mod rect;
pub mod request;
pub mod batch;
pub mod raster;
