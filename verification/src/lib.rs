//! Convolution filters for 8-bit RGB images: box blur and sharpen kernels,
//! and the engine that applies a kernel to an image with edge-replicated
//! sampling, one channel at a time, its rows computed in parallel.

pub mod convolve;
pub mod kernel;
pub mod laws;
pub mod raster;
pub mod request;
pub mod rounding;
