//! Verified core of a Buddhabrot renderer.
//!
//! The library holds the integer logic of the pipeline: the escape-scan
//! decision machine, the density accumulator, the exact tone mapper, and
//! the raster buffer with its byte-level file image. Floating-point
//! iteration of the Mandelbrot recurrence, random sampling, threads and
//! file output live outside it and drive these pieces with plain values.

pub mod density;
pub mod ppm;
pub mod scan;
pub mod tone;
