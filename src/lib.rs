//! Temporally stable Floyd-Steinberg dithering against a fixed palette.
//!
//! `frame` checks the shape of the input buffers, `noise` is the reproducible
//! generator that jitters each quantized pixel, `kernel` holds the per-pixel integer
//! rules (edge gradient, quantization error, error spread, nearest-key choice) and
//! `scan` is the row-major pass that writes the output, keeps transparent pixels
//! clear, copies frozen pixels from the previous frame and hands out noise in a fixed
//! order.

pub mod frame;
pub mod kernel;
pub mod noise;
pub mod scan;
