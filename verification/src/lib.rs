//! Envelope reduction and rendering for PCM waveform images.
//!
//! The library turns a decoded sequence of signed integer samples into an
//! ordered sequence of per-pixel-column envelope entries (a minimum, a
//! maximum, and the data for a root-mean-square magnitude per bucket of
//! consecutive samples), and turns such a sequence into pixel-drawing
//! commands for a fixed-size raster canvas. Decoding, file output and the
//! floating-point root-mean-square fold stay with the caller.

pub mod naming;
pub mod overview;
pub mod render;
pub mod window;
