//! Digital-signal-processing core of a real-time wah-wah audio effect.
//!
//! All amplitudes, frequencies and filter coefficients are fixed-point
//! integers scaled by [`fixed::UNIT`]; the host adapter converts to and
//! from floating point at the boundary.

pub mod convolve;
pub mod envelope;
pub mod errors;
pub mod filter;
pub mod fixed;
pub mod lfo;
pub mod process;
pub mod ring_buffer;
