//! A block-streaming DSP pipeline: samples pulled from a decoded source are
//! gathered into fixed-size blocks, run through a pluggable transformation
//! under live parameter values, and re-exposed as a sample sequence, while a
//! driver-side meter estimates the transformation's share of the real-time
//! budget.
//!
//! Parameter values are fixed-point: a numeric parameter stores thousandths
//! of the intended value, so a gain of one is stored as `1000`.

pub mod audio_app;
pub mod audio_app_manager;
pub mod dsp;
pub mod dsp_module;
pub mod gain_control;
