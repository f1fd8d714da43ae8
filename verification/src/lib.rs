//! A real-time audio sample-processing engine: a stable-identifier registry,
//! a sample codec between the engine's normalized amplitude domain and the
//! supported buffer encodings, an ordered filter chain applied frame by frame,
//! and a frequency-bin selector for frequency-selective effects.
//!
//! Amplitudes are held in a fixed-point domain: `sample::SAMPLE_UNIT` units
//! stand for a full-scale amplitude of one. The floating-point edge of the
//! surrounding application converts to and from this domain before calling in.

pub mod buffer;
pub mod downloader;
pub mod filter;
pub mod freq;
pub mod pa_ctl;
pub mod pulseauto;
pub mod sample;
pub mod utils;
