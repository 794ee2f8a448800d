//! Voice-input audio engine: decoded frames are turned into 16-bit PCM, gathered
//! by a transcode session and written out as a WAVE container; a small
//! conditioning pipeline (noise gate, band-pass, normalisation, resampling)
//! works on single-precision samples held as bit patterns.

pub mod api;
pub mod audio;
pub mod config;
pub mod error;
pub mod metrics;
