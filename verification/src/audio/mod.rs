//! Transcoding and signal conditioning.

pub mod converter;
pub mod frame;
pub mod processor;
pub mod sample;
pub mod session;
pub mod sink;
pub mod source;
pub mod wav;
