//! Audio capture bookkeeping and voice activity detection.

pub mod capture;
pub mod vad;

pub use capture::AudioData;
