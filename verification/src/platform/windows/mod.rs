//! Windows detection rules and audio-engine repair helpers.

pub mod audio_repair;
pub mod detect;
