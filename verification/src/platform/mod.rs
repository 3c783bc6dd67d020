//! Meeting detection: classifying window titles against running processes.

pub mod detect;
pub mod macos;
pub mod windows;
