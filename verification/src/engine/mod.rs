//! Detection, recording bookkeeping, the recording library, transcription,
//! summarization and the cloud-result handling.

pub mod detection;
pub mod recorder;
pub mod library;
pub mod ai;
pub mod transcription;
pub mod cloud;
