//! Meeting-assistant core: the decision logic, text handling and data model
//! behind meeting detection, recording bookkeeping, transcripts and summaries.

pub mod audio;
pub mod commands;
pub mod dotenv;
pub mod engine;
pub mod error;
pub mod ids;
pub mod platform;
pub mod models;
pub mod recorder;
pub mod seed;
pub mod state;
pub mod text;
pub mod tray;
