//! Recorder lifecycle, audio-engine health and detected meetings.

use vstd::prelude::*;

use super::meeting::{CaptureMode, MeetingPlatform};

verus! {

/// Lifecycle of the recorder subsystem.
#[derive(Debug, Clone, Copy, PartialEq, Eq, Structural)]
pub enum RecorderState {
    Idle,
    Armed,
    Detecting,
    Recording,
    Processing,
    Error,
}

/// The recorder status shown in the UI. Audio levels are kept as the bit
/// patterns of their `f32` values.
#[derive(Clone, Debug)]
pub struct RecorderStatus {
    pub state: RecorderState,
    pub mode: CaptureMode,
    pub active_meeting_id: Option<String>,
    pub elapsed_sec: u64,
    pub mic_level_bits: u32,
    pub system_level_bits: u32,
    pub message: Option<String>,
}

impl Default for RecorderStatus {
    /// Idle, capture off, nothing active, silent levels (0.0), no message.
    fn default() -> (r: Self)
        ensures
            r.state == RecorderState::Idle,
            r.mode == CaptureMode::Off,
            r.active_meeting_id is None,
            r.elapsed_sec == 0,
            r.mic_level_bits == 0 && r.system_level_bits == 0,
            r.message is None,
    {
        RecorderStatus {
            state: RecorderState::Idle,
            mode: CaptureMode::Off,
            active_meeting_id: None,
            elapsed_sec: 0,
            mic_level_bits: 0,
            system_level_bits: 0,
            message: None,
        }
    }
}

/// Result of probing the shared-mode audio engine.
#[derive(Clone, Debug)]
pub struct AudioHealth {
    /// False on platforms where the shared-mode issue cannot occur.
    pub supported: bool,
    /// Shared-mode initialization succeeds.
    pub shared_ok: bool,
    /// Exclusive-mode capture works.
    pub exclusive_ok: bool,
    /// Shared mode is impaired: recommend the repair.
    pub needs_repair: bool,
    /// One-line summary for the UI.
    pub detail: String,
}

impl Default for AudioHealth {
    fn default() -> (r: Self)
        ensures
            !r.supported && !r.shared_ok && !r.exclusive_ok && !r.needs_repair,
            r.detail@ == Seq::<char>::empty(),
    {
        AudioHealth {
            supported: false,
            shared_ok: false,
            exclusive_ok: false,
            needs_repair: false,
            detail: String::new(),
        }
    }
}

/// A meeting the detector currently believes is in progress.
/// `detected_at_ms` is milliseconds since the epoch.
#[derive(Clone, Debug)]
pub struct DetectedMeeting {
    pub id: String,
    pub platform: MeetingPlatform,
    pub title: String,
    pub process_name: String,
    pub detected_at_ms: i64,
    pub capturing: bool,
}

} // verus!
