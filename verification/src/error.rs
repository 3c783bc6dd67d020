//! Application-wide error type.

use vstd::prelude::*;

verus! {

/// Errors returned by command handlers; the UI shows `message()`.
#[derive(Clone, Debug)]
pub enum AppError {
    MeetingNotFound(String),
    AlreadyRecording,
    NotRecording,
    Audio(String),
    Transcription(String),
    /// An I/O failure, with the operating system's description.
    Io(String),
    Other(String),
}

/// The text shown for an error.
pub open spec fn error_message(e: AppError) -> Seq<char> {
    match e {
        AppError::MeetingNotFound(id) => "meeting not found: "@ + id@,
        AppError::AlreadyRecording => "a recording is already in progress"@,
        AppError::NotRecording => "no active recording to stop"@,
        AppError::Audio(m) => "audio device error: "@ + m@,
        AppError::Transcription(m) => "transcription error: "@ + m@,
        AppError::Io(m) => "io error: "@ + m@,
        AppError::Other(m) => m@,
    }
}

impl AppError {
    /// The human-readable message of this error.
    pub fn message(&self) -> (r: String)
        ensures
            r@ == error_message(*self),
    {
        match self {
            AppError::MeetingNotFound(id) => String::from_str("meeting not found: ").concat(id.as_str()),
            AppError::AlreadyRecording => String::from_str("a recording is already in progress"),
            AppError::NotRecording => String::from_str("no active recording to stop"),
            AppError::Audio(m) => String::from_str("audio device error: ").concat(m.as_str()),
            AppError::Transcription(m) => String::from_str("transcription error: ").concat(m.as_str()),
            AppError::Io(m) => String::from_str("io error: ").concat(m.as_str()),
            AppError::Other(m) => m.clone(),
        }
    }
}

/// A plain message becomes an `Other` error.
impl From<String> for AppError {
    fn from(e: String) -> (r: Self) {
        AppError::Other(e)
    }
}

impl vstd::std_specs::convert::FromSpecImpl<String> for AppError {
    open spec fn obeys_from_spec() -> bool {
        true
    }

    open spec fn from_spec(v: String) -> Self {
        AppError::Other(v)
    }
}

} // verus!
