//! The decisions behind the UI's commands: which mode a manual capture uses,
//! how a detection is looked up, and when a meeting's audio may be processed.

use vstd::prelude::*;

use crate::engine::detection::{ids_of, key_listed, DetectedSet};
use crate::error::{error_message, AppError};
use crate::models::{DetectedMeeting, Meeting};
use crate::state::{index_of, MeetingStore};

verus! {

/// Shown when an audio action is asked for a meeting whose audio is missing.
pub const AUDIO_UNAVAILABLE: &'static str = "Audio isn't available for this meeting, so it can't be enhanced or cleaned yet.";

/// The detection a "capture this meeting" request names, or an error saying
/// that no such detection is listed.
pub fn find_detection(set: &DetectedSet, id: &String) -> (r: Result<DetectedMeeting, AppError>)
    ensures
        r is Ok <==> key_listed(ids_of(set.entries()), id@),
        r matches Ok(d) ==> d.id@ == id@ && set.entries().contains(d),
        r matches Err(e) ==> (e matches AppError::Other(t) && t@ == "detection not found: "@ + id@),
{
    match set.get(id) {
        Some(d) => Ok(d),
        None => Err(AppError::Other(String::from_str("detection not found: ").concat(id.as_str()))),
    }
}

/// The stored meeting an audio action names, or `MeetingNotFound`.
pub fn meeting_for_audio<'a>(store: &'a MeetingStore, id: &str) -> (r: Result<&'a Meeting, AppError>)
    ensures
        match index_of(store.entries(), id@) {
            Some(i) => r matches Ok(m) && *m == store.entries()[i],
            None => r matches Err(e) && e is MeetingNotFound && error_message(e) == "meeting not found: "@ + id@,
        },
{
    match store.get(id) {
        Some(m) => Ok(m),
        None => Err(AppError::MeetingNotFound(String::from_str(id))),
    }
}

/// The audio file of `m` if it can be processed: the meeting records a path
/// and `on_disk` says that file exists. Otherwise the "audio unavailable"
/// error.
pub fn available_audio(m: &Meeting, on_disk: bool) -> (r: Result<String, AppError>)
    ensures
        match m.audio_path {
            Some(p) if on_disk => r matches Ok(q) && q@ == p@,
            _ => r matches Err(e) && e matches AppError::Other(t) && t@ == AUDIO_UNAVAILABLE@,
        },
{
    match &m.audio_path {
        Some(p) => {
            if on_disk {
                Ok(p.clone())
            } else {
                Err(AppError::Other(String::from_str(AUDIO_UNAVAILABLE)))
            }
        },
        None => Err(AppError::Other(String::from_str(AUDIO_UNAVAILABLE))),
    }
}

/// What "stop capture" answers: the finished meeting, nothing when no
/// recording was running, or the error.
pub fn stop_outcome(r: Result<Meeting, AppError>) -> (o: Result<Option<Meeting>, AppError>)
    ensures
        match r {
            Ok(m) => o == Ok::<Option<Meeting>, AppError>(Some(m)),
            Err(AppError::NotRecording) => o == Ok::<Option<Meeting>, AppError>(None),
            Err(e) => o == Err::<Option<Meeting>, AppError>(e),
        },
{
    match r {
        Ok(m) => Ok(Some(m)),
        Err(AppError::NotRecording) => Ok(None),
        Err(e) => Err(e),
    }
}

/// The answer to a "send a bot to this call" request.
pub struct Ack {
    pub ok: bool,
}

/// Accept a request to send a meeting bot to `url`; dispatching the bot is
/// left to the host, so the request is always acknowledged.
pub fn send_bot(url: Option<String>) -> (a: Ack)
    ensures
        a.ok,
{
    let _ = url;
    Ack { ok: true }
}

} // verus!
