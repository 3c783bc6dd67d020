//! Meetings, their transcripts, summaries, participants and timelines.

use vstd::prelude::*;

use crate::ids::{now_millis, prefixed_id};

verus! {

/// Meeting platforms the detector recognises.
#[derive(Debug, Clone, Copy, PartialEq, Eq, Hash, Structural)]
pub enum MeetingPlatform {
    GoogleMeet,
    Zoom,
    Teams,
    Discord,
    Slack,
    Webex,
    Unknown,
}

/// Display name of a platform.
pub open spec fn platform_label(p: MeetingPlatform) -> Seq<char> {
    match p {
        MeetingPlatform::GoogleMeet => "Google Meet"@,
        MeetingPlatform::Zoom => "Zoom"@,
        MeetingPlatform::Teams => "Microsoft Teams"@,
        MeetingPlatform::Discord => "Discord"@,
        MeetingPlatform::Slack => "Slack Huddle"@,
        MeetingPlatform::Webex => "Webex"@,
        MeetingPlatform::Unknown => "Recording"@,
    }
}

impl MeetingPlatform {
    /// Human-readable name of the platform.
    pub fn label(&self) -> (r: &'static str)
        ensures
            r@ == platform_label(*self),
    {
        match self {
            MeetingPlatform::GoogleMeet => "Google Meet",
            MeetingPlatform::Zoom => "Zoom",
            MeetingPlatform::Teams => "Microsoft Teams",
            MeetingPlatform::Discord => "Discord",
            MeetingPlatform::Slack => "Slack Huddle",
            MeetingPlatform::Webex => "Webex",
            MeetingPlatform::Unknown => "Recording",
        }
    }
}

/// What the note taker is set to do.
#[derive(Debug, Clone, Copy, PartialEq, Eq, Structural)]
pub enum CaptureMode {
    Off,
    Transcribe,
    Record,
    RecordVideo,
}

impl CaptureMode {
    /// Whether this mode keeps the audio on disk.
    pub open spec fn keeps_audio(self) -> bool {
        self == CaptureMode::Record || self == CaptureMode::RecordVideo
    }

    /// Whether this mode persists audio to disk.
    pub fn saves_audio(&self) -> (b: bool)
        ensures
            b == self.keeps_audio(),
    {
        matches!(self, CaptureMode::Record | CaptureMode::RecordVideo)
    }

    /// Whether this mode captures screen video.
    pub fn saves_video(&self) -> (b: bool)
        ensures
            b == (*self == CaptureMode::RecordVideo),
    {
        matches!(self, CaptureMode::RecordVideo)
    }

    /// Whether this mode produces a transcript.
    pub fn transcribes(&self) -> (b: bool)
        ensures
            b == (*self != CaptureMode::Off),
    {
        !matches!(self, CaptureMode::Off)
    }
}

/// Lifecycle of a meeting record.
#[derive(Debug, Clone, Copy, PartialEq, Eq, Structural)]
pub enum MeetingStatus {
    Live,
    Processing,
    Ready,
    Failed,
}

/// One line of a transcript. `confidence_bits` is the IEEE-754 bit pattern of
/// the provider's `f32` confidence score; the library only carries it.
#[derive(Clone, Debug)]
pub struct TranscriptSegment {
    pub id: String,
    pub speaker: String,
    pub text: String,
    pub start_ms: u64,
    pub end_ms: u64,
    pub confidence_bits: Option<u32>,
}

/// A follow-up item extracted from a meeting.
#[derive(Clone, Debug)]
pub struct ActionItem {
    pub id: String,
    pub text: String,
    pub done: bool,
    pub assignee: Option<String>,
    pub due_date: Option<String>,
}

/// The summary of a meeting; `generated_at_ms` is milliseconds since the epoch.
#[derive(Clone, Debug)]
pub struct MeetingSummary {
    pub tldr: String,
    pub key_points: Vec<String>,
    pub decisions: Vec<String>,
    pub generated_at_ms: i64,
    pub model: String,
}

/// A participant; `talk_ratio_bits` is the bit pattern of an `f32` share of
/// talk time in `[0, 1]`, when known.
#[derive(Clone, Debug)]
pub struct Participant {
    pub id: String,
    pub name: String,
    pub talk_ratio_bits: Option<u32>,
}

/// The bit pattern of the `f32` value `1.0`: a participant who did all the talking.
pub const FULL_TALK_RATIO_BITS: u32 = 0x3f80_0000;

/// Kinds of timeline markers.
#[derive(Debug, Clone, Copy, PartialEq, Eq, Structural)]
pub enum TimelineKind {
    Chapter,
    Highlight,
    Action,
    Join,
    Leave,
}

/// A labelled point in a meeting's timeline.
#[derive(Clone, Debug)]
pub struct TimelineMarker {
    pub id: String,
    pub label: String,
    pub at_ms: u64,
    pub kind: TimelineKind,
}

/// A meeting record. Times are milliseconds since the Unix epoch (UTC).
#[derive(Clone, Debug)]
pub struct Meeting {
    pub id: String,
    pub title: String,
    pub platform: MeetingPlatform,
    pub mode: CaptureMode,
    pub status: MeetingStatus,
    pub started_at_ms: i64,
    pub ended_at_ms: Option<i64>,
    pub duration_sec: u64,
    pub has_audio: bool,
    pub has_video: bool,
    pub is_locked: bool,
    pub is_starred: bool,
    pub is_bookmarked: bool,
    pub tags: Vec<String>,
    pub participants: Vec<Participant>,
    pub timeline: Vec<TimelineMarker>,
    pub transcript: Vec<TranscriptSegment>,
    pub summary: Option<MeetingSummary>,
    pub action_items: Vec<ActionItem>,
    pub audio_path: Option<String>,
    pub video_path: Option<String>,
}

/// `id` is `prefix` followed by a fresh simple UUID.
pub open spec fn is_fresh_id(id: Seq<char>, prefix: Seq<char>) -> bool {
    &&& id.len() == prefix.len() + 32
    &&& id.subrange(0, prefix.len() as int) == prefix
    &&& crate::ids::is_simple_uuid(id.subrange(prefix.len() as int, id.len() as int))
}

impl Meeting {
    /// A fresh live meeting for a new capture session: a `mtg_` id, the "You"
    /// participant with the whole talk share, and a "Recording started" marker.
    pub fn new_live(title: String, platform: MeetingPlatform, mode: CaptureMode) -> (m: Meeting)
        ensures
            is_fresh_id(m.id@, "mtg_"@),
            m.title@ == title@,
            m.platform == platform,
            m.mode == mode,
            m.status == MeetingStatus::Live,
            m.started_at_ms >= 0,
            m.ended_at_ms is None,
            m.duration_sec == 0,
            m.has_audio == mode.keeps_audio(),
            m.has_video == (mode == CaptureMode::RecordVideo),
            !m.is_locked && !m.is_starred && !m.is_bookmarked,
            m.tags@.len() == 0,
            m.participants@.len() == 1,
            is_fresh_id(m.participants@[0].id@, "p_"@),
            m.participants@[0].name@ == "You"@,
            m.participants@[0].talk_ratio_bits == Some(FULL_TALK_RATIO_BITS),
            m.timeline@.len() == 1,
            is_fresh_id(m.timeline@[0].id@, "t_"@),
            m.timeline@[0].label@ == "Recording started"@,
            m.timeline@[0].at_ms == 0,
            m.timeline@[0].kind == TimelineKind::Join,
            m.transcript@.len() == 0,
            m.summary is None,
            m.action_items@.len() == 0,
            m.audio_path is None,
            m.video_path is None,
    {
        let now = now_millis();
        let id = prefixed_id("mtg_");
        let you = Participant {
            id: prefixed_id("p_"),
            name: String::from_str("You"),
            talk_ratio_bits: Some(FULL_TALK_RATIO_BITS),
        };
        let start = TimelineMarker {
            id: prefixed_id("t_"),
            label: String::from_str("Recording started"),
            at_ms: 0,
            kind: TimelineKind::Join,
        };
        let mut participants: Vec<Participant> = Vec::new();
        participants.push(you);
        let mut timeline: Vec<TimelineMarker> = Vec::new();
        timeline.push(start);
        Meeting {
            id,
            title,
            platform,
            mode,
            status: MeetingStatus::Live,
            started_at_ms: now,
            ended_at_ms: None,
            duration_sec: 0,
            has_audio: mode.saves_audio(),
            has_video: mode.saves_video(),
            is_locked: false,
            is_starred: false,
            is_bookmarked: false,
            tags: Vec::new(),
            participants,
            timeline,
            transcript: Vec::new(),
            summary: None,
            action_items: Vec::new(),
            audio_path: None,
            video_path: None,
        }
    }
}

} // verus!
