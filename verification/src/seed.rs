//! Example meetings so the library is not empty on first launch.

use vstd::prelude::*;

use crate::ids::prefixed_id;
use crate::models::meeting::is_fresh_id;
use crate::models::{
    ActionItem, CaptureMode, Meeting, MeetingPlatform, MeetingStatus, MeetingSummary,
    Participant, TimelineKind, TimelineMarker, TranscriptSegment,
};

verus! {

/// Confidence of every example transcript line (0.95 as `f32` bits).
pub const SEED_CONFIDENCE_BITS: u32 = 0x3f73_3333;

pub const HOUR_MS: i64 = 3_600_000;
pub const MINUTE_MS: i64 = 60_000;
pub const DAY_MS: i64 = 86_400_000;

/// A transcript line of the example data.
pub open spec fn seed_line(
    s: TranscriptSegment,
    speaker: Seq<char>,
    text: Seq<char>,
    start_ms: u64,
    end_ms: u64,
) -> bool {
    &&& is_fresh_id(s.id@, "seg_"@)
    &&& s.speaker@ == speaker
    &&& s.text@ == text
    &&& s.start_ms == start_ms
    &&& s.end_ms == end_ms
    &&& s.confidence_bits == Some(SEED_CONFIDENCE_BITS)
}

/// A participant of the example data.
pub open spec fn seed_person(p: Participant, name: Seq<char>, ratio_bits: u32) -> bool {
    &&& is_fresh_id(p.id@, "p_"@)
    &&& p.name@ == name
    &&& p.talk_ratio_bits == Some(ratio_bits)
}

/// A timeline marker of the example data.
pub open spec fn seed_marker(t: TimelineMarker, label: Seq<char>, at_ms: u64, kind: TimelineKind) -> bool {
    &&& is_fresh_id(t.id@, "t_"@)
    &&& t.label@ == label
    &&& t.at_ms == at_ms
    &&& t.kind == kind
}

/// An open action item of the example data.
pub open spec fn seed_item(a: ActionItem, text: Seq<char>, who: Seq<char>) -> bool {
    &&& is_fresh_id(a.id@, "a_"@)
    &&& a.text@ == text
    &&& !a.done
    &&& a.assignee matches Some(w) && w@ == who
    &&& a.due_date is None
}

/// The roadmap example, four hours before `now_ms`.
pub open spec fn is_roadmap_example(m: Meeting, now_ms: int) -> bool {
    let started = now_ms - 4 * HOUR_MS;
    &&& m.id@ == "mtg_roadmap"@
    &&& m.title@ == "Q3 Product Roadmap Sync"@
    &&& m.platform == MeetingPlatform::GoogleMeet
    &&& m.mode == CaptureMode::Record
    &&& m.status == MeetingStatus::Ready
    &&& m.started_at_ms == started
    &&& m.ended_at_ms == Some((started + 42 * MINUTE_MS) as i64)
    &&& m.duration_sec == 42 * 60 + 18
    &&& m.has_audio && !m.has_video
    &&& !m.is_locked && m.is_starred && m.is_bookmarked
    &&& m.tags@.len() == 3
    &&& m.tags@[0]@ == "roadmap"@ && m.tags@[1]@ == "product"@ && m.tags@[2]@ == "q3"@
    &&& m.participants@.len() == 4
    &&& seed_person(m.participants@[0], "Alex Rivera"@, 0x3eae_147b)
    &&& seed_person(m.participants@[1], "Priya Nair"@, 0x3e8f_5c29)
    &&& seed_person(m.participants@[2], "Marcus Lee"@, 0x3e61_47ae)
    &&& seed_person(m.participants@[3], "Dana Whitfield"@, 0x3e23_d70a)
    &&& m.timeline@.len() == 2
    &&& seed_marker(m.timeline@[0], "Meeting started"@, 0, TimelineKind::Join)
    &&& seed_marker(m.timeline@[1], "Offline mode: commitment"@, 16_500, TimelineKind::Chapter)
    &&& m.summary matches Some(s) && {
        &&& s.tldr@ == "The team committed to shipping offline mode in Q3, sequenced behind a local sync layer, with a protected hardening window. Localization was deferred to Q4."@
        &&& s.key_points@.len() == 3
        &&& s.key_points@[0]@ == "Offline mode is a hard Q3 commitment"@
        &&& s.key_points@[1]@ == "Sync layer lands first (~3 weeks)"@
        &&& s.key_points@[2]@ == "Two-week hardening window is non-negotiable"@
        &&& s.decisions@.len() == 2
        &&& s.decisions@[0]@ == "Ship offline mode in Q3"@
        &&& s.decisions@[1]@ == "Defer localization to Q4"@
        &&& s.generated_at_ms == started + 43 * MINUTE_MS
        &&& s.model@ == "local · summarizer-v1"@
    }
    &&& m.action_items@.len() == 2
    &&& seed_item(m.action_items@[0], "Spike the local sync layer"@, "Marcus Lee"@)
    &&& seed_item(m.action_items@[1], "Circulate the Q3 roadmap doc"@, "Priya Nair"@)
    &&& m.transcript@.len() == 4
    &&& seed_line(m.transcript@[0], "Alex Rivera"@, "Thanks everyone — today is about locking the Q3 roadmap."@, 2_000, 10_000)
    &&& seed_line(m.transcript@[1], "Priya Nair"@, "Are we treating offline mode as a hard commitment?"@, 10_500, 16_000)
    &&& seed_line(m.transcript@[2], "Alex Rivera"@, "Hard commitment. It's the top churn reason for field teams."@, 16_500, 23_000)
    &&& seed_line(m.transcript@[3], "Marcus Lee"@, "I'll spike the local sync layer this week to ground the estimate."@, 23_500, 31_000)
    &&& m.audio_path is None && m.video_path is None
}

/// The short clip example, fourteen days before `now_ms`.
pub open spec fn is_clip_example(m: Meeting, now_ms: int) -> bool {
    let started = now_ms - 14 * DAY_MS;
    &&& m.id@ == "mtg_clip"@
    &&& m.title@ == "meeting-clip2"@
    &&& m.platform == MeetingPlatform::Unknown
    &&& m.mode == CaptureMode::Record
    &&& m.status == MeetingStatus::Ready
    &&& m.started_at_ms == started
    &&& m.ended_at_ms == Some((started + 20_000) as i64)
    &&& m.duration_sec == 20
    &&& m.has_audio && !m.has_video
    &&& m.is_locked && !m.is_starred && !m.is_bookmarked
    &&& m.tags@.len() == 0
    &&& m.participants@.len() == 1
    &&& seed_person(m.participants@[0], "You"@, 0x3f80_0000)
    &&& m.timeline@.len() == 1
    &&& seed_marker(m.timeline@[0], "Clip start"@, 0, TimelineKind::Join)
    &&& m.summary is None
    &&& m.action_items@.len() == 0
    &&& m.transcript@.len() == 1
    &&& seed_line(m.transcript@[0], "You"@, "Quick note — follow up on the vendor contract before Friday."@, 500, 8_000)
    &&& m.audio_path is None && m.video_path is None
}

/// The example meetings carry no media, so the library never writes them to
/// disk (only meetings with media are persisted).
pub proof fn lemma_examples_have_no_media(m: Meeting, now_ms: int)
    requires
        is_roadmap_example(m, now_ms) || is_clip_example(m, now_ms),
    ensures
        !(m.audio_path is Some || m.video_path is Some),
{
}

fn line(speaker: &str, text: &str, start_ms: u64, end_ms: u64) -> (s: TranscriptSegment)
    ensures
        seed_line(s, speaker@, text@, start_ms, end_ms),
{
    TranscriptSegment {
        id: prefixed_id("seg_"),
        speaker: String::from_str(speaker),
        text: String::from_str(text),
        start_ms,
        end_ms,
        confidence_bits: Some(SEED_CONFIDENCE_BITS),
    }
}

fn person(name: &str, ratio_bits: u32) -> (p: Participant)
    ensures
        seed_person(p, name@, ratio_bits),
{
    Participant { id: prefixed_id("p_"), name: String::from_str(name), talk_ratio_bits: Some(ratio_bits) }
}

fn marker(label: &str, at_ms: u64, kind: TimelineKind) -> (t: TimelineMarker)
    ensures
        seed_marker(t, label@, at_ms, kind),
{
    TimelineMarker { id: prefixed_id("t_"), label: String::from_str(label), at_ms, kind }
}

fn item(text: &str, who: &str) -> (a: ActionItem)
    ensures
        seed_item(a, text@, who@),
{
    ActionItem {
        id: prefixed_id("a_"),
        text: String::from_str(text),
        done: false,
        assignee: Some(String::from_str(who)),
        due_date: None,
    }
}

fn roadmap(now_ms: i64) -> (m: Meeting)
    requires
        i64::MIN + 14 * DAY_MS <= now_ms,
    ensures
        is_roadmap_example(m, now_ms as int),
{
    let started = now_ms - 4 * HOUR_MS;
    let mut transcript: Vec<TranscriptSegment> = Vec::new();
    transcript.push(line("Alex Rivera", "Thanks everyone — today is about locking the Q3 roadmap.", 2_000, 10_000));
    transcript.push(line("Priya Nair", "Are we treating offline mode as a hard commitment?", 10_500, 16_000));
    transcript.push(line("Alex Rivera", "Hard commitment. It's the top churn reason for field teams.", 16_500, 23_000));
    transcript.push(line("Marcus Lee", "I'll spike the local sync layer this week to ground the estimate.", 23_500, 31_000));
    let mut tags: Vec<String> = Vec::new();
    tags.push(String::from_str("roadmap"));
    tags.push(String::from_str("product"));
    tags.push(String::from_str("q3"));
    let mut participants: Vec<Participant> = Vec::new();
    participants.push(person("Alex Rivera", 0x3eae_147b));
    participants.push(person("Priya Nair", 0x3e8f_5c29));
    participants.push(person("Marcus Lee", 0x3e61_47ae));
    participants.push(person("Dana Whitfield", 0x3e23_d70a));
    let mut timeline: Vec<TimelineMarker> = Vec::new();
    timeline.push(marker("Meeting started", 0, TimelineKind::Join));
    timeline.push(marker("Offline mode: commitment", 16_500, TimelineKind::Chapter));
    let mut key_points: Vec<String> = Vec::new();
    key_points.push(String::from_str("Offline mode is a hard Q3 commitment"));
    key_points.push(String::from_str("Sync layer lands first (~3 weeks)"));
    key_points.push(String::from_str("Two-week hardening window is non-negotiable"));
    let mut decisions: Vec<String> = Vec::new();
    decisions.push(String::from_str("Ship offline mode in Q3"));
    decisions.push(String::from_str("Defer localization to Q4"));
    let summary = MeetingSummary {
        tldr: String::from_str("The team committed to shipping offline mode in Q3, sequenced behind a local sync layer, with a protected hardening window. Localization was deferred to Q4."),
        key_points,
        decisions,
        generated_at_ms: started + 43 * MINUTE_MS,
        model: String::from_str("local · summarizer-v1"),
    };
    let mut action_items: Vec<ActionItem> = Vec::new();
    action_items.push(item("Spike the local sync layer", "Marcus Lee"));
    action_items.push(item("Circulate the Q3 roadmap doc", "Priya Nair"));
    Meeting {
        id: String::from_str("mtg_roadmap"),
        title: String::from_str("Q3 Product Roadmap Sync"),
        platform: MeetingPlatform::GoogleMeet,
        mode: CaptureMode::Record,
        status: MeetingStatus::Ready,
        started_at_ms: started,
        ended_at_ms: Some(started + 42 * MINUTE_MS),
        duration_sec: 42 * 60 + 18,
        has_audio: true,
        has_video: false,
        is_locked: false,
        is_starred: true,
        is_bookmarked: true,
        tags,
        participants,
        timeline,
        transcript,
        summary: Some(summary),
        action_items,
        audio_path: None,
        video_path: None,
    }
}

fn clip(now_ms: i64) -> (m: Meeting)
    requires
        i64::MIN + 14 * DAY_MS <= now_ms,
    ensures
        is_clip_example(m, now_ms as int),
{
    let started = now_ms - 14 * DAY_MS;
    let mut participants: Vec<Participant> = Vec::new();
    participants.push(person("You", 0x3f80_0000));
    let mut timeline: Vec<TimelineMarker> = Vec::new();
    timeline.push(marker("Clip start", 0, TimelineKind::Join));
    let mut transcript: Vec<TranscriptSegment> = Vec::new();
    transcript.push(line("You", "Quick note — follow up on the vendor contract before Friday.", 500, 8_000));
    Meeting {
        id: String::from_str("mtg_clip"),
        title: String::from_str("meeting-clip2"),
        platform: MeetingPlatform::Unknown,
        mode: CaptureMode::Record,
        status: MeetingStatus::Ready,
        started_at_ms: started,
        ended_at_ms: Some(started + 20_000),
        duration_sec: 20,
        has_audio: true,
        has_video: false,
        is_locked: true,
        is_starred: false,
        is_bookmarked: false,
        tags: Vec::new(),
        participants,
        timeline,
        transcript,
        summary: None,
        action_items: Vec::new(),
        audio_path: None,
        video_path: None,
    }
}

/// The two example meetings, timed relative to `now_ms`: the roadmap sync
/// (started four hours ago) and a short locked clip (fourteen days ago).
pub fn seed_meetings(now_ms: i64) -> (r: Vec<Meeting>)
    requires
        i64::MIN + 14 * DAY_MS <= now_ms,
    ensures
        r@.len() == 2,
        is_roadmap_example(r@[0], now_ms as int),
        is_clip_example(r@[1], now_ms as int),
{
    let mut r: Vec<Meeting> = Vec::new();
    r.push(roadmap(now_ms));
    r.push(clip(now_ms));
    r
}

} // verus!
