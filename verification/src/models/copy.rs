//! Field-by-field copies of meeting records, so that a record can be both
//! stored and handed back to the caller with the copy's contents known.

use vstd::prelude::*;

use crate::models::meeting::{
    ActionItem, Meeting, MeetingSummary, Participant, TimelineMarker, TranscriptSegment,
};

verus! {

/// Two summaries hold the same values.
pub open spec fn same_summary(a: MeetingSummary, b: MeetingSummary) -> bool {
    &&& a.tldr == b.tldr
    &&& a.key_points@ == b.key_points@
    &&& a.decisions@ == b.decisions@
    &&& a.generated_at_ms == b.generated_at_ms
    &&& a.model == b.model
}

/// Two meetings hold the same values, field by field (lists compared by
/// their contents).
pub open spec fn same_meeting(a: Meeting, b: Meeting) -> bool {
    &&& a.id == b.id
    &&& a.title == b.title
    &&& a.platform == b.platform
    &&& a.mode == b.mode
    &&& a.status == b.status
    &&& a.started_at_ms == b.started_at_ms
    &&& a.ended_at_ms == b.ended_at_ms
    &&& a.duration_sec == b.duration_sec
    &&& a.has_audio == b.has_audio
    &&& a.has_video == b.has_video
    &&& a.is_locked == b.is_locked
    &&& a.is_starred == b.is_starred
    &&& a.is_bookmarked == b.is_bookmarked
    &&& a.tags@ == b.tags@
    &&& a.participants@ == b.participants@
    &&& a.timeline@ == b.timeline@
    &&& a.transcript@ == b.transcript@
    &&& match (a.summary, b.summary) {
        (None, None) => true,
        (Some(x), Some(y)) => same_summary(x, y),
        _ => false,
    }
    &&& a.action_items@ == b.action_items@
    &&& a.audio_path == b.audio_path
    &&& a.video_path == b.video_path
}

fn copy_text(s: &Option<String>) -> (r: Option<String>)
    ensures
        r == *s,
{
    match s {
        Some(t) => Some(t.clone()),
        None => None,
    }
}

fn copy_strings(v: &Vec<String>) -> (r: Vec<String>)
    ensures
        r@ == v@,
{
    let mut r: Vec<String> = Vec::new();
    for i in 0..v.len()
        invariant
            r@ == v@.take(i as int),
    {
        r.push(v[i].clone());
        assert(r@ =~= v@.take(i + 1));
    }
    assert(v@.take(v@.len() as int) =~= v@);
    r
}

fn copy_participants(v: &Vec<Participant>) -> (r: Vec<Participant>)
    ensures
        r@ == v@,
{
    let mut r: Vec<Participant> = Vec::new();
    for i in 0..v.len()
        invariant
            r@ == v@.take(i as int),
    {
        let p = &v[i];
        r.push(Participant { id: p.id.clone(), name: p.name.clone(), talk_ratio_bits: p.talk_ratio_bits });
        assert(r@ =~= v@.take(i + 1));
    }
    assert(v@.take(v@.len() as int) =~= v@);
    r
}

fn copy_markers(v: &Vec<TimelineMarker>) -> (r: Vec<TimelineMarker>)
    ensures
        r@ == v@,
{
    let mut r: Vec<TimelineMarker> = Vec::new();
    for i in 0..v.len()
        invariant
            r@ == v@.take(i as int),
    {
        let t = &v[i];
        r.push(TimelineMarker { id: t.id.clone(), label: t.label.clone(), at_ms: t.at_ms, kind: t.kind });
        assert(r@ =~= v@.take(i + 1));
    }
    assert(v@.take(v@.len() as int) =~= v@);
    r
}

fn copy_segments(v: &Vec<TranscriptSegment>) -> (r: Vec<TranscriptSegment>)
    ensures
        r@ == v@,
{
    let mut r: Vec<TranscriptSegment> = Vec::new();
    for i in 0..v.len()
        invariant
            r@ == v@.take(i as int),
    {
        let s = &v[i];
        r.push(TranscriptSegment {
            id: s.id.clone(),
            speaker: s.speaker.clone(),
            text: s.text.clone(),
            start_ms: s.start_ms,
            end_ms: s.end_ms,
            confidence_bits: s.confidence_bits,
        });
        assert(r@ =~= v@.take(i + 1));
    }
    assert(v@.take(v@.len() as int) =~= v@);
    r
}

fn copy_actions(v: &Vec<ActionItem>) -> (r: Vec<ActionItem>)
    ensures
        r@ == v@,
{
    let mut r: Vec<ActionItem> = Vec::new();
    for i in 0..v.len()
        invariant
            r@ == v@.take(i as int),
    {
        let a = &v[i];
        r.push(ActionItem {
            id: a.id.clone(),
            text: a.text.clone(),
            done: a.done,
            assignee: copy_text(&a.assignee),
            due_date: copy_text(&a.due_date),
        });
        assert(r@ =~= v@.take(i + 1));
    }
    assert(v@.take(v@.len() as int) =~= v@);
    r
}

fn copy_summary(s: &Option<MeetingSummary>) -> (r: Option<MeetingSummary>)
    ensures
        match (r, *s) {
            (None, None) => true,
            (Some(x), Some(y)) => same_summary(x, y),
            _ => false,
        },
{
    match s {
        Some(m) => Some(MeetingSummary {
            tldr: m.tldr.clone(),
            key_points: copy_strings(&m.key_points),
            decisions: copy_strings(&m.decisions),
            generated_at_ms: m.generated_at_ms,
            model: m.model.clone(),
        }),
        None => None,
    }
}

impl Meeting {
    /// A copy of this meeting holding the same values.
    pub fn duplicate(&self) -> (r: Meeting)
        ensures
            same_meeting(r, *self),
    {
        Meeting {
            id: self.id.clone(),
            title: self.title.clone(),
            platform: self.platform,
            mode: self.mode,
            status: self.status,
            started_at_ms: self.started_at_ms,
            ended_at_ms: self.ended_at_ms,
            duration_sec: self.duration_sec,
            has_audio: self.has_audio,
            has_video: self.has_video,
            is_locked: self.is_locked,
            is_starred: self.is_starred,
            is_bookmarked: self.is_bookmarked,
            tags: copy_strings(&self.tags),
            participants: copy_participants(&self.participants),
            timeline: copy_markers(&self.timeline),
            transcript: copy_segments(&self.transcript),
            summary: copy_summary(&self.summary),
            action_items: copy_actions(&self.action_items),
            audio_path: copy_text(&self.audio_path),
            video_path: copy_text(&self.video_path),
        }
    }
}

} // verus!
