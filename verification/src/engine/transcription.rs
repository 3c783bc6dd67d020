//! The built-in scripted transcript, used when no speech-to-text is configured.

use vstd::prelude::*;

use crate::ids::prefixed_id;
use crate::models::meeting::is_fresh_id;
use crate::models::TranscriptSegment;

verus! {

/// Number of lines in the scripted transcript.
pub const SCRIPT_LINES: usize = 8;

/// Bit pattern of the `f32` confidence `0.94` given to scripted lines.
pub const SCRIPT_CONFIDENCE_BITS: u32 = 0x3f70_a3d7;

/// Line `i` of the scripted transcript: (speaker, text).
pub open spec fn script_line(i: int) -> (Seq<char>, Seq<char>) {
    if i == 0 {
        ("You"@, "Okay, let's get started — I think everyone's here now."@)
    } else if i == 1 {
        ("Priya Nair"@, "Great. First item is the release timeline for next week."@)
    } else if i == 2 {
        ("Marcus Lee"@, "I'll have the build ready by Wednesday so QA has two full days."@)
    } else if i == 3 {
        ("You"@, "Perfect. We'll need sign-off from design before we ship."@)
    } else if i == 4 {
        ("Dana Whitfield"@, "Design is good to go, I'll post the final specs in the channel."@)
    } else if i == 5 {
        ("Priya Nair"@, "Let's decide on the rollout — staged or all at once?"@)
    } else if i == 6 {
        ("You"@, "Staged. Ten percent first, then ramp if metrics look healthy."@)
    } else {
        ("Marcus Lee"@, "Agreed. I'll set up the feature flag for the staged rollout."@)
    }
}

/// Line `i` (below `SCRIPT_LINES`) of the scripted transcript.
fn line(i: usize) -> (r: (&'static str, &'static str))
    requires
        i < SCRIPT_LINES,
    ensures
        r.0@ == script_line(i as int).0,
        r.1@ == script_line(i as int).1,
{
    match i {
        0 => ("You", "Okay, let's get started — I think everyone's here now."),
        1 => ("Priya Nair", "Great. First item is the release timeline for next week."),
        2 => ("Marcus Lee", "I'll have the build ready by Wednesday so QA has two full days."),
        3 => ("You", "Perfect. We'll need sign-off from design before we ship."),
        4 => ("Dana Whitfield", "Design is good to go, I'll post the final specs in the channel."),
        5 => ("Priya Nair", "Let's decide on the rollout — staged or all at once?"),
        6 => ("You", "Staged. Ten percent first, then ramp if metrics look healthy."),
        _ => ("Marcus Lee", "Agreed. I'll set up the feature flag for the staged rollout."),
    }
}

/// A scripted segment `seg_<uuid>` with the scripted confidence.
fn seg(speaker: &str, text: &str, start_ms: u64, end_ms: u64) -> (s: TranscriptSegment)
    ensures
        is_fresh_id(s.id@, "seg_"@),
        s.speaker@ == speaker@,
        s.text@ == text@,
        s.start_ms == start_ms,
        s.end_ms == end_ms,
        s.confidence_bits == Some(SCRIPT_CONFIDENCE_BITS),
{
    TranscriptSegment {
        id: prefixed_id("seg_"),
        speaker: String::from_str(speaker),
        text: String::from_str(text),
        start_ms,
        end_ms,
        confidence_bits: Some(SCRIPT_CONFIDENCE_BITS),
    }
}

/// A scripted transcript source: each call yields the next line, cycling.
pub struct SimulatedTranscriber {
    cursor: usize,
}

impl SimulatedTranscriber {
    /// How many lines have been handed out (modulo the word size).
    pub closed spec fn position(self) -> usize {
        self.cursor
    }

    /// A transcriber at the start of the script.
    pub fn new() -> (t: SimulatedTranscriber)
        ensures
            t.position() == 0,
    {
        SimulatedTranscriber { cursor: 0 }
    }

    /// The label shown for this backend.
    pub fn model_name(&self) -> (r: String)
        ensures
            r@ == "local · simulated"@,
    {
        String::from_str("local · simulated")
    }

    /// The next scripted line, spanning three seconds from `elapsed_ms`.
    pub fn next(&mut self, elapsed_ms: u64) -> (s: TranscriptSegment)
        requires
            elapsed_ms + 3000 <= u64::MAX,
        ensures
            final(self).position() == (if old(self).position() == usize::MAX { 0 } else { (old(self).position() + 1) as usize }),
            s.speaker@ == script_line((old(self).position() % SCRIPT_LINES) as int).0,
            s.text@ == script_line((old(self).position() % SCRIPT_LINES) as int).1,
            s.start_ms == elapsed_ms,
            s.end_ms == elapsed_ms + 3000,
            is_fresh_id(s.id@, "seg_"@),
            s.confidence_bits == Some(SCRIPT_CONFIDENCE_BITS),
    {
        let idx = self.cursor;
        self.cursor = if self.cursor == usize::MAX { 0 } else { self.cursor + 1 };
        let (speaker, text) = line(idx % SCRIPT_LINES);
        seg(speaker, text, elapsed_ms, elapsed_ms + 3000)
    }

    /// Back to the start of the script.
    pub fn reset(&mut self)
        ensures
            final(self).position() == 0,
    {
        self.cursor = 0;
    }
}

/// The whole scripted transcript at once: line `i` spans
/// `[4000·i, 4000·i + 3500)` milliseconds.
pub fn simulated_segments() -> (r: Vec<TranscriptSegment>)
    ensures
        r@.len() == SCRIPT_LINES,
        forall|i: int| 0 <= i < SCRIPT_LINES ==> {
            &&& (#[trigger] r@[i]).speaker@ == script_line(i).0
            &&& r@[i].text@ == script_line(i).1
            &&& r@[i].start_ms == 4000 * i
            &&& r@[i].end_ms == 4000 * i + 3500
            &&& is_fresh_id(r@[i].id@, "seg_"@)
            &&& r@[i].confidence_bits == Some(SCRIPT_CONFIDENCE_BITS)
        },
{
    let mut out: Vec<TranscriptSegment> = Vec::new();
    for i in 0..SCRIPT_LINES
        invariant
            out@.len() == i,
            forall|j: int| 0 <= j < i ==> {
                &&& (#[trigger] out@[j]).speaker@ == script_line(j).0
                &&& out@[j].text@ == script_line(j).1
                &&& out@[j].start_ms == 4000 * j
                &&& out@[j].end_ms == 4000 * j + 3500
                &&& is_fresh_id(out@[j].id@, "seg_"@)
                &&& out@[j].confidence_bits == Some(SCRIPT_CONFIDENCE_BITS)
            },
    {
        let (speaker, text) = line(i);
        let start = i as u64 * 4000;
        out.push(seg(speaker, text, start, start + 3500));
    }
    out
}

} // verus!
