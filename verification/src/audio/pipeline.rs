//! Speaker-segment tracking for the processing pipeline.

use vstd::prelude::*;

use super::SpeakerSegment;

verus! {

/// Tracks the currently open speech segment of one speaker.
pub struct SegmentTracker {
    speaker: &'static str,
    open_start: Option<u64>,
}

impl SegmentTracker {
    /// The speaker this tracker labels segments with.
    pub closed spec fn label(self) -> Seq<char> {
        self.speaker@
    }

    /// Start of the open segment, if speech is in progress.
    pub closed spec fn open(self) -> Option<u64> {
        self.open_start
    }

    /// A tracker for `speaker` with no open segment.
    pub fn new(speaker: &'static str) -> (t: SegmentTracker)
        ensures
            t.label() == speaker@,
            t.open() is None,
    {
        SegmentTracker { speaker, open_start: None }
    }

    /// Feed the voice-activity verdict at `now_ms`: speech opens a segment,
    /// silence closes the open one (appending it to `out`).
    pub fn update(&mut self, speaking: bool, now_ms: u64, out: &mut Vec<SpeakerSegment>)
        ensures
            final(self).label() == old(self).label(),
            match (old(self).open(), speaking) {
                (None, true) => final(self).open() == Some(now_ms) && final(out)@ == old(out)@,
                (Some(start), false) => {
                    &&& final(self).open() is None
                    &&& final(out)@.len() == old(out)@.len() + 1
                    &&& final(out)@.subrange(0, old(out)@.len() as int) == old(out)@
                    &&& final(out)@.last().speaker@ == old(self).label()
                    &&& final(out)@.last().start_ms == start
                    &&& final(out)@.last().end_ms == now_ms
                },
                _ => final(self).open() == old(self).open() && final(out)@ == old(out)@,
            },
    {
        match (self.open_start, speaking) {
            (None, true) => self.open_start = Some(now_ms),
            (Some(start), false) => {
                out.push(SpeakerSegment { speaker: self.speaker, start_ms: start, end_ms: now_ms });
                self.open_start = None;
                assert(out@.subrange(0, old(out)@.len() as int) =~= old(out)@);
            },
            _ => {},
        }
    }

    /// Close the open segment at `now_ms` (never before its start).
    pub fn close(&mut self, now_ms: u64, out: &mut Vec<SpeakerSegment>)
        ensures
            final(self).label() == old(self).label(),
            final(self).open() is None,
            match old(self).open() {
                Some(start) => {
                    &&& final(out)@.len() == old(out)@.len() + 1
                    &&& final(out)@.subrange(0, old(out)@.len() as int) == old(out)@
                    &&& final(out)@.last().speaker@ == old(self).label()
                    &&& final(out)@.last().start_ms == start
                    &&& final(out)@.last().end_ms == (if now_ms >= start { now_ms } else { start })
                },
                None => final(out)@ == old(out)@,
            },
    {
        if let Some(start) = self.open_start {
            let end = if now_ms >= start { now_ms } else { start };
            out.push(SpeakerSegment { speaker: self.speaker, start_ms: start, end_ms: end });
            assert(out@.subrange(0, old(out)@.len() as int) =~= old(out)@);
        }
        self.open_start = None;
    }
}

} // verus!
