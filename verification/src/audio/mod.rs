//! Audio-side bookkeeping: output paths, the frames kept when trimming
//! silence, speaker segments from voice activity, and the decisions of the
//! DeepFilterNet noise-suppression stage.

pub mod deepfilter;
pub mod pipeline;

use vstd::prelude::*;

use crate::engine::library::{join_path, spec_join};

verus! {

/// Which stream a packet came from.
#[derive(Debug, Clone, Copy, PartialEq, Eq, Structural)]
pub enum AudioSource {
    /// Local microphone, labelled "You".
    Microphone,
    /// System output (the far end), labelled "Remote".
    System,
}

/// A span during which one speaker was active.
#[derive(Debug)]
pub struct SpeakerSegment {
    /// "You" (microphone) or "Remote" (system).
    pub speaker: &'static str,
    pub start_ms: u64,
    pub end_ms: u64,
}

/// The WAV file a meeting with file stem `slug` records into, inside `dir`.
pub fn wav_path(dir: &str, slug: &str) -> (r: String)
    ensures
        r@ == spec_join(dir@, slug@ + ".wav"@),
{
    let name = String::from_str(slug).concat(".wav");
    join_path(dir, name.as_str())
}

/// The next step of the single noise-suppression pass over a recording.
#[derive(Debug, Clone, Copy, PartialEq, Eq, Structural)]
pub enum SuppressionStep {
    /// Nothing (more) to do.
    Done,
    /// Run DeepFilterNet over the recording.
    TryDeepFilterNet,
    /// Run RNNoise, honouring the per-channel toggles.
    RunRnnoise,
}

/// What the noise-suppression pass does next, given the two toggles and the
/// outcome of DeepFilterNet (`None` before it was tried): nothing when both
/// toggles are off; otherwise DeepFilterNet first, and RNNoise only when
/// DeepFilterNet failed. The two engines never both process a recording.
pub fn suppression_step(cancel_system: bool, cancel_mic: bool, deepfilter_ok: Option<bool>) -> (r: SuppressionStep)
    ensures
        !cancel_system && !cancel_mic ==> r == SuppressionStep::Done,
        (cancel_system || cancel_mic) ==> r == (match deepfilter_ok {
            None => SuppressionStep::TryDeepFilterNet,
            Some(true) => SuppressionStep::Done,
            Some(false) => SuppressionStep::RunRnnoise,
        }),
{
    if !cancel_system && !cancel_mic {
        return SuppressionStep::Done;
    }
    match deepfilter_ok {
        None => SuppressionStep::TryDeepFilterNet,
        Some(true) => SuppressionStep::Done,
        Some(false) => SuppressionStep::RunRnnoise,
    }
}

/// Lead-in and lead-out kept around detected content when trimming silence.
pub const TRIM_PAD_MS: u64 = 200;

/// Frames of padding at `sample_rate`.
pub open spec fn pad_frames(sample_rate: u32) -> int {
    (TRIM_PAD_MS * sample_rate) / 1000
}

/// The frames (first and last, inclusive) that trimming dead air keeps, given
/// the first and last frames with content: the content widened by the pad on
/// each side and clipped to the file. `None` when nothing would be cut.
pub open spec fn spec_trim_window(first: int, last: int, sample_rate: u32, total: int) -> Option<(int, int)> {
    let pad = pad_frames(sample_rate);
    let start = if first > pad { first - pad } else { 0 };
    let end = if last + pad < total - 1 { last + pad } else { total - 1 };
    if start == 0 && end == total - 1 {
        None
    } else {
        Some((start, end))
    }
}

/// The frames that trimming dead air keeps (see `spec_trim_window`).
pub fn trim_window(first: usize, last: usize, sample_rate: u32, total_frames: usize) -> (r: Option<(usize, usize)>)
    requires
        first <= last < total_frames,
    ensures
        match r {
            Some((a, b)) => spec_trim_window(first as int, last as int, sample_rate, total_frames as int) == Some((a as int, b as int)),
            None => spec_trim_window(first as int, last as int, sample_rate, total_frames as int) is None,
        },
{
    let pad: u64 = TRIM_PAD_MS * (sample_rate as u64) / 1000;
    let start: usize = if (first as u64) > pad { first - (pad as usize) } else { 0 };
    let room: usize = total_frames - 1 - last;
    let end: usize = if pad < (room as u64) { last + (pad as usize) } else { total_frames - 1 };
    if start == 0 && end == total_frames - 1 {
        None
    } else {
        Some((start, end))
    }
}

} // verus!
