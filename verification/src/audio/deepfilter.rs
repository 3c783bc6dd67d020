//! The decisions around the optional DeepFilterNet noise-suppression stage:
//! its run-time switches, which file it wrote, and whether that file can be
//! trusted in place of the recording.

use vstd::prelude::*;

use crate::engine::library::{is_wav_name, spec_is_wav_name};
use crate::error::AppError;
use crate::text::{
    ascii_lower, char_ascii_lower, chars_of, decimal, decimal_string, trim, trim_ws,
};

verus! {

/// A DeepFilterNet-enhanced copy of a recording: the file to hand to
/// transcription, the temporary folder holding it, and whether that folder is
/// to be left on disk for inspection.
pub struct Enhanced {
    file: String,
    dir: String,
    keep: bool,
}

impl Enhanced {
    /// An enhanced copy at `file` inside the temporary folder `dir`.
    pub fn new(file: String, dir: String, keep: bool) -> (e: Enhanced)
        ensures
            e.file_text() == file@,
            e.dir_text() == dir@,
            e.keeps() == keep,
    {
        Enhanced { file, dir, keep }
    }

    pub closed spec fn file_text(&self) -> Seq<char> {
        self.file@
    }

    pub closed spec fn dir_text(&self) -> Seq<char> {
        self.dir@
    }

    pub closed spec fn keeps(&self) -> bool {
        self.keep
    }

    /// Path of the enhanced WAV to send to transcription.
    pub fn path(&self) -> (r: &str)
        ensures
            r@ == self.file_text(),
    {
        self.file.as_str()
    }

    /// The temporary folder that holds the enhanced WAV.
    pub fn dir(&self) -> (r: &str)
        ensures
            r@ == self.dir_text(),
    {
        self.dir.as_str()
    }

    /// Whether the temporary folder is to be left on disk.
    pub fn keep(&self) -> (b: bool)
        ensures
            b == self.keeps(),
    {
        self.keep
    }
}

/// `s` with every ASCII capital letter lower-cased.
pub open spec fn ascii_lowercase(s: Seq<char>) -> Seq<char> {
    s.map_values(|c: char| ascii_lower(c))
}

/// Words that switch the stage off (after trimming and ASCII lower-casing).
pub open spec fn is_off_word(w: Seq<char>) -> bool {
    w == "0"@ || w == "false"@ || w == "no"@ || w == "off"@ || w == ""@
}

/// Whether the run-time switch allows DeepFilterNet: an unset switch allows
/// it, and so does every value but `0`, `false`, `no`, `off` and the empty
/// text, in any ASCII case and with surrounding white space.
pub open spec fn spec_toggle_enabled(value: Option<Seq<char>>) -> bool {
    match value {
        None => true,
        Some(v) => !is_off_word(ascii_lowercase(trim_ws(v))),
    }
}

/// Whether the keep switch asks to leave the enhanced copy on disk: exactly
/// `1`, `true`, `yes` or `on`.
pub open spec fn spec_keep_requested(value: Option<Seq<char>>) -> bool {
    match value {
        Some(v) => v == "1"@ || v == "true"@ || v == "yes"@ || v == "on"@,
        None => false,
    }
}

fn lower_ascii(v: &[char]) -> (r: Vec<char>)
    ensures
        r@ == ascii_lowercase(v@),
{
    let mut r: Vec<char> = Vec::new();
    for i in 0..v.len()
        invariant
            r@ == ascii_lowercase(v@.subrange(0, i as int)),
    {
        r.push(char_ascii_lower(v[i]));
        assert(ascii_lowercase(v@.subrange(0, i + 1)) =~= ascii_lowercase(v@.subrange(0, i as int)).push(ascii_lower(v@[i as int])));
    }
    assert(v@.subrange(0, v@.len() as int) =~= v@);
    r
}

fn text_is(v: &[char], word: &str) -> (b: bool)
    ensures
        b == (v@ == word@),
{
    let w = chars_of(word);
    if v.len() != w.len() {
        return false;
    }
    for i in 0..v.len()
        invariant
            v@.len() == w@.len(),
            w@ == word@,
            forall|j: int| 0 <= j < i ==> v@[j] == w@[j],
    {
        if v[i] != w[i] {
            return false;
        }
    }
    assert(v@ =~= w@);
    true
}

/// Whether the run-time switch (the variable's value, `None` when unset or not
/// valid Unicode) allows DeepFilterNet.
pub fn toggle_enabled(value: Option<&str>) -> (b: bool)
    ensures
        b == spec_toggle_enabled(match value { Some(v) => Some(v@), None => None }),
{
    match value {
        None => true,
        Some(v) => {
            let w = lower_ascii(&trim(&chars_of(v)));
            !(text_is(&w, "0") || text_is(&w, "false") || text_is(&w, "no") || text_is(&w, "off")
                || text_is(&w, ""))
        },
    }
}

/// Whether DeepFilterNet runs ahead of transcription: only in a build that
/// includes it (`compiled_in`) and when the run-time switch allows it.
/// Otherwise the recorded audio is used unchanged.
pub fn enhancement_allowed(compiled_in: bool, value: Option<&str>) -> (b: bool)
    ensures
        b == (compiled_in && spec_toggle_enabled(match value { Some(v) => Some(v@), None => None })),
{
    compiled_in && toggle_enabled(value)
}

/// Whether the keep switch asks to leave the enhanced copy on disk.
pub fn keep_requested(value: Option<&str>) -> (b: bool)
    ensures
        b == spec_keep_requested(match value { Some(v) => Some(v@), None => None }),
{
    match value {
        None => false,
        Some(v) => {
            let c = chars_of(v);
            text_is(&c, "1") || text_is(&c, "true") || text_is(&c, "yes") || text_is(&c, "on")
        },
    }
}

/// The file DeepFilterNet wrote into its empty working folder: the first
/// listed entry with a `wav` extension (any case) and a non-zero size.
pub fn pick_output(names: &[String], sizes: &[u64]) -> (r: Option<usize>)
    requires
        names.len() == sizes.len(),
    ensures
        match r {
            Some(i) => {
                &&& i < names.len()
                &&& spec_is_wav_name(names@[i as int]@) && sizes@[i as int] > 0
                &&& forall|j: int| 0 <= j < i ==> !(spec_is_wav_name(#[trigger] names@[j]@) && sizes@[j] > 0)
            },
            None => forall|j: int| 0 <= j < names.len() ==> !(spec_is_wav_name(#[trigger] names@[j]@) && sizes@[j] > 0),
        },
{
    for i in 0..names.len()
        invariant
            names.len() == sizes.len(),
            forall|j: int| 0 <= j < i ==> !(spec_is_wav_name(#[trigger] names@[j]@) && sizes@[j] > 0),
    {
        if sizes[i] > 0 && is_wav_name(names[i].as_str()) {
            return Some(i);
        }
    }
    None
}

/// The message for an output whose format differs from the input's.
pub open spec fn format_mismatch_message(in_rate: u32, in_channels: u16, out_rate: u32, out_channels: u16) -> Seq<char> {
    "output format "@ + decimal(out_rate as nat) + "Hz/"@ + decimal(out_channels as nat)
        + "ch does not match input "@ + decimal(in_rate as nat) + "Hz/"@ + decimal(in_channels as nat) + "ch"@
}

/// Whether an enhanced file may replace the recording: it must hold samples
/// and keep the input's sample rate and channel count. Otherwise an `Audio`
/// error says what is wrong (no samples is reported first).
pub fn check_output_format(
    in_rate: u32,
    in_channels: u16,
    out_rate: u32,
    out_channels: u16,
    out_samples: u32,
) -> (r: Result<(), AppError>)
    ensures
        out_samples == 0 ==> (r matches Err(AppError::Audio(m)) && m@ == "output WAV has no samples"@),
        out_samples != 0 && (out_rate != in_rate || out_channels != in_channels) ==> (r matches Err(
            AppError::Audio(m),
        ) && m@ == format_mismatch_message(in_rate, in_channels, out_rate, out_channels)),
        out_samples != 0 && out_rate == in_rate && out_channels == in_channels ==> r is Ok,
{
    if out_samples == 0 {
        return Err(AppError::Audio(String::from_str("output WAV has no samples")));
    }
    if out_rate != in_rate || out_channels != in_channels {
        let m = String::from_str("output format ")
            .concat(decimal_string(out_rate as u64).as_str())
            .concat("Hz/")
            .concat(decimal_string(out_channels as u64).as_str())
            .concat("ch does not match input ")
            .concat(decimal_string(in_rate as u64).as_str())
            .concat("Hz/")
            .concat(decimal_string(in_channels as u64).as_str())
            .concat("ch");
        return Err(AppError::Audio(m));
    }
    Ok(())
}

} // verus!
