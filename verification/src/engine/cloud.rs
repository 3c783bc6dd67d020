//! Handling of cloud speech-to-text and summarization: which key is used,
//! what a request needs, how provider results become transcript segments and
//! action items, and how they update a meeting.

use serde_json::Value;
use vstd::prelude::*;

use crate::error::AppError;
use crate::ids::prefixed_id;
use crate::models::meeting::is_fresh_id;
use crate::models::{ActionItem, Meeting, MeetingStatus, MeetingSummary, Participant, TranscriptSegment};
use crate::text::{chars_of, decimal, decimal_string, has_sub, occurs_at, same_text, slice_range, string_of, trim, trim_ws};

verus! {

/// Longest part of an error response body quoted in the message.
pub const HTTP_SNIPPET_CHARS: usize = 400;

/// The message for a provider's non-success HTTP status: the code and the
/// first characters of the response body.
pub open spec fn http_error_text(code: u16, body: Seq<char>) -> Seq<char> {
    "HTTP "@ + decimal(code as nat) + ": "@ + body.take(if body.len() < HTTP_SNIPPET_CHARS { body.len() as int } else { HTTP_SNIPPET_CHARS as int })
}

/// The error for a provider's non-success HTTP status.
pub fn http_error(code: u16, body: &str) -> (e: AppError)
    ensures
        e matches AppError::Transcription(t) && t@ == http_error_text(code, body@),
{
    let c = chars_of(body);
    let n = if c.len() < HTTP_SNIPPET_CHARS { c.len() } else { HTTP_SNIPPET_CHARS };
    let snippet = string_of(&slice_range(&c, 0, n));
    let t = String::from_str("HTTP ").concat(decimal_string(code as u64).as_str()).concat(": ").concat(snippet.as_str());
    proof {
        assert(body@.subrange(0, n as int) =~= body@.take(n as int));
    }
    AppError::Transcription(t)
}

/// One transcript line as the summarizer reads it: `speaker: text`.
pub open spec fn transcript_line(s: TranscriptSegment) -> Seq<char> {
    s.speaker@ + ": "@ + s.text@
}

/// The transcript handed to the summarizer: its lines joined by newlines.
pub open spec fn transcript_text(segs: Seq<TranscriptSegment>) -> Seq<char>
    decreases segs.len(),
{
    if segs.len() == 0 {
        Seq::empty()
    } else if segs.len() == 1 {
        transcript_line(segs[0])
    } else {
        transcript_text(segs.drop_last()) + "\n"@ + transcript_line(segs.last())
    }
}

/// The transcript sent for summarization is built line by line: nothing for
/// no segment, "speaker: text" for one, and each further segment adds a
/// newline and its own "speaker: text" line at the end.
pub proof fn law_transcript_lines(segs: Seq<TranscriptSegment>, s: TranscriptSegment)
    ensures
        transcript_text(Seq::empty()) == Seq::<char>::empty(),
        transcript_text(seq![s]) == s.speaker@ + ": "@ + s.text@,
        segs.len() > 0 ==> transcript_text(segs.push(s)) == transcript_text(segs) + "\n"@ + s.speaker@ + ": "@ + s.text@,
{
    assert(segs.push(s).drop_last() =~= segs);
    assert(segs.push(s).last() == s);
}

/// Every segment's "speaker: text" line occurs in the transcript sent for
/// summarization.
pub proof fn law_transcript_has_every_line(segs: Seq<TranscriptSegment>, k: int)
    requires
        0 <= k < segs.len(),
    ensures
        has_sub(transcript_text(segs), segs[k].speaker@ + ": "@ + segs[k].text@),
    decreases segs.len(),
{
    let line = segs[k].speaker@ + ": "@ + segs[k].text@;
    let whole = transcript_text(segs);
    if segs.len() == 1 {
        assert(whole.subrange(0, line.len() as int) =~= line);
        assert(occurs_at(whole, line, 0));
    } else if k == segs.len() - 1 {
        let head = transcript_text(segs.drop_last()) + "\n"@;
        assert(whole == head + line);
        assert(whole.subrange(head.len() as int, (head.len() + line.len()) as int) =~= line);
        assert(occurs_at(whole, line, head.len() as int));
    } else {
        let rest = segs.drop_last();
        assert(rest[k] == segs[k]);
        law_transcript_has_every_line(rest, k);
        let prev = transcript_text(rest);
        let i = choose|i: int| occurs_at(prev, line, i);
        assert(whole == prev + ("\n"@ + transcript_line(segs.last())));
        assert(whole.subrange(i, i + line.len()) =~= prev.subrange(i, i + line.len()));
        assert(occurs_at(whole, line, i));
    }
}

/// The transcript text sent for summarization.
pub fn summary_transcript(segs: &[TranscriptSegment]) -> (r: String)
    ensures
        r@ == transcript_text(segs@),
{
    let mut r = String::new();
    for i in 0..segs.len()
        invariant
            r@ == transcript_text(segs@.subrange(0, i as int)),
    {
        let line = segs[i].speaker.clone().concat(": ").concat(segs[i].text.as_str());
        let ghost prev = segs@.subrange(0, i as int);
        proof {
            assert(segs@.subrange(0, i + 1).drop_last() =~= prev);
        }
        if i == 0 {
            r = line;
        } else {
            r = r.concat("\n").concat(line.as_str());
        }
    }
    assert(segs@.subrange(0, segs@.len() as int) =~= segs@);
    r
}

/// The request text for the summarizer: the meeting title and the transcript.
/// A blank transcript is refused.
pub fn summary_request(title: &str, transcript: &str) -> (r: Result<String, AppError>)
    ensures
        trim_ws(transcript@).len() == 0 ==> (r matches Err(AppError::Other(t)) && t@ == "Empty transcript."@),
        trim_ws(transcript@).len() > 0 ==> (r matches Ok(m)
            && m@ == "Meeting title: "@ + title@ + "\n\nTranscript:\n"@ + transcript@),
{
    if trim(&chars_of(transcript)).len() == 0 {
        return Err(AppError::Other(String::from_str("Empty transcript.")));
    }
    Ok(String::from_str("Meeting title: ").concat(title).concat("\n\nTranscript:\n").concat(transcript))
}

/// The summary built from the summarizer's reply: its TL;DR as given (empty
/// when missing), the non-blank key points and decisions (trimmed), and the
/// model label `groq · <model>`.
pub fn reply_summary(
    tldr: Option<&str>,
    key_points: &[Option<String>],
    decisions: &[Option<String>],
    model: &str,
    now_ms: i64,
) -> (s: MeetingSummary)
    ensures
        s.tldr@ == (match tldr { Some(t) => t@, None => Seq::empty() }),
        string_texts(s.key_points@) == clean_texts(key_points@),
        string_texts(s.decisions@) == clean_texts(decisions@),
        s.generated_at_ms == now_ms,
        s.model@ == "groq · "@ + model@,
{
    let t = match tldr {
        Some(t) => String::from_str(t),
        None => String::new(),
    };
    MeetingSummary {
        tldr: t,
        key_points: clean_strings(key_points),
        decisions: clean_strings(decisions),
        generated_at_ms: now_ms,
        model: String::from_str("groq · ").concat(model),
    }
}

/// Where a polled transcription job stands.
pub enum JobState {
    /// Finished: read the transcript.
    Done,
    /// Failed, with the error to report.
    Failed(AppError),
    /// Still queued or processing: poll again.
    Pending,
}

/// What a polled job status means. A failed job reports the provider's error
/// text, or `unknown error` when it gave none.
pub fn job_state(status: Option<&str>, error: Option<&str>) -> (r: JobState)
    ensures
        status matches Some(s) && s@ == "completed"@ ==> r is Done,
        status matches Some(s) && s@ == "error"@ ==> (r matches JobState::Failed(AppError::Transcription(t))
            && t@ == "AssemblyAI: "@ + match error { Some(e) => e@, None => "unknown error"@ }),
        !(status matches Some(s) && (s@ == "completed"@ || s@ == "error"@)) ==> r is Pending,
{
    proof {
        reveal_strlit("completed");
        reveal_strlit("error");
        assert("completed"@.len() != "error"@.len());
    }
    match status {
        Some(s) => {
            if same_text(s, "completed") {
                JobState::Done
            } else if same_text(s, "error") {
                let e = match error {
                    Some(e) => e,
                    None => "unknown error",
                };
                JobState::Failed(AppError::Transcription(String::from_str("AssemblyAI: ").concat(e)))
            } else {
                JobState::Pending
            }
        },
        None => JobState::Pending,
    }
}

/// The trimmed text of an optional value, when non-empty.
pub open spec fn nonblank(v: Option<Seq<char>>) -> Option<Seq<char>> {
    match v {
        Some(t) => if trim_ws(t).len() > 0 { Some(trim_ws(t)) } else { None },
        None => None,
    }
}

/// The text of an optional string slice.
pub open spec fn opt_str(v: Option<&str>) -> Option<Seq<char>> {
    match v {
        Some(t) => Some(t@),
        None => None,
    }
}

/// The text of an optional string.
pub open spec fn opt_string(v: Option<String>) -> Option<Seq<char>> {
    match v {
        Some(t) => Some(t@),
        None => None,
    }
}

/// The trimmed value of `v` when it is non-blank.
fn nonblank_of(v: &str) -> (r: Option<String>)
    ensures
        opt_string(r) == nonblank(Some(v@)),
{
    let t = trim(&chars_of(v));
    if t.len() > 0 {
        Some(string_of(&t))
    } else {
        None
    }
}

/// The API key to use: the setting when it is non-blank (trimmed), else the
/// environment variable's value when non-blank (trimmed), else none.
pub fn resolve_key(setting: &str, env_value: Option<&str>) -> (r: Option<String>)
    ensures
        opt_string(r) == (if nonblank(Some(setting@)) is Some { nonblank(Some(setting@)) } else { nonblank(opt_str(env_value)) }),
{
    match nonblank_of(setting) {
        Some(k) => Some(k),
        None => match env_value {
            Some(v) => nonblank_of(v),
            None => None,
        },
    }
}

/// What a transcription request needs: the meeting's audio file and an API key.
pub fn transcription_request(m: &Meeting, key: Option<String>) -> (r: Result<(String, String), AppError>)
    ensures
        m.audio_path is None ==> (r matches Err(AppError::Other(t)) && t@ == "This meeting has no saved audio to transcribe."@),
        (m.audio_path is Some && key is None) ==> (r matches Err(AppError::Other(t)) && t@ == "Add your AssemblyAI API key in Settings to transcribe."@),
        (m.audio_path is Some && key is Some) ==> (r matches Ok((p, k)) && p == m.audio_path.unwrap() && k == key.unwrap()),
{
    match &m.audio_path {
        None => Err(AppError::Other(String::from_str("This meeting has no saved audio to transcribe."))),
        Some(p) => match key {
            None => Err(AppError::Other(String::from_str("Add your AssemblyAI API key in Settings to transcribe."))),
            Some(k) => Ok((p.clone(), k)),
        },
    }
}


/// Summarizing needs a transcript.
pub fn summarization_precheck(m: &Meeting) -> (r: Result<(), AppError>)
    ensures
        m.transcript@.len() == 0 ==> (r matches Err(AppError::Other(t)) && t@ == "Transcribe the meeting first, then summarize."@),
        m.transcript@.len() > 0 ==> r is Ok,
{
    if m.transcript.len() == 0 {
        Err(AppError::Other(String::from_str("Transcribe the meeting first, then summarize.")))
    } else {
        Ok(())
    }
}

/// One diarized utterance as the provider returned it (missing fields absent).
#[derive(Clone, Debug)]
pub struct Utterance {
    pub text: Option<String>,
    pub speaker: Option<String>,
    pub start_ms: Option<u64>,
    pub end_ms: Option<u64>,
    /// Bit pattern of the `f32` confidence, when given.
    pub confidence_bits: Option<u32>,
}

/// The trimmed text of an utterance ("" when absent).
pub open spec fn utterance_text(u: Utterance) -> Seq<char> {
    match u.text {
        Some(t) => trim_ws(t@),
        None => Seq::empty(),
    }
}

/// The speaker label of an utterance: `Speaker <label>`, label `A` when absent.
pub open spec fn utterance_speaker(u: Utterance) -> Seq<char> {
    "Speaker "@ + match u.speaker {
        Some(s) => s@,
        None => "A"@,
    }
}

/// Start of an utterance (0 when absent).
pub open spec fn utterance_start(u: Utterance) -> u64 {
    match u.start_ms {
        Some(s) => s,
        None => 0,
    }
}

/// End of an utterance (its start when absent).
pub open spec fn utterance_end(u: Utterance) -> u64 {
    match u.end_ms {
        Some(e) => e,
        None => utterance_start(u),
    }
}

/// The utterances that carry text.
pub open spec fn spoken(us: Seq<Utterance>) -> Seq<Utterance> {
    us.filter(|u: Utterance| utterance_text(u).len() > 0)
}

/// Segment `s` renders utterance `u`.
pub open spec fn segment_of(s: TranscriptSegment, u: Utterance) -> bool {
    &&& is_fresh_id(s.id@, "seg_"@)
    &&& s.speaker@ == utterance_speaker(u)
    &&& s.text@ == utterance_text(u)
    &&& s.start_ms == utterance_start(u)
    &&& s.end_ms == utterance_end(u)
    &&& s.confidence_bits == u.confidence_bits
}

/// A fresh `seg_` id.
fn seg_id() -> (r: String)
    ensures
        is_fresh_id(r@, "seg_"@),
{
    prefixed_id("seg_")
}

/// Transcript segments from diarized utterances: one per utterance with
/// non-blank text, in order. Returns them with whether any were found.
pub fn segments_from_utterances(us: &[Utterance]) -> (r: Vec<TranscriptSegment>)
    ensures
        r@.len() == spoken(us@).len(),
        forall|k: int| 0 <= k < r@.len() ==> segment_of(#[trigger] r@[k], spoken(us@)[k]),
{
    let mut out: Vec<TranscriptSegment> = Vec::new();
    let ghost pred = |u: Utterance| utterance_text(u).len() > 0;
    for i in 0..us.len()
        invariant
            pred == (|u: Utterance| utterance_text(u).len() > 0),
            out@.len() == us@.take(i as int).filter(pred).len(),
            forall|k: int| 0 <= k < out@.len() ==> segment_of(#[trigger] out@[k], us@.take(i as int).filter(pred)[k]),
    {
        let u = &us[i];
        let text = match &u.text {
            Some(t) => trim(&chars_of(t.as_str())),
            None => Vec::new(),
        };
        proof {
            reveal_with_fuel(Seq::filter, 1);
            let s1 = us@.take(i + 1);
            assert(s1.drop_last() =~= us@.take(i as int));
            assert(s1.last() == us@[i as int]);
            assert(text@ == utterance_text(*u));
            let f1 = s1.filter(pred);
            assert(f1 == if pred(s1.last()) { s1.drop_last().filter(pred).push(s1.last()) } else { s1.drop_last().filter(pred) });
        }
        if text.len() > 0 {
            let label = match &u.speaker {
                Some(s) => String::from_str("Speaker ").concat(s.as_str()),
                None => String::from_str("Speaker A"),
            };
            proof {
                reveal_strlit("Speaker A");
                reveal_strlit("Speaker ");
                reveal_strlit("A");
                assert("Speaker A"@ =~= "Speaker "@ + "A"@);
            }
            let start = match u.start_ms {
                Some(s) => s,
                None => 0,
            };
            let end = match u.end_ms {
                Some(e) => e,
                None => start,
            };
            out.push(TranscriptSegment {
                id: seg_id(),
                speaker: label,
                text: string_of(&text),
                start_ms: start,
                end_ms: end,
                confidence_bits: u.confidence_bits,
            });
        }
    }
    proof {
        assert(us@.take(us@.len() as int) =~= us@);
    }
    out
}

/// The transcript when no utterance carried text: the flat text (trimmed) as
/// one `Speaker` segment over the whole audio, or nothing when it is blank.
pub fn fallback_segment(text: Option<&str>, audio_duration_sec: Option<u64>, confidence_bits: Option<u32>) -> (r: Option<TranscriptSegment>)
    requires
        audio_duration_sec matches Some(d) ==> d * 1000 <= u64::MAX,
    ensures
        r is Some == (nonblank(opt_str(text)) is Some),
        r matches Some(s) ==> {
            &&& is_fresh_id(s.id@, "seg_"@)
            &&& s.speaker@ == "Speaker"@
            &&& Some(s.text@) == nonblank(opt_str(text))
            &&& s.start_ms == 0
            &&& s.end_ms == (match audio_duration_sec { Some(d) => d * 1000, None => 0 })
            &&& s.confidence_bits == confidence_bits
        },
{
    let t = match text {
        Some(t) => nonblank_of(t),
        None => None,
    };
    match t {
        Some(t) => {
            let end = match audio_duration_sec {
                Some(d) => d * 1000,
                None => 0,
            };
            Some(TranscriptSegment {
                id: seg_id(),
                speaker: String::from_str("Speaker"),
                text: t,
                start_ms: 0,
                end_ms: end,
                confidence_bits,
            })
        },
        None => None,
    }
}

/// Record a finished transcription on a meeting: the transcript, the
/// participants when any were found, `Ready`; and, when the audio must not be
/// kept, no audio. Returns the audio file to delete.
pub fn apply_transcription(
    m: &mut Meeting,
    segments: Vec<TranscriptSegment>,
    participants: Vec<Participant>,
    delete_audio_after: bool,
) -> (to_delete: Option<String>)
    ensures
        *final(m) == (Meeting {
            transcript: segments,
            participants: if participants@.len() > 0 { participants } else { old(m).participants },
            status: MeetingStatus::Ready,
            audio_path: if delete_audio_after { None } else { old(m).audio_path },
            has_audio: if delete_audio_after { false } else { old(m).has_audio },
            ..*old(m)
        }),
        to_delete == (if delete_audio_after { old(m).audio_path } else { None }),
{
    m.transcript = segments;
    if participants.len() > 0 {
        m.participants = participants;
    }
    m.status = MeetingStatus::Ready;
    if delete_audio_after {
        let p = m.audio_path.take();
        m.has_audio = false;
        p
    } else {
        None
    }
}

/// Record a summary and its action items on a meeting, which becomes `Ready`.
pub fn apply_summary(m: &mut Meeting, summary: MeetingSummary, action_items: Vec<ActionItem>)
    ensures
        *final(m) == (Meeting {
            summary: Some(summary),
            action_items,
            status: MeetingStatus::Ready,
            ..*old(m)
        }),
{
    m.summary = Some(summary);
    m.action_items = action_items;
    m.status = MeetingStatus::Ready;
}

/// The non-blank strings of a list, trimmed, in order.
pub open spec fn clean_texts(v: Seq<Option<String>>) -> Seq<Seq<char>>
    decreases v.len(),
{
    if v.len() == 0 {
        Seq::empty()
    } else {
        let prev = clean_texts(v.drop_last());
        match nonblank(opt_string(v.last())) {
            Some(t) => prev.push(t),
            None => prev,
        }
    }
}

/// The texts of a list of strings.
pub open spec fn string_texts(v: Seq<String>) -> Seq<Seq<char>> {
    v.map_values(|s: String| s@)
}

/// Keep the strings of a JSON array that are non-blank, trimmed.
pub fn clean_strings(v: &[Option<String>]) -> (r: Vec<String>)
    ensures
        string_texts(r@) == clean_texts(v@),
{
    let mut out: Vec<String> = Vec::new();
    for i in 0..v.len()
        invariant
            string_texts(out@) == clean_texts(v@.take(i as int)),
    {
        proof {
            assert(v@.take(i + 1).drop_last() =~= v@.take(i as int));
        }
        let t = match &v[i] {
            Some(s) => nonblank_of(s.as_str()),
            None => None,
        };
        match t {
            Some(t) => {
                let ghost o0 = out@;
                out.push(t);
                assert(string_texts(out@) =~= string_texts(o0).push(out@.last()@));
            },
            None => {},
        }
    }
    assert(v@.take(v@.len() as int) =~= v@);
    out
}

/// An action item from the summarizer's JSON: the text trimmed (none when
/// blank) and the assignee trimmed, kept unless blank or the word `null`.
pub fn groq_action_item(text: Option<&str>, assignee: Option<&str>) -> (r: Option<ActionItem>)
    ensures
        r is Some == (nonblank(opt_str(text)) is Some),
        r matches Some(a) ==> {
            &&& is_fresh_id(a.id@, "a_"@)
            &&& Some(a.text@) == nonblank(opt_str(text))
            &&& !a.done
            &&& a.due_date is None
            &&& opt_string(a.assignee) == (match nonblank(opt_str(assignee)) {
                Some(x) => if x == "null"@ { None } else { Some(x) },
                None => None,
            })
        },
{
    let t = match text {
        Some(t) => nonblank_of(t),
        None => None,
    };
    let t = match t {
        Some(t) => t,
        None => return None,
    };
    let who = match assignee {
        Some(a) => match nonblank_of(a) {
            Some(x) => if same_text(x.as_str(), "null") { None } else { Some(x) },
            None => None,
        },
        None => None,
    };
    Some(ActionItem { id: prefixed_id("a_"), text: t, done: false, assignee: who, due_date: None })
}

/// The fields of a Groq summary reply, as its JSON holds them: the `tldr`
/// string, the entries of `keyPoints` and `decisions` (`None` for an entry
/// that is not a string), and each `actionItems` entry's `text` and
/// `assignee` strings. A field that is missing or of another kind reads as
/// `None`, or as an empty list.
pub struct GroqFields {
    pub tldr: Option<String>,
    pub key_points: Vec<Option<String>>,
    pub decisions: Vec<Option<String>>,
    pub action_items: Vec<(Option<String>, Option<String>)>,
}

/// What `serde_json` reads from a reply text: its fields, or the parser's
/// error message when the text is not JSON.
pub uninterp spec fn groq_fields_of(content: Seq<char>) -> Result<GroqFields, String>;

/// Parse a Groq reply text with `serde_json::from_str` into a JSON value and
/// pick out its fields (see `GroqFields`); a text that is not JSON gives the
/// parser's error message. The contract only names the result.
#[verifier::external_body]
fn parse_groq_fields(content: &str) -> (r: Result<GroqFields, String>)
    ensures
        r == groq_fields_of(content@),
{
    let v: Value = serde_json::from_str(content).map_err(|e| e.to_string())?;
    let text = |x: &Value| x.as_str().map(String::from);
    let texts = |k: &str| v[k].as_array().map(|a| a.iter().map(text).collect()).unwrap_or_default();
    let items = v["actionItems"].as_array().map(|a| a.iter().map(|it| (text(&it["text"]), text(&it["assignee"]))).collect());
    Ok(GroqFields {
        tldr: text(&v["tldr"]),
        key_points: texts("keyPoints"),
        decisions: texts("decisions"),
        action_items: items.unwrap_or_default(),
    })
}

/// The assignee the summarizer named: trimmed, none when blank or the word
/// `null`.
pub open spec fn groq_assignee(a: Option<Seq<char>>) -> Option<Seq<char>> {
    match nonblank(a) {
        Some(x) => if x == "null"@ { None } else { Some(x) },
        None => None,
    }
}

/// The text and assignee of each action item a reply lists, in order, for
/// the entries whose text is not blank.
pub open spec fn groq_item_views(src: Seq<(Option<String>, Option<String>)>) -> Seq<(Seq<char>, Option<Seq<char>>)>
    decreases src.len(),
{
    if src.len() == 0 {
        Seq::empty()
    } else {
        let prev = groq_item_views(src.drop_last());
        match nonblank(opt_string(src.last().0)) {
            Some(t) => prev.push((t, groq_assignee(opt_string(src.last().1)))),
            None => prev,
        }
    }
}

/// `items` are the action items of the reply entries `src`: one per entry with
/// a non-blank text, in order, each open, undated, with a fresh `a_` id.
pub open spec fn groq_items(src: Seq<(Option<String>, Option<String>)>, items: Seq<ActionItem>) -> bool {
    let v = groq_item_views(src);
    &&& items.len() == v.len()
    &&& forall|k: int| 0 <= k < items.len() ==> {
        &&& (#[trigger] items[k]).text@ == v[k].0
        &&& opt_string(items[k].assignee) == v[k].1
        &&& !items[k].done
        &&& items[k].due_date is None
        &&& is_fresh_id(items[k].id@, "a_"@)
    }
}

/// The summary and action items in a Groq reply text, generated at `now_ms`
/// by `model`. A text that is not JSON is refused with `Groq returned invalid
/// JSON` and the parser's message.
pub fn groq_reply(content: &str, model: &str, now_ms: i64) -> (r: Result<(MeetingSummary, Vec<ActionItem>), AppError>)
    ensures
        match groq_fields_of(content@) {
            Err(e) => r matches Err(AppError::Other(t)) && t@ == "Groq returned invalid JSON: "@ + e@,
            Ok(g) => r matches Ok((s, items)) && {
                &&& s.tldr@ == (match g.tldr { Some(t) => t@, None => Seq::empty() })
                &&& string_texts(s.key_points@) == clean_texts(g.key_points@)
                &&& string_texts(s.decisions@) == clean_texts(g.decisions@)
                &&& s.generated_at_ms == now_ms
                &&& s.model@ == "groq · "@ + model@
                &&& groq_items(g.action_items@, items@)
            },
        },
{
    let g = match parse_groq_fields(content) {
        Ok(g) => g,
        Err(e) => return Err(AppError::Other(String::from_str("Groq returned invalid JSON: ").concat(e.as_str()))),
    };
    let tldr = match &g.tldr {
        Some(t) => Some(t.as_str()),
        None => None,
    };
    let summary = reply_summary(tldr, g.key_points.as_slice(), g.decisions.as_slice(), model, now_ms);
    let mut items: Vec<ActionItem> = Vec::new();
    for i in 0..g.action_items.len()
        invariant
            groq_items(g.action_items@.take(i as int), items@),
    {
        proof {
            assert(g.action_items@.take(i + 1).drop_last() =~= g.action_items@.take(i as int));
        }
        let entry = &g.action_items[i];
        let text = match &entry.0 {
            Some(t) => Some(t.as_str()),
            None => None,
        };
        let who = match &entry.1 {
            Some(a) => Some(a.as_str()),
            None => None,
        };
        let ghost before = items@;
        match groq_action_item(text, who) {
            Some(x) => {
                items.push(x);
                assert(items@[items@.len() - 1] == x);
            },
            None => {},
        }
        proof {
            let v = groq_item_views(g.action_items@.take(i + 1));
            assert(opt_str(text) == opt_string(entry.0));
            assert(opt_str(who) == opt_string(entry.1));
            assert forall|k: int| 0 <= k < before.len() implies items@[k] == before[k] by {}
        }
    }
    proof {
        assert(g.action_items@.take(g.action_items@.len() as int) =~= g.action_items@);
    }
    Ok((summary, items))
}

} // verus!
