//! The built-in extractive summarizer: a short overview, key points,
//! decisions and action items picked from the transcript by simple rules.

use vstd::prelude::*;

use crate::ids::{now_millis, prefixed_id};
use crate::models::meeting::is_fresh_id;
use crate::models::{ActionItem, Meeting, MeetingSummary, TranscriptSegment};
use crate::text::{
    chars_of, contains, has_sub, string_of, to_lowercase, trim_end_char, trim_end_matches,
    unicode_lowercase,
};

verus! {

/// The texts of a transcript, in order.
pub open spec fn texts_of(t: Seq<TranscriptSegment>) -> Seq<Seq<char>> {
    t.map_values(|s: TranscriptSegment| s.text@)
}

/// Lower-cased `text` contains one of `keywords`.
pub open spec fn mentions_any(text: Seq<char>, keywords: Seq<Seq<char>>) -> bool {
    exists|k: int| 0 <= k < keywords.len() && has_sub(unicode_lowercase(text), #[trigger] keywords[k])
}

/// Words that mark a decision or commitment.
pub open spec fn decision_keywords() -> Seq<Seq<char>> {
    seq!["decid"@, "agree"@, "commit"@, "let's"@, "we'll"@]
}

/// Words that mark an action item.
pub open spec fn action_keywords() -> Seq<Seq<char>> {
    seq!["i'll"@, "we'll"@, "follow up"@, "need to"@, "will "@, "action"@]
}

/// A sentence records a decision.
pub open spec fn is_decision(text: Seq<char>) -> bool {
    mentions_any(text, decision_keywords())
}

/// A transcript segment is an action item.
pub open spec fn is_action(s: TranscriptSegment) -> bool {
    mentions_any(s.text@, action_keywords())
}

/// The test "records a decision", as a function value.
pub open spec fn decision_pred() -> spec_fn(Seq<char>) -> bool {
    |t: Seq<char>| is_decision(t)
}

/// The test "is an action item", as a function value.
pub open spec fn action_pred() -> spec_fn(TranscriptSegment) -> bool {
    |s: TranscriptSegment| is_action(s)
}

/// Key points and decisions are written without trailing full stops.
pub open spec fn points(v: Seq<Seq<char>>) -> Seq<Seq<char>> {
    v.map_values(|t: Seq<char>| point(t))
}

/// The texts of string slices.
pub open spec fn str_texts(v: Seq<&str>) -> Seq<Seq<char>> {
    v.map_values(|k: &str| k@)
}

/// The overview: a fixed notice for an empty transcript, else the lower-cased
/// title and the first two sentences.
pub open spec fn spec_tldr(title: Seq<char>, sentences: Seq<Seq<char>>) -> Seq<char> {
    if sentences.len() == 0 {
        "No speech was captured for this session."@
    } else {
        let lead = if sentences.len() == 1 { sentences[0] } else { sentences[0] + " "@ + sentences[1] };
        "Discussion covering "@ + unicode_lowercase(title) + ". "@ + lead
    }
}

/// A sentence without its trailing full stops.
pub open spec fn point(text: Seq<char>) -> Seq<char> {
    trim_end_char(text, '.')
}

/// The key points: the first four sentences.
pub open spec fn spec_key_points(sentences: Seq<Seq<char>>) -> Seq<Seq<char>> {
    points(sentences.take(if sentences.len() < 4 { sentences.len() as int } else { 4 }))
}

/// The decisions: the first three decision sentences.
pub open spec fn spec_decisions(sentences: Seq<Seq<char>>) -> Seq<Seq<char>> {
    let d = sentences.filter(decision_pred());
    points(d.take(if d.len() < 3 { d.len() as int } else { 3 }))
}

/// The action-item segments: the first five.
pub open spec fn spec_action_segments(t: Seq<TranscriptSegment>) -> Seq<TranscriptSegment> {
    let a = t.filter(action_pred());
    a.take(if a.len() < 5 { a.len() as int } else { 5 })
}

/// The model name the built-in summarizer reports.
pub open spec fn summarizer_model() -> Seq<char> {
    "local · summarizer-v1"@
}

/// The texts of a list of strings.
pub open spec fn string_texts(v: Seq<String>) -> Seq<Seq<char>> {
    v.map_values(|s: String| s@)
}

/// Whether the lower-cased `text` contains one of `keywords`.
fn mentions(text: &str, keywords: &[&str]) -> (b: bool)
    ensures
        b == mentions_any(text@, str_texts(keywords@)),
{
    let lower = chars_of(to_lowercase(text).as_str());
    let ghost ks = str_texts(keywords@);
    for k in 0..keywords.len()
        invariant
            lower@ == unicode_lowercase(text@),
            ks == str_texts(keywords@),
            forall|j: int| 0 <= j < k ==> !has_sub(unicode_lowercase(text@), #[trigger] ks[j]),
    {
        let kw = chars_of(keywords[k]);
        if contains(&lower, &kw) {
            assert(ks[k as int] == keywords@[k as int]@);
            return true;
        }
        assert(ks[k as int] == keywords@[k as int]@);
    }
    false
}

/// The decision keywords as string slices.
fn decision_words() -> (r: Vec<&'static str>)
    ensures
        str_texts(r@) == decision_keywords(),
{
    let r = vec!["decid", "agree", "commit", "let's", "we'll"];
    assert(str_texts(r@) =~= decision_keywords());
    r
}

/// The action keywords as string slices.
fn action_words() -> (r: Vec<&'static str>)
    ensures
        str_texts(r@) == action_keywords(),
{
    let r = vec!["i'll", "we'll", "follow up", "need to", "will ", "action"];
    assert(str_texts(r@) =~= action_keywords());
    r
}

/// A sentence with trailing full stops removed.
fn point_of(text: &str) -> (r: String)
    ensures
        r@ == point(text@),
{
    string_of(&trim_end_matches(&chars_of(text), '.'))
}

/// The summary of a meeting generated at `now_ms`.
pub fn summarize_at(meeting: &Meeting, now_ms: i64) -> (s: MeetingSummary)
    ensures
        s.tldr@ == spec_tldr(meeting.title@, texts_of(meeting.transcript@)),
        string_texts(s.key_points@) == spec_key_points(texts_of(meeting.transcript@)),
        string_texts(s.decisions@) == spec_decisions(texts_of(meeting.transcript@)),
        s.generated_at_ms == now_ms,
        s.model@ == summarizer_model(),
{
    let t = &meeting.transcript;
    let ghost sentences = texts_of(t@);
    let tldr = if t.len() == 0 {
        String::from_str("No speech was captured for this session.")
    } else {
        let lead = if t.len() == 1 {
            t[0].text.clone()
        } else {
            t[0].text.clone().concat(" ").concat(t[1].text.as_str())
        };
        String::from_str("Discussion covering ").concat(to_lowercase(meeting.title.as_str()).as_str()).concat(". ").concat(lead.as_str())
    };
    let n_points = if t.len() < 4 { t.len() } else { 4 };
    let mut key_points: Vec<String> = Vec::new();
    for i in 0..n_points
        invariant
            n_points <= t@.len(),
            sentences == texts_of(t@),
            string_texts(key_points@) == points(sentences.take(i as int)),
    {
        let ghost k0 = key_points@;
        key_points.push(point_of(t[i].text.as_str()));
        proof {
            assert(sentences[i as int] == t@[i as int].text@);
            assert(string_texts(key_points@) =~= string_texts(k0).push(point(sentences[i as int])));
            assert(sentences.take(i + 1) =~= sentences.take(i as int).push(sentences[i as int]));
            assert(points(sentences.take(i + 1)) =~= points(sentences.take(i as int)).push(point(sentences[i as int])));
        }
    }
    let words = decision_words();
    let mut decisions: Vec<String> = Vec::new();
    let ghost pred = decision_pred();
    for i in 0..t.len()
        invariant
            sentences == texts_of(t@),
            str_texts(words@) == decision_keywords(),
            pred == decision_pred(),
            decisions@.len() <= 3,
            ({
                let d = sentences.take(i as int).filter(pred);
                string_texts(decisions@) == points(d.take(if d.len() < 3 { d.len() as int } else { 3 }))
            }),
    {
        proof {
            reveal_with_fuel(Seq::filter, 1);
            assert(sentences.take(i + 1).drop_last() =~= sentences.take(i as int));
            assert(sentences.take(i + 1).last() == t@[i as int].text@);
        }
        let ghost d0 = sentences.take(i as int).filter(pred);
        let ghost dec0 = decisions@;
        let is_dec = mentions(t[i].text.as_str(), &words);
        proof {
            reveal_with_fuel(Seq::filter, 1);
            assert(is_dec == is_decision(t@[i as int].text@));
            let s1 = sentences.take(i + 1);
            assert(s1.drop_last() =~= sentences.take(i as int));
            assert(s1.last() == t@[i as int].text@);
            assert(s1.len() > 0);
            let d1 = s1.filter(pred);
            assert(d1 == if pred(s1.last()) { s1.drop_last().filter(pred).push(s1.last()) } else { s1.drop_last().filter(pred) });
            if is_dec {
                assert(d1 == d0.push(t@[i as int].text@));
            } else {
                assert(d1 == d0);
            }
        }
        if decisions.len() < 3 && is_dec {
            decisions.push(point_of(t[i].text.as_str()));
            proof {
                let d1 = sentences.take(i + 1).filter(pred);
                assert(d0.len() < 3);
                assert(d1.take(d1.len() as int) =~= d1);
                assert(d0.take(d0.len() as int) =~= d0);
                assert(string_texts(decisions@) =~= string_texts(dec0).push(point(t@[i as int].text@)));
                assert(points(d1) =~= points(d0).push(point(t@[i as int].text@)));
            }
        } else {
            proof {
                let d1 = sentences.take(i + 1).filter(pred);
                if is_dec {
                    let n0: int = if d0.len() < 3 { d0.len() as int } else { 3 };
                    assert(string_texts(dec0).len() == dec0.len());
                    assert(points(d0.take(n0)).len() == d0.take(n0).len());
                    assert(dec0.len() >= 3);
                    assert(d0.len() >= 3);
                    assert(d1.take(3) =~= d0.take(3));
                }
            }
        }
    }
    proof {
        assert(sentences.take(t@.len() as int) =~= sentences);
    }
    MeetingSummary {
        tldr,
        key_points,
        decisions,
        generated_at_ms: now_ms,
        model: String::from_str("local · summarizer-v1"),
    }
}

/// Produces a summary and action items from a finished meeting; another
/// summarizer (a cloud or local model) can stand in for the built-in one.
pub trait Summarizer: Send + Sync {
    /// The meeting's summary.
    fn summarize(&self, meeting: &Meeting) -> MeetingSummary;

    /// The meeting's action items.
    fn action_items(&self, meeting: &Meeting) -> Vec<ActionItem>;
}

/// The built-in summarizer.
pub struct HeuristicSummarizer;

impl Summarizer for HeuristicSummarizer {
    /// Summarize a meeting now (`summarize_at` with the current time).
    fn summarize(&self, meeting: &Meeting) -> (s: MeetingSummary)
        ensures
            s.tldr@ == spec_tldr(meeting.title@, texts_of(meeting.transcript@)),
            string_texts(s.key_points@) == spec_key_points(texts_of(meeting.transcript@)),
            string_texts(s.decisions@) == spec_decisions(texts_of(meeting.transcript@)),
            s.model@ == summarizer_model(),
    {
        summarize_at(meeting, now_millis())
    }

    /// Action items: the first five transcript segments that mention a
    /// commitment, each open and assigned to its speaker.
    fn action_items(&self, meeting: &Meeting) -> (r: Vec<ActionItem>)
        ensures
            r@.len() == spec_action_segments(meeting.transcript@).len(),
            forall|k: int| 0 <= k < r@.len() ==> {
                let s = spec_action_segments(meeting.transcript@)[k];
                &&& is_fresh_id((#[trigger] r@[k]).id@, "a_"@)
                &&& r@[k].text@ == s.text@
                &&& !r@[k].done
                &&& r@[k].assignee matches Some(a) && a@ == s.speaker@
                &&& r@[k].due_date is None
            },
    {
        let t = &meeting.transcript;
        let words = action_words();
        let ghost pred = action_pred();
        let mut items: Vec<ActionItem> = Vec::new();
        for i in 0..t.len()
            invariant
                str_texts(words@) == action_keywords(),
                pred == action_pred(),
                items@.len() <= 5,
                ({
                    let a = t@.take(i as int).filter(pred);
                    &&& items@.len() == (if a.len() < 5 { a.len() } else { 5 })
                    &&& forall|k: int| 0 <= k < items@.len() ==> {
                        let s = a[k];
                        &&& is_fresh_id((#[trigger] items@[k]).id@, "a_"@)
                        &&& items@[k].text@ == s.text@
                        &&& !items@[k].done
                        &&& items@[k].assignee matches Some(x) && x@ == s.speaker@
                        &&& items@[k].due_date is None
                    }
                }),
        {
            proof {
                reveal_with_fuel(Seq::filter, 1);
                assert(t@.take(i + 1).drop_last() =~= t@.take(i as int));
                assert(t@.take(i + 1).last() == t@[i as int]);
            }
            let ghost a0 = t@.take(i as int).filter(pred);
            let is_act = mentions(t[i].text.as_str(), &words);
            proof {
                reveal_with_fuel(Seq::filter, 1);
                assert(is_act == is_action(t@[i as int]));
                let s1 = t@.take(i + 1);
                assert(s1.drop_last() =~= t@.take(i as int));
                assert(s1.last() == t@[i as int]);
                let a1 = s1.filter(pred);
                assert(a1 == if pred(s1.last()) { s1.drop_last().filter(pred).push(s1.last()) } else { s1.drop_last().filter(pred) });
                if is_act {
                    assert(a1 == a0.push(t@[i as int]));
                } else {
                    assert(a1 == a0);
                }
            }
            if items.len() < 5 && is_act {
                let s = &t[i];
                items.push(ActionItem {
                    id: prefixed_id("a_"),
                    text: s.text.clone(),
                    done: false,
                    assignee: Some(s.speaker.clone()),
                    due_date: None,
                });
                proof {
                    let a1 = t@.take(i + 1).filter(pred);
                    assert forall|k: int| 0 <= k < items@.len() implies a1[k] == (if k < a0.len() { a0[k] } else { t@[i as int] }) by {}
                }
            } else {
                proof {
                    let a1 = t@.take(i + 1).filter(pred);
                    assert forall|k: int| 0 <= k < items@.len() implies a1[k] == a0[k] by {}
                }
            }
        }
        proof {
            assert(t@.take(t@.len() as int) =~= t@);
            let a = t@.filter(pred);
            assert(a.take(if a.len() < 5 { a.len() as int } else { 5 }).len() == items@.len());
        }
        items
    }
}

/// `is_decision` is the keyword test on the words "decid", "agree", "commit",
/// "let's" and "we'll".
proof fn lemma_decision_words(text: Seq<char>)
    ensures
        is_decision(text) == (has_sub(unicode_lowercase(text), "decid"@) || has_sub(unicode_lowercase(text), "agree"@)
            || has_sub(unicode_lowercase(text), "commit"@) || has_sub(unicode_lowercase(text), "let's"@)
            || has_sub(unicode_lowercase(text), "we'll"@)),
{
    let ks = decision_keywords();
    let l = unicode_lowercase(text);
    assert(ks[0] == "decid"@ && ks[1] == "agree"@ && ks[2] == "commit"@ && ks[3] == "let's"@ && ks[4] == "we'll"@);
    if has_sub(l, "decid"@) { assert(has_sub(l, ks[0])); }
    if has_sub(l, "agree"@) { assert(has_sub(l, ks[1])); }
    if has_sub(l, "commit"@) { assert(has_sub(l, ks[2])); }
    if has_sub(l, "let's"@) { assert(has_sub(l, ks[3])); }
    if has_sub(l, "we'll"@) { assert(has_sub(l, ks[4])); }
}

/// `is_action` is the keyword test on the words "i'll", "we'll", "follow up",
/// "need to", "will " and "action".
proof fn lemma_action_words(s: TranscriptSegment)
    ensures
        is_action(s) == (has_sub(unicode_lowercase(s.text@), "i'll"@) || has_sub(unicode_lowercase(s.text@), "we'll"@)
            || has_sub(unicode_lowercase(s.text@), "follow up"@) || has_sub(unicode_lowercase(s.text@), "need to"@)
            || has_sub(unicode_lowercase(s.text@), "will "@) || has_sub(unicode_lowercase(s.text@), "action"@)),
{
    let ks = action_keywords();
    let l = unicode_lowercase(s.text@);
    assert(ks[0] == "i'll"@ && ks[1] == "we'll"@ && ks[2] == "follow up"@ && ks[3] == "need to"@ && ks[4] == "will "@
        && ks[5] == "action"@);
    if has_sub(l, "i'll"@) { assert(has_sub(l, ks[0])); }
    if has_sub(l, "we'll"@) { assert(has_sub(l, ks[1])); }
    if has_sub(l, "follow up"@) { assert(has_sub(l, ks[2])); }
    if has_sub(l, "need to"@) { assert(has_sub(l, ks[3])); }
    if has_sub(l, "will "@) { assert(has_sub(l, ks[4])); }
    if has_sub(l, "action"@) { assert(has_sub(l, ks[5])); }
}

/// The built-in summary's decisions are the first three transcript sentences
/// whose lower-cased text contains "decid", "agree", "commit", "let's" or
/// "we'll", in transcript order, each without its trailing full stops.
pub proof fn law_summary_decisions(sentences: Seq<Seq<char>>)
    ensures
        ({
            let d = sentences.filter(|t: Seq<char>| has_sub(unicode_lowercase(t), "decid"@)
                || has_sub(unicode_lowercase(t), "agree"@) || has_sub(unicode_lowercase(t), "commit"@)
                || has_sub(unicode_lowercase(t), "let's"@) || has_sub(unicode_lowercase(t), "we'll"@));
            spec_decisions(sentences) == d.take(if d.len() < 3 { d.len() as int } else { 3 }).map_values(
                |t: Seq<char>| trim_end_char(t, '.'),
            )
        }),
{
    let lit = |t: Seq<char>| has_sub(unicode_lowercase(t), "decid"@)
        || has_sub(unicode_lowercase(t), "agree"@) || has_sub(unicode_lowercase(t), "commit"@)
        || has_sub(unicode_lowercase(t), "let's"@) || has_sub(unicode_lowercase(t), "we'll"@);
    assert forall|t: Seq<char>| #[trigger] decision_pred()(t) == lit(t) by {
        lemma_decision_words(t);
    }
    assert(decision_pred() =~= lit);
    let d = sentences.filter(lit);
    let n: int = if d.len() < 3 { d.len() as int } else { 3 };
    assert(points(d.take(n)) =~= d.take(n).map_values(|t: Seq<char>| trim_end_char(t, '.')));
}

/// The built-in action items come from the first five transcript segments
/// whose lower-cased text contains "i'll", "we'll", "follow up", "need to",
/// "will " or "action", in transcript order.
pub proof fn law_action_segments(t: Seq<TranscriptSegment>)
    ensures
        ({
            let a = t.filter(|s: TranscriptSegment| has_sub(unicode_lowercase(s.text@), "i'll"@)
                || has_sub(unicode_lowercase(s.text@), "we'll"@) || has_sub(unicode_lowercase(s.text@), "follow up"@)
                || has_sub(unicode_lowercase(s.text@), "need to"@) || has_sub(unicode_lowercase(s.text@), "will "@)
                || has_sub(unicode_lowercase(s.text@), "action"@));
            spec_action_segments(t) == a.take(if a.len() < 5 { a.len() as int } else { 5 })
        }),
{
    let lit = |s: TranscriptSegment| has_sub(unicode_lowercase(s.text@), "i'll"@)
        || has_sub(unicode_lowercase(s.text@), "we'll"@) || has_sub(unicode_lowercase(s.text@), "follow up"@)
        || has_sub(unicode_lowercase(s.text@), "need to"@) || has_sub(unicode_lowercase(s.text@), "will "@)
        || has_sub(unicode_lowercase(s.text@), "action"@);
    assert forall|s: TranscriptSegment| #[trigger] action_pred()(s) == lit(s) by {
        lemma_action_words(s);
    }
    assert(action_pred() =~= lit);
}

/// The built-in summary's key points are the first four transcript sentences,
/// each without its trailing full stops; its overview is "Discussion covering
/// <lower-cased title>. " and the first one or two sentences (joined by a
/// space), or "No speech was captured for this session." for an empty
/// transcript.
pub proof fn law_summary_overview_and_points(title: Seq<char>, sentences: Seq<Seq<char>>)
    ensures
        spec_key_points(sentences) == sentences.take(if sentences.len() < 4 { sentences.len() as int } else { 4 })
            .map_values(|t: Seq<char>| trim_end_char(t, '.')),
        sentences.len() == 0 ==> spec_tldr(title, sentences) == "No speech was captured for this session."@,
        sentences.len() == 1 ==> spec_tldr(title, sentences) == "Discussion covering "@ + unicode_lowercase(title)
            + ". "@ + sentences[0],
        sentences.len() >= 2 ==> spec_tldr(title, sentences) == "Discussion covering "@ + unicode_lowercase(title)
            + ". "@ + sentences[0] + " "@ + sentences[1],
{
    let n: int = if sentences.len() < 4 { sentences.len() as int } else { 4 };
    assert(points(sentences.take(n)) =~= sentences.take(n).map_values(|t: Seq<char>| trim_end_char(t, '.')));
    if sentences.len() >= 2 {
        assert("Discussion covering "@ + unicode_lowercase(title) + ". "@ + (sentences[0] + " "@ + sentences[1])
            =~= "Discussion covering "@ + unicode_lowercase(title) + ". "@ + sentences[0] + " "@ + sentences[1]);
    }
}

} // verus!
