//! Recording-session bookkeeping: file names, talk-time accounting, the
//! meeting record at stop, the post-processing plan, and the recorder's
//! state machine over meetings, detections, status and the running capture.

use vstd::prelude::*;

use crate::audio::SpeakerSegment;
use crate::engine::detection::{
    baseline_for, baseline_update, detection_enabled, detection_key, fresh_candidates, gone, ids_of,
    is_detection_of, key, owned_by_recorder, still_current, texts, DetectedSet, GraceCounter,
    grace_step,
};
use crate::error::{error_message, AppError};
use crate::models::copy::same_meeting;
use crate::models::{
    CaptureMode, DetectedMeeting, Meeting, MeetingPlatform, MeetingStatus, Participant, RecorderState,
    RecorderStatus, TimelineKind, TimelineMarker, TranscriptSegment,
};
use crate::platform::detect::Candidate;
use crate::state::{index_of, lookup, upserted, MeetingStore};
use crate::tray::{spec_state_after_mode, state_after_mode};
use crate::engine::library::spec_join;
use crate::text::{
    eq_pred, is_ascii_alnum, lemma_trim_left_suffix, lemma_trim_right_prefix, trim_left_by,
    chars_of, keep_alnum_or, map_non_alnum, same_text, string_of, to_lowercase, trim_char,
    trim_matches, unicode_lowercase,
};

verus! {

/// The file-name slug of an already lower-cased title: every character that is
/// not an ASCII letter or digit becomes `-`, dashes are trimmed from both ends,
/// and an empty result becomes `recording`.
pub open spec fn spec_slug(lower: Seq<char>) -> Seq<char> {
    let t = trim_char(lower.map_values(|c: char| keep_alnum_or(c, '-')), '-');
    if t.len() == 0 { "recording"@ } else { t }
}

/// The slug of a lower-cased title.
pub fn slugify_lower(lower: &str) -> (r: String)
    ensures
        r@ == spec_slug(lower@),
{
    let m = map_non_alnum(&chars_of(lower), '-');
    let t = trim_matches(&m, '-');
    if t.len() == 0 {
        String::from_str("recording")
    } else {
        string_of(&t)
    }
}

/// A file-name slug for a meeting title (lower-cased first).
pub fn slugify(title: &str) -> (r: String)
    ensures
        r@ == spec_slug(unicode_lowercase(title@)),
{
    let lower = to_lowercase(title);
    slugify_lower(lower.as_str())
}

/// The recording's file stem: `<slug>-<meeting id>`, so that two meetings with
/// the same title never share a file.
pub fn recording_stem(slug: &str, meeting_id: &str) -> (r: String)
    ensures
        r@ == slug@ + "-"@ + meeting_id@,
{
    String::from_str(slug).concat("-").concat(meeting_id)
}

/// No slug begins with `/`: its characters are ASCII letters, digits and `-`.
proof fn lemma_slug_not_absolute(lower: Seq<char>)
    ensures
        spec_slug(lower).len() > 0,
        spec_slug(lower)[0] != '/',
{
    reveal_strlit("recording");
    let m = lower.map_values(|c: char| keep_alnum_or(c, '-'));
    let l = trim_left_by(m, eq_pred('-'));
    lemma_trim_left_suffix(m, eq_pred('-'));
    lemma_trim_right_prefix(l, eq_pred('-'));
    let t = trim_char(m, '-');
    if t.len() > 0 {
        let i = choose|i: int| 0 <= i <= m.len() && l == m.subrange(i, m.len() as int);
        let e = choose|e: int| 0 <= e <= l.len() && t == l.subrange(0, e);
        assert(t[0] == m[i]);
        assert(m[i] == keep_alnum_or(lower[i], '-'));
    }
}

/// Two meetings with different ids never record into the same file of a
/// folder, even when their titles are the same: the file is
/// `<slug>-<meeting id>.wav`.
pub proof fn lemma_distinct_meetings_distinct_files(dir: Seq<char>, lower_title: Seq<char>, id1: Seq<char>, id2: Seq<char>)
    requires
        id1 != id2,
    ensures
        spec_join(dir, spec_slug(lower_title) + "-"@ + id1 + ".wav"@)
            != spec_join(dir, spec_slug(lower_title) + "-"@ + id2 + ".wav"@),
{
    reveal_strlit("-");
    reveal_strlit(".wav");
    lemma_slug_not_absolute(lower_title);
    let s = spec_slug(lower_title);
    let n1 = s + "-"@ + id1 + ".wav"@;
    let n2 = s + "-"@ + id2 + ".wav"@;
    assert("-"@.len() == 1 && ".wav"@.len() == 4);
    assert(n1.len() == s.len() + 1 + id1.len() + 4);
    assert(n2.len() == s.len() + 1 + id2.len() + 4);
    assert(n1[0] == s[0] && n2[0] == s[0]);
    if n1 == n2 {
        assert(n1.len() == n2.len());
        assert(id1.len() == id2.len());
        assert forall|j: int| 0 <= j < id1.len() implies id1[j] == id2[j] by {
            assert(n1[s.len() + 1 + j] == id1[j]);
            assert(n2[s.len() + 1 + j] == id2[j]);
        }
        assert(id1 =~= id2);
    }
    let j1 = spec_join(dir, n1);
    let j2 = spec_join(dir, n2);
    if dir.len() > 0 && j1 == j2 {
        let pre = if dir.last() == '/' { dir } else { dir + "/"@ };
        assert(j1 == pre + n1 && j2 == pre + n2);
        assert(j1.len() == pre.len() + n1.len());
        assert(j2.len() == pre.len() + n2.len());
        assert(n1.len() == n2.len());
        assert forall|j: int| 0 <= j < n1.len() implies n1[j] == n2[j] by {
            assert(j1[pre.len() + j] == n1[j]);
            assert(j2[pre.len() + j] == n2[j]);
        }
        assert(n1 =~= n2);
    }
}

/// Length of a segment, zero when it ends before it starts.
pub open spec fn seg_ms(start: u64, end: u64) -> nat {
    if end >= start { (end - start) as nat } else { 0 }
}

/// Speakers of a transcript in order of first appearance.
pub open spec fn speakers(segs: Seq<TranscriptSegment>) -> Seq<Seq<char>>
    decreases segs.len(),
{
    if segs.len() == 0 {
        Seq::empty()
    } else {
        let prev = speakers(segs.drop_last());
        let name = segs.last().speaker@;
        if prev.contains(name) { prev } else { prev.push(name) }
    }
}

/// Total talk time of `name` in a transcript.
pub open spec fn talk_of(segs: Seq<TranscriptSegment>, name: Seq<char>) -> nat
    decreases segs.len(),
{
    if segs.len() == 0 {
        0
    } else {
        let s = segs.last();
        talk_of(segs.drop_last(), name) + if s.speaker@ == name { seg_ms(s.start_ms, s.end_ms) } else { 0 }
    }
}

/// Total talk time of a transcript.
pub open spec fn total_talk(segs: Seq<TranscriptSegment>) -> nat
    decreases segs.len(),
{
    if segs.len() == 0 {
        0
    } else {
        total_talk(segs.drop_last()) + seg_ms(segs.last().start_ms, segs.last().end_ms)
    }
}

proof fn lemma_talk_le_total(segs: Seq<TranscriptSegment>, name: Seq<char>)
    ensures
        talk_of(segs, name) <= total_talk(segs),
    decreases segs.len(),
{
    if segs.len() > 0 {
        lemma_talk_le_total(segs.drop_last(), name);
    }
}

proof fn lemma_total_monotone(segs: Seq<TranscriptSegment>, i: int)
    requires
        0 <= i <= segs.len(),
    ensures
        total_talk(segs.subrange(0, i)) <= total_talk(segs),
    decreases segs.len() - i,
{
    if i < segs.len() {
        lemma_total_monotone(segs, i + 1);
        assert(segs.subrange(0, i + 1).drop_last() =~= segs.subrange(0, i));
    } else {
        assert(segs.subrange(0, i) =~= segs);
    }
}

/// The summed talk time of the speakers `names`.
pub open spec fn sum_talk(segs: Seq<TranscriptSegment>, names: Seq<Seq<char>>) -> nat
    decreases names.len(),
{
    if names.len() == 0 {
        0
    } else {
        sum_talk(segs, names.drop_last()) + talk_of(segs, names.last())
    }
}

proof fn lemma_sum_step(segs: Seq<TranscriptSegment>, names: Seq<Seq<char>>)
    requires
        segs.len() > 0,
        forall|i: int, j: int| 0 <= i < j < names.len() ==> names[i] != names[j],
    ensures
        sum_talk(segs, names) == sum_talk(segs.drop_last(), names) + (if names.contains(segs.last().speaker@) {
            seg_ms(segs.last().start_ms, segs.last().end_ms)
        } else {
            0
        }),
    decreases names.len(),
{
    if names.len() > 0 {
        let init = names.drop_last();
        lemma_sum_step(segs, init);
        let x = segs.last().speaker@;
        if names.last() == x {
            if init.contains(x) {
                let k = choose|k: int| 0 <= k < init.len() && init[k] == x;
                assert(names[k] == names[names.len() - 1]);
            }
        } else {
            if names.contains(x) {
                let k = choose|k: int| 0 <= k < names.len() && names[k] == x;
                assert(init[k] == x);
            }
            if init.contains(x) {
                let k = choose|k: int| 0 <= k < init.len() && init[k] == x;
                assert(names[k] == x);
            }
        }
    }
}

/// Talk time is neither lost nor counted twice: the talk times of a
/// transcript's speakers add up to the transcript's total talk time.
pub proof fn lemma_talk_shares_add_up(segs: Seq<TranscriptSegment>)
    ensures
        sum_talk(segs, speakers(segs)) == total_talk(segs),
    decreases segs.len(),
{
    if segs.len() > 0 {
        let prev = segs.drop_last();
        let x = segs.last().speaker@;
        lemma_talk_shares_add_up(prev);
        lemma_speakers_distinct(segs);
        lemma_speakers_distinct(prev);
        if speakers(prev).contains(x) {
            lemma_sum_step(segs, speakers(prev));
        } else {
            let sp = speakers(prev).push(x);
            assert(speakers(segs) == sp);
            assert(sp.drop_last() =~= speakers(prev));
            lemma_sum_step(segs, speakers(prev));
            lemma_absent_speaker_silent(prev, x);
        }
    }
}

/// Whether the total talk time of a transcript fits in a `u64`.
pub fn talk_fits(segs: &[TranscriptSegment]) -> (b: bool)
    ensures
        b == (total_talk(segs@) <= u64::MAX),
{
    let mut total: u64 = 0;
    for i in 0..segs.len()
        invariant
            total == total_talk(segs@.subrange(0, i as int)),
    {
        proof {
            assert(segs@.subrange(0, i + 1).drop_last() =~= segs@.subrange(0, i as int));
        }
        let d = segs[i].end_ms.saturating_sub(segs[i].start_ms);
        match total.checked_add(d) {
            Some(t) => total = t,
            None => {
                proof {
                    lemma_total_monotone(segs@, i + 1);
                }
                return false;
            },
        }
    }
    assert(segs@.subrange(0, segs@.len() as int) =~= segs@);
    true
}

proof fn lemma_speakers_distinct(segs: Seq<TranscriptSegment>)
    ensures
        forall|i: int, j: int| 0 <= i < j < speakers(segs).len() ==> speakers(segs)[i] != speakers(segs)[j],
    decreases segs.len(),
{
    if segs.len() > 0 {
        let prev = speakers(segs.drop_last());
        lemma_speakers_distinct(segs.drop_last());
        let name = segs.last().speaker@;
        if !prev.contains(name) {
            assert forall|i: int, j: int| 0 <= i < j < speakers(segs).len() implies speakers(segs)[i] != speakers(segs)[j] by {
                if j == prev.len() {
                    assert(speakers(segs)[i] == prev[i]);
                }
            }
        }
    }
}

proof fn lemma_absent_speaker_silent(segs: Seq<TranscriptSegment>, name: Seq<char>)
    requires
        !speakers(segs).contains(name),
    ensures
        talk_of(segs, name) == 0,
    decreases segs.len(),
{
    if segs.len() > 0 {
        let prev = speakers(segs.drop_last());
        if prev.contains(name) {
            let k = choose|k: int| 0 <= k < prev.len() && prev[k] == name;
            assert(speakers(segs).contains(name) || speakers(segs) == prev.push(segs.last().speaker@));
            if speakers(segs) == prev {
                assert(speakers(segs)[k] == name);
            } else {
                assert(speakers(segs)[k] == name);
            }
        }
        lemma_absent_speaker_silent(segs.drop_last(), name);
        if segs.last().speaker@ == name {
            assert(prev.contains(name) || speakers(segs) == prev.push(name));
            if !prev.contains(name) {
                assert(speakers(segs)[prev.len() as int] == name);
            }
        }
    }
}

/// Per-speaker talk time of a finished transcript, one entry per speaker in
/// order of first appearance, and the total talk time.
pub fn talk_times(segs: &[TranscriptSegment]) -> (r: (Vec<(String, u64)>, u64))
    requires
        total_talk(segs@) <= u64::MAX,
    ensures
        r.0@.len() == speakers(segs@).len(),
        forall|k: int| 0 <= k < r.0@.len() ==> {
            &&& (#[trigger] r.0@[k]).0@ == speakers(segs@)[k]
            &&& r.0@[k].1 == talk_of(segs@, speakers(segs@)[k])
        },
        r.1 == total_talk(segs@),
{
    let mut out: Vec<(String, u64)> = Vec::new();
    let mut total: u64 = 0;
    for i in 0..segs.len()
        invariant
            total_talk(segs@) <= u64::MAX,
            total == total_talk(segs@.subrange(0, i as int)),
            out@.len() == speakers(segs@.subrange(0, i as int)).len(),
            forall|k: int| 0 <= k < out@.len() ==> {
                &&& (#[trigger] out@[k]).0@ == speakers(segs@.subrange(0, i as int))[k]
                &&& out@[k].1 == talk_of(segs@.subrange(0, i as int), speakers(segs@.subrange(0, i as int))[k])
            },
    {
        let ghost pre = segs@.subrange(0, i as int);
        let ghost next = segs@.subrange(0, i + 1);
        let s = &segs[i];
        proof {
            assert(next.drop_last() =~= pre);
            assert(next.last() == *s);
            lemma_total_monotone(segs@, i + 1);
            lemma_speakers_distinct(pre);
            lemma_talk_le_total(next, s.speaker@);
        }
        let d = s.end_ms.saturating_sub(s.start_ms);
        let mut pos: Option<usize> = None;
        for k in 0..out.len()
            invariant
                out@.len() == speakers(pre).len(),
                forall|j: int| 0 <= j < out@.len() ==> (#[trigger] out@[j]).0@ == speakers(pre)[j],
                match pos {
                    Some(p) => p < k && speakers(pre)[p as int] == s.speaker@,
                    None => forall|j: int| 0 <= j < k ==> speakers(pre)[j] != s.speaker@,
                },
        {
            if pos.is_none() && same_text(out[k].0.as_str(), s.speaker.as_str()) {
                pos = Some(k);
            }
        }
        match pos {
            Some(p) => {
                let name = out[p].0.clone();
                let t = out[p].1 + d;
                out.set(p, (name, t));
                proof {
                    assert(speakers(pre).contains(s.speaker@));
                    assert(speakers(next) == speakers(pre));
                }
            },
            None => {
                proof {
                    assert(!speakers(pre).contains(s.speaker@));
                    lemma_absent_speaker_silent(pre, s.speaker@);
                    assert(speakers(next) == speakers(pre).push(s.speaker@));
                }
                out.push((s.speaker.clone(), d));
            },
        }
        total = total + d;
    }
    proof {
        assert(segs@.subrange(0, segs@.len() as int) =~= segs@);
    }
    (out, total)
}


/// Talk time of `name` over voice-activity segments.
pub open spec fn voice_talk(segs: Seq<SpeakerSegment>, name: Seq<char>) -> nat
    decreases segs.len(),
{
    if segs.len() == 0 {
        0
    } else {
        let s = segs.last();
        voice_talk(segs.drop_last(), name) + if s.speaker@ == name { seg_ms(s.start_ms, s.end_ms) } else { 0 }
    }
}

/// Total talk time over voice-activity segments.
pub open spec fn voice_total(segs: Seq<SpeakerSegment>) -> nat
    decreases segs.len(),
{
    if segs.len() == 0 {
        0
    } else {
        voice_total(segs.drop_last()) + seg_ms(segs.last().start_ms, segs.last().end_ms)
    }
}

/// Some segment belongs to `name`.
pub open spec fn voice_present(segs: Seq<SpeakerSegment>, name: Seq<char>) -> bool {
    exists|i: int| 0 <= i < segs.len() && (#[trigger] segs[i]).speaker@ == name
}

/// The voice-activity participants: "You" then "Remote", each only when it
/// spoke, with its talk time.
pub open spec fn voice_roster(segs: Seq<SpeakerSegment>) -> Seq<(Seq<char>, nat)> {
    let you = if voice_present(segs, "You"@) { seq![("You"@, voice_talk(segs, "You"@))] } else { Seq::empty() };
    let remote = if voice_present(segs, "Remote"@) {
        seq![("Remote"@, voice_talk(segs, "Remote"@))]
    } else {
        Seq::empty()
    };
    you + remote
}

proof fn lemma_voice_bounds(segs: Seq<SpeakerSegment>, i: int, name: Seq<char>)
    requires
        0 <= i <= segs.len(),
    ensures
        voice_total(segs.subrange(0, i)) <= voice_total(segs),
        voice_talk(segs.subrange(0, i), name) <= voice_total(segs.subrange(0, i)),
    decreases segs.len() - i,
{
    lemma_voice_talk_le(segs.subrange(0, i), name);
    if i < segs.len() {
        lemma_voice_bounds(segs, i + 1, name);
        assert(segs.subrange(0, i + 1).drop_last() =~= segs.subrange(0, i));
    } else {
        assert(segs.subrange(0, i) =~= segs);
    }
}

proof fn lemma_voice_talk_le(segs: Seq<SpeakerSegment>, name: Seq<char>)
    ensures
        voice_talk(segs, name) <= voice_total(segs),
    decreases segs.len(),
{
    if segs.len() > 0 {
        lemma_voice_talk_le(segs.drop_last(), name);
    }
}

/// Every segment belongs to the local or the far-end speaker.
pub open spec fn two_voices(segs: Seq<SpeakerSegment>) -> bool {
    forall|i: int| 0 <= i < segs.len() ==> #[trigger] segs[i].speaker@ == "You"@ || segs[i].speaker@ == "Remote"@
}

/// The summed talk time of a roster.
pub open spec fn roster_total(r: Seq<(Seq<char>, nat)>) -> nat
    decreases r.len(),
{
    if r.len() == 0 {
        0
    } else {
        roster_total(r.drop_last()) + r.last().1
    }
}

proof fn lemma_voice_split(segs: Seq<SpeakerSegment>)
    requires
        two_voices(segs),
    ensures
        voice_total(segs) == voice_talk(segs, "You"@) + voice_talk(segs, "Remote"@),
    decreases segs.len(),
{
    reveal_strlit("You");
    reveal_strlit("Remote");
    if segs.len() > 0 {
        let prev = segs.drop_last();
        assert(two_voices(prev)) by {
            assert forall|i: int| 0 <= i < prev.len() implies #[trigger] prev[i].speaker@ == "You"@ || prev[i].speaker@ == "Remote"@ by {
                assert(prev[i] == segs[i]);
            }
        }
        lemma_voice_split(prev);
        assert(segs.last() == segs[segs.len() - 1]);
        assert("You"@ != "Remote"@) by {
            assert("You"@.len() != "Remote"@.len());
        }
    }
}

proof fn lemma_silent_voice(segs: Seq<SpeakerSegment>, name: Seq<char>)
    requires
        !voice_present(segs, name),
    ensures
        voice_talk(segs, name) == 0,
    decreases segs.len(),
{
    if segs.len() > 0 {
        let prev = segs.drop_last();
        assert(!voice_present(prev, name)) by {
            if voice_present(prev, name) {
                let i = choose|i: int| 0 <= i < prev.len() && (#[trigger] prev[i]).speaker@ == name;
                assert(segs[i] == prev[i]);
            }
        }
        assert(segs[segs.len() - 1].speaker@ != name);
        lemma_silent_voice(prev, name);
    }
}

/// When every segment is the local or the far-end speaker, their talk times
/// in the voice roster add up to the total talk time.
pub proof fn lemma_voice_shares_add_up(segs: Seq<SpeakerSegment>)
    requires
        two_voices(segs),
    ensures
        roster_total(voice_roster(segs)) == voice_total(segs),
{
    lemma_voice_split(segs);
    if !voice_present(segs, "You"@) {
        lemma_silent_voice(segs, "You"@);
    }
    if !voice_present(segs, "Remote"@) {
        lemma_silent_voice(segs, "Remote"@);
    }
    let r = voice_roster(segs);
    reveal_with_fuel(roster_total, 3);
    if r.len() == 2 {
        assert(r.drop_last().drop_last() =~= Seq::<(Seq<char>, nat)>::empty());
    } else if r.len() == 1 {
        assert(r.drop_last() =~= Seq::<(Seq<char>, nat)>::empty());
    }
}

/// Talk time of the local ("You") and far-end ("Remote") speakers from the
/// voice-activity segments, in that order and only for those who spoke, plus
/// the total talk time.
pub fn voice_talk_times(segs: &[SpeakerSegment]) -> (r: (Vec<(&'static str, u64)>, u64))
    requires
        voice_total(segs@) <= u64::MAX,
    ensures
        r.0@.len() == voice_roster(segs@).len(),
        forall|k: int| 0 <= k < r.0@.len() ==> (#[trigger] r.0@[k]).0@ == voice_roster(segs@)[k].0
            && r.0@[k].1 == voice_roster(segs@)[k].1,
        r.1 == voice_total(segs@),
{
    let mut you: u64 = 0;
    let mut remote: u64 = 0;
    let mut you_seen = false;
    let mut remote_seen = false;
    let mut total: u64 = 0;
    for i in 0..segs.len()
        invariant
            voice_total(segs@) <= u64::MAX,
            total == voice_total(segs@.subrange(0, i as int)),
            you == voice_talk(segs@.subrange(0, i as int), "You"@),
            remote == voice_talk(segs@.subrange(0, i as int), "Remote"@),
            you_seen == voice_present(segs@.subrange(0, i as int), "You"@),
            remote_seen == voice_present(segs@.subrange(0, i as int), "Remote"@),
    {
        let ghost pre = segs@.subrange(0, i as int);
        let ghost next = segs@.subrange(0, i + 1);
        let s = &segs[i];
        proof {
            assert(next.drop_last() =~= pre);
            assert(next.last() == *s);
            lemma_voice_bounds(segs@, i + 1, "You"@);
            lemma_voice_bounds(segs@, i + 1, "Remote"@);
            assert forall|name: Seq<char>| voice_present(next, name) == (voice_present(pre, name) || s.speaker@ == name) by {
                if voice_present(next, name) && !(s.speaker@ == name) {
                    let j = choose|j: int| 0 <= j < next.len() && (#[trigger] next[j]).speaker@ == name;
                    assert(pre[j] == next[j]);
                }
                if voice_present(pre, name) {
                    let j = choose|j: int| 0 <= j < pre.len() && (#[trigger] pre[j]).speaker@ == name;
                    assert(next[j] == pre[j]);
                }
                if s.speaker@ == name {
                    assert(next[i as int] == *s);
                }
            }
        }
        let d = s.end_ms.saturating_sub(s.start_ms);
        if same_text(s.speaker, "You") {
            you = you + d;
            you_seen = true;
        }
        if same_text(s.speaker, "Remote") {
            remote = remote + d;
            remote_seen = true;
        }
        total = total + d;
    }
    proof {
        assert(segs@.subrange(0, segs@.len() as int) =~= segs@);
    }
    let mut out: Vec<(&'static str, u64)> = Vec::new();
    if you_seen {
        out.push(("You", you));
    }
    if remote_seen {
        out.push(("Remote", remote));
    }
    proof {
        let r = voice_roster(segs@);
        assert(out@.len() == r.len());
        assert forall|k: int| 0 <= k < out@.len() implies (#[trigger] out@[k]).0@ == r[k].0 && out@[k].1 == r[k].1 by {
            if you_seen {
                assert(r[0] == ("You"@, voice_talk(segs@, "You"@)));
            }
        }
    }
    (out, total)
}

/// The recorder's state right after a capture stops: idle when the note taker
/// is off, armed otherwise.
pub fn state_after_stop(mode: CaptureMode) -> (r: RecorderState)
    ensures
        r == (if mode == CaptureMode::Off { RecorderState::Idle } else { RecorderState::Armed }),
{
    if mode == CaptureMode::Off {
        RecorderState::Idle
    } else {
        RecorderState::Armed
    }
}

/// `n` is `o` closed at the end of its capture: the end time, the final
/// media paths, `Processing`, and a "Recording ended" marker at the recorded
/// duration appended to the timeline; nothing else changes.
pub open spec fn finished_meeting(
    o: Meeting,
    n: Meeting,
    ended_at_ms: i64,
    audio_path: Option<String>,
    video_path: Option<String>,
    marker_id: String,
) -> bool {
    &&& n == Meeting {
        ended_at_ms: Some(ended_at_ms),
        audio_path,
        video_path,
        status: MeetingStatus::Processing,
        timeline: n.timeline,
        ..o
    }
    &&& n.timeline@.len() == o.timeline@.len() + 1
    &&& n.timeline@.subrange(0, o.timeline@.len() as int) == o.timeline@
    &&& n.timeline@.last().id == marker_id
    &&& n.timeline@.last().label@ == "Recording ended"@
    &&& n.timeline@.last().at_ms == o.duration_sec * 1000
    &&& n.timeline@.last().kind == TimelineKind::Leave
}

/// Close a meeting record when its capture stops: the end time, the final
/// media paths, a "Recording ended" marker at the recorded duration, and the
/// `Processing` status. Returns the meeting's mode.
pub fn finish_meeting(
    m: &mut Meeting,
    ended_at_ms: i64,
    audio_path: Option<String>,
    video_path: Option<String>,
    marker_id: String,
) -> (mode: CaptureMode)
    requires
        old(m).duration_sec * 1000 <= u64::MAX,
    ensures
        mode == old(m).mode,
        finished_meeting(*old(m), *final(m), ended_at_ms, audio_path, video_path, marker_id),
{
    m.ended_at_ms = Some(ended_at_ms);
    m.audio_path = audio_path;
    m.video_path = video_path;
    let at = m.duration_sec * 1000;
    m.timeline.push(TimelineMarker {
        id: marker_id,
        label: String::from_str("Recording ended"),
        at_ms: at,
        kind: TimelineKind::Leave,
    });
    assert(m.timeline@.subrange(0, old(m).timeline@.len() as int) =~= old(m).timeline@);
    m.status = MeetingStatus::Processing;
    m.mode
}

/// The post-processing that follows a stopped capture.
pub struct FinalizePlan {
    /// Noise suppression (DeepFilterNet, else RNNoise) over the recorded audio.
    pub suppress_noise: bool,
    /// Trim leading and trailing silence.
    pub trim_silence: bool,
    /// Loudness normalization for playback.
    pub normalize: bool,
    /// Mux the audio into the screen recording.
    pub mux_video: bool,
    /// Transcribe, then discard the temporary audio.
    pub transcribe: bool,
}

/// What to do after a capture stops: suppress noise whenever audio was
/// recorded and a noise toggle is on; trim (not for video, whose mux relies on
/// the full length) and normalize only in modes that keep audio; mux when a
/// video and an audio file both exist; transcribe in `Transcribe` mode.
pub open spec fn plan_for(
    mode: CaptureMode,
    has_audio_file: bool,
    has_video_file: bool,
    cancel_others_noise: bool,
    cancel_my_noise: bool,
) -> FinalizePlan {
    FinalizePlan {
        suppress_noise: has_audio_file && (cancel_others_noise || cancel_my_noise),
        trim_silence: mode == CaptureMode::Record && has_audio_file,
        normalize: mode.keeps_audio() && has_audio_file,
        mux_video: mode == CaptureMode::RecordVideo && has_video_file && has_audio_file,
        transcribe: mode == CaptureMode::Transcribe,
    }
}

/// The post-processing plan after a capture stops (see `plan_for`).
pub fn finalize_plan(
    mode: CaptureMode,
    has_audio_file: bool,
    has_video_file: bool,
    cancel_others_noise: bool,
    cancel_my_noise: bool,
) -> (p: FinalizePlan)
    ensures
        p == plan_for(mode, has_audio_file, has_video_file, cancel_others_noise, cancel_my_noise),
        p.suppress_noise == (has_audio_file && (cancel_others_noise || cancel_my_noise)),
        p.trim_silence == (mode == CaptureMode::Record && has_audio_file),
        p.normalize == (mode.keeps_audio() && has_audio_file),
        p.mux_video == (mode == CaptureMode::RecordVideo && has_video_file && has_audio_file),
        p.transcribe == (mode == CaptureMode::Transcribe),
{
    FinalizePlan {
        suppress_noise: has_audio_file && (cancel_others_noise || cancel_my_noise),
        trim_silence: mode.saves_audio() && !mode.saves_video() && has_audio_file,
        normalize: mode.saves_audio() && has_audio_file,
        mux_video: mode.saves_video() && has_video_file && has_audio_file,
        transcribe: mode == CaptureMode::Transcribe,
    }
}

/// Mark a capture as started in the status: `Recording` in `mode` for the
/// meeting, timer at zero, and the start message. Refused with
/// `AlreadyRecording`, changing nothing, while a capture runs.
pub fn begin_status(
    st: &mut RecorderStatus,
    session_active: bool,
    mode: CaptureMode,
    meeting_id: String,
    audio_unavailable: bool,
    mic_exclusive: bool,
) -> (r: Result<(), AppError>)
    ensures
        session_active ==> (r matches Err(AppError::AlreadyRecording)) && *final(st) == *old(st),
        !session_active ==> {
            &&& r is Ok
            &&& final(st).state == RecorderState::Recording
            &&& final(st).mode == mode
            &&& final(st).active_meeting_id == Some(meeting_id)
            &&& final(st).elapsed_sec == 0
            &&& audio_unavailable ==> (final(st).message matches Some(t) && t@ == no_audio_message())
            &&& !audio_unavailable && mic_exclusive ==> (final(st).message matches Some(t) && t@ == exclusive_mic_message())
            &&& !audio_unavailable && !mic_exclusive ==> final(st).message is None
            &&& final(st).mic_level_bits == old(st).mic_level_bits
            &&& final(st).system_level_bits == old(st).system_level_bits
        },
{
    if session_active {
        return Err(AppError::AlreadyRecording);
    }
    st.state = RecorderState::Recording;
    st.mode = mode;
    st.active_meeting_id = Some(meeting_id);
    st.elapsed_sec = 0;
    st.message = start_message(audio_unavailable, mic_exclusive);
    Ok(())
}

/// Mark the capture as stopped in the status: nothing active, timer and
/// levels at zero, no message, and `Idle` (capture off) or `Armed`. Refused
/// with `NotRecording`, changing nothing, when no capture runs.
pub fn end_status(st: &mut RecorderStatus, session_active: bool) -> (r: Result<(), AppError>)
    ensures
        !session_active ==> (r matches Err(AppError::NotRecording)) && *final(st) == *old(st),
        session_active ==> {
            &&& r is Ok
            &&& final(st).state == (if old(st).mode == CaptureMode::Off { RecorderState::Idle } else { RecorderState::Armed })
            &&& final(st).mode == old(st).mode
            &&& final(st).active_meeting_id is None
            &&& final(st).elapsed_sec == 0
            &&& final(st).mic_level_bits == 0 && final(st).system_level_bits == 0
            &&& final(st).message is None
        },
{
    if !session_active {
        return Err(AppError::NotRecording);
    }
    st.active_meeting_id = None;
    st.elapsed_sec = 0;
    st.mic_level_bits = 0;
    st.system_level_bits = 0;
    st.message = None;
    st.state = state_after_stop(st.mode);
    Ok(())
}

/// Switch the note-taker mode in the status (see `state_after_mode`).
pub fn set_mode_status(st: &mut RecorderStatus, mode: CaptureMode)
    ensures
        final(st).mode == mode,
        final(st).state == spec_state_after_mode(mode, old(st).state),
        final(st).active_meeting_id == old(st).active_meeting_id,
        final(st).elapsed_sec == old(st).elapsed_sec,
        final(st).message == old(st).message,
{
    st.mode = mode;
    st.state = state_after_mode(mode, st.state);
}

/// Shown when no audio input could be opened.
pub open spec fn no_audio_message() -> Seq<char> {
    "Couldn't open any audio input — check your microphone and Windows privacy settings. Recording without audio."@
}

/// Shown when the microphone had to be opened in exclusive mode.
pub open spec fn exclusive_mic_message() -> Seq<char> {
    "Recording the microphone in exclusive mode because Windows shared audio is impaired on this PC. Other apps (Zoom/Teams) may lose the microphone while recording — open Settings › Audio to repair it."@
}

/// Shown while the output device is muted on the endpoint-loopback path.
pub open spec fn speakers_muted_message() -> Seq<char> {
    "Your speakers are muted, so the other participants' audio isn't being recorded on this PC — unmute to capture system sound."@
}

/// The status message shown when a capture starts: no audio input at all, the
/// microphone held in exclusive mode, or none.
pub fn start_message(audio_unavailable: bool, mic_exclusive: bool) -> (r: Option<String>)
    ensures
        audio_unavailable ==> (r matches Some(t) && t@ == no_audio_message()),
        !audio_unavailable && mic_exclusive ==> (r matches Some(t) && t@ == exclusive_mic_message()),
        !audio_unavailable && !mic_exclusive ==> r is None,
{
    if audio_unavailable {
        Some(String::from_str("Couldn't open any audio input — check your microphone and Windows privacy settings. Recording without audio."))
    } else if mic_exclusive {
        Some(String::from_str("Recording the microphone in exclusive mode because Windows shared audio is impaired on this PC. Other apps (Zoom/Teams) may lose the microphone while recording — open Settings › Audio to repair it."))
    } else {
        None
    }
}

/// The status message while the output-device mute is watched: the muted
/// warning while muted, else the message set when the capture started.
pub fn mute_watch_message(system_muted: bool, base: &Option<String>) -> (r: Option<String>)
    ensures
        system_muted ==> (r matches Some(t) && t@ == speakers_muted_message()),
        !system_muted ==> r == *base,
{
    if system_muted {
        Some(String::from_str("Your speakers are muted, so the other participants' audio isn't being recorded on this PC — unmute to capture system sound."))
    } else {
        match base {
            Some(t) => Some(t.clone()),
            None => None,
        }
    }
}

/// What a capture start records on the meeting: audio only when the mode keeps
/// audio and a file is being written, video likewise; and whether audio is
/// unavailable altogether (a capturing mode with no input opened).
pub fn start_flags(mode: CaptureMode, audio_file: bool, video_file: bool, capture_opened: bool) -> (r: (bool, bool, bool))
    ensures
        r.0 == (mode.keeps_audio() && audio_file),
        r.1 == (mode == CaptureMode::RecordVideo && video_file),
        r.2 == (mode != CaptureMode::Off && !capture_opened),
{
    (mode.saves_audio() && audio_file, mode.saves_video() && video_file, mode != CaptureMode::Off && !capture_opened)
}

/// Capture-loop ticks per second (one tick every 250 ms).
pub const TICKS_PER_SEC: u64 = 4;

/// Elapsed whole seconds after `ticks` ticks, and whether this tick re-checks
/// the output-device mute (about once a second).
pub fn tick_timing(ticks: u64) -> (r: (u64, bool))
    ensures
        r.0 == ticks / TICKS_PER_SEC,
        r.1 == (ticks % TICKS_PER_SEC == 0),
{
    (ticks / TICKS_PER_SEC, ticks % TICKS_PER_SEC == 0)
}

/// `n` is `o` after the post-processing of its capture settled. A
/// Transcribe-mode meeting keeps no audio; when its transcription failed and
/// no cloud key is configured it gets the built-in transcript (and the
/// derived participants, when any) and is `Ready`. A meeting of any other
/// mode becomes `Ready`.
pub open spec fn settled_meeting(
    o: Meeting,
    n: Meeting,
    mode: CaptureMode,
    transcribed: bool,
    has_key: bool,
    offline: Vec<TranscriptSegment>,
    participants: Vec<Participant>,
) -> bool {
    if mode == CaptureMode::Transcribe {
        if !transcribed && !has_key {
            n == Meeting {
                transcript: offline,
                participants: if participants@.len() > 0 { participants } else { o.participants },
                audio_path: None,
                has_audio: false,
                status: MeetingStatus::Ready,
                ..o
            }
        } else {
            n == Meeting { audio_path: None, has_audio: false, ..o }
        }
    } else {
        n == Meeting { status: MeetingStatus::Ready, ..o }
    }
}

/// Transcribe mode never keeps audio: once a Transcribe-mode capture has
/// settled, its meeting references no audio file and has no audio, whether the
/// transcription succeeded, failed with a cloud key, or fell back to the
/// built-in transcript.
pub proof fn lemma_transcribe_keeps_no_audio(
    o: Meeting,
    n: Meeting,
    transcribed: bool,
    has_key: bool,
    offline: Vec<TranscriptSegment>,
    participants: Vec<Participant>,
)
    requires
        settled_meeting(o, n, CaptureMode::Transcribe, transcribed, has_key, offline, participants),
    ensures
        n.audio_path is None,
        !n.has_audio,
        n.id == o.id,
{
}

/// Fill in the built-in transcript for a Transcribe-mode meeting with no cloud
/// speech-to-text: the transcript, the participants when any were derived,
/// no retained audio, and `Ready`. Returns the audio file to delete.
pub fn apply_offline_transcript(m: &mut Meeting, segments: Vec<TranscriptSegment>, participants: Vec<Participant>) -> (to_delete: Option<String>)
    ensures
        *final(m) == (Meeting {
            transcript: segments,
            participants: if participants@.len() > 0 { participants } else { old(m).participants },
            audio_path: None,
            has_audio: false,
            status: MeetingStatus::Ready,
            ..*old(m)
        }),
        to_delete == old(m).audio_path,
{
    m.transcript = segments;
    if participants.len() > 0 {
        m.participants = participants;
    }
    let to_delete = m.audio_path.take();
    m.has_audio = false;
    m.status = MeetingStatus::Ready;
    to_delete
}

// The recorder's state machine: the meetings, the shown detections, the
// status and the running capture, and how a capture start, a capture stop,
// the end of post-processing and a detection poll change them. Opening
// devices, waiting and processing files are the host's; it reports their
// outcome to these steps.

/// The capture that is running.
pub struct SessionInfo {
    pub meeting_id: String,
    pub audio_path: Option<String>,
    pub video_path: Option<String>,
    /// The detection the capture was started for, if any.
    pub from_detection: Option<String>,
}

/// Everything the recorder's steps read and change.
pub struct RecorderCore {
    pub store: MeetingStore,
    pub detected: DetectedSet,
    pub status: RecorderStatus,
    pub session: Option<SessionInfo>,
}

/// The audio file a capture keeps: the one written by an audio input that
/// opened, and none in `Off` mode, which records no audio.
pub open spec fn kept_audio_path(mode: CaptureMode, audio_path: Option<String>, capture_opened: bool) -> Option<String> {
    if mode != CaptureMode::Off && capture_opened { audio_path } else { None }
}

/// The video file a capture keeps: only `RecordVideo` records the screen.
pub open spec fn kept_video_path(mode: CaptureMode, video_path: Option<String>) -> Option<String> {
    if mode == CaptureMode::RecordVideo { video_path } else { None }
}

/// The meeting stored when its capture starts: `Live`, with the media files
/// it keeps (see `kept_audio_path`, `kept_video_path`), and audio or video
/// flagged only where the mode keeps it and the file exists.
pub open spec fn started_meeting(m: Meeting, audio_path: Option<String>, video_path: Option<String>, capture_opened: bool) -> Meeting {
    let audio = kept_audio_path(m.mode, audio_path, capture_opened);
    let video = kept_video_path(m.mode, video_path);
    Meeting {
        status: MeetingStatus::Live,
        has_audio: m.mode.keeps_audio() && audio is Some,
        has_video: m.mode == CaptureMode::RecordVideo && video is Some,
        audio_path: audio,
        video_path: video,
        ..m
    }
}

/// `n` is `o` with the detection `id` (if any) marked as capturing.
pub open spec fn marked_capturing(o: Seq<DetectedMeeting>, n: Seq<DetectedMeeting>, id: Option<String>) -> bool {
    match id {
        None => n == o,
        Some(k) => {
            &&& n.len() == o.len()
            &&& forall|i: int| 0 <= i < o.len() ==> #[trigger] n[i] == DetectedMeeting {
                capturing: o[i].capturing || o[i].id@ == k@,
                ..o[i]
            }
        },
    }
}

/// The baseline state rule: keep `current` while a capture runs, while the
/// recorder owns the state, or when it already is `desired`.
pub open spec fn baseline_state(session_active: bool, current: RecorderState, desired: RecorderState) -> RecorderState {
    if session_active || owned_by_recorder(current) || current == desired {
        current
    } else {
        desired
    }
}

/// The detection keys of scan candidates.
pub open spec fn candidate_keys(cands: Seq<Candidate>) -> Seq<Seq<char>> {
    cands.map_values(|c: Candidate| detection_key(c.platform))
}

/// The detection keys of platforms.
pub open spec fn platform_keys(ps: Seq<MeetingPlatform>) -> Seq<Seq<char>> {
    ps.map_values(|p: MeetingPlatform| detection_key(p))
}

/// The detection a capture was started for, if a capture runs.
pub open spec fn tied_detection(session: Option<SessionInfo>) -> Option<String> {
    match session {
        Some(s) => s.from_detection,
        None => None,
    }
}

/// What the host does after a detection poll.
pub struct TickActions {
    /// Detections that ended (their windows are gone), to announce.
    pub ended: Vec<String>,
    /// New detections, in scan order, to announce.
    pub fresh: Vec<DetectedMeeting>,
    /// Start recording the new detections (the first that starts).
    pub auto_start: bool,
    /// Stop the running capture: its meeting has ended.
    pub stop: bool,
}

impl RecorderCore {
    /// A recorder over `store`, with nothing detected, the default status and
    /// no capture.
    pub fn new(store: MeetingStore) -> (c: RecorderCore)
        ensures
            c.store == store,
            c.detected.entries().len() == 0,
            c.status.state == RecorderState::Idle,
            c.status.mode == CaptureMode::Off,
            c.status.active_meeting_id is None,
            c.session is None,
    {
        RecorderCore { store, detected: DetectedSet::new(), status: RecorderStatus::default(), session: None }
    }
}

/// Whether a capture may start: refused with `AlreadyRecording` while one
/// runs.
pub fn check_can_start(core: &RecorderCore) -> (r: Result<(), AppError>)
    ensures
        core.session is Some <==> (r matches Err(AppError::AlreadyRecording)),
        core.session is None <==> r is Ok,
{
    if core.session.is_some() {
        Err(AppError::AlreadyRecording)
    } else {
        Ok(())
    }
}

/// Start capturing `meeting` (a new live meeting). `audio_path` and
/// `video_path` are the files the host's devices opened, `capture_opened`
/// whether any audio input opened (the audio file is kept only then, and never
/// in `Off` mode), `mic_exclusive` whether the microphone runs in exclusive
/// mode. Returns the stored meeting, `Live`. While a
/// capture runs the start is refused with `AlreadyRecording` and nothing
/// changes.
pub fn start_session(
    core: &mut RecorderCore,
    meeting: Meeting,
    audio_path: Option<String>,
    video_path: Option<String>,
    capture_opened: bool,
    mic_exclusive: bool,
    from_detection: Option<String>,
) -> (r: Result<Meeting, AppError>)
    ensures
        old(core).session is Some ==> (r matches Err(AppError::AlreadyRecording)) && *final(core) == *old(core),
        old(core).session is None ==> {
            let m = started_meeting(meeting, audio_path, video_path, capture_opened);
            let audio_unavailable = meeting.mode != CaptureMode::Off && !capture_opened;
            &&& r matches Ok(out) && same_meeting(out, m)
            &&& meeting.mode == CaptureMode::Off ==> (r matches Ok(out) && out.audio_path is None)
            &&& final(core).store.entries() == upserted(old(core).store.entries(), m)
            &&& final(core).session matches Some(s) && {
                &&& s.meeting_id@ == meeting.id@
                &&& s.audio_path == m.audio_path
                &&& s.video_path == m.video_path
                &&& s.from_detection == from_detection
            }
            &&& final(core).status.state == RecorderState::Recording
            &&& final(core).status.mode == meeting.mode
            &&& final(core).status.active_meeting_id matches Some(a) && a@ == meeting.id@
            &&& final(core).status.elapsed_sec == 0
            &&& audio_unavailable ==> (final(core).status.message matches Some(t) && t@ == no_audio_message())
            &&& !audio_unavailable && mic_exclusive ==> (final(core).status.message matches Some(t)
                && t@ == exclusive_mic_message())
            &&& !audio_unavailable && !mic_exclusive ==> final(core).status.message is None
            &&& marked_capturing(old(core).detected.entries(), final(core).detected.entries(), from_detection)
        },
{
    if core.session.is_some() {
        return Err(AppError::AlreadyRecording);
    }
    let mode = meeting.mode;
    let audio_path = if mode != CaptureMode::Off && capture_opened { audio_path } else { None };
    let video_path = if mode == CaptureMode::RecordVideo { video_path } else { None };
    let (has_audio, has_video, audio_unavailable) = start_flags(mode, audio_path.is_some(), video_path.is_some(), capture_opened);
    let id = meeting.id.clone();
    let mut m = meeting;
    m.status = MeetingStatus::Live;
    m.has_audio = has_audio;
    m.has_video = has_video;
    m.audio_path = audio_path.clone();
    m.video_path = video_path.clone();
    let _ = begin_status(&mut core.status, false, mode, id.clone(), audio_unavailable, mic_exclusive);
    match &from_detection {
        Some(k) => core.detected.set_capturing(k),
        None => {},
    }
    let out = m.duplicate();
    core.store.upsert(m);
    core.session = Some(SessionInfo {
        meeting_id: id,
        audio_path,
        video_path,
        from_detection,
    });
    Ok(out)
}

/// A capture tick: `elapsed_sec` whole seconds have been recorded. The running
/// capture's meeting takes it as its duration and the status shows it. With no
/// capture nothing changes.
pub fn record_elapsed(core: &mut RecorderCore, elapsed_sec: u64)
    ensures
        old(core).session is None ==> *final(core) == *old(core),
        old(core).session matches Some(s) ==> {
            &&& final(core).session == old(core).session
            &&& final(core).detected == old(core).detected
            &&& final(core).status == (RecorderStatus { elapsed_sec, ..old(core).status })
            &&& final(core).store.entries() == match index_of(old(core).store.entries(), s.meeting_id@) {
                Some(i) => old(core).store.entries().update(
                    i,
                    Meeting { duration_sec: elapsed_sec, ..old(core).store.entries()[i] },
                ),
                None => old(core).store.entries(),
            }
        },
{
    match &core.session {
        Some(s) => {
            let _ = core.store.set_duration(s.meeting_id.as_str(), elapsed_sec);
            core.status.elapsed_sec = elapsed_sec;
        },
        None => {},
    }
}

/// Stop the running capture at `ended_at_ms`: the meeting is closed as
/// `finish_meeting` does (with `marker_id` for its end marker), the capture
/// is cleared, the status settles as `end_status` does, and the
/// post-processing plan is returned with the closed meeting, which is left
/// `Processing`. With no capture: `NotRecording`, nothing changes. When the
/// capture's meeting is not stored: `MeetingNotFound`, and only the capture is
/// cleared.
pub fn stop_session(
    core: &mut RecorderCore,
    ended_at_ms: i64,
    marker_id: String,
    cancel_others: bool,
    cancel_mine: bool,
) -> (r: Result<(Meeting, FinalizePlan), AppError>)
    requires
        old(core).session matches Some(s) ==> (lookup(old(core).store.entries(), s.meeting_id@) matches Some(m)
            ==> m.duration_sec * 1000 <= u64::MAX),
    ensures
        old(core).session is None ==> (r matches Err(AppError::NotRecording)) && *final(core) == *old(core),
        old(core).session matches Some(s) ==> {
            &&& final(core).session is None
            &&& final(core).detected == old(core).detected
            &&& match index_of(old(core).store.entries(), s.meeting_id@) {
                None => {
                    &&& r matches Err(e) && e is MeetingNotFound && error_message(e) == "meeting not found: "@ + s.meeting_id@
                    &&& final(core).store.entries() == old(core).store.entries()
                    &&& final(core).status == old(core).status
                },
                Some(i) => {
                    let o = old(core).store.entries()[i];
                    &&& r matches Ok((out, plan)) && same_meeting(out, final(core).store.entries()[i])
                        && plan == plan_for(o.mode, s.audio_path is Some, s.video_path is Some, cancel_others, cancel_mine)
                    &&& final(core).store.entries().len() == old(core).store.entries().len()
                    &&& forall|j: int| 0 <= j < old(core).store.entries().len() && j != i
                        ==> final(core).store.entries()[j] == old(core).store.entries()[j]
                    &&& finished_meeting(o, final(core).store.entries()[i], ended_at_ms, s.audio_path, s.video_path, marker_id)
                    &&& final(core).status.state == (if old(core).status.mode == CaptureMode::Off {
                        RecorderState::Idle
                    } else {
                        RecorderState::Armed
                    })
                    &&& final(core).status.mode == old(core).status.mode
                    &&& final(core).status.active_meeting_id is None
                    &&& final(core).status.elapsed_sec == 0
                    &&& final(core).status.mic_level_bits == 0 && final(core).status.system_level_bits == 0
                    &&& final(core).status.message is None
                },
            }
        },
{
    let s = match core.session.take() {
        Some(s) => s,
        None => return Err(AppError::NotRecording),
    };
    let mode = match core.store.finish_capture(
        s.meeting_id.as_str(),
        ended_at_ms,
        s.audio_path.clone(),
        s.video_path.clone(),
        marker_id,
    ) {
        Ok(mode) => mode,
        Err(e) => return Err(e),
    };
    proof {
        let i = index_of(old(core).store.entries(), s.meeting_id@)->0;
        let fe = core.store.entries();
        assert(fe[i].id@ == s.meeting_id@);
        let j = index_of(fe, s.meeting_id@)->0;
        if j != i {
            assert(fe[i].id@ == fe[j].id@);
        }
    }
    let out = match core.store.get(s.meeting_id.as_str()) {
        Some(m) => m.duplicate(),
        None => return Err(AppError::MeetingNotFound(s.meeting_id)),
    };
    let _ = end_status(&mut core.status, true);
    let plan = finalize_plan(mode, s.audio_path.is_some(), s.video_path.is_some(), cancel_others, cancel_mine);
    Ok((out, plan))
}

/// Settle the meeting `id` once its post-processing is done (see
/// `settled_meeting`): `transcribed` says whether cloud transcription
/// succeeded, `has_key` whether a cloud key is configured, and `offline` and
/// `participants` are the built-in transcript and its speakers. Returns the
/// audio file that a Transcribe-mode meeting no longer keeps.
pub fn settle_after_processing(
    core: &mut RecorderCore,
    id: &str,
    mode: CaptureMode,
    transcribed: bool,
    has_key: bool,
    offline: Vec<TranscriptSegment>,
    participants: Vec<Participant>,
) -> (to_delete: Option<String>)
    ensures
        final(core).session == old(core).session,
        final(core).detected == old(core).detected,
        final(core).status == old(core).status,
        match index_of(old(core).store.entries(), id@) {
            None => final(core).store.entries() == old(core).store.entries() && to_delete is None,
            Some(i) => {
                &&& final(core).store.entries().len() == old(core).store.entries().len()
                &&& forall|j: int| 0 <= j < old(core).store.entries().len() && j != i
                    ==> final(core).store.entries()[j] == old(core).store.entries()[j]
                &&& settled_meeting(old(core).store.entries()[i], final(core).store.entries()[i], mode, transcribed, has_key, offline, participants)
                &&& to_delete == (if mode == CaptureMode::Transcribe { old(core).store.entries()[i].audio_path } else { None })
            },
        },
{
    core.store.settle_processed(id, mode, transcribed, has_key, offline, participants)
}

/// Move the status to the baseline for what is detected: `Armed` with
/// nothing detected, `Detecting` otherwise (see `baseline_state`).
pub fn apply_baseline(core: &mut RecorderCore)
    ensures
        final(core).status == (RecorderStatus {
            state: baseline_state(
                old(core).session is Some,
                old(core).status.state,
                if old(core).detected.entries().len() == 0 { RecorderState::Armed } else { RecorderState::Detecting },
            ),
            ..old(core).status
        }),
        final(core).store == old(core).store,
        final(core).detected == old(core).detected,
        final(core).session == old(core).session,
{
    let desired = baseline_for(core.detected.is_empty());
    match baseline_update(core.session.is_some(), core.status.state, desired) {
        Some(s) => core.status.state = s,
        None => {},
    }
}

/// The detection keys of scan candidates.
fn keys_of_candidates(cands: &[Candidate]) -> (r: Vec<String>)
    ensures
        texts(r@) == candidate_keys(cands@),
{
    let mut r: Vec<String> = Vec::new();
    for i in 0..cands.len()
        invariant
            texts(r@) == candidate_keys(cands@.take(i as int)),
    {
        let ghost r0 = r@;
        r.push(key(cands[i].platform));
        assert(texts(r@) =~= texts(r0).push(detection_key(cands@[i as int].platform)));
        assert(candidate_keys(cands@.take(i + 1)) =~= candidate_keys(cands@.take(i as int)).push(
            detection_key(cands@[i as int].platform),
        ));
    }
    assert(cands@.take(cands@.len() as int) =~= cands@);
    r
}

/// The detection keys of platforms.
fn keys_of_platforms(ps: &[MeetingPlatform]) -> (r: Vec<String>)
    ensures
        texts(r@) == platform_keys(ps@),
{
    let mut r: Vec<String> = Vec::new();
    for i in 0..ps.len()
        invariant
            texts(r@) == platform_keys(ps@.take(i as int)),
    {
        let ghost r0 = r@;
        r.push(key(ps[i]));
        assert(texts(r@) =~= texts(r0).push(detection_key(ps@[i as int])));
        assert(platform_keys(ps@.take(i + 1)) =~= platform_keys(ps@.take(i as int)).push(detection_key(ps@[i as int])));
    }
    assert(ps@.take(ps@.len() as int) =~= ps@);
    r
}

/// One poll of the meeting detector, given the scan's candidates and the
/// platforms that still look active. When detection is off (capture off
/// and no auto-recording) every detection ends, the grace counter resets and
/// the recorder falls back to `Idle`. Otherwise new candidates become
/// detections (a waiting recorder shows `Detecting`), detections no longer
/// scanned end, the grace counter decides whether a detection-started capture
/// stops, and the status settles to the baseline. The host then announces the
/// changes, starts a capture for the new detections when `auto_start` says
/// so, and stops the capture when `stop` says so.
pub fn detection_step(
    core: &mut RecorderCore,
    grace: &mut GraceCounter,
    auto_record: bool,
    cands: &[Candidate],
    active: &[MeetingPlatform],
    now_ms: i64,
) -> (r: TickActions)
    ensures
        final(core).store == old(core).store,
        final(core).session == old(core).session,
        !detection_enabled_spec(old(core).status.mode, auto_record) ==> {
            &&& final(core).detected.entries().len() == 0
            &&& texts(r.ended@) == ids_of(old(core).detected.entries())
            &&& r.fresh@.len() == 0
            &&& !r.auto_start && !r.stop
            &&& final(grace).count() == 0
            &&& final(core).status == (RecorderStatus {
                state: baseline_state(old(core).session is Some, old(core).status.state, RecorderState::Idle),
                ..old(core).status
            })
        },
        detection_enabled_spec(old(core).status.mode, auto_record) ==> {
            let fc = fresh_candidates(ids_of(old(core).detected.entries()), cands@);
            let keys = candidate_keys(cands@);
            let all = old(core).detected.entries() + r.fresh@;
            let tied = tied_detection(old(core).session);
            let shown = if fc.len() > 0 && (old(core).status.state == RecorderState::Armed
                || old(core).status.state == RecorderState::Idle) {
                RecorderState::Detecting
            } else {
                old(core).status.state
            };
            &&& r.fresh@.len() == fc.len()
            &&& forall|k: int| 0 <= k < r.fresh@.len() ==> is_detection_of(#[trigger] r.fresh@[k], fc[k], now_ms)
            &&& final(core).detected.entries() == all.filter(still_current(keys))
            &&& texts(r.ended@) == ids_of(all.filter(gone(keys)))
            &&& r.auto_start == (auto_record && old(core).session is None && fc.len() > 0)
            &&& (final(grace).count(), r.stop) == grace_step(
                old(grace).count(),
                tied is Some,
                tied matches Some(t) && platform_keys(active@).contains(t@),
            )
            &&& final(core).status == (RecorderStatus {
                state: baseline_state(
                    old(core).session is Some,
                    shown,
                    if final(core).detected.entries().len() == 0 { RecorderState::Armed } else { RecorderState::Detecting },
                ),
                ..old(core).status
            })
        },
{
    if !detection_enabled(core.status.mode, auto_record) {
        grace.reset();
        let ended = core.detected.clear();
        match baseline_update(core.session.is_some(), core.status.state, RecorderState::Idle) {
            Some(s) => core.status.state = s,
            None => {},
        }
        return TickActions { ended, fresh: Vec::new(), auto_start: false, stop: false };
    }
    let fresh = core.detected.register_scan(cands, now_ms);
    if fresh.len() > 0 && (core.status.state == RecorderState::Armed || core.status.state == RecorderState::Idle) {
        core.status.state = RecorderState::Detecting;
    }
    let auto_start = auto_record && core.session.is_none() && fresh.len() > 0;
    let current = keys_of_candidates(cands);
    let ended = core.detected.retain_current(&current);
    let active_keys = keys_of_platforms(active);
    let tied: Option<&String> = match &core.session {
        Some(s) => match &s.from_detection {
            Some(f) => Some(f),
            None => None,
        },
        None => None,
    };
    let stop = grace.observe(tied, &active_keys);
    proof {
        let ak = texts(active_keys@);
        if tied is Some {
            let t = tied.unwrap();
            if exists|i: int| 0 <= i < active_keys@.len() && (#[trigger] active_keys@[i])@ == t@ {
                let i = choose|i: int| 0 <= i < active_keys@.len() && (#[trigger] active_keys@[i])@ == t@;
                assert(ak[i] == t@);
            }
            if ak.contains(t@) {
                let i = choose|i: int| 0 <= i < ak.len() && ak[i] == t@;
                assert(active_keys@[i]@ == t@);
            }
        }
    }
    apply_baseline(core);
    TickActions { ended, fresh, auto_start, stop }
}

/// Detection runs when capture is on or auto-recording is enabled.
pub open spec fn detection_enabled_spec(mode: CaptureMode, auto_record: bool) -> bool {
    mode != CaptureMode::Off || auto_record
}

} // verus!
