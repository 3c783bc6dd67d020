//! The recording library's naming rules: sidecar locations, ids and titles
//! derived from file names, which media files to import, and the record built
//! for an imported file.

use vstd::prelude::*;

use crate::ids::prefixed_id;
use crate::models::meeting::is_fresh_id;
use crate::models::{CaptureMode, Meeting, MeetingPlatform, MeetingStatus, TimelineKind, TimelineMarker};
use crate::models::settings::slash;
use crate::text::{
    ascii_lower, char_ascii_lower, occurs_at, chars_of, collapse_whitespace, collapse_ws, concat_chars,
    keep_alnum_or, last_occurrence, map_non_alnum, rfind, slice_range, string_of,
};

verus! {

/// Sub-folder (under the recordings folder) holding the sidecars.
pub open spec fn meta_dir_name() -> Seq<char> {
    "metadata"@
}

/// `base` joined with the relative or absolute path `name` (Unix rules: an
/// absolute `name` replaces `base`; a `/` is inserted unless `base` is empty or
/// already ends with one).
pub open spec fn spec_join(base: Seq<char>, name: Seq<char>) -> Seq<char> {
    if name.len() > 0 && name[0] == '/' {
        name
    } else if base.len() == 0 {
        name
    } else if base.last() == '/' {
        base + name
    } else {
        base + "/"@ + name
    }
}

/// Join a path and a file or folder name.
pub fn join_path(base: &str, name: &str) -> (r: String)
    ensures
        r@ == spec_join(base@, name@),
{
    let b = chars_of(base);
    let n = chars_of(name);
    if n.len() > 0 && n[0] == '/' {
        String::from_str(name)
    } else if b.len() == 0 {
        String::from_str(name)
    } else if b[b.len() - 1] == '/' {
        String::from_str(base).concat(name)
    } else {
        String::from_str(base).concat("/").concat(name)
    }
}

/// The folder holding one metadata sidecar per recording.
pub fn meta_dir(recordings_dir: &str) -> (r: String)
    ensures
        r@ == spec_join(recordings_dir@, meta_dir_name()),
{
    join_path(recordings_dir, "metadata")
}

/// The sidecar of meeting `id`: `<recordings>/metadata/<id>.json`.
pub fn sidecar_path(recordings_dir: &str, id: &str) -> (r: String)
    ensures
        r@ == spec_join(spec_join(recordings_dir@, meta_dir_name()), id@ + ".json"@),
{
    let dir = meta_dir(recordings_dir);
    let file = String::from_str(id).concat(".json");
    join_path(dir.as_str(), file.as_str())
}

/// A meeting is a real recording (worth persisting) when it has a media file.
pub fn has_media(m: &Meeting) -> (b: bool)
    ensures
        b == (m.audio_path is Some || m.video_path is Some),
{
    m.audio_path.is_some() || m.video_path.is_some()
}

/// A persisted transient status (crashed while recording or processing) loads
/// as finished.
pub fn settle_loaded_status(s: MeetingStatus) -> (r: MeetingStatus)
    ensures
        r == (if s == MeetingStatus::Live || s == MeetingStatus::Processing { MeetingStatus::Ready } else { s }),
{
    match s {
        MeetingStatus::Live | MeetingStatus::Processing => MeetingStatus::Ready,
        _ => s,
    }
}

/// The id of an imported file: the `mtg_<hex>` tail of recorder file names
/// when present (its last occurrence), else `imported_` and the stem with every
/// non-alphanumeric character turned into `_`.
pub open spec fn spec_derive_id(stem: Seq<char>) -> Seq<char> {
    match last_occurrence(stem, "mtg_"@) {
        Some(i) => stem.subrange(i, stem.len() as int),
        None => "imported_"@ + stem.map_values(|c: char| keep_alnum_or(c, '_')),
    }
}

/// A stable id for an imported file, derived from its stem.
pub fn derive_id(stem: &str) -> (r: String)
    ensures
        r@ == spec_derive_id(stem@),
{
    let s = chars_of(stem);
    let pat = chars_of("mtg_");
    match rfind(&s, &pat) {
        Some(pos) => string_of(&slice_range(&s, pos, s.len())),
        None => {
            let mapped = map_non_alnum(&s, '_');
            let p = chars_of("imported_");
            string_of(&concat_chars(&p, &mapped))
        },
    }
}

/// `-` and `_` read as spaces in a title.
pub open spec fn dash_to_space(c: char) -> char {
    if c == '-' || c == '_' { ' ' } else { c }
}

/// A readable title from a file stem: without the trailing `-mtg_<hex>` id,
/// separators as spaces, white space collapsed and trimmed; `Recording` when
/// nothing is left.
pub open spec fn spec_derive_title(stem: Seq<char>) -> Seq<char> {
    let base = match last_occurrence(stem, "-mtg_"@) {
        Some(i) => stem.subrange(0, i),
        None => stem,
    };
    let t = collapse_ws(base.map_values(|c: char| dash_to_space(c)));
    if t.len() == 0 { "Recording"@ } else { t }
}

/// A readable title derived from a file stem.
pub fn derive_title(stem: &str) -> (r: String)
    ensures
        r@ == spec_derive_title(stem@),
{
    let s = chars_of(stem);
    let pat = chars_of("-mtg_");
    let base = match rfind(&s, &pat) {
        Some(pos) => slice_range(&s, 0, pos),
        None => slice_range(&s, 0, s.len()),
    };
    assert(s@.subrange(0, s@.len() as int) =~= s@);
    let mut spaced: Vec<char> = Vec::new();
    for i in 0..base.len()
        invariant
            spaced@ == base@.subrange(0, i as int).map_values(|c: char| dash_to_space(c)),
    {
        let c = base[i];
        spaced.push(if c == '-' || c == '_' { ' ' } else { c });
        assert(spaced@ =~= base@.subrange(0, i + 1).map_values(|c: char| dash_to_space(c)));
    }
    assert(base@.subrange(0, base@.len() as int) =~= base@);
    let t = collapse_whitespace(&spaced);
    if t.len() == 0 {
        String::from_str("Recording")
    } else {
        string_of(&t)
    }
}

/// ASCII case-insensitive equality of two texts.
pub open spec fn eq_ignore_ascii_case(a: Seq<char>, b: Seq<char>) -> bool {
    a.len() == b.len() && forall|i: int| 0 <= i < a.len() ==> ascii_lower(#[trigger] a[i]) == ascii_lower(b[i])
}

/// A file name has the `wav` extension (any ASCII case): the text after its
/// last dot, where that dot is not the name's first character.
pub open spec fn spec_is_wav_name(name: Seq<char>) -> bool {
    match last_occurrence(name, "."@) {
        Some(i) => i > 0 && eq_ignore_ascii_case(name.subrange(i + 1, name.len() as int), "wav"@),
        None => false,
    }
}

/// Whether a file name is a WAV recording.
pub fn is_wav_name(name: &str) -> (b: bool)
    ensures
        b == spec_is_wav_name(name@),
{
    let s = chars_of(name);
    let dot = chars_of(".");
    proof {
        reveal_strlit(".");
        reveal_strlit("wav");
        assert(dot@.len() == 1);
    }
    match rfind(&s, &dot) {
        Some(i) => {
            assert(occurs_at(s@, dot@, i as int));
            let n = s.len();
            assert(i + 1 <= n);
            if i == 0 {
                return false;
            }
            let ext = slice_range(&s, i + 1, n);
            let w = chars_of("wav");
            assert(w@.len() == 3);
            if ext.len() != w.len() {
                return false;
            }
            let mut k: usize = 0;
            while k < ext.len()
                invariant
                    ext@.len() == w@.len(),
                    ext@ == name@.subrange(i + 1, name@.len() as int),
                    w@ == "wav"@,
                    i > 0,
                    last_occurrence(name@, "."@) == Some(i as int),
                    k <= ext@.len(),
                    forall|j: int| 0 <= j < k ==> ascii_lower(#[trigger] ext@[j]) == ascii_lower(w@[j]),
                decreases ext@.len() - k,
            {
                if char_ascii_lower(ext[k]) != char_ascii_lower(w[k]) {
                    return false;
                }
                k += 1;
            }
            true
        },
        None => false,
    }
}

/// The names texts of a list of strings.
pub open spec fn name_texts(s: Seq<String>) -> Seq<Seq<char>> {
    s.map_values(|x: String| x@)
}

/// WAV file `i` gets imported: its name is not referenced by a loaded meeting
/// and no earlier file has the same name.
pub open spec fn is_orphan_pick(referenced: Seq<Seq<char>>, names: Seq<Seq<char>>, i: int) -> bool {
    &&& 0 <= i < names.len()
    &&& !referenced.contains(names[i])
    &&& forall|j: int| 0 <= j < i ==> names[j] != names[i]
}

/// Whether `name` is among `v`.
fn listed(v: &[String], name: &String) -> (b: bool)
    ensures
        b == name_texts(v@).contains(name@),
{
    for k in 0..v.len()
        invariant
            forall|j: int| 0 <= j < k ==> v@[j]@ != name@,
    {
        if v[k] == *name {
            assert(name_texts(v@)[k as int] == name@);
            return true;
        }
    }
    proof {
        assert forall|j: int| 0 <= j < name_texts(v@).len() implies name_texts(v@)[j] != name@ by {
            assert(name_texts(v@)[j] == v@[j]@);
        }
    }
    false
}

/// The WAV files (indices into `names`, ascending) to import as new
/// recordings: each name that no loaded meeting references, once.
pub fn select_orphans(referenced: &[String], names: &[String]) -> (r: Vec<usize>)
    ensures
        forall|k: int| 0 <= k < r@.len() ==> is_orphan_pick(name_texts(referenced@), name_texts(names@), #[trigger] r@[k] as int),
        forall|a: int, b: int| 0 <= a < b < r@.len() ==> r@[a] < r@[b],
        forall|i: int| is_orphan_pick(name_texts(referenced@), name_texts(names@), i) ==> r@.contains(i as usize),
{
    let ghost refs = name_texts(referenced@);
    let ghost all = name_texts(names@);
    let mut picks: Vec<usize> = Vec::new();
    for i in 0..names.len()
        invariant
            refs == name_texts(referenced@),
            all == name_texts(names@),
            forall|k: int| 0 <= k < picks@.len() ==> is_orphan_pick(refs, all, #[trigger] picks@[k] as int),
            forall|k: int| 0 <= k < picks@.len() ==> picks@[k] < i,
            forall|a: int, b: int| 0 <= a < b < picks@.len() ==> picks@[a] < picks@[b],
            forall|x: int| 0 <= x < i && is_orphan_pick(refs, all, x) ==> picks@.contains(x as usize),
    {
        let in_refs = listed(referenced, &names[i]);
        let mut earlier = false;
        for j in 0..i
            invariant
                all == name_texts(names@),
                i < names@.len(),
                earlier == exists|x: int| 0 <= x < j && all[x] == all[i as int],
        {
            assert(all[j as int] == names@[j as int]@ && all[i as int] == names@[i as int]@);
            if names[j] == names[i] {
                earlier = true;
            }
        }
        proof {
            assert(all[i as int] == names@[i as int]@);
        }
        let ghost p0 = picks@;
        if !in_refs && !earlier {
            picks.push(i);
            proof {
                assert(picks@[p0.len() as int] == i);
            }
        }
        proof {
            assert forall|x: int| 0 <= x < i + 1 && is_orphan_pick(refs, all, x) implies picks@.contains(x as usize) by {
                if x < i {
                    assert(p0.contains(x as usize));
                    let k = choose|k: int| 0 <= k < p0.len() && p0[k] == x as usize;
                    assert(picks@[k] == p0[k]);
                } else {
                    assert(picks@[p0.len() as int] == i);
                }
            }
        }
    }
    picks
}

/// Whole seconds of audio in a WAV header: frames (samples over channels,
/// counting at least one channel) over the sample rate; 0 for a zero rate.
pub fn wav_duration_sec(len_samples: u32, channels: u16, sample_rate: u32) -> (r: u64)
    ensures
        r == (if sample_rate > 0 {
            (len_samples as nat / (if channels == 0 { 1 } else { channels as nat })) / (sample_rate as nat)
        } else {
            0
        }),
{
    let ch: u64 = if channels == 0 { 1 } else { channels as u64 };
    let frames = len_samples as u64 / ch;
    if sample_rate > 0 {
        frames / sample_rate as u64
    } else {
        0
    }
}

/// The meeting record for a bare recording file with no sidecar: id and title
/// derived from the file stem, a finished `Record`-mode recording with audio at
/// `path` (backslashes written as `/`), ending `duration_sec` after its start.
pub fn import_orphan(stem: &str, path: &str, started_at_ms: i64, duration_sec: u64) -> (m: Meeting)
    requires
        duration_sec * 1000 <= i64::MAX,
        started_at_ms + duration_sec * 1000 <= i64::MAX,
    ensures
        m.id@ == spec_derive_id(stem@),
        m.title@ == spec_derive_title(stem@),
        m.platform == MeetingPlatform::Unknown,
        m.mode == CaptureMode::Record,
        m.status == MeetingStatus::Ready,
        m.started_at_ms == started_at_ms,
        m.ended_at_ms == Some((started_at_ms + duration_sec * 1000) as i64),
        m.duration_sec == duration_sec,
        m.has_audio && !m.has_video,
        !m.is_locked && !m.is_starred && !m.is_bookmarked,
        m.tags@.len() == 0 && m.participants@.len() == 0,
        m.timeline@.len() == 1,
        is_fresh_id(m.timeline@[0].id@, "t_"@),
        m.timeline@[0].label@ == "Recording started"@,
        m.timeline@[0].at_ms == 0,
        m.timeline@[0].kind == TimelineKind::Join,
        m.transcript@.len() == 0 && m.action_items@.len() == 0,
        m.summary is None,
        m.audio_path matches Some(p) && p@ == path@.map_values(|c: char| slash(c)),
        m.video_path is None,
{
    let pc = chars_of(path);
    let mut fixed: Vec<char> = Vec::new();
    for i in 0..pc.len()
        invariant
            pc@ == path@,
            fixed@ == pc@.subrange(0, i as int).map_values(|c: char| slash(c)),
    {
        let c = pc[i];
        fixed.push(if c == '\\' { '/' } else { c });
        assert(fixed@ =~= pc@.subrange(0, i + 1).map_values(|c: char| slash(c)));
    }
    assert(pc@.subrange(0, pc@.len() as int) =~= pc@);
    let ended: i64 = started_at_ms + (duration_sec * 1000) as i64;
    let mut timeline: Vec<TimelineMarker> = Vec::new();
    timeline.push(TimelineMarker {
        id: prefixed_id("t_"),
        label: String::from_str("Recording started"),
        at_ms: 0,
        kind: TimelineKind::Join,
    });
    Meeting {
        id: derive_id(stem),
        title: derive_title(stem),
        platform: MeetingPlatform::Unknown,
        mode: CaptureMode::Record,
        status: MeetingStatus::Ready,
        started_at_ms,
        ended_at_ms: Some(ended),
        duration_sec,
        has_audio: true,
        has_video: false,
        is_locked: false,
        is_starred: false,
        is_bookmarked: false,
        tags: Vec::new(),
        participants: Vec::new(),
        timeline,
        transcript: Vec::new(),
        summary: None,
        action_items: Vec::new(),
        audio_path: Some(string_of(&fixed)),
        video_path: None,
    }
}

} // verus!
