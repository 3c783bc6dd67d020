//! The in-memory meeting store: meetings keyed by id, each id once.

use vstd::prelude::*;

use crate::error::{error_message, AppError};
use crate::models::{Meeting, MeetingStatus};
use crate::engine::recorder::{apply_offline_transcript, finish_meeting, finished_meeting, settled_meeting};
use crate::models::{CaptureMode, Participant, TranscriptSegment};
use crate::seed::{is_clip_example, is_roadmap_example, seed_meetings, DAY_MS};
use crate::text::same_text;

verus! {

/// The meetings the app knows about, each id once. They are kept as a list
/// whose ids are distinct, rather than in a map keyed by `String`, so that
/// every lookup, insertion and removal has a stated result.
pub struct MeetingStore {
    meetings: Vec<Meeting>,
}

/// The ids of a list of meetings.
pub open spec fn meeting_ids(s: Seq<Meeting>) -> Seq<Seq<char>> {
    s.map_values(|m: Meeting| m.id@)
}

/// No id occurs twice.
pub open spec fn ids_unique(s: Seq<Meeting>) -> bool {
    forall|i: int, j: int| 0 <= i < j < s.len() ==> s[i].id@ != s[j].id@
}

/// Position of the meeting with id `id`.
pub open spec fn index_of(s: Seq<Meeting>, id: Seq<char>) -> Option<int> {
    if exists|i: int| 0 <= i < s.len() && s[i].id@ == id {
        Some(choose|i: int| 0 <= i < s.len() && s[i].id@ == id)
    } else {
        None
    }
}

/// `order` lists every position of `s` once, newest meeting first.
pub open spec fn newest_first_order(s: Seq<Meeting>, order: Seq<usize>) -> bool {
    &&& order.len() == s.len()
    &&& forall|k: int| 0 <= k < order.len() ==> order[k] < s.len()
    &&& forall|a: int, b: int| 0 <= a < b < order.len() ==> order[a] != order[b]
    &&& forall|a: int, b: int| #![trigger order[a], order[b]]
        0 <= a < b < order.len() ==> s[order[a] as int].started_at_ms >= s[order[b] as int].started_at_ms
}

/// In a list whose ids are unique, `index_of` finds the one position holding
/// that id.
pub proof fn lemma_index_of_unique(s: Seq<Meeting>, k: int)
    requires
        ids_unique(s),
        0 <= k < s.len(),
    ensures
        index_of(s, s[k].id@) == Some(k),
{
    let j = choose|j: int| 0 <= j < s.len() && s[j].id@ == s[k].id@;
    if j != k {
        if j < k {
            assert(s[j].id@ != s[k].id@);
        } else {
            assert(s[k].id@ != s[j].id@);
        }
    }
}

/// Which flag a `toggle_meeting_flag` request names.
pub enum MeetingFlag {
    Locked,
    Starred,
    Bookmarked,
}

/// The flag named `name`, if it is one.
pub open spec fn spec_flag(name: Seq<char>) -> Option<MeetingFlag> {
    if name == "locked"@ {
        Some(MeetingFlag::Locked)
    } else if name == "starred"@ {
        Some(MeetingFlag::Starred)
    } else if name == "bookmarked"@ {
        Some(MeetingFlag::Bookmarked)
    } else {
        None
    }
}

/// `m` with flag `f` flipped.
pub open spec fn flipped(m: Meeting, f: MeetingFlag) -> Meeting {
    match f {
        MeetingFlag::Locked => Meeting { is_locked: !m.is_locked, ..m },
        MeetingFlag::Starred => Meeting { is_starred: !m.is_starred, ..m },
        MeetingFlag::Bookmarked => Meeting { is_bookmarked: !m.is_bookmarked, ..m },
    }
}

/// The meeting stored under `id`, if any.
pub open spec fn lookup(s: Seq<Meeting>, id: Seq<char>) -> Option<Meeting> {
    match index_of(s, id) {
        Some(i) => Some(s[i]),
        None => None,
    }
}

/// The list after storing `m`: it replaces the meeting with the same id, or
/// is appended.
pub open spec fn upserted(s: Seq<Meeting>, m: Meeting) -> Seq<Meeting> {
    match index_of(s, m.id@) {
        Some(i) => s.update(i, m),
        None => s.push(m),
    }
}

/// The list without the meeting stored under `id`.
pub open spec fn without(s: Seq<Meeting>, id: Seq<char>) -> Seq<Meeting> {
    match index_of(s, id) {
        Some(i) => s.remove(i),
        None => s,
    }
}

/// With unique ids, `lookup` finds the meeting at the one position holding
/// the id, and nothing when no position holds it.
proof fn lemma_lookup_at(s: Seq<Meeting>, id: Seq<char>)
    requires
        ids_unique(s),
    ensures
        forall|k: int| 0 <= k < s.len() && #[trigger] s[k].id@ == id ==> lookup(s, id) == Some(s[k]),
        (forall|k: int| 0 <= k < s.len() ==> #[trigger] s[k].id@ != id) ==> lookup(s, id) is None,
{
    assert forall|k: int| 0 <= k < s.len() && #[trigger] s[k].id@ == id implies lookup(s, id) == Some(s[k]) by {
        lemma_index_of_unique(s, k);
    }
}

/// Storing a meeting keeps the ids unique; afterwards a read of its id gives
/// it back, and a read of any other id gives what it gave before.
pub proof fn lemma_read_after_write(s: Seq<Meeting>, m: Meeting, other: Seq<char>)
    requires
        ids_unique(s),
        other != m.id@,
    ensures
        ids_unique(upserted(s, m)),
        lookup(upserted(s, m), m.id@) == Some(m),
        lookup(upserted(s, m), other) == lookup(s, other),
{
    let t = upserted(s, m);
    match index_of(s, m.id@) {
        Some(i) => {
            assert forall|a: int, b: int| 0 <= a < b < t.len() implies t[a].id@ != t[b].id@ by {
                assert(t[a].id@ == s[a].id@ && t[b].id@ == s[b].id@);
            }
        },
        None => {
            assert forall|a: int, b: int| 0 <= a < b < t.len() implies t[a].id@ != t[b].id@ by {
                if b == s.len() {
                    assert(t[a] == s[a]);
                    assert(!(exists|i: int| 0 <= i < s.len() && s[i].id@ == m.id@));
                } else {
                    assert(t[a] == s[a] && t[b] == s[b]);
                }
            }
        },
    }
    lemma_lookup_at(s, other);
    lemma_lookup_at(t, other);
    lemma_lookup_at(t, m.id@);
    let k = if index_of(s, m.id@) is Some { index_of(s, m.id@)->0 } else { s.len() as int };
    assert(t[k] == m);
    if exists|j: int| 0 <= j < s.len() && s[j].id@ == other {
        let j = choose|j: int| 0 <= j < s.len() && s[j].id@ == other;
        assert(t[j] == s[j]);
    } else {
        assert forall|j: int| 0 <= j < t.len() implies #[trigger] t[j].id@ != other by {
            if j < s.len() {
                assert(t[j].id@ == s[j].id@);
            }
        }
    }
}

/// Removing a meeting keeps the ids unique; afterwards a read of its id gives
/// nothing, and a read of any other id gives what it gave before.
pub proof fn lemma_read_after_remove(s: Seq<Meeting>, id: Seq<char>, other: Seq<char>)
    requires
        ids_unique(s),
        other != id,
    ensures
        ids_unique(without(s, id)),
        lookup(without(s, id), id) is None,
        lookup(without(s, id), other) == lookup(s, other),
{
    let t = without(s, id);
    match index_of(s, id) {
        Some(i) => {
            assert forall|a: int, b: int| 0 <= a < b < t.len() implies t[a].id@ != t[b].id@ by {
                let a2 = if a < i { a } else { a + 1 };
                let b2 = if b < i { b } else { b + 1 };
                assert(t[a] == s[a2] && t[b] == s[b2]);
            }
            assert forall|k: int| 0 <= k < t.len() implies #[trigger] t[k].id@ != id by {
                let k2 = if k < i { k } else { k + 1 };
                assert(t[k] == s[k2]);
                assert(s[k2].id@ != s[i].id@);
            }
            lemma_lookup_at(s, other);
            lemma_lookup_at(t, other);
            lemma_lookup_at(t, id);
            if exists|j: int| 0 <= j < s.len() && s[j].id@ == other {
                let j = choose|j: int| 0 <= j < s.len() && s[j].id@ == other;
                assert(j != i);
                let j2 = if j < i { j } else { j - 1 };
                assert(t[j2] == s[j]);
            } else {
                assert forall|k: int| 0 <= k < t.len() implies #[trigger] t[k].id@ != other by {
                    let k2 = if k < i { k } else { k + 1 };
                    assert(t[k] == s[k2]);
                }
            }
        },
        None => {},
    }
}

/// Toggling the same flag of the same meeting twice gives back the store as
/// it was: the first toggle leaves the meeting where it was, and the second
/// flips the flag back.
pub proof fn lemma_toggle_twice_restores(s: Seq<Meeting>, id: Seq<char>, f: MeetingFlag)
    requires
        ids_unique(s),
        index_of(s, id) is Some,
    ensures
        ({
            let i = index_of(s, id)->0;
            let t = s.update(i, flipped(s[i], f));
            &&& index_of(t, id) == Some(i)
            &&& t.update(i, flipped(t[i], f)) == s
        }),
{
    let i = index_of(s, id)->0;
    let t = s.update(i, flipped(s[i], f));
    assert(ids_unique(t)) by {
        assert forall|a: int, b: int| 0 <= a < b < t.len() implies t[a].id@ != t[b].id@ by {
            assert(t[a].id@ == s[a].id@ && t[b].id@ == s[b].id@);
        }
    }
    lemma_index_of_unique(t, i);
    assert(t.update(i, flipped(t[i], f)) =~= s);
}

/// The flag named by a request.
pub fn parse_flag(name: &str) -> (r: Option<MeetingFlag>)
    ensures
        r == spec_flag(name@),
{
    if same_text(name, "locked") {
        Some(MeetingFlag::Locked)
    } else if same_text(name, "starred") {
        Some(MeetingFlag::Starred)
    } else if same_text(name, "bookmarked") {
        Some(MeetingFlag::Bookmarked)
    } else {
        None
    }
}

impl MeetingStore {
    #[verifier::type_invariant]
    closed spec fn inv(self) -> bool {
        ids_unique(self.meetings@)
    }

    /// The stored meetings, in insertion order.
    pub closed spec fn entries(self) -> Seq<Meeting> {
        self.meetings@
    }

    /// An empty store.
    pub fn new() -> (s: MeetingStore)
        ensures
            s.entries().len() == 0,
            ids_unique(s.entries()),
    {
        MeetingStore { meetings: Vec::new() }
    }

    /// A store holding the two example meetings, timed relative to `now_ms`.
    pub fn with_examples(now_ms: i64) -> (s: MeetingStore)
        requires
            i64::MIN + 14 * DAY_MS <= now_ms,
        ensures
            s.entries().len() == 2,
            is_roadmap_example(s.entries()[0], now_ms as int),
            is_clip_example(s.entries()[1], now_ms as int),
            ids_unique(s.entries()),
    {
        let mut ms = seed_meetings(now_ms);
        let clip = ms.pop().unwrap();
        let roadmap = ms.pop().unwrap();
        proof {
            reveal_strlit("mtg_roadmap");
            reveal_strlit("mtg_clip");
        }
        let ghost (r0, c0) = (roadmap, clip);
        assert(r0.id@.len() != c0.id@.len());
        let mut s = MeetingStore::new();
        s.upsert(roadmap);
        assert(index_of(Seq::<Meeting>::empty(), r0.id@) is None);
        assert(s.entries() =~= seq![r0]);
        assert(index_of(s.entries(), c0.id@) is None) by {
            assert(s.entries()[0].id@ != c0.id@);
        }
        s.upsert(clip);
        assert(s.entries() =~= seq![r0, c0]);
        s
    }

    /// Positions of the stored meetings, newest first (by start time).
    pub fn newest_first(&self) -> (order: Vec<usize>)
        ensures
            newest_first_order(self.entries(), order@),
    {
        let n = self.meetings.len();
        let mut order: Vec<usize> = Vec::new();
        for k in 0..n
            invariant
                n == self.meetings@.len(),
                order@.len() == k,
                forall|j: int| 0 <= j < order@.len() ==> order@[j] < k,
                forall|a: int, b: int| 0 <= a < b < order@.len() ==> order@[a] != order@[b],
                forall|a: int, b: int| #![trigger order@[a], order@[b]]
                    0 <= a < b < order@.len() ==> self.meetings@[order@[a] as int].started_at_ms
                        >= self.meetings@[order@[b] as int].started_at_ms,
        {
            let t = self.meetings[k].started_at_ms;
            let mut p: usize = 0;
            while p < order.len() && self.meetings[order[p]].started_at_ms >= t
                invariant
                    n == self.meetings@.len(),
                    k < n,
                    t == self.meetings@[k as int].started_at_ms,
                    p <= order@.len(),
                    forall|j: int| 0 <= j < order@.len() ==> order@[j] < k,
                    forall|q: int| 0 <= q < p ==> self.meetings@[#[trigger] order@[q] as int].started_at_ms >= t,
                decreases order@.len() - p,
            {
                p += 1;
            }
            let ghost before = order@;
            proof {
                assert forall|q: int| p <= q < before.len() implies self.meetings@[#[trigger] before[q] as int].started_at_ms < t by {
                    assert(before[p as int] == before[p as int]);
                    if q > p {
                        assert(self.meetings@[before[p as int] as int].started_at_ms >= self.meetings@[before[q] as int].started_at_ms);
                    }
                }
            }
            order.insert(p, k);
            proof {
                assert forall|j: int| 0 <= j < order@.len() implies order@[j] == (if j < p { before[j] } else if j == p { k } else { before[j - 1] }) by {}
                assert forall|a: int, b: int| 0 <= a < b < order@.len() implies order@[a] != order@[b] by {
                    if a < p && b > p {
                        assert(order@[b] == before[b - 1]);
                    }
                }
                assert forall|a: int, b: int| #![trigger order@[a], order@[b]]
                    0 <= a < b < order@.len() implies self.meetings@[order@[a] as int].started_at_ms
                        >= self.meetings@[order@[b] as int].started_at_ms by {
                    if a < p && b > p {
                        assert(self.meetings@[before[a] as int].started_at_ms >= self.meetings@[before[b - 1] as int].started_at_ms);
                    } else if a > p {
                        assert(self.meetings@[before[a - 1] as int].started_at_ms >= self.meetings@[before[b - 1] as int].started_at_ms);
                    } else if b < p {
                        assert(self.meetings@[before[a] as int].started_at_ms >= self.meetings@[before[b] as int].started_at_ms);
                    }
                }
            }
        }
        order
    }

    /// The meeting at position `i` (see `newest_first`).
    pub fn at(&self, i: usize) -> (m: &Meeting)
        requires
            i < self.entries().len(),
        ensures
            *m == self.entries()[i as int],
    {
        &self.meetings[i]
    }

    /// Number of meetings.
    pub fn len(&self) -> (n: usize)
        ensures
            n == self.entries().len(),
    {
        self.meetings.len()
    }

    /// Position of the meeting with this id.
    pub fn position(&self, id: &str) -> (r: Option<usize>)
        ensures
            match r {
                Some(i) => i < self.entries().len() && self.entries()[i as int].id@ == id@,
                None => index_of(self.entries(), id@) is None,
            },
            r matches Some(i) ==> index_of(self.entries(), id@) == Some(i as int),
    {
        proof {
            use_type_invariant(self);
        }
        for i in 0..self.meetings.len()
            invariant
                ids_unique(self.meetings@),
                forall|j: int| 0 <= j < i ==> self.meetings@[j].id@ != id@,
        {
            if same_text(self.meetings[i].id.as_str(), id) {
                proof {
                    let k = choose|k: int| 0 <= k < self.meetings@.len() && self.meetings@[k].id@ == id@;
                    assert(k == i);
                }
                return Some(i);
            }
        }
        None
    }

    /// The meeting with this id.
    pub fn get(&self, id: &str) -> (r: Option<&Meeting>)
        ensures
            match r {
                Some(m) => lookup(self.entries(), id@) == Some(*m),
                None => lookup(self.entries(), id@) is None,
            },
    {
        match self.position(id) {
            Some(i) => Some(&self.meetings[i]),
            None => None,
        }
    }

    /// Insert a meeting, replacing the stored one with the same id.
    pub fn upsert(&mut self, m: Meeting)
        ensures
            final(self).entries() == upserted(old(self).entries(), m),
            index_of(final(self).entries(), m.id@) matches Some(k) && final(self).entries()[k] == m,
            ids_unique(final(self).entries()),
    {
        proof {
            use_type_invariant(&*self);
        }
        let pos = self.position(m.id.as_str());
        let mut ms: Vec<Meeting> = Vec::new();
        std::mem::swap(&mut ms, &mut self.meetings);
        let ghost before = ms@;
        match pos {
            Some(i) => {
                ms.set(i, m);
                proof {
                    assert forall|a: int, b: int| 0 <= a < b < ms@.len() implies ms@[a].id@ != ms@[b].id@ by {
                        if a != i && b != i {
                            assert(ms@[a] == before[a] && ms@[b] == before[b]);
                        } else if a == i {
                            assert(ms@[b] == before[b]);
                            assert(before[a].id@ == ms@[a].id@);
                        } else {
                            assert(ms@[a] == before[a]);
                            assert(before[b].id@ == ms@[b].id@);
                        }
                    }
                }
            },
            None => {
                ms.push(m);
                proof {
                    assert forall|a: int, b: int| 0 <= a < b < ms@.len() implies ms@[a].id@ != ms@[b].id@ by {
                        if b == before.len() {
                            assert(ms@[a] == before[a]);
                            assert(!(exists|i: int| 0 <= i < before.len() && before[i].id@ == m.id@));
                        } else {
                            assert(ms@[a] == before[a] && ms@[b] == before[b]);
                        }
                    }
                }
            },
        }
        proof {
            let k = if pos is Some { pos->0 as int } else { before.len() as int };
            assert(ms@[k] == m);
            assert(ids_unique(ms@));
            lemma_index_of_unique(ms@, k);
        }
        self.meetings = ms;
    }

    /// Remove the meeting with this id; returns whether one was stored.
    pub fn remove(&mut self, id: &str) -> (removed: bool)
        ensures
            removed == (index_of(old(self).entries(), id@) is Some),
            final(self).entries() == without(old(self).entries(), id@),
            index_of(final(self).entries(), id@) is None,
            ids_unique(final(self).entries()),
    {
        proof {
            use_type_invariant(&*self);
        }
        match self.position(id) {
            Some(i) => {
                let mut ms: Vec<Meeting> = Vec::new();
                std::mem::swap(&mut ms, &mut self.meetings);
                let ghost before = ms@;
                ms.remove(i);
                proof {
                    assert forall|a: int, b: int| 0 <= a < b < ms@.len() implies ms@[a].id@ != ms@[b].id@ by {
                        let a2 = if a < i { a } else { a + 1 };
                        let b2 = if b < i { b } else { b + 1 };
                        assert(ms@[a] == before[a2]);
                        assert(ms@[b] == before[b2]);
                    }
                }
                proof {
                    assert forall|k: int| 0 <= k < ms@.len() implies ms@[k].id@ != id@ by {
                        if k < i {
                            assert(ms@[k] == before[k]);
                            assert(before[k].id@ != before[i as int].id@);
                        } else {
                            assert(ms@[k] == before[k + 1]);
                            assert(before[k + 1].id@ != before[i as int].id@);
                        }
                    }
                }
                self.meetings = ms;
                true
            },
            None => false,
        }
    }

    /// Replace the meeting at `i` by `m`, which keeps its id.
    fn replace_at(&mut self, i: usize, m: Meeting)
        requires
            i < old(self).entries().len(),
            m.id@ == old(self).entries()[i as int].id@,
        ensures
            final(self).entries() == old(self).entries().update(i as int, m),
    {
        proof {
            use_type_invariant(&*self);
        }
        let mut ms: Vec<Meeting> = Vec::new();
        std::mem::swap(&mut ms, &mut self.meetings);
        let ghost before = ms@;
        ms.set(i, m);
        proof {
            assert forall|a: int, b: int| 0 <= a < b < ms@.len() implies ms@[a].id@ != ms@[b].id@ by {
                if a != i {
                    assert(ms@[a] == before[a]);
                }
                if b != i {
                    assert(ms@[b] == before[b]);
                }
            }
        }
        self.meetings = ms;
    }

    /// Take the meeting at `i` out for an update, leaving a placeholder that
    /// `replace_at` overwrites.
    fn take_at(&mut self, i: usize) -> (m: Meeting)
        requires
            i < old(self).entries().len(),
        ensures
            m == old(self).entries()[i as int],
            final(self).entries().len() == old(self).entries().len(),
            forall|j: int| 0 <= j < final(self).entries().len() && j != i ==> final(self).entries()[j] == old(self).entries()[j],
            final(self).entries()[i as int].id@ == m.id@,
    {
        proof {
            use_type_invariant(&*self);
        }
        let mut ms: Vec<Meeting> = Vec::new();
        std::mem::swap(&mut ms, &mut self.meetings);
        let m = ms.remove(i);
        let placeholder = Meeting {
            id: m.id.clone(),
            title: String::new(),
            platform: m.platform,
            mode: m.mode,
            status: m.status,
            started_at_ms: m.started_at_ms,
            ended_at_ms: None,
            duration_sec: 0,
            has_audio: false,
            has_video: false,
            is_locked: false,
            is_starred: false,
            is_bookmarked: false,
            tags: Vec::new(),
            participants: Vec::new(),
            timeline: Vec::new(),
            transcript: Vec::new(),
            summary: None,
            action_items: Vec::new(),
            audio_path: None,
            video_path: None,
        };
        let ghost before = ms@;
        ms.insert(i, placeholder);
        let ghost orig = old(self).meetings@;
        proof {
            assert forall|j: int| 0 <= j < ms@.len() && j != i implies ms@[j] == orig[j] by {
                if j < i {
                    assert(ms@[j] == before[j]);
                } else {
                    assert(ms@[j] == before[j - 1]);
                }
            }
            assert forall|a: int, b: int| 0 <= a < b < ms@.len() implies ms@[a].id@ != ms@[b].id@ by {
                assert(ms@[a].id@ == orig[a].id@);
                assert(ms@[b].id@ == orig[b].id@);
            }
        }
        self.meetings = ms;
        m
    }

    /// Flip one of a meeting's flags (`locked`, `starred`, `bookmarked`).
    /// Unknown meeting: `MeetingNotFound`; unknown flag: an `Other` error
    /// naming it. Nothing changes on error.
    pub fn toggle_flag(&mut self, id: &str, flag: &str) -> (r: Result<(), AppError>)
        ensures
            index_of(old(self).entries(), id@) is None ==> (r matches Err(e) && error_message(e) == "meeting not found: "@ + id@
                && e is MeetingNotFound),
            (index_of(old(self).entries(), id@) is Some && spec_flag(flag@) is None) ==> (r matches Err(AppError::Other(t))
                && t@ == "unknown flag: "@ + flag@),
            r is Err ==> final(self).entries() == old(self).entries(),
            match (index_of(old(self).entries(), id@), spec_flag(flag@)) {
                (Some(i), Some(f)) => {
                    &&& r is Ok
                    &&& final(self).entries() == old(self).entries().update(i, flipped(old(self).entries()[i], f))
                },
                _ => true,
            },
    {
        let i = match self.position(id) {
            Some(i) => i,
            None => return Err(AppError::MeetingNotFound(String::from_str(id))),
        };
        let f = match parse_flag(flag) {
            Some(f) => f,
            None => return Err(AppError::Other(String::from_str("unknown flag: ").concat(flag))),
        };
        let mut m = self.take_at(i);
        match f {
            MeetingFlag::Locked => m.is_locked = !m.is_locked,
            MeetingFlag::Starred => m.is_starred = !m.is_starred,
            MeetingFlag::Bookmarked => m.is_bookmarked = !m.is_bookmarked,
        }
        self.replace_at(i, m);
        proof {
            assert(self.entries() =~= old(self).entries().update(i as int, flipped(old(self).entries()[i as int], f)));
        }
        Ok(())
    }

    /// Set a meeting's processing status; returns whether the meeting exists.
    pub fn set_status(&mut self, id: &str, status: MeetingStatus) -> (found: bool)
        ensures
            found == (index_of(old(self).entries(), id@) is Some),
            match index_of(old(self).entries(), id@) {
                Some(i) => final(self).entries() == old(self).entries().update(i, Meeting { status, ..old(self).entries()[i] }),
                None => final(self).entries() == old(self).entries(),
            },
    {
        let i = match self.position(id) {
            Some(i) => i,
            None => return false,
        };
        let mut m = self.take_at(i);
        m.status = status;
        self.replace_at(i, m);
        proof {
            assert(self.entries() =~= old(self).entries().update(i as int, Meeting { status, ..old(self).entries()[i as int] }));
        }
        true
    }

    /// Set a meeting's recorded duration; returns whether the meeting exists.
    pub fn set_duration(&mut self, id: &str, duration_sec: u64) -> (found: bool)
        ensures
            found == (index_of(old(self).entries(), id@) is Some),
            match index_of(old(self).entries(), id@) {
                Some(i) => final(self).entries() == old(self).entries().update(i, Meeting { duration_sec, ..old(self).entries()[i] }),
                None => final(self).entries() == old(self).entries(),
            },
    {
        let i = match self.position(id) {
            Some(i) => i,
            None => return false,
        };
        let mut m = self.take_at(i);
        m.duration_sec = duration_sec;
        self.replace_at(i, m);
        proof {
            assert(self.entries() =~= old(self).entries().update(i as int, Meeting { duration_sec, ..old(self).entries()[i as int] }));
        }
        true
    }

    /// Point a meeting at another video file; returns whether the meeting
    /// exists.
    pub fn set_video_path(&mut self, id: &str, video_path: Option<String>) -> (found: bool)
        ensures
            found == (index_of(old(self).entries(), id@) is Some),
            match index_of(old(self).entries(), id@) {
                Some(i) => final(self).entries() == old(self).entries().update(i, Meeting { video_path, ..old(self).entries()[i] }),
                None => final(self).entries() == old(self).entries(),
            },
    {
        let i = match self.position(id) {
            Some(i) => i,
            None => return false,
        };
        let mut m = self.take_at(i);
        m.video_path = video_path;
        self.replace_at(i, m);
        proof {
            assert(self.entries() =~= old(self).entries().update(i as int, Meeting { video_path, ..old(self).entries()[i as int] }));
        }
        true
    }

    /// Close the stored meeting `id` at the end of its capture, as
    /// `finish_meeting` does, and return its mode. Unknown meeting:
    /// `MeetingNotFound`, nothing changes.
    pub fn finish_capture(
        &mut self,
        id: &str,
        ended_at_ms: i64,
        audio_path: Option<String>,
        video_path: Option<String>,
        marker_id: String,
    ) -> (r: Result<CaptureMode, AppError>)
        requires
            lookup(old(self).entries(), id@) matches Some(m) ==> m.duration_sec * 1000 <= u64::MAX,
        ensures
            match index_of(old(self).entries(), id@) {
                None => {
                    &&& r matches Err(e) && e is MeetingNotFound && error_message(e) == "meeting not found: "@ + id@
                    &&& final(self).entries() == old(self).entries()
                },
                Some(i) => {
                    &&& r == Ok::<CaptureMode, AppError>(old(self).entries()[i].mode)
                    &&& final(self).entries().len() == old(self).entries().len()
                    &&& forall|j: int| 0 <= j < old(self).entries().len() && j != i ==> final(self).entries()[j] == old(self).entries()[j]
                    &&& finished_meeting(old(self).entries()[i], final(self).entries()[i], ended_at_ms, audio_path, video_path, marker_id)
                },
            },
            ids_unique(final(self).entries()),
    {
        proof {
            use_type_invariant(&*self);
        }
        let i = match self.position(id) {
            Some(i) => i,
            None => return Err(AppError::MeetingNotFound(String::from_str(id))),
        };
        let mut m = self.take_at(i);
        let mode = finish_meeting(&mut m, ended_at_ms, audio_path, video_path, marker_id);
        self.replace_at(i, m);
        proof {
            use_type_invariant(&*self);
        }
        Ok(mode)
    }

    /// Settle the stored meeting `id` after its capture was post-processed
    /// (see `settled_meeting`); returns the audio file it referenced, which a
    /// Transcribe-mode meeting no longer keeps. Unknown meeting: nothing
    /// changes.
    pub fn settle_processed(
        &mut self,
        id: &str,
        mode: CaptureMode,
        transcribed: bool,
        has_key: bool,
        offline: Vec<TranscriptSegment>,
        participants: Vec<Participant>,
    ) -> (to_delete: Option<String>)
        ensures
            match index_of(old(self).entries(), id@) {
                None => final(self).entries() == old(self).entries() && to_delete is None,
                Some(i) => {
                    &&& final(self).entries().len() == old(self).entries().len()
                    &&& forall|j: int| 0 <= j < old(self).entries().len() && j != i ==> final(self).entries()[j] == old(self).entries()[j]
                    &&& settled_meeting(old(self).entries()[i], final(self).entries()[i], mode, transcribed, has_key, offline, participants)
                    &&& to_delete == (if mode == CaptureMode::Transcribe { old(self).entries()[i].audio_path } else { None })
                },
            },
    {
        let i = match self.position(id) {
            Some(i) => i,
            None => return None,
        };
        let mut m = self.take_at(i);
        let to_delete = if mode == CaptureMode::Transcribe {
            if !transcribed && !has_key {
                apply_offline_transcript(&mut m, offline, participants)
            } else {
                let p = m.audio_path.take();
                m.has_audio = false;
                p
            }
        } else {
            m.status = MeetingStatus::Ready;
            None
        };
        self.replace_at(i, m);
        to_delete
    }

    /// Give a meeting a new title. Unknown meeting: `MeetingNotFound`.
    pub fn rename(&mut self, id: &str, title: String) -> (r: Result<(), AppError>)
        ensures
            index_of(old(self).entries(), id@) is None ==> (r matches Err(e) && e is MeetingNotFound
                && error_message(e) == "meeting not found: "@ + id@ && final(self).entries() == old(self).entries()),
            index_of(old(self).entries(), id@) matches Some(i) ==> {
                &&& r is Ok
                &&& final(self).entries() == old(self).entries().update(i, Meeting { title, ..old(self).entries()[i] })
            },
    {
        let i = match self.position(id) {
            Some(i) => i,
            None => return Err(AppError::MeetingNotFound(String::from_str(id))),
        };
        let mut m = self.take_at(i);
        m.title = title;
        self.replace_at(i, m);
        proof {
            assert(self.entries() =~= old(self).entries().update(i as int, Meeting { title, ..old(self).entries()[i as int] }));
        }
        Ok(())
    }

    /// Mark every action item with id `item_id` of a meeting done or not done.
    /// Unknown meeting: `MeetingNotFound`.
    pub fn set_action_item_done(&mut self, meeting_id: &str, item_id: &str, done: bool) -> (r: Result<(), AppError>)
        ensures
            index_of(old(self).entries(), meeting_id@) is None ==> (r matches Err(e) && e is MeetingNotFound
                && error_message(e) == "meeting not found: "@ + meeting_id@ && final(self).entries() == old(self).entries()),
            index_of(old(self).entries(), meeting_id@) matches Some(i) ==> {
                let (o, n) = (old(self).entries()[i], final(self).entries()[i]);
                &&& r is Ok
                &&& final(self).entries().len() == old(self).entries().len()
                &&& forall|j: int| 0 <= j < old(self).entries().len() && j != i ==> final(self).entries()[j] == old(self).entries()[j]
                &&& n == Meeting { action_items: n.action_items, ..o }
                &&& n.action_items@.len() == o.action_items@.len()
                &&& forall|k: int| 0 <= k < o.action_items@.len() ==> {
                    let (a, b) = (o.action_items@[k], #[trigger] n.action_items@[k]);
                    &&& b.id == a.id && b.text == a.text && b.assignee == a.assignee && b.due_date == a.due_date
                    &&& b.done == (if a.id@ == item_id@ { done } else { a.done })
                }
            },
    {
        let i = match self.position(meeting_id) {
            Some(i) => i,
            None => return Err(AppError::MeetingNotFound(String::from_str(meeting_id))),
        };
        let mut m = self.take_at(i);
        let ghost old_items = m.action_items@;
        let mut items = Vec::new();
        std::mem::swap(&mut items, &mut m.action_items);
        let mut k: usize = 0;
        while k < items.len()
            invariant
                items@.len() == old_items.len(),
                k <= items@.len(),
                forall|j: int| 0 <= j < items@.len() ==> {
                    let (a, b) = (old_items[j], #[trigger] items@[j]);
                    &&& b.id == a.id && b.text == a.text && b.assignee == a.assignee && b.due_date == a.due_date
                    &&& b.done == (if j < k && a.id@ == item_id@ { done } else { a.done })
                },
            decreases items@.len() - k,
        {
            if same_text(items[k].id.as_str(), item_id) {
                let mut it = items.remove(k);
                it.done = done;
                items.insert(k, it);
            }
            k += 1;
        }
        m.action_items = items;
        self.replace_at(i, m);
        Ok(())
    }
}

} // verus!
