//! Decisions of the meeting-detection loop: when detection runs, which
//! detections are new or gone, the recorder's baseline state, and the debounced
//! auto-stop of a recording whose meeting has ended.

use vstd::prelude::*;

use crate::models::{CaptureMode, DetectedMeeting, MeetingPlatform, RecorderState};
use crate::platform::detect::Candidate;

verus! {

/// Consecutive absent polls before a detected meeting counts as ended.
pub const END_GRACE_TICKS: u32 = 4;

/// How often the loop polls, in milliseconds.
pub const POLL_INTERVAL_MS: u64 = 2000;

/// The `Debug` name of a platform.
pub open spec fn platform_debug_name(p: MeetingPlatform) -> Seq<char> {
    match p {
        MeetingPlatform::GoogleMeet => "GoogleMeet"@,
        MeetingPlatform::Zoom => "Zoom"@,
        MeetingPlatform::Teams => "Teams"@,
        MeetingPlatform::Discord => "Discord"@,
        MeetingPlatform::Slack => "Slack"@,
        MeetingPlatform::Webex => "Webex"@,
        MeetingPlatform::Unknown => "Unknown"@,
    }
}

/// The detection key of a platform: `det_<Platform>`.
pub open spec fn detection_key(p: MeetingPlatform) -> Seq<char> {
    "det_"@ + platform_debug_name(p)
}

/// The key under which a platform's detection is tracked.
pub fn key(platform: MeetingPlatform) -> (r: String)
    ensures
        r@ == detection_key(platform),
{
    let name = match platform {
        MeetingPlatform::GoogleMeet => "GoogleMeet",
        MeetingPlatform::Zoom => "Zoom",
        MeetingPlatform::Teams => "Teams",
        MeetingPlatform::Discord => "Discord",
        MeetingPlatform::Slack => "Slack",
        MeetingPlatform::Webex => "Webex",
        MeetingPlatform::Unknown => "Unknown",
    };
    String::from_str("det_").concat(name)
}

/// Detection runs when the note taker is armed (any mode but `Off`) or when
/// auto-recording of detected meetings is on.
pub fn detection_enabled(mode: CaptureMode, auto_record: bool) -> (b: bool)
    ensures
        b == (mode != CaptureMode::Off || auto_record),
{
    !(mode == CaptureMode::Off && !auto_record)
}

/// The mode a capture runs in: the current mode, or `Record` when it is `Off`.
pub fn capture_mode_for(mode: CaptureMode) -> (r: CaptureMode)
    ensures
        r == (if mode == CaptureMode::Off { CaptureMode::Record } else { mode }),
        r != CaptureMode::Off,
{
    if mode == CaptureMode::Off {
        CaptureMode::Record
    } else {
        mode
    }
}

/// The recorder owns `Recording`, `Processing` and `Error`.
pub open spec fn owned_by_recorder(s: RecorderState) -> bool {
    s == RecorderState::Recording || s == RecorderState::Processing || s == RecorderState::Error
}

/// The state to move to when the loop wants the non-capturing baseline
/// `desired`: nothing while a capture session is live, nothing when the
/// recorder owns the current state or it already matches, else `desired`.
pub fn baseline_update(session_active: bool, current: RecorderState, desired: RecorderState) -> (r: Option<RecorderState>)
    ensures
        r == (if session_active || owned_by_recorder(current) || current == desired {
            None::<RecorderState>
        } else {
            Some(desired)
        }),
{
    if session_active {
        return None;
    }
    match current {
        RecorderState::Recording | RecorderState::Processing | RecorderState::Error => None,
        _ => if current == desired { None } else { Some(desired) },
    }
}

/// The baseline the loop settles on: `Armed` while watching with nothing
/// detected, `Detecting` while a detection is live.
pub fn baseline_for(nothing_detected: bool) -> (r: RecorderState)
    ensures
        r == (if nothing_detected { RecorderState::Armed } else { RecorderState::Detecting }),
{
    if nothing_detected {
        RecorderState::Armed
    } else {
        RecorderState::Detecting
    }
}

/// What a new detection does: the status shown (a waiting recorder switches to
/// `Detecting`) and whether to start recording it (auto-record on, and
/// nothing else capturing).
pub fn new_detection_effect(status: RecorderState, auto_record: bool, session_active: bool) -> (r: (Option<RecorderState>, bool))
    ensures
        r.0 == (if status == RecorderState::Armed || status == RecorderState::Idle {
            Some(RecorderState::Detecting)
        } else {
            None::<RecorderState>
        }),
        r.1 == (auto_record && !session_active),
{
    let shown = if status == RecorderState::Armed || status == RecorderState::Idle {
        Some(RecorderState::Detecting)
    } else {
        None
    };
    (shown, auto_record && !session_active)
}

/// One poll of the auto-stop counter: `tied` when the running recording was
/// started for a detection, `present` when that detection is still active.
/// Returns the new counter and whether to stop the recording now.
pub open spec fn grace_step(missing: nat, tied: bool, present: bool) -> (nat, bool) {
    if !tied || present {
        (0, false)
    } else if missing + 1 < END_GRACE_TICKS {
        ((missing + 1) as nat, false)
    } else {
        (0, true)
    }
}

/// The counter after `k` consecutive polls in which the tied detection was
/// absent, starting from `missing`, and whether the last of them stopped.
pub open spec fn absent_polls(missing: nat, k: nat) -> (nat, bool)
    decreases k,
{
    if k == 0 {
        (missing, false)
    } else {
        grace_step(absent_polls(missing, (k - 1) as nat).0, true, false)
    }
}

/// Debounce for the auto-stop of a detection-started recording.
pub struct GraceCounter {
    missing: u32,
}

impl GraceCounter {
    #[verifier::type_invariant]
    closed spec fn inv(self) -> bool {
        self.missing < END_GRACE_TICKS
    }

    /// Consecutive absent polls so far.
    pub closed spec fn count(self) -> nat {
        self.missing as nat
    }

    /// A counter at zero.
    pub fn new() -> (r: GraceCounter)
        ensures
            r.count() == 0,
    {
        GraceCounter { missing: 0 }
    }

    /// Back to zero (detection switched off).
    pub fn reset(&mut self)
        ensures
            final(self).count() == 0,
    {
        self.missing = 0;
    }

    /// Record one poll. `from_detection` is the detection key the running
    /// recording was started for (if any); `active_keys` the detections active
    /// now. Returns whether to stop the recording.
    pub fn observe(&mut self, from_detection: Option<&String>, active_keys: &[String]) -> (stop: bool)
        ensures
            ({
                let tied = from_detection is Some;
                let present = tied && exists|i: int|
                    0 <= i < active_keys@.len() && (#[trigger] active_keys@[i])@
                        == from_detection.unwrap()@;
                (final(self).count(), stop) == grace_step(old(self).count(), tied, present)
            }),
            final(self).count() < END_GRACE_TICKS,
    {
        proof {
            use_type_invariant(&*self);
        }
        let key = match from_detection {
            None => {
                self.missing = 0;
                return false;
            },
            Some(k) => k,
        };
        let mut present = false;
        for i in 0..active_keys.len()
            invariant
                present == exists|j: int| 0 <= j < i && (#[trigger] active_keys@[j])@ == key@,
        {
            if active_keys[i] == *key {
                present = true;
            }
        }
        if present {
            self.missing = 0;
            return false;
        }
        if self.missing + 1 < END_GRACE_TICKS {
            self.missing = self.missing + 1;
            false
        } else {
            self.missing = 0;
            true
        }
    }
}

/// A detection-started recording stops on exactly the `END_GRACE_TICKS`-th
/// consecutive poll in which its meeting is absent, counting from a fresh or
/// reset counter, and never on an earlier one.
pub proof fn lemma_stops_exactly_after_grace(k: nat)
    requires
        1 <= k <= END_GRACE_TICKS,
    ensures
        absent_polls(0, k).1 == (k == END_GRACE_TICKS),
        k < END_GRACE_TICKS ==> absent_polls(0, k).0 == k,
    decreases k,
{
    reveal_with_fuel(absent_polls, 2);
    if k > 1 {
        lemma_stops_exactly_after_grace((k - 1) as nat);
    }
}

/// A poll in which the meeting is present, or with no detection-started
/// recording, never stops anything and resets the counter.
pub proof fn lemma_presence_resets(missing: nat, tied: bool, present: bool)
    requires
        !tied || present,
    ensures
        grace_step(missing, tied, present) == (0nat, false),
{
}

/// The detections currently shown, keyed by detection id (each id once),
/// kept as a list with distinct ids so that each operation has a stated
/// result.
pub struct DetectedSet {
    items: Vec<DetectedMeeting>,
}

/// The ids of a list of detections.
pub open spec fn ids_of(s: Seq<DetectedMeeting>) -> Seq<Seq<char>> {
    s.map_values(|d: DetectedMeeting| d.id@)
}

/// `key` is among `keys`.
pub open spec fn key_listed(keys: Seq<Seq<char>>, key: Seq<char>) -> bool {
    exists|i: int| 0 <= i < keys.len() && keys[i] == key
}

/// The detections whose id is in `current`.
pub open spec fn still_current(current: Seq<Seq<char>>) -> spec_fn(DetectedMeeting) -> bool {
    |d: DetectedMeeting| key_listed(current, d.id@)
}

/// The detections whose id is not in `current`.
pub open spec fn gone(current: Seq<Seq<char>>) -> spec_fn(DetectedMeeting) -> bool {
    |d: DetectedMeeting| !key_listed(current, d.id@)
}

/// `d` is the detection made from scan candidate `c` at `now_ms`.
pub open spec fn is_detection_of(d: DetectedMeeting, c: Candidate, now_ms: i64) -> bool {
    &&& d.id@ == detection_key(c.platform)
    &&& d.platform == c.platform
    &&& d.title@ == c.title@
    &&& d.process_name@ == c.process_name@
    &&& d.detected_at_ms == now_ms
    &&& !d.capturing
}

/// The key `key` is shown already or taken by one of the candidates `taken`.
pub open spec fn key_taken(shown: Seq<Seq<char>>, taken: Seq<Candidate>, key: Seq<char>) -> bool {
    key_listed(shown, key) || exists|j: int| 0 <= j < taken.len() && detection_key(#[trigger] taken[j].platform) == key
}

/// The candidates of a scan that become new detections, given the ids
/// already shown: each whose key is neither shown nor taken by an earlier
/// candidate.
pub open spec fn fresh_candidates(shown: Seq<Seq<char>>, cands: Seq<Candidate>) -> Seq<Candidate>
    decreases cands.len(),
{
    if cands.len() == 0 {
        Seq::empty()
    } else {
        let prev = fresh_candidates(shown, cands.drop_last());
        let c = cands.last();
        if key_taken(shown, prev, detection_key(c.platform)) { prev } else { prev.push(c) }
    }
}

/// After a scan every candidate's key is shown already or taken by one of
/// the new detections.
pub proof fn lemma_every_candidate_shown(shown: Seq<Seq<char>>, cands: Seq<Candidate>)
    ensures
        forall|i: int| 0 <= i < cands.len() ==> key_taken(shown, fresh_candidates(shown, cands), detection_key(#[trigger] cands[i].platform)),
    decreases cands.len(),
{
    if cands.len() > 0 {
        let init = cands.drop_last();
        lemma_every_candidate_shown(shown, init);
        let prev = fresh_candidates(shown, init);
        let cur = fresh_candidates(shown, cands);
        assert forall|i: int| 0 <= i < cands.len() implies key_taken(shown, cur, detection_key(#[trigger] cands[i].platform)) by {
            let k = detection_key(cands[i].platform);
            if i < init.len() {
                assert(init[i] == cands[i]);
                assert(key_taken(shown, prev, k));
                if !key_listed(shown, k) {
                    let j = choose|j: int| 0 <= j < prev.len() && detection_key(#[trigger] prev[j].platform) == k;
                    assert(cur[j] == prev[j]);
                }
            } else {
                if !key_taken(shown, prev, k) {
                    assert(cur[prev.len() as int] == cands.last());
                } else if !key_listed(shown, k) {
                    let j = choose|j: int| 0 <= j < prev.len() && detection_key(#[trigger] prev[j].platform) == k;
                    assert(cur[j] == prev[j]);
                }
            }
        }
    }
}

/// The texts of a list of strings.
pub open spec fn texts(s: Seq<String>) -> Seq<Seq<char>> {
    s.map_values(|x: String| x@)
}

impl DetectedMeeting {
    /// An identical copy.
    pub fn duplicate(&self) -> (r: DetectedMeeting)
        ensures
            r == *self,
    {
        DetectedMeeting {
            id: self.id.clone(),
            platform: self.platform,
            title: self.title.clone(),
            process_name: self.process_name.clone(),
            detected_at_ms: self.detected_at_ms,
            capturing: self.capturing,
        }
    }
}

impl DetectedSet {
    #[verifier::type_invariant]
    closed spec fn inv(self) -> bool {
        forall|i: int, j: int|
            0 <= i < j < self.items@.len() ==> self.items@[i].id@ != self.items@[j].id@
    }

    /// The detections, in insertion order.
    pub closed spec fn entries(self) -> Seq<DetectedMeeting> {
        self.items@
    }

    /// No detections.
    pub fn new() -> (r: DetectedSet)
        ensures
            r.entries().len() == 0,
    {
        DetectedSet { items: Vec::new() }
    }

    /// Number of detections.
    pub fn len(&self) -> (n: usize)
        ensures
            n == self.entries().len(),
    {
        self.items.len()
    }

    /// Whether nothing is detected.
    pub fn is_empty(&self) -> (b: bool)
        ensures
            b == (self.entries().len() == 0),
    {
        self.items.len() == 0
    }

    /// Position of the detection with this id.
    fn find(&self, id: &String) -> (r: Option<usize>)
        ensures
            match r {
                Some(i) => i < self.entries().len() && self.entries()[i as int].id@ == id@,
                None => !key_listed(ids_of(self.entries()), id@),
            },
    {
        for i in 0..self.items.len()
            invariant
                forall|j: int| 0 <= j < i ==> self.items@[j].id@ != id@,
        {
            if self.items[i].id == *id {
                return Some(i);
            }
        }
        proof {
            assert forall|j: int| 0 <= j < ids_of(self.entries()).len() implies ids_of(self.entries())[j] != id@ by {}
        }
        None
    }

    /// Whether a detection with this id is shown.
    pub fn contains_key(&self, id: &String) -> (b: bool)
        ensures
            b == key_listed(ids_of(self.entries()), id@),
    {
        match self.find(id) {
            Some(i) => {
                assert(ids_of(self.entries())[i as int] == id@);
                true
            },
            None => false,
        }
    }

    /// A copy of the detection with this id.
    pub fn get(&self, id: &String) -> (r: Option<DetectedMeeting>)
        ensures
            r is Some == key_listed(ids_of(self.entries()), id@),
            r matches Some(d) ==> d.id@ == id@ && self.entries().contains(d),
    {
        match self.find(id) {
            Some(i) => {
                assert(ids_of(self.entries())[i as int] == id@);
                Some(self.items[i].duplicate())
            },
            None => None,
        }
    }

    /// Add a detection whose id is not shown yet; returns whether it was added.
    pub fn insert(&mut self, d: DetectedMeeting) -> (added: bool)
        ensures
            added == !key_listed(ids_of(old(self).entries()), d.id@),
            added ==> final(self).entries() == old(self).entries().push(d),
            !added ==> final(self).entries() == old(self).entries(),
    {
        proof {
            use_type_invariant(&*self);
        }
        if self.contains_key(&d.id) {
            return false;
        }
        proof {
            assert forall|j: int| 0 <= j < self.items@.len() implies self.items@[j].id@ != d.id@ by {
                assert(ids_of(self.items@)[j] == self.items@[j].id@);
            }
        }
        let mut items: Vec<DetectedMeeting> = Vec::new();
        std::mem::swap(&mut items, &mut self.items);
        items.push(d);
        self.items = items;
        true
    }

    /// Remove the detection with this id (if shown).
    pub fn remove(&mut self, id: &String) -> (removed: bool)
        ensures
            removed == key_listed(ids_of(old(self).entries()), id@),
            removed ==> exists|i: int|
                0 <= i < old(self).entries().len() && old(self).entries()[i].id@ == id@
                    && final(self).entries() == old(self).entries().remove(i),
            !removed ==> final(self).entries() == old(self).entries(),
    {
        proof {
            use_type_invariant(&*self);
        }
        match self.find(id) {
            Some(i) => {
                assert(ids_of(self.items@)[i as int] == id@);
                let ghost before = self.items@;
                let mut items: Vec<DetectedMeeting> = Vec::new();
                std::mem::swap(&mut items, &mut self.items);
                items.remove(i);
                proof {
                    assert forall|a: int, b: int| 0 <= a < b < items@.len() implies items@[a].id@ != items@[b].id@ by {
                        let a2 = if a < i { a } else { a + 1 };
                        let b2 = if b < i { b } else { b + 1 };
                        assert(items@[a] == before[a2]);
                        assert(items@[b] == before[b2]);
                    }
                }
                self.items = items;
                true
            },
            None => false,
        }
    }

    /// Mark the detection with this id as being captured.
    pub fn set_capturing(&mut self, id: &String)
        ensures
            final(self).entries().len() == old(self).entries().len(),
            forall|i: int| 0 <= i < old(self).entries().len() ==> {
                let (o, n) = (old(self).entries()[i], #[trigger] final(self).entries()[i]);
                &&& n.id == o.id && n.platform == o.platform && n.title == o.title
                &&& n.process_name == o.process_name && n.detected_at_ms == o.detected_at_ms
                &&& n.capturing == (o.capturing || o.id@ == id@)
            },
    {
        proof {
            use_type_invariant(&*self);
        }
        match self.find(id) {
            Some(i) => {
                let mut d = self.items[i].duplicate();
                d.capturing = true;
                let mut items: Vec<DetectedMeeting> = Vec::new();
                std::mem::swap(&mut items, &mut self.items);
                items.set(i, d);
                self.items = items;
            },
            None => {
                proof {
                    assert forall|j: int| 0 <= j < self.items@.len() implies self.items@[j].id@ != id@ by {
                        assert(ids_of(self.items@)[j] == self.items@[j].id@);
                    }
                }
            },
        }
    }

    /// Record this poll's scan results: each candidate whose detection key is
    /// not shown yet (nor taken by an earlier candidate) becomes a detection at
    /// `now_ms`, not yet capturing. Returns the new detections in scan order.
    pub fn register_scan(&mut self, cands: &[Candidate], now_ms: i64) -> (fresh: Vec<DetectedMeeting>)
        ensures
            fresh@.len() == fresh_candidates(ids_of(old(self).entries()), cands@).len(),
            forall|k: int| 0 <= k < fresh@.len() ==> is_detection_of(
                #[trigger] fresh@[k],
                fresh_candidates(ids_of(old(self).entries()), cands@)[k],
                now_ms,
            ),
            final(self).entries() == old(self).entries() + fresh@,
            forall|i: int| 0 <= i < cands@.len() ==> key_listed(ids_of(final(self).entries()), detection_key(#[trigger] cands@[i].platform)),
    {
        let ghost start = self.entries();
        let mut fresh: Vec<DetectedMeeting> = Vec::new();
        for i in 0..cands.len()
            invariant
                self.entries() == start + fresh@,
                fresh@.len() == fresh_candidates(ids_of(start), cands@.take(i as int)).len(),
                forall|k: int| 0 <= k < fresh@.len() ==> is_detection_of(
                    #[trigger] fresh@[k],
                    fresh_candidates(ids_of(start), cands@.take(i as int))[k],
                    now_ms,
                ),
        {
            let ghost prev = fresh_candidates(ids_of(start), cands@.take(i as int));
            proof {
                assert(cands@.take(i + 1).drop_last() =~= cands@.take(i as int));
                assert(cands@.take(i + 1).last() == cands@[i as int]);
            }
            let c = &cands[i];
            let k = key(c.platform);
            let shown = self.contains_key(&k);
            proof {
                let all = ids_of(self.entries());
                assert(all =~= ids_of(start) + ids_of(fresh@));
                if key_listed(all, k@) {
                    let j = choose|j: int| 0 <= j < all.len() && all[j] == k@;
                    if j >= ids_of(start).len() {
                        let q = j - ids_of(start).len();
                        assert(fresh@[q].id@ == detection_key(prev[q].platform));
                        assert(key_taken(ids_of(start), prev, k@));
                    } else {
                        assert(ids_of(start)[j] == k@);
                    }
                } else {
                    assert forall|q: int| 0 <= q < prev.len() implies detection_key(#[trigger] prev[q].platform) != k@ by {
                        assert(is_detection_of(fresh@[q], prev[q], now_ms));
                        assert(all[ids_of(start).len() + q] == fresh@[q].id@);
                    }
                    assert forall|j: int| 0 <= j < ids_of(start).len() implies ids_of(start)[j] != k@ by {
                        assert(all[j] == ids_of(start)[j]);
                    }
                }
            }
            if !shown {
                let d = DetectedMeeting {
                    id: k,
                    platform: c.platform,
                    title: c.title.clone(),
                    process_name: c.process_name.clone(),
                    detected_at_ms: now_ms,
                    capturing: false,
                };
                let copy = d.duplicate();
                self.insert(d);
                fresh.push(copy);
                proof {
                    assert(self.entries() =~= start + fresh@);
                }
            }
        }
        proof {
            assert(cands@.take(cands@.len() as int) =~= cands@);
            let fc = fresh_candidates(ids_of(start), cands@);
            lemma_every_candidate_shown(ids_of(start), cands@);
            let all = ids_of(self.entries());
            assert(all =~= ids_of(start) + ids_of(fresh@));
            assert forall|i: int| 0 <= i < cands@.len() implies key_listed(all, detection_key(#[trigger] cands@[i].platform)) by {
                let k = detection_key(cands@[i].platform);
                assert(key_taken(ids_of(start), fc, k));
                if key_listed(ids_of(start), k) {
                    let j = choose|j: int| 0 <= j < ids_of(start).len() && ids_of(start)[j] == k;
                    assert(all[j] == k);
                } else {
                    let j = choose|j: int| 0 <= j < fc.len() && detection_key(#[trigger] fc[j].platform) == k;
                    assert(is_detection_of(fresh@[j], fc[j], now_ms));
                    assert(all[ids_of(start).len() + j] == fresh@[j].id@);
                }
            }
        }
        fresh
    }

    /// Drop every detection whose id is not in `current` (a meeting whose
    /// window disappeared); returns the dropped ids in order.
    pub fn retain_current(&mut self, current: &[String]) -> (removed: Vec<String>)
        ensures
            final(self).entries() == old(self).entries().filter(still_current(texts(current@))),
            texts(removed@) == ids_of(old(self).entries().filter(gone(texts(current@)))),
    {
        proof {
            use_type_invariant(&*self);
        }
        let ghost cur = texts(current@);
        let ghost old_items = self.items@;
        let mut kept: Vec<DetectedMeeting> = Vec::new();
        let mut removed: Vec<String> = Vec::new();
        for i in 0..self.items.len()
            invariant
                cur == texts(current@),
                old_items == self.items@,
                kept@ == old_items.subrange(0, i as int).filter(still_current(cur)),
                texts(removed@) == ids_of(old_items.subrange(0, i as int).filter(gone(cur))),
                forall|a: int, b: int| 0 <= a < b < old_items.len() ==> old_items[a].id@ != old_items[b].id@,
                forall|a: int, b: int| 0 <= a < b < kept@.len() ==> kept@[a].id@ != kept@[b].id@,
                forall|a: int| 0 <= a < kept@.len() ==> exists|x: int| 0 <= x < i && (#[trigger] old_items[x]).id@ == (#[trigger] kept@[a]).id@,
        {
            let d = self.items[i].duplicate();
            let mut listed = false;
            for k in 0..current.len()
                invariant
                    cur == texts(current@),
                    listed == exists|j: int| 0 <= j < k && cur[j] == d.id@,
            {
                assert(cur[k as int] == current@[k as int]@);
                if current[k] == d.id {
                    listed = true;
                }
            }
            proof {
                reveal_with_fuel(Seq::filter, 1);
                let pre = old_items.subrange(0, i + 1);
                assert(pre.drop_last() =~= old_items.subrange(0, i as int));
                assert(pre.last() == d);
                assert(listed == key_listed(cur, d.id@));
            }
            if listed {
                let ghost k0 = kept@;
                proof {
                    assert forall|a: int| 0 <= a < k0.len() implies k0[a].id@ != d.id@ by {
                        let x = choose|x: int| 0 <= x < i && (#[trigger] old_items[x]).id@ == k0[a].id@;
                    }
                }
                kept.push(d);
                proof {
                    assert forall|a: int| 0 <= a < kept@.len() implies exists|x: int| 0 <= x < i + 1 && (#[trigger] old_items[x]).id@ == (#[trigger] kept@[a]).id@ by {
                        if a < k0.len() {
                            let x = choose|x: int| 0 <= x < i && (#[trigger] old_items[x]).id@ == k0[a].id@;
                        } else {
                            assert(old_items[i as int].id@ == kept@[a].id@);
                        }
                    }
                }
            } else {
                let ghost r0 = removed@;
                removed.push(d.id.clone());
                proof {
                    assert(texts(removed@) =~= texts(r0).push(d.id@));
                    assert(ids_of(old_items.subrange(0, i as int).filter(gone(cur)).push(d)) =~= ids_of(
                        old_items.subrange(0, i as int).filter(gone(cur)),
                    ).push(d.id@));
                }
            }
        }
        proof {
            assert(old_items.subrange(0, old_items.len() as int) =~= old_items);
        }
        self.items = kept;
        removed
    }

    /// Drop everything; returns the dropped ids in order.
    pub fn clear(&mut self) -> (removed: Vec<String>)
        ensures
            final(self).entries().len() == 0,
            texts(removed@) == ids_of(old(self).entries()),
    {
        let mut removed: Vec<String> = Vec::new();
        for i in 0..self.items.len()
            invariant
                texts(removed@) == ids_of(self.items@.subrange(0, i as int)),
        {
            let ghost r0 = removed@;
            removed.push(self.items[i].id.clone());
            proof {
                assert(texts(removed@) =~= texts(r0).push(self.items@[i as int].id@));
                assert(ids_of(self.items@.subrange(0, i + 1)) =~= ids_of(self.items@.subrange(0, i as int)).push(
                    self.items@[i as int].id@,
                ));
            }
        }
        assert(self.items@.subrange(0, self.items@.len() as int) =~= self.items@);
        self.items = Vec::new();
        removed
    }
}

} // verus!
