//! The `.env` file format: `KEY=VALUE` lines, `#` comments, blank lines, an
//! optional `export ` prefix, and one pair of matching quotes around a value.

use vstd::prelude::*;

use crate::text::{same_text, chars_of, find_char, first_index, has_prefix, slice_range, starts_with, string_of, trim, trim_ws};

verus! {

/// `v` without one pair of matching surrounding quotes (`"…"` or `'…'`).
pub open spec fn spec_unquote(v: Seq<char>) -> Seq<char> {
    if v.len() >= 2 && ((v[0] == '"' && v.last() == '"') || (v[0] == '\'' && v.last() == '\'')) {
        v.subrange(1, v.len() - 1)
    } else {
        v
    }
}

/// Strip a single matching pair of surrounding quotes, if present.
pub fn unquote(v: &str) -> (r: String)
    ensures
        r@ == spec_unquote(v@),
{
    let c = chars_of(v);
    let n = c.len();
    if n >= 2 && ((c[0] == '"' && c[n - 1] == '"') || (c[0] == '\'' && c[n - 1] == '\'')) {
        string_of(&slice_range(&c, 1, n - 1))
    } else {
        String::from_str(v)
    }
}

/// The entry a line defines: trimmed; blank lines and `#` comments define
/// nothing; an `export ` prefix is dropped; the key (trimmed, non-empty) is what
/// precedes the first `=`, the value what follows it, trimmed and unquoted.
pub open spec fn spec_parse_line(raw: Seq<char>) -> Option<(Seq<char>, Seq<char>)> {
    let line = trim_ws(raw);
    if line.len() == 0 || line[0] == '#' {
        None
    } else {
        let l = if has_prefix(line, "export "@) { line.subrange(7, line.len() as int) } else { line };
        match first_index(l, '=') {
            None => None,
            Some(i) => {
                let key = trim_ws(l.subrange(0, i));
                if key.len() == 0 {
                    None
                } else {
                    Some((key, spec_unquote(trim_ws(l.subrange(i + 1, l.len() as int)))))
                }
            },
        }
    }
}

/// The entry one line of a `.env` file defines, if any.
pub fn parse_line(raw: &str) -> (r: Option<(String, String)>)
    ensures
        match r {
            Some((k, v)) => spec_parse_line(raw@) == Some((k@, v@)),
            None => spec_parse_line(raw@) is None,
        },
{
    let line = trim(&chars_of(raw));
    if line.len() == 0 || line[0] == '#' {
        return None;
    }
    let export = chars_of("export ");
    proof {
        reveal_strlit("export ");
    }
    let l = if starts_with(&line, &export) {
        slice_range(&line, 7, line.len())
    } else {
        slice_range(&line, 0, line.len())
    };
    assert(line@.subrange(0, line@.len() as int) =~= line@);
    match find_char(&l, '=') {
        None => None,
        Some(i) => {
            let key = trim(&slice_range(&l, 0, i));
            if key.len() == 0 {
                return None;
            }
            let value = trim(&slice_range(&l, i + 1, l.len()));
            let vs = string_of(&value);
            Some((string_of(&key), unquote(vs.as_str())))
        },
    }
}

/// Splitting text at `\n`: the finished lines and the line in progress.
pub open spec fn split_scan(s: Seq<char>) -> (Seq<Seq<char>>, Seq<char>)
    decreases s.len(),
{
    if s.len() == 0 {
        (Seq::empty(), Seq::empty())
    } else {
        let (done, cur) = split_scan(s.drop_last());
        if s.last() == '\n' { (done.push(cur), Seq::empty()) } else { (done, cur.push(s.last())) }
    }
}

/// The lines of a text: the pieces between `\n`s, without an empty piece after
/// a final `\n`. (A `\r` before a `\n` stays in the line; `parse_line` trims it.)
pub open spec fn text_lines(s: Seq<char>) -> Seq<Seq<char>> {
    let (done, cur) = split_scan(s);
    if cur.len() > 0 { done.push(cur) } else { done }
}

/// The entries defined by a list of lines, in order.
pub open spec fn entries_of(lines: Seq<Seq<char>>) -> Seq<(Seq<char>, Seq<char>)>
    decreases lines.len(),
{
    if lines.len() == 0 {
        Seq::empty()
    } else {
        let prev = entries_of(lines.drop_last());
        match spec_parse_line(lines.last()) {
            Some(e) => prev.push(e),
            None => prev,
        }
    }
}

/// The texts of key/value pairs.
pub open spec fn pair_texts(v: Seq<(String, String)>) -> Seq<(Seq<char>, Seq<char>)> {
    v.map_values(|p: (String, String)| (p.0@, p.1@))
}

/// Every `KEY=VALUE` entry of a `.env` file's contents, in file order.
pub fn parse_dotenv(content: &str) -> (r: Vec<(String, String)>)
    ensures
        pair_texts(r@) == entries_of(text_lines(content@)),
{
    let c = chars_of(content);
    let mut out: Vec<(String, String)> = Vec::new();
    let mut done_lines: Ghost<Seq<Seq<char>>> = Ghost(Seq::empty());
    let mut cur: Vec<char> = Vec::new();
    for i in 0..c.len()
        invariant
            c@ == content@,
            (done_lines@, cur@) == split_scan(c@.take(i as int)),
            pair_texts(out@) == entries_of(done_lines@),
    {
        proof {
            assert(c@.take(i + 1).drop_last() =~= c@.take(i as int));
        }
        if c[i] == '\n' {
            let line = string_of(&cur);
            let ghost before = done_lines@;
            proof {
                done_lines@ = before.push(cur@);
                assert(done_lines@.drop_last() =~= before);
            }
            match parse_line(line.as_str()) {
                Some(e) => {
                    let ghost o0 = out@;
                    out.push(e);
                    assert(pair_texts(out@) =~= pair_texts(o0).push((out@.last().0@, out@.last().1@)));
                },
                None => {},
            }
            cur = Vec::new();
        } else {
            cur.push(c[i]);
        }
    }
    proof {
        assert(c@.take(c@.len() as int) =~= c@);
    }
    if cur.len() > 0 {
        let line = string_of(&cur);
        let ghost all = done_lines@.push(cur@);
        proof {
            assert(all.drop_last() =~= done_lines@);
        }
        match parse_line(line.as_str()) {
            Some(e) => {
                let ghost o0 = out@;
                out.push(e);
                assert(pair_texts(out@) =~= pair_texts(o0).push((out@.last().0@, out@.last().1@)));
            },
            None => {},
        }
    }
    out
}

/// Entry `i` is the first one that defines its key.
pub open spec fn first_with_key(e: Seq<(Seq<char>, Seq<char>)>, i: int) -> bool {
    forall|j: int| 0 <= j < i ==> #[trigger] e[j].0 != e[i].0
}

/// Entry `i` is written to the environment: its key was not set before
/// loading (`preset[i]` is false) and no earlier entry defines the key.
pub open spec fn written(e: Seq<(Seq<char>, Seq<char>)>, preset: Seq<bool>, i: int) -> bool {
    !preset[i] && first_with_key(e, i)
}

/// The variables that loading the first `n` entries sets, in order.
pub open spec fn updates_upto(e: Seq<(Seq<char>, Seq<char>)>, preset: Seq<bool>, n: nat) -> Seq<(Seq<char>, Seq<char>)>
    decreases n,
{
    if n == 0 {
        Seq::empty()
    } else {
        let prev = updates_upto(e, preset, (n - 1) as nat);
        if written(e, preset, n - 1) { prev.push(e[n - 1]) } else { prev }
    }
}

/// The variables that loading a `.env` file sets: each entry whose key the
/// real environment does not already hold, the first entry of a key only.
pub open spec fn spec_env_updates(e: Seq<(Seq<char>, Seq<char>)>, preset: Seq<bool>) -> Seq<(Seq<char>, Seq<char>)> {
    updates_upto(e, preset, e.len())
}

/// Which of the parsed entries to copy into the environment. `preset[i]`
/// says whether entry `i`'s key was already set before loading began.
pub fn env_updates(entries: &[(String, String)], preset: &[bool]) -> (r: Vec<(String, String)>)
    requires
        entries.len() == preset.len(),
    ensures
        pair_texts(r@) == spec_env_updates(pair_texts(entries@), preset@),
{
    let ghost e = pair_texts(entries@);
    let mut out: Vec<(String, String)> = Vec::new();
    for i in 0..entries.len()
        invariant
            entries.len() == preset.len(),
            e == pair_texts(entries@),
            pair_texts(out@) == updates_upto(e, preset@, i as nat),
    {
        let mut fresh = !preset[i];
        if fresh {
            let mut j: usize = 0;
            while j < i
                invariant
                    i < entries.len(),
                    e == pair_texts(entries@),
                    j <= i,
                    fresh ==> forall|q: int| 0 <= q < j ==> #[trigger] e[q].0 != e[i as int].0,
                    !fresh ==> !first_with_key(e, i as int),
                decreases i - j,
            {
                if same_text(entries[j].0.as_str(), entries[i].0.as_str()) {
                    assert(e[j as int].0 == e[i as int].0);
                    fresh = false;
                }
                j += 1;
            }
        }
        if fresh {
            let ghost o0 = out@;
            let k = entries[i].0.clone();
            let v = entries[i].1.clone();
            out.push((k, v));
            assert(pair_texts(out@) =~= pair_texts(o0).push(e[i as int]));
        }
    }
    out
}

/// Loading never overrides the real environment: no variable it sets has a
/// key that was set before loading (when `preset` answers per key).
pub proof fn lemma_real_environment_wins(e: Seq<(Seq<char>, Seq<char>)>, preset: Seq<bool>)
    requires
        e.len() == preset.len(),
        forall|a: int, b: int| 0 <= a < e.len() && 0 <= b < e.len() && e[a].0 == e[b].0 ==> preset[a] == preset[b],
    ensures
        forall|k: int, i: int| 0 <= k < spec_env_updates(e, preset).len() && 0 <= i < e.len() && preset[i]
            ==> #[trigger] spec_env_updates(e, preset)[k].0 != #[trigger] e[i].0,
{
    lemma_updates_come_from_written(e, preset, e.len());
    assert forall|k: int, i: int| 0 <= k < spec_env_updates(e, preset).len() && 0 <= i < e.len() && preset[i]
        implies #[trigger] spec_env_updates(e, preset)[k].0 != #[trigger] e[i].0 by {
        let x = spec_env_updates(e, preset)[k];
        assert(from_written(e, preset, e.len(), x));
        let j = choose|j: int| 0 <= j < e.len() && written(e, preset, j) && e[j] == x;
        assert(!preset[j]);
    }
}

/// `x` is one of the first `n` entries, and one that is written.
pub open spec fn from_written(e: Seq<(Seq<char>, Seq<char>)>, preset: Seq<bool>, n: nat, x: (Seq<char>, Seq<char>)) -> bool {
    exists|i: int| 0 <= i < n && written(e, preset, i) && #[trigger] e[i] == x
}

/// Every variable set comes from an entry that is written.
pub proof fn lemma_updates_come_from_written(e: Seq<(Seq<char>, Seq<char>)>, preset: Seq<bool>, n: nat)
    requires
        n <= e.len() == preset.len(),
    ensures
        forall|k: int| 0 <= k < updates_upto(e, preset, n).len() ==> #[trigger] from_written(e, preset, n, updates_upto(e, preset, n)[k]),
    decreases n,
{
    if n > 0 {
        lemma_updates_come_from_written(e, preset, (n - 1) as nat);
        let prev = updates_upto(e, preset, (n - 1) as nat);
        let cur = updates_upto(e, preset, n);
        assert forall|k: int| 0 <= k < cur.len() implies #[trigger] from_written(e, preset, n, cur[k]) by {
            if k < prev.len() {
                assert(cur[k] == prev[k]);
                assert(from_written(e, preset, (n - 1) as nat, prev[k]));
                let i = choose|i: int| 0 <= i < n - 1 && written(e, preset, i) && e[i] == prev[k];
                assert(0 <= i < n && written(e, preset, i) && e[i] == cur[k]);
            } else {
                assert(cur[k] == e[n - 1]);
                assert(written(e, preset, n - 1));
            }
        }
    }
}

/// `x` is an entry that is the first to define its key.
pub open spec fn from_first_entry(e: Seq<(Seq<char>, Seq<char>)>, x: (Seq<char>, Seq<char>)) -> bool {
    exists|i: int| 0 <= i < e.len() && first_with_key(e, i) && #[trigger] e[i] == x
}

/// The first entry of a key decides its value: no key is set twice, and the
/// value set is that of the first entry defining the key.
pub proof fn lemma_first_entry_wins(e: Seq<(Seq<char>, Seq<char>)>, preset: Seq<bool>)
    requires
        e.len() == preset.len(),
    ensures
        forall|a: int, b: int| 0 <= a < b < spec_env_updates(e, preset).len()
            ==> #[trigger] spec_env_updates(e, preset)[a].0 != #[trigger] spec_env_updates(e, preset)[b].0,
        forall|k: int| 0 <= k < spec_env_updates(e, preset).len() ==> #[trigger] from_first_entry(e, spec_env_updates(e, preset)[k]),
{
    lemma_updates_distinct(e, preset, e.len());
    lemma_updates_come_from_written(e, preset, e.len());
    assert forall|k: int| 0 <= k < spec_env_updates(e, preset).len() implies #[trigger] from_first_entry(e, spec_env_updates(e, preset)[k]) by {
        let x = spec_env_updates(e, preset)[k];
        assert(from_written(e, preset, e.len(), x));
        let i = choose|i: int| 0 <= i < e.len() && written(e, preset, i) && e[i] == x;
        assert(first_with_key(e, i) && x == e[i]);
    }
}

proof fn lemma_updates_distinct(e: Seq<(Seq<char>, Seq<char>)>, preset: Seq<bool>, n: nat)
    requires
        n <= e.len() == preset.len(),
    ensures
        forall|a: int, b: int| 0 <= a < b < updates_upto(e, preset, n).len()
            ==> #[trigger] updates_upto(e, preset, n)[a].0 != #[trigger] updates_upto(e, preset, n)[b].0,
    decreases n,
{
    if n > 0 {
        lemma_updates_distinct(e, preset, (n - 1) as nat);
        lemma_updates_come_from_written(e, preset, (n - 1) as nat);
        let prev = updates_upto(e, preset, (n - 1) as nat);
        let cur = updates_upto(e, preset, n);
        assert forall|a: int, b: int| 0 <= a < b < cur.len() implies #[trigger] cur[a].0 != #[trigger] cur[b].0 by {
            if b < prev.len() {
                assert(cur[a] == prev[a] && cur[b] == prev[b]);
            } else {
                assert(cur[b] == e[n - 1]);
                assert(cur[a] == prev[a]);
                assert(from_written(e, preset, (n - 1) as nat, prev[a]));
                let i = choose|i: int| 0 <= i < n - 1 && written(e, preset, i) && e[i] == prev[a];
                assert(first_with_key(e, n - 1));
                assert(e[i].0 != e[n - 1].0);
            }
        }
    }
}

} // verus!
