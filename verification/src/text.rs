//! Character-level text helpers over `Seq<char>` models of strings.

use vstd::prelude::*;
use vstd::string::*;

verus! {

/// `t` occurs in `s` starting at character index `i`.
pub open spec fn occurs_at(s: Seq<char>, t: Seq<char>, i: int) -> bool {
    0 <= i && i + t.len() <= s.len() && s.subrange(i, i + t.len()) == t
}

/// `t` is a substring of `s`.
pub open spec fn has_sub(s: Seq<char>, t: Seq<char>) -> bool {
    exists|i: int| occurs_at(s, t, i)
}

/// `s` begins with `t`.
pub open spec fn has_prefix(s: Seq<char>, t: Seq<char>) -> bool {
    occurs_at(s, t, 0)
}

/// `s` ends with `t`.
pub open spec fn has_suffix(s: Seq<char>, t: Seq<char>) -> bool {
    t.len() <= s.len() && occurs_at(s, t, s.len() - t.len())
}

/// Index of the last occurrence of `t` in `s`, if any.
pub open spec fn last_occurrence(s: Seq<char>, t: Seq<char>) -> Option<int> {
    if has_sub(s, t) {
        Some(choose|i: int| occurs_at(s, t, i) && forall|j: int| #[trigger] occurs_at(s, t, j) ==> j <= i)
    } else {
        None
    }
}

/// Appends one character to a `String` (`String::push`).
#[verifier::external_body]
pub(crate) fn push_char(s: &mut String, c: char)
    ensures
        final(s)@ == old(s)@.push(c),
{
    s.push(c);
}

/// The characters of `s`, in order.
pub fn chars_of(s: &str) -> (v: Vec<char>)
    ensures
        v@ == s@,
{
    let n = s.unicode_len();
    let mut v: Vec<char> = Vec::new();
    for i in 0..n
        invariant
            n == s@.len(),
            v@ == s@.subrange(0, i as int),
    {
        v.push(s.get_char(i));
    }
    assert(v@ =~= s@);
    v
}

/// A `String` holding exactly the characters `v`.
pub fn string_of(v: &[char]) -> (s: String)
    ensures
        s@ == v@,
{
    let mut s = String::new();
    for i in 0..v.len()
        invariant
            s@ == v@.subrange(0, i as int),
    {
        push_char(&mut s, v[i]);
        assert(s@ =~= v@.subrange(0, i + 1));
    }
    assert(s@ =~= v@);
    s
}

/// Whether `t` occurs in `s` at index `i`.
pub fn matches_at(s: &[char], t: &[char], i: usize) -> (b: bool)
    ensures
        b == occurs_at(s@, t@, i as int),
{
    if i > s.len() || t.len() > s.len() - i {
        return false;
    }
    let mut k: usize = 0;
    while k < t.len()
        invariant
            i + t.len() <= s.len(),
            k <= t.len(),
            forall|j: int| 0 <= j < k ==> s@[i + j] == t@[j],
        decreases t.len() - k,
    {
        if s[i + k] != t[k] {
            assert(s@.subrange(i as int, i + t.len())[k as int] != t@[k as int]);
            return false;
        }
        k += 1;
    }
    assert(s@.subrange(i as int, i + t.len()) =~= t@);
    true
}

/// Whether `t` is a substring of `s`.
pub fn contains(s: &[char], t: &[char]) -> (b: bool)
    ensures
        b == has_sub(s@, t@),
{
    if t.len() > s.len() {
        return false;
    }
    let last = s.len() - t.len();
    let mut i: usize = 0;
    loop
        invariant
            last == s.len() - t.len(),
            i <= last,
            forall|j: int| 0 <= j < i ==> !occurs_at(s@, t@, j),
        decreases last - i,
    {
        if matches_at(s, t, i) {
            return true;
        }
        if i == last {
            return false;
        }
        i += 1;
    }
}

/// Whether `s` begins with `t`.
pub fn starts_with(s: &[char], t: &[char]) -> (b: bool)
    ensures
        b == has_prefix(s@, t@),
{
    matches_at(s, t, 0)
}

/// Whether `s` ends with `t`.
pub fn ends_with(s: &[char], t: &[char]) -> (b: bool)
    ensures
        b == has_suffix(s@, t@),
{
    if t.len() > s.len() {
        return false;
    }
    matches_at(s, t, s.len() - t.len())
}

/// Index of the last occurrence of `t` in `s`.
pub fn rfind(s: &[char], t: &[char]) -> (r: Option<usize>)
    ensures
        match r {
            Some(i) => occurs_at(s@, t@, i as int) && forall|j: int|
                #[trigger] occurs_at(s@, t@, j) ==> j <= i,
            None => !has_sub(s@, t@),
        },
        r matches Some(i) ==> last_occurrence(s@, t@) == Some(i as int),
        r is None ==> last_occurrence(s@, t@) is None,
{
    if t.len() > s.len() {
        return None;
    }
    let mut i: usize = s.len() - t.len();
    loop
        invariant
            i <= s.len() - t.len(),
            forall|j: int| i < j ==> !occurs_at(s@, t@, j),
        decreases i,
    {
        if matches_at(s, t, i) {
            proof {
                assert forall|j: int| #[trigger] occurs_at(s@, t@, j) implies j <= i by {}
                let c = choose|k: int| occurs_at(s@, t@, k) && forall|j: int| #[trigger] occurs_at(s@, t@, j) ==> j <= k;
                assert(c <= i as int);
                assert(occurs_at(s@, t@, c));
                assert(c == i as int);
            }
            return Some(i);
        }
        if i == 0 {
            return None;
        }
        i -= 1;
    }
}


/// Unicode `White_Space` (what `char::is_whitespace` tests).
pub open spec fn is_ws(c: char) -> bool {
    ||| ('\u{9}' <= c && c <= '\u{d}')
    ||| c == ' '
    ||| c == '\u{85}'
    ||| c == '\u{a0}'
    ||| c == '\u{1680}'
    ||| ('\u{2000}' <= c && c <= '\u{200a}')
    ||| c == '\u{2028}'
    ||| c == '\u{2029}'
    ||| c == '\u{202f}'
    ||| c == '\u{205f}'
    ||| c == '\u{3000}'
}

/// `char::is_ascii_alphanumeric`.
pub open spec fn is_ascii_alnum(c: char) -> bool {
    ('0' <= c && c <= '9') || ('a' <= c && c <= 'z') || ('A' <= c && c <= 'Z')
}

/// `char::to_ascii_lowercase`.
pub open spec fn ascii_lower(c: char) -> char {
    if 'A' <= c && c <= 'Z' {
        ((c as u32) + 32) as char
    } else {
        c
    }
}

/// Whether `c` is white space.
pub fn char_is_ws(c: char) -> (b: bool)
    ensures
        b == is_ws(c),
{
    ('\u{9}' <= c && c <= '\u{d}') || c == ' ' || c == '\u{85}' || c == '\u{a0}' || c
        == '\u{1680}' || ('\u{2000}' <= c && c <= '\u{200a}') || c == '\u{2028}' || c
        == '\u{2029}' || c == '\u{202f}' || c == '\u{205f}' || c == '\u{3000}'
}

/// Whether `c` is an ASCII letter or digit.
pub fn char_is_ascii_alnum(c: char) -> (b: bool)
    ensures
        b == is_ascii_alnum(c),
{
    ('0' <= c && c <= '9') || ('a' <= c && c <= 'z') || ('A' <= c && c <= 'Z')
}

/// The ASCII lower-case form of `c` (other characters unchanged).
pub fn char_ascii_lower(c: char) -> (r: char)
    ensures
        r == ascii_lower(c),
{
    if 'A' <= c && c <= 'Z' {
        let code: u32 = (c as u32) + 32;
        assert(('a' as u32) <= code <= ('z' as u32));
        char_from_ascii_code(code)
    } else {
        c
    }
}

/// The character with a given code in the ASCII range.
fn char_from_ascii_code(code: u32) -> (c: char)
    requires
        code < 128,
    ensures
        c == code as char,
{
    let b: u8 = code as u8;
    b as char
}

/// `s` with the leading characters satisfying `p` removed.
pub open spec fn trim_left_by(s: Seq<char>, p: spec_fn(char) -> bool) -> Seq<char>
    decreases s.len(),
{
    if s.len() > 0 && p(s[0]) {
        trim_left_by(s.drop_first(), p)
    } else {
        s
    }
}

/// `s` with the trailing characters satisfying `p` removed.
pub open spec fn trim_right_by(s: Seq<char>, p: spec_fn(char) -> bool) -> Seq<char>
    decreases s.len(),
{
    if s.len() > 0 && p(s.last()) {
        trim_right_by(s.drop_last(), p)
    } else {
        s
    }
}

/// The test "is white space", as a function value.
pub open spec fn ws_pred() -> spec_fn(char) -> bool {
    |c: char| is_ws(c)
}

/// The test "equals `c`", as a function value.
pub open spec fn eq_pred(c: char) -> spec_fn(char) -> bool {
    |x: char| x == c
}

/// `str::trim`: white space removed at both ends.
pub open spec fn trim_ws(s: Seq<char>) -> Seq<char> {
    trim_right_by(trim_left_by(s, ws_pred()), ws_pred())
}

/// `s` with `c` removed at both ends (`str::trim_matches` with one character).
pub open spec fn trim_char(s: Seq<char>, c: char) -> Seq<char> {
    trim_right_by(trim_left_by(s, eq_pred(c)), eq_pred(c))
}

/// `s` with trailing `c` removed (`str::trim_end_matches` with one character).
pub open spec fn trim_end_char(s: Seq<char>, c: char) -> Seq<char> {
    trim_right_by(s, eq_pred(c))
}

/// Trimming at the front leaves a suffix of the text.
pub proof fn lemma_trim_left_suffix(s: Seq<char>, p: spec_fn(char) -> bool)
    ensures
        exists|i: int| 0 <= i <= s.len() && trim_left_by(s, p) == s.subrange(i, s.len() as int),
    decreases s.len(),
{
    if s.len() > 0 && p(s[0]) {
        let t = s.drop_first();
        lemma_trim_left_suffix(t, p);
        let i = choose|i: int| 0 <= i <= t.len() && trim_left_by(t, p) == t.subrange(i, t.len() as int);
        assert(t.subrange(i, t.len() as int) =~= s.subrange(i + 1, s.len() as int));
    } else {
        assert(s.subrange(0, s.len() as int) =~= s);
    }
}

/// Trimming at the back leaves a prefix of the text.
pub proof fn lemma_trim_right_prefix(s: Seq<char>, p: spec_fn(char) -> bool)
    ensures
        exists|e: int| 0 <= e <= s.len() && trim_right_by(s, p) == s.subrange(0, e),
    decreases s.len(),
{
    if s.len() > 0 && p(s.last()) {
        let t = s.drop_last();
        lemma_trim_right_prefix(t, p);
        let e = choose|e: int| 0 <= e <= t.len() && trim_right_by(t, p) == t.subrange(0, e);
        assert(t.subrange(0, e) =~= s.subrange(0, e));
    } else {
        assert(s.subrange(0, s.len() as int) =~= s);
    }
}

pub proof fn lemma_trim_left_at(s: Seq<char>, p: spec_fn(char) -> bool, i: int)
    requires
        0 <= i <= s.len(),
        forall|j: int| 0 <= j < i ==> p(s[j]),
        i == s.len() || !p(s[i]),
    ensures
        trim_left_by(s, p) == s.subrange(i, s.len() as int),
    decreases i,
{
    if i == 0 {
        assert(s.subrange(0, s.len() as int) =~= s);
    } else {
        let t = s.drop_first();
        assert forall|j: int| 0 <= j < i - 1 implies p(t[j]) by {
            assert(t[j] == s[j + 1]);
        }
        lemma_trim_left_at(t, p, i - 1);
        assert(t.subrange(i - 1, t.len() as int) =~= s.subrange(i, s.len() as int));
    }
}

pub proof fn lemma_trim_right_at(s: Seq<char>, p: spec_fn(char) -> bool, e: int)
    requires
        0 <= e <= s.len(),
        forall|j: int| e <= j < s.len() ==> p(s[j]),
        e == 0 || !p(s[e - 1]),
    ensures
        trim_right_by(s, p) == s.subrange(0, e),
    decreases s.len() - e,
{
    if e == s.len() {
        assert(s.subrange(0, e) =~= s);
    } else {
        let t = s.drop_last();
        assert forall|j: int| e <= j < t.len() implies p(t[j]) by {
            assert(t[j] == s[j]);
        }
        lemma_trim_right_at(t, p, e);
        assert(t.subrange(0, e) =~= s.subrange(0, e));
    }
}

/// Removes the characters satisfying the executable test `is_trimmed` at both
/// ends, where `is_trimmed` decides `p`.
fn trim_range(v: &[char], which: TrimKind) -> (r: (usize, usize))
    ensures
        r.0 <= r.1 <= v.len(),
        v@.subrange(r.0 as int, r.1 as int) == trim_right_by(
            trim_left_by(v@, which.pred()),
            which.pred(),
        ),
{
    let n = v.len();
    let mut i: usize = 0;
    while i < n && which.test(v[i])
        invariant
            n == v.len(),
            i <= n,
            forall|j: int| 0 <= j < i ==> (which.pred())(v@[j]),
        decreases n - i,
    {
        i += 1;
    }
    proof {
        lemma_trim_left_at(v@, which.pred(), i as int);
    }
    let ghost t = v@.subrange(i as int, n as int);
    let mut e: usize = n;
    while e > i && which.test(v[e - 1])
        invariant
            n == v.len(),
            i <= e <= n,
            t == v@.subrange(i as int, n as int),
            forall|j: int| e <= j < n ==> (which.pred())(v@[j]),
        decreases e - i,
    {
        e -= 1;
    }
    proof {
        assert forall|j: int| e - i <= j < t.len() implies (which.pred())(t[j]) by {
            assert(t[j] == v@[j + i]);
        }
        if e > i {
            assert(t[e - i - 1] == v@[e - 1]);
        }
        lemma_trim_right_at(t, which.pred(), e - i);
        assert(t.subrange(0, e - i) =~= v@.subrange(i as int, e as int));
    }
    (i, e)
}

/// Which characters a trim removes.
#[derive(Clone, Copy)]
pub enum TrimKind {
    WhiteSpace,
    Char(char),
}

impl TrimKind {
    pub open spec fn pred(self) -> spec_fn(char) -> bool {
        match self {
            TrimKind::WhiteSpace => ws_pred(),
            TrimKind::Char(x) => eq_pred(x),
        }
    }

    fn test(self, c: char) -> (b: bool)
        ensures
            b == (self.pred())(c),
    {
        match self {
            TrimKind::WhiteSpace => char_is_ws(c),
            TrimKind::Char(x) => c == x,
        }
    }
}

/// `s` without leading and trailing white space.
pub fn trim(v: &[char]) -> (r: Vec<char>)
    ensures
        r@ == trim_ws(v@),
{
    let (a, b) = trim_range(v, TrimKind::WhiteSpace);
    let r = slice_range(v, a, b);
    r
}

/// `s` without leading and trailing `c`.
pub fn trim_matches(v: &[char], c: char) -> (r: Vec<char>)
    ensures
        r@ == trim_char(v@, c),
{
    let (a, b) = trim_range(v, TrimKind::Char(c));
    let r = slice_range(v, a, b);
    r
}

/// `s` without trailing `c`.
pub fn trim_end_matches(v: &[char], c: char) -> (r: Vec<char>)
    ensures
        r@ == trim_end_char(v@, c),
{
    let mut e: usize = v.len();
    while e > 0 && v[e - 1] == c
        invariant
            e <= v.len(),
            forall|j: int| e <= j < v.len() ==> v@[j] == c,
        decreases e,
    {
        e -= 1;
    }
    proof {
        lemma_trim_right_at(v@, eq_pred(c), e as int);
    }
    slice_range(v, 0, e)
}

/// The characters `v[a..b]`.
pub fn slice_range(v: &[char], a: usize, b: usize) -> (r: Vec<char>)
    requires
        a <= b <= v.len(),
    ensures
        r@ == v@.subrange(a as int, b as int),
{
    let mut r: Vec<char> = Vec::new();
    let mut i = a;
    while i < b
        invariant
            a <= i <= b <= v.len(),
            r@ == v@.subrange(a as int, i as int),
        decreases b - i,
    {
        r.push(v[i]);
        i += 1;
        assert(r@ =~= v@.subrange(a as int, i as int));
    }
    r
}

/// `split_whitespace().join(" ")`, as a left-to-right scan: the output so far and
/// whether white space has been seen since the last kept character.
pub open spec fn collapse_scan(s: Seq<char>) -> (Seq<char>, bool)
    decreases s.len(),
{
    if s.len() == 0 {
        (Seq::empty(), false)
    } else {
        let (out, gap) = collapse_scan(s.drop_last());
        let c = s.last();
        if is_ws(c) {
            (out, true)
        } else if gap && out.len() > 0 {
            (out.push(' ').push(c), false)
        } else {
            (out.push(c), false)
        }
    }
}

/// The words of `s` joined by single spaces.
pub open spec fn collapse_ws(s: Seq<char>) -> Seq<char> {
    collapse_scan(s).0
}

/// Words of `v` joined by single spaces (`split_whitespace().join(" ")`).
pub fn collapse_whitespace(v: &[char]) -> (r: Vec<char>)
    ensures
        r@ == collapse_ws(v@),
{
    let mut out: Vec<char> = Vec::new();
    let mut gap = false;
    for i in 0..v.len()
        invariant
            (out@, gap) == collapse_scan(v@.subrange(0, i as int)),
    {
        let c = v[i];
        proof {
            assert(v@.subrange(0, i + 1).drop_last() =~= v@.subrange(0, i as int));
        }
        if char_is_ws(c) {
            gap = true;
        } else {
            if gap && out.len() > 0 {
                out.push(' ');
            }
            out.push(c);
            gap = false;
        }
    }
    assert(v@.subrange(0, v.len() as int) =~= v@);
    out
}

/// Concatenation of two character vectors.
pub fn concat_chars(a: &[char], b: &[char]) -> (r: Vec<char>)
    ensures
        r@ == a@ + b@,
{
    let mut r = slice_range(a, 0, a.len());
    for i in 0..b.len()
        invariant
            r@ == a@ + b@.subrange(0, i as int),
    {
        r.push(b[i]);
        assert(r@ =~= a@ + b@.subrange(0, i + 1));
    }
    assert(b@.subrange(0, b.len() as int) =~= b@);
    assert(a@.subrange(0, a.len() as int) =~= a@);
    r
}


/// Whether two strings hold the same characters.
pub fn same_text(a: &str, b: &str) -> (r: bool)
    ensures
        r == (a@ == b@),
{
    let x = chars_of(a);
    let y = chars_of(b);
    if x.len() != y.len() {
        return false;
    }
    let r = matches_at(&x, &y, 0);
    if r {
        assert(x@.subrange(0, y@.len() as int) =~= x@);
    } else {
        assert(!(x@ =~= y@) || x@.subrange(0, y@.len() as int) =~= y@);
    }
    r
}

/// `c` if it is an ASCII letter or digit, else `repl`.
pub open spec fn keep_alnum_or(c: char, repl: char) -> char {
    if is_ascii_alnum(c) { c } else { repl }
}

/// `v` with every character that is not an ASCII letter or digit replaced by `repl`.
pub fn map_non_alnum(v: &[char], repl: char) -> (r: Vec<char>)
    ensures
        r@ == v@.map_values(|c: char| keep_alnum_or(c, repl)),
{
    let mut r: Vec<char> = Vec::new();
    for i in 0..v.len()
        invariant
            r@ == v@.subrange(0, i as int).map_values(|c: char| keep_alnum_or(c, repl)),
    {
        let c = v[i];
        r.push(if char_is_ascii_alnum(c) { c } else { repl });
        assert(r@ =~= v@.subrange(0, i + 1).map_values(|c: char| keep_alnum_or(c, repl)));
    }
    assert(v@.subrange(0, v@.len() as int) =~= v@);
    r
}

/// Index of the first `c` in `s`, if any.
pub open spec fn first_index(s: Seq<char>, c: char) -> Option<int> {
    if exists|i: int| 0 <= i < s.len() && s[i] == c {
        Some(choose|i: int| 0 <= i < s.len() && s[i] == c && forall|j: int| 0 <= j < i ==> s[j] != c)
    } else {
        None
    }
}

/// Index of the first `c` in `v`.
pub fn find_char(v: &[char], c: char) -> (r: Option<usize>)
    ensures
        r matches Some(i) ==> first_index(v@, c) == Some(i as int),
        r is None ==> first_index(v@, c) is None,
        r matches Some(i) ==> i < v@.len() && v@[i as int] == c,
{
    for i in 0..v.len()
        invariant
            forall|j: int| 0 <= j < i ==> v@[j] != c,
    {
        if v[i] == c {
            proof {
                assert(v@[i as int] == c);
                let k = choose|k: int| 0 <= k < v@.len() && v@[k] == c && forall|j: int| 0 <= j < k ==> v@[j] != c;
                if k < i {
                    assert(v@[k] != c);
                }
                if k > i {
                    assert(v@[i as int] != c);
                }
            }
            return Some(i);
        }
    }
    None
}

/// The ASCII digit for `d` (below ten).
pub open spec fn digit_char(d: int) -> char {
    if d == 0 { '0' } else if d == 1 { '1' } else if d == 2 { '2' } else if d == 3 { '3' }
    else if d == 4 { '4' } else if d == 5 { '5' } else if d == 6 { '6' } else if d == 7 { '7' }
    else if d == 8 { '8' } else { '9' }
}

/// The decimal notation of `n`, without leading zeros (`"0"` for zero).
pub open spec fn decimal(n: nat) -> Seq<char>
    decreases n,
{
    if n < 10 {
        seq![digit_char(n as int)]
    } else {
        decimal(n / 10).push(digit_char((n % 10) as int))
    }
}

fn digit(d: u64) -> (c: char)
    requires
        d < 10,
    ensures
        c == digit_char(d as int),
{
    match d {
        0 => '0',
        1 => '1',
        2 => '2',
        3 => '3',
        4 => '4',
        5 => '5',
        6 => '6',
        7 => '7',
        8 => '8',
        _ => '9',
    }
}

fn push_decimal(n: u64, out: &mut Vec<char>)
    ensures
        final(out)@ == old(out)@ + decimal(n as nat),
    decreases n,
{
    if n >= 10 {
        push_decimal(n / 10, out);
    }
    out.push(digit(n % 10));
}

/// The decimal notation of a number, as `to_string` writes it.
pub fn decimal_string(n: u64) -> (s: String)
    ensures
        s@ == decimal(n as nat),
{
    let mut v: Vec<char> = Vec::new();
    push_decimal(n, &mut v);
    assert(v@ =~= decimal(n as nat));
    string_of(&v)
}

/// What `str::to_lowercase` returns for a string: its full Unicode lower-case
/// mapping (which may change the length of the text).
pub uninterp spec fn unicode_lowercase(s: Seq<char>) -> Seq<char>;

/// Lower-cases `s` with `str::to_lowercase`; the result is what
/// `unicode_lowercase` names, nothing more is claimed of the Unicode mapping.
#[verifier::external_body]
pub(crate) fn to_lowercase(s: &str) -> (r: String)
    ensures
        r@ == unicode_lowercase(s@),
{
    s.to_lowercase()
}

} // verus!
