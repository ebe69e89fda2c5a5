//! Character-sequence helpers shared by the parsers and classifiers.
//!
//! Every function works on the `Seq<char>` view of a string. The few std
//! string operations whose behaviour is a short statement (whitespace, trim,
//! substring search, line splitting) are written and proved here; case
//! mapping and number parsing call std behind trusted wrappers.

use vstd::prelude::*;

verus! {

/// Unicode `White_Space`, the property behind `char::is_whitespace`.
pub open spec fn is_ws(c: char) -> bool {
    ||| c == '\t'
    ||| c == '\n'
    ||| c == '\u{0B}'
    ||| c == '\u{0C}'
    ||| c == '\r'
    ||| c == ' '
    ||| c == '\u{85}'
    ||| c == '\u{A0}'
    ||| c == '\u{1680}'
    ||| ('\u{2000}' <= c && c <= '\u{200A}')
    ||| c == '\u{2028}'
    ||| c == '\u{2029}'
    ||| c == '\u{202F}'
    ||| c == '\u{205F}'
    ||| c == '\u{3000}'
}

/// Whether `c` is Unicode whitespace.
pub fn is_whitespace(c: char) -> (r: bool)
    ensures
        r == is_ws(c),
{
    c == '\t' || c == '\n' || c == '\u{0B}' || c == '\u{0C}' || c == '\r' || c == ' '
        || c == '\u{85}' || c == '\u{A0}' || c == '\u{1680}' || ('\u{2000}' <= c && c
        <= '\u{200A}') || c == '\u{2028}' || c == '\u{2029}' || c == '\u{202F}' || c
        == '\u{205F}' || c == '\u{3000}'
}

/// Number of whitespace characters at the start of `s`.
pub open spec fn lead_ws(s: Seq<char>) -> nat
    decreases s.len(),
{
    if s.len() > 0 && is_ws(s[0]) {
        1 + lead_ws(s.drop_first())
    } else {
        0
    }
}

/// Number of whitespace characters at the end of `s`.
pub open spec fn trail_ws(s: Seq<char>) -> nat
    decreases s.len(),
{
    if s.len() > 0 && is_ws(s.last()) {
        1 + trail_ws(s.drop_last())
    } else {
        0
    }
}

/// `s` without leading whitespace (`str::trim_start`).
pub open spec fn trim_start(s: Seq<char>) -> Seq<char> {
    s.subrange(lead_ws(s) as int, s.len() as int)
}

/// `s` without trailing whitespace (`str::trim_end`).
pub open spec fn trim_end(s: Seq<char>) -> Seq<char> {
    s.subrange(0, s.len() - trail_ws(s))
}

/// `s` without leading and trailing whitespace (`str::trim`).
pub open spec fn trim(s: Seq<char>) -> Seq<char> {
    trim_end(trim_start(s))
}

pub proof fn lemma_lead_ws(s: Seq<char>, i: int)
    requires
        0 <= i <= s.len(),
        forall|k: int| 0 <= k < i ==> is_ws(#[trigger] s[k]),
        i == s.len() || !is_ws(s[i]),
    ensures
        lead_ws(s) == i,
    decreases i,
{
    if i > 0 {
        let t = s.drop_first();
        assert forall|k: int| 0 <= k < i - 1 implies is_ws(#[trigger] t[k]) by {
            assert(t[k] == s[k + 1]);
        }
        lemma_lead_ws(t, i - 1);
    }
}

pub proof fn lemma_trail_ws(s: Seq<char>, j: int)
    requires
        0 <= j <= s.len(),
        forall|k: int| j <= k < s.len() ==> is_ws(#[trigger] s[k]),
        j == 0 || !is_ws(s[j - 1]),
    ensures
        trail_ws(s) == s.len() - j,
    decreases s.len() - j,
{
    if j < s.len() {
        let t = s.drop_last();
        assert forall|k: int| j <= k < t.len() implies is_ws(#[trigger] t[k]) by {
            assert(t[k] == s[k]);
        }
        lemma_trail_ws(t, j);
    }
}

/// The characters of `s`.
pub fn chars_of(s: &str) -> (v: Vec<char>)
    ensures
        v@ == s@,
{
    let mut v: Vec<char> = Vec::new();
    for c in it: s.chars()
        invariant
            v@ == it.seq().take(it.index() as int),
    {
        v.push(c);
    }
    v
}

/// A string holding exactly the characters of `v` (`FromIterator<char>`).
#[verifier::external_body]
pub(crate) fn string_of(v: &Vec<char>) -> (s: String)
    ensures
        s@ == v@,
{
    v.iter().collect()
}

/// A copy of `v[lo..hi]`.
pub fn slice_of(v: &Vec<char>, lo: usize, hi: usize) -> (r: Vec<char>)
    requires
        lo <= hi <= v@.len(),
    ensures
        r@ == v@.subrange(lo as int, hi as int),
{
    let mut r: Vec<char> = Vec::new();
    let mut i = lo;
    while i < hi
        invariant
            lo <= i <= hi <= v@.len(),
            r@ == v@.subrange(lo as int, i as int),
        decreases hi - i,
    {
        r.push(v[i]);
        i = i + 1;
    }
    r
}

/// `v` with leading and trailing whitespace removed.
pub fn trim_vec(v: &Vec<char>) -> (r: Vec<char>)
    ensures
        r@ == trim(v@),
{
    let n = v.len();
    let mut i: usize = 0;
    while i < n && is_whitespace(v[i])
        invariant
            i <= n == v@.len(),
            forall|k: int| 0 <= k < i ==> is_ws(#[trigger] v@[k]),
        decreases n - i,
    {
        i = i + 1;
    }
    proof {
        lemma_lead_ws(v@, i as int);
    }
    let t = slice_of(v, i, n);
    let m = t.len();
    let mut j: usize = m;
    while j > 0 && is_whitespace(t[j - 1])
        invariant
            j <= m == t@.len(),
            forall|k: int| j <= k < m ==> is_ws(#[trigger] t@[k]),
        decreases j,
    {
        j = j - 1;
    }
    proof {
        lemma_trail_ws(t@, j as int);
    }
    slice_of(&t, 0, j)
}

/// `s` trimmed of whitespace, as characters.
pub fn trim_str(s: &str) -> (r: Vec<char>)
    ensures
        r@ == trim(s@),
{
    let v = chars_of(s);
    trim_vec(&v)
}

/// Whether two character sequences are equal.
pub fn seq_eq(a: &Vec<char>, b: &Vec<char>) -> (r: bool)
    ensures
        r == (a@ == b@),
{
    if a.len() != b.len() {
        return false;
    }
    let n = a.len();
    let mut i: usize = 0;
    while i < n
        invariant
            n == a@.len() == b@.len(),
            i <= n,
            forall|k: int| 0 <= k < i ==> a@[k] == b@[k],
        decreases n - i,
    {
        if a[i] != b[i] {
            return false;
        }
        i = i + 1;
    }
    assert(a@ =~= b@);
    true
}

/// Whether the characters `a` spell the string `b`.
pub fn eq_lit(a: &Vec<char>, b: &str) -> (r: bool)
    ensures
        r == (a@ == b@),
{
    let bv = chars_of(b);
    seq_eq(a, &bv)
}

/// Whether two strings are equal.
pub fn str_eq(a: &str, b: &str) -> (r: bool)
    ensures
        r == (a@ == b@),
{
    let av = chars_of(a);
    eq_lit(&av, b)
}

/// `pat` occurs in `s` starting at `i`.
pub open spec fn occurs_at(s: Seq<char>, pat: Seq<char>, i: int) -> bool {
    0 <= i && i + pat.len() <= s.len() && s.subrange(i, i + pat.len()) == pat
}

/// `pat` occurs somewhere in `s` (`str::contains`).
pub open spec fn contains(s: Seq<char>, pat: Seq<char>) -> bool {
    exists|i: int| occurs_at(s, pat, i)
}

/// `s` begins with `pat` (`str::starts_with`).
pub open spec fn starts_with(s: Seq<char>, pat: Seq<char>) -> bool {
    occurs_at(s, pat, 0)
}

fn matches_at(s: &Vec<char>, pat: &Vec<char>, i: usize) -> (r: bool)
    requires
        i + pat@.len() <= s@.len(),
    ensures
        r == occurs_at(s@, pat@, i as int),
{
    let m = pat.len();
    let mut k: usize = 0;
    while k < m
        invariant
            m == pat@.len(),
            i + m <= s.len(),
            k <= m,
            forall|q: int| 0 <= q < k ==> s@[i + q] == pat@[q],
        decreases m - k,
    {
        if s[i + k] != pat[k] {
            assert(s@.subrange(i as int, i + m)[k as int] != pat@[k as int]);
            return false;
        }
        k = k + 1;
    }
    assert(s@.subrange(i as int, i + m) =~= pat@);
    true
}

/// Whether `pat` occurs in `s`.
pub fn contains_vec(s: &Vec<char>, pat: &Vec<char>) -> (r: bool)
    ensures
        r == contains(s@, pat@),
{
    let n = s.len();
    let m = pat.len();
    if m > n {
        return false;
    }
    let mut i: usize = 0;
    let last = n - m;
    loop
        invariant
            n == s@.len(),
            m == pat@.len(),
            m <= n,
            last == n - m,
            i <= last,
            forall|q: int| 0 <= q < i ==> !occurs_at(s@, pat@, q),
        ensures
            forall|q: int| 0 <= q <= last ==> !occurs_at(s@, pat@, q),
        decreases last - i,
    {
        if matches_at(s, pat, i) {
            return true;
        }
        if i == last {
            break;
        }
        i = i + 1;
    }
    assert forall|q: int| !occurs_at(s@, pat@, q) by {
        if 0 <= q && q + m <= n {
            assert(q <= last);
        }
    }
    false
}

/// Whether the string `pat` occurs in `s`.
pub fn contains_lit(s: &Vec<char>, pat: &str) -> (r: bool)
    ensures
        r == contains(s@, pat@),
{
    let p = chars_of(pat);
    contains_vec(s, &p)
}

/// Whether `s` begins with `pat`.
pub fn starts_with_vec(s: &Vec<char>, pat: &Vec<char>) -> (r: bool)
    ensures
        r == starts_with(s@, pat@),
{
    if pat.len() > s.len() {
        false
    } else {
        matches_at(s, pat, 0)
    }
}

/// Whether `s` begins with the string `pat`.
pub fn starts_with_lit(s: &Vec<char>, pat: &str) -> (r: bool)
    ensures
        r == starts_with(s@, pat@),
{
    let p = chars_of(pat);
    starts_with_vec(s, &p)
}

/// Index of the first `c` in `s`, or `s.len()` when there is none.
pub open spec fn first_index(s: Seq<char>, c: char) -> nat
    decreases s.len(),
{
    if s.len() == 0 {
        0
    } else if s[0] == c {
        0
    } else {
        1 + first_index(s.drop_first(), c)
    }
}

pub proof fn lemma_first_index(s: Seq<char>, c: char, i: int)
    requires
        0 <= i <= s.len(),
        forall|k: int| 0 <= k < i ==> #[trigger] s[k] != c,
        i == s.len() || s[i] == c,
    ensures
        first_index(s, c) == i,
    decreases i,
{
    if i > 0 {
        let t = s.drop_first();
        assert forall|k: int| 0 <= k < i - 1 implies #[trigger] t[k] != c by {
            assert(t[k] == s[k + 1]);
        }
        lemma_first_index(t, c, i - 1);
    }
}

pub proof fn lemma_first_index_props(s: Seq<char>, c: char)
    ensures
        first_index(s, c) <= s.len(),
        forall|k: int| 0 <= k < first_index(s, c) ==> #[trigger] s[k] != c,
        first_index(s, c) < s.len() ==> s[first_index(s, c) as int] == c,
    decreases s.len(),
{
    if s.len() > 0 && s[0] != c {
        let t = s.drop_first();
        lemma_first_index_props(t, c);
        assert forall|k: int| 0 <= k < first_index(s, c) implies #[trigger] s[k] != c by {
            if k > 0 {
                assert(s[k] == t[k - 1]);
            }
        }
    }
}

/// Index of the first `c` in `v`, or `v.len()` when there is none.
pub fn index_of(v: &Vec<char>, c: char) -> (r: usize)
    ensures
        r == first_index(v@, c),
        r <= v@.len(),
{
    let n = v.len();
    let mut i: usize = 0;
    while i < n && v[i] != c
        invariant
            i <= n == v@.len(),
            forall|k: int| 0 <= k < i ==> #[trigger] v@[k] != c,
        decreases n - i,
    {
        i = i + 1;
    }
    proof {
        lemma_first_index(v@, c, i as int);
    }
    i
}

/// Index of the last `c` in `s`, or `-1` when there is none.
pub open spec fn last_index(s: Seq<char>, c: char) -> int
    decreases s.len(),
{
    if s.len() == 0 {
        -1
    } else if s.last() == c {
        s.len() - 1
    } else {
        last_index(s.drop_last(), c)
    }
}

pub proof fn lemma_last_index(s: Seq<char>, c: char, j: int)
    requires
        -1 <= j < s.len(),
        forall|k: int| j < k < s.len() ==> #[trigger] s[k] != c,
        j == -1 || s[j] == c,
    ensures
        last_index(s, c) == j,
    decreases s.len(),
{
    if s.len() > 0 && s.last() != c {
        let t = s.drop_last();
        assert forall|k: int| j < k < t.len() implies #[trigger] t[k] != c by {
            assert(t[k] == s[k]);
        }
        lemma_last_index(t, c, j);
    }
}

/// Index of the last `c` in `v`, if any.
pub fn rindex_of(v: &Vec<char>, c: char) -> (r: Option<usize>)
    ensures
        match r {
            Some(j) => j == last_index(v@, c) && j < v@.len() && v@[j as int] == c,
            None => last_index(v@, c) == -1,
        },
{
    let mut j: usize = v.len();
    while j > 0 && v[j - 1] != c
        invariant
            j <= v@.len(),
            forall|k: int| j <= k < v@.len() ==> #[trigger] v@[k] != c,
        decreases j,
    {
        j = j - 1;
    }
    proof {
        lemma_last_index(v@, c, j - 1);
    }
    if j == 0 {
        None
    } else {
        Some(j - 1)
    }
}

/// `s` with one leading `c` removed, if present (`str::strip_prefix`).
pub open spec fn strip_prefix_or_keep(s: Seq<char>, c: char) -> Seq<char> {
    if s.len() > 0 && s[0] == c {
        s.drop_first()
    } else {
        s
    }
}

/// `s` with one trailing `c` removed, if present (`str::strip_suffix`).
pub open spec fn strip_suffix_or_keep(s: Seq<char>, c: char) -> Seq<char> {
    if s.len() > 0 && s.last() == c {
        s.drop_last()
    } else {
        s
    }
}

/// A value with one pair of surrounding double quotes removed: a leading
/// `"` and a trailing `"` are each dropped when present.
pub open spec fn unquote(s: Seq<char>) -> Seq<char> {
    strip_suffix_or_keep(strip_prefix_or_keep(s, '"'), '"')
}

/// Removes one leading and one trailing double quote, each if present.
pub fn unquote_vec(v: &Vec<char>) -> (r: Vec<char>)
    ensures
        r@ == unquote(v@),
{
    let a = if v.len() > 0 && v[0] == '"' {
        slice_of(v, 1, v.len())
    } else {
        slice_of(v, 0, v.len())
    };
    assert(v@.subrange(0, v@.len() as int) =~= v@);
    assert(v@.len() > 0 ==> v@.subrange(1, v@.len() as int) =~= v@.drop_first());
    let n = a.len();
    if n > 0 && a[n - 1] == '"' {
        let r = slice_of(&a, 0, n - 1);
        assert(r@ =~= a@.drop_last());
        r
    } else {
        assert(a@.subrange(0, n as int) =~= a@);
        slice_of(&a, 0, n)
    }
}

/// The first line of `s` and what follows its line ending (`str::lines`
/// splits on `\n` and drops one `\r` before it).
pub open spec fn first_line(s: Seq<char>) -> Seq<char> {
    let i = first_index(s, '\n') as int;
    if i < s.len() {
        strip_suffix_or_keep(s.subrange(0, i), '\r')
    } else {
        s
    }
}

/// What follows the first line ending of `s` (empty when there is none).
pub open spec fn after_first_line(s: Seq<char>) -> Seq<char> {
    let i = first_index(s, '\n') as int;
    if i < s.len() {
        s.subrange(i + 1, s.len() as int)
    } else {
        Seq::empty()
    }
}

/// The lines of `s`, as `str::lines` yields them.
pub open spec fn lines(s: Seq<char>) -> Seq<Seq<char>>
    decreases s.len(),
{
    if s.len() == 0 {
        Seq::empty()
    } else {
        proof {
            lemma_first_index_props(s, '\n');
        }
        seq![first_line(s)] + lines(after_first_line(s))
    }
}

/// Splits `v[pos..]` into its first line and the position after that line's
/// ending.
pub fn next_line(v: &Vec<char>, pos: usize) -> (r: (Vec<char>, usize))
    requires
        pos < v@.len(),
    ensures
        r.0@ == first_line(v@.subrange(pos as int, v@.len() as int)),
        pos < r.1 <= v@.len(),
        v@.subrange(r.1 as int, v@.len() as int) == after_first_line(
            v@.subrange(pos as int, v@.len() as int),
        ),
{
    let rest = slice_of(v, pos, v.len());
    let i = index_of(&rest, '\n');
    proof {
        lemma_first_index_props(rest@, '\n');
    }
    if i < rest.len() {
        let line = slice_of(&rest, 0, i);
        let k = line.len();
        let out = if k > 0 && line[k - 1] == '\r' {
            let l2 = slice_of(&line, 0, k - 1);
            assert(l2@ =~= line@.drop_last());
            l2
        } else {
            line
        };
        assert(v@.subrange(pos + i + 1, v@.len() as int) =~= rest@.subrange(
            i + 1,
            rest@.len() as int,
        ));
        (out, pos + i + 1)
    } else {
        assert(v@.subrange(v@.len() as int, v@.len() as int) =~= Seq::<char>::empty());
        (rest, v.len())
    }
}

/// Case mapping by Unicode's `Lowercase` mapping, as `str::to_lowercase`
/// computes it.
pub uninterp spec fn lowercase_of(s: Seq<char>) -> Seq<char>;

/// Case mapping by Unicode's `Uppercase` mapping, as `str::to_uppercase`
/// computes it.
pub uninterp spec fn uppercase_of(s: Seq<char>) -> Seq<char>;

/// Every character of `s` is ASCII.
pub open spec fn ascii_text(s: Seq<char>) -> bool {
    forall|i: int| 0 <= i < s.len() ==> (#[trigger] s[i] as u32) < 128
}

/// Part of ASCII text is ASCII.
pub proof fn lemma_ascii_subrange(s: Seq<char>, i: int, j: int)
    requires
        ascii_text(s),
        0 <= i <= j <= s.len(),
    ensures
        ascii_text(s.subrange(i, j)),
{
    assert forall|k: int| 0 <= k < j - i implies (#[trigger] s.subrange(i, j)[k] as u32) < 128 by {
        assert(s.subrange(i, j)[k] == s[i + k]);
    }
}

/// Trimmed ASCII text is ASCII.
pub proof fn lemma_ascii_trim(s: Seq<char>)
    requires
        ascii_text(s),
    ensures
        ascii_text(trim(s)),
{
    lemma_lead_ws_props(s);
    lemma_ascii_subrange(s, lead_ws(s) as int, s.len() as int);
    let u = trim_start(s);
    lemma_trail_ws_props(u);
    lemma_ascii_subrange(u, 0, u.len() - trail_ws(u));
}

/// ASCII text with `A`..`Z` lowered.
pub open spec fn ascii_lowered(s: Seq<char>) -> Seq<char> {
    s.map_values(|c: char| ascii_lower(c))
}

/// `c` with `A`..`Z` mapped to `a`..`z`.
pub open spec fn ascii_lower(c: char) -> char {
    if 'A' <= c && c <= 'Z' {
        ((c as u32) + 32) as char
    } else {
        c
    }
}

/// `c` with `a`..`z` mapped to `A`..`Z`.
pub open spec fn ascii_upper(c: char) -> char {
    if 'a' <= c && c <= 'z' {
        ((c as u32) - 32) as char
    } else {
        c
    }
}

/// `str::to_lowercase`; its result depends on the characters alone. On
/// ASCII text, Unicode's lowercase mapping moves only `A`..`Z`, one for
/// one, and keeps every other character.
#[verifier::external_body]
pub(crate) fn lowercase(s: &str) -> (r: String)
    ensures
        r@ == lowercase_of(s@),
        ascii_text(s@) ==> r@ == ascii_lowered(s@),
{
    s.to_lowercase()
}

/// `str::to_uppercase`; its result depends on the characters alone. On
/// ASCII text, Unicode's uppercase mapping moves only `a`..`z`, one for
/// one, and keeps every other character.
#[verifier::external_body]
pub(crate) fn uppercase(s: &str) -> (r: String)
    ensures
        r@ == uppercase_of(s@),
        ascii_text(s@) ==> r@ == s@.map_values(|c: char| ascii_upper(c)),
{
    s.to_uppercase()
}

/// `c` is an ASCII decimal digit.
pub open spec fn is_digit(c: char) -> bool {
    '0' <= c && c <= '9'
}

/// Every character of `s` is a decimal digit.
pub open spec fn all_digits(s: Seq<char>) -> bool {
    forall|i: int| 0 <= i < s.len() ==> is_digit(#[trigger] s[i])
}

/// The number that the decimal digits `s` spell.
pub open spec fn digits_value(s: Seq<char>) -> nat
    decreases s.len(),
{
    if s.len() == 0 {
        0
    } else {
        10 * digits_value(s.drop_last()) + ((s.last() as nat) - ('0' as nat)) as nat
    }
}

/// The digits after an optional leading `sign` character.
pub open spec fn after_sign(s: Seq<char>, sign: char) -> Seq<char> {
    strip_prefix_or_keep(s, sign)
}

/// `<u64 as FromStr>::from_str`: an optional `+`, then one or more decimal
/// digits whose value fits; no whitespace, nothing else.
pub open spec fn parse_u64_spec(s: Seq<char>) -> Option<u64> {
    let d = after_sign(s, '+');
    if d.len() > 0 && all_digits(d) && digits_value(d) <= u64::MAX {
        Some(digits_value(d) as u64)
    } else {
        None
    }
}

/// `<u32 as FromStr>::from_str`, with the same grammar as for `u64`.
pub open spec fn parse_u32_spec(s: Seq<char>) -> Option<u32> {
    let d = after_sign(s, '+');
    if d.len() > 0 && all_digits(d) && digits_value(d) <= u32::MAX {
        Some(digits_value(d) as u32)
    } else {
        None
    }
}

/// `<i32 as FromStr>::from_str`: an optional `+` or `-`, then one or more
/// decimal digits whose signed value fits in `i32`.
pub open spec fn parse_i32_spec(s: Seq<char>) -> Option<i32> {
    if s.len() > 0 && s[0] == '-' {
        let d = s.drop_first();
        if d.len() > 0 && all_digits(d) && digits_value(d) <= 0x8000_0000 {
            Some((0 - digits_value(d)) as i32)
        } else {
            None
        }
    } else {
        let d = after_sign(s, '+');
        if d.len() > 0 && all_digits(d) && digits_value(d) <= i32::MAX {
            Some(digits_value(d) as i32)
        } else {
            None
        }
    }
}

/// A prefix of a digit string spells at most the whole string's value.
proof fn lemma_digits_prefix(s: Seq<char>, k: int)
    requires
        0 <= k <= s.len(),
    ensures
        digits_value(s.subrange(0, k)) <= digits_value(s),
    decreases s.len() - k,
{
    if k < s.len() {
        lemma_digits_prefix(s, k + 1);
        assert(s.subrange(0, k + 1).drop_last() =~= s.subrange(0, k));
    } else {
        assert(s.subrange(0, k) =~= s);
    }
}

/// The value of the decimal digits `d`: `None` when `d` is empty, holds a
/// character that is not a digit, or spells more than `u64::MAX`.
fn digits_u64(d: &Vec<char>) -> (r: Option<u64>)
    ensures
        r == (if d@.len() > 0 && all_digits(d@) && digits_value(d@) <= u64::MAX {
            Some(digits_value(d@) as u64)
        } else {
            None::<u64>
        }),
{
    if d.len() == 0 {
        return None;
    }
    let mut acc: u64 = 0;
    let mut i: usize = 0;
    while i < d.len()
        invariant
            0 < d@.len(),
            i <= d@.len(),
            all_digits(d@.subrange(0, i as int)),
            acc == digits_value(d@.subrange(0, i as int)),
        decreases d.len() - i,
    {
        let c = d[i];
        if !('0' <= c && c <= '9') {
            assert(!is_digit(d@[i as int]));
            return None;
        }
        let dv = ((c as u32) - ('0' as u32)) as u64;
        let ghost pre = d@.subrange(0, i as int + 1);
        assert(pre.drop_last() =~= d@.subrange(0, i as int));
        assert(pre.last() == c);
        assert(digits_value(pre) == 10 * acc + dv);
        proof {
            lemma_digits_prefix(d@, i as int + 1);
        }
        if acc > (u64::MAX - dv) / 10 {
            return None;
        }
        acc = acc * 10 + dv;
        assert forall|k: int| 0 <= k < i + 1 implies is_digit(#[trigger] pre[k]) by {
            if k < i {
                assert(pre[k] == d@.subrange(0, i as int)[k]);
            }
        }
        i = i + 1;
    }
    assert(d@.subrange(0, d@.len() as int) =~= d@);
    Some(acc)
}

/// The digits of `s` after one leading `sign` character, if present.
fn after_sign_vec(v: &Vec<char>, sign: char) -> (r: Vec<char>)
    ensures
        r@ == after_sign(v@, sign),
{
    if v.len() > 0 && v[0] == sign {
        let r = slice_of(v, 1, v.len());
        assert(r@ =~= v@.drop_first());
        r
    } else {
        v.clone()
    }
}

/// `str::parse::<u64>`, `None` on any error.
pub(crate) fn parse_u64(s: &str) -> (r: Option<u64>)
    ensures
        r == parse_u64_spec(s@),
{
    let v = chars_of(s);
    let d = after_sign_vec(&v, '+');
    digits_u64(&d)
}

/// `str::parse::<u32>`, `None` on any error.
pub(crate) fn parse_u32(s: &str) -> (r: Option<u32>)
    ensures
        r == parse_u32_spec(s@),
{
    let v = chars_of(s);
    let d = after_sign_vec(&v, '+');
    match digits_u64(&d) {
        Some(x) => if x <= 0xffff_ffff {
            Some(x as u32)
        } else {
            None
        },
        None => {
            proof {
                if d@.len() > 0 && all_digits(d@) {
                    assert(digits_value(d@) > u64::MAX);
                }
            }
            None
        },
    }
}

/// `str::parse::<i32>`, `None` on any error.
pub(crate) fn parse_i32(s: &str) -> (r: Option<i32>)
    ensures
        r == parse_i32_spec(s@),
{
    let v = chars_of(s);
    if v.len() > 0 && v[0] == '-' {
        let d = slice_of(&v, 1, v.len());
        assert(d@ =~= v@.drop_first());
        match digits_u64(&d) {
            Some(x) => if x <= 0x8000_0000 {
                let n: i64 = 0 - (x as i64);
                Some(n as i32)
            } else {
                None
            },
            None => None,
        }
    } else {
        let d = after_sign_vec(&v, '+');
        match digits_u64(&d) {
            Some(x) => if x <= 0x7fff_ffff {
                Some(x as i32)
            } else {
                None
            },
            None => None,
        }
    }
}


/// Index of the first whitespace character in `s`, or `s.len()`.
pub open spec fn first_ws(s: Seq<char>) -> nat
    decreases s.len(),
{
    if s.len() == 0 {
        0
    } else if is_ws(s[0]) {
        0
    } else {
        1 + first_ws(s.drop_first())
    }
}

pub proof fn lemma_first_ws(s: Seq<char>, i: int)
    requires
        0 <= i <= s.len(),
        forall|k: int| 0 <= k < i ==> !is_ws(#[trigger] s[k]),
        i == s.len() || is_ws(s[i]),
    ensures
        first_ws(s) == i,
    decreases i,
{
    if i > 0 {
        let t = s.drop_first();
        assert forall|k: int| 0 <= k < i - 1 implies !is_ws(#[trigger] t[k]) by {
            assert(t[k] == s[k + 1]);
        }
        lemma_first_ws(t, i - 1);
    }
}

/// Index of the first whitespace character in `v`, or `v.len()`.
pub fn index_of_ws(v: &Vec<char>) -> (r: usize)
    ensures
        r == first_ws(v@),
        r <= v@.len(),
{
    let n = v.len();
    let mut i: usize = 0;
    while i < n && !is_whitespace(v[i])
        invariant
            i <= n == v@.len(),
            forall|k: int| 0 <= k < i ==> !is_ws(#[trigger] v@[k]),
        decreases n - i,
    {
        i = i + 1;
    }
    proof {
        lemma_first_ws(v@, i as int);
    }
    i
}

/// Bytes in the UTF-8 encoding of `c`.
pub open spec fn utf8_width(c: char) -> nat {
    if (c as u32) < 0x80 {
        1
    } else if (c as u32) < 0x800 {
        2
    } else if (c as u32) < 0x10000 {
        3
    } else {
        4
    }
}

/// Bytes in the UTF-8 encoding of `s` (`str::len`).
pub open spec fn utf8_len(s: Seq<char>) -> nat
    decreases s.len(),
{
    if s.len() == 0 {
        0
    } else {
        utf8_len(s.drop_last()) + utf8_width(s.last())
    }
}

/// Whether `s` takes more than `n` bytes in UTF-8 (`n < 2^32`).
pub fn utf8_longer_than(v: &Vec<char>, n: u64) -> (r: bool)
    requires
        n < 0x1_0000_0000,
    ensures
        r == (utf8_len(v@) > n),
{
    let len = v.len();
    let mut total: u64 = 0;
    let mut i: usize = 0;
    while i < len
        invariant
            i <= len == v@.len(),
            total == utf8_len(v@.subrange(0, i as int)),
            total <= n,
            n < 0x1_0000_0000,
        decreases len - i,
    {
        let c = v[i] as u32;
        let w: u64 = if c < 0x80 {
            1
        } else if c < 0x800 {
            2
        } else if c < 0x10000 {
            3
        } else {
            4
        };
        assert(v@.subrange(0, i + 1).drop_last() =~= v@.subrange(0, i as int));
        total = total + w;
        i = i + 1;
        if total > n {
            proof {
                lemma_utf8_len_prefix(v@, i as int);
            }
            return true;
        }
    }
    assert(v@.subrange(0, len as int) =~= v@);
    false
}

/// A prefix takes no more bytes than the whole.
pub proof fn lemma_utf8_len_prefix(s: Seq<char>, i: int)
    requires
        0 <= i <= s.len(),
    ensures
        utf8_len(s.subrange(0, i)) <= utf8_len(s),
    decreases s.len() - i,
{
    if i < s.len() {
        lemma_utf8_len_prefix(s, i + 1);
        assert(s.subrange(0, i + 1).drop_last() =~= s.subrange(0, i));
    } else {
        assert(s.subrange(0, i) =~= s);
    }
}

/// `lead_ws` counts exactly the leading whitespace.
pub proof fn lemma_lead_ws_props(s: Seq<char>)
    ensures
        lead_ws(s) <= s.len(),
        forall|k: int| 0 <= k < lead_ws(s) ==> is_ws(#[trigger] s[k]),
        lead_ws(s) < s.len() ==> !is_ws(s[lead_ws(s) as int]),
    decreases s.len(),
{
    if s.len() > 0 && is_ws(s[0]) {
        let t = s.drop_first();
        lemma_lead_ws_props(t);
        assert forall|k: int| 0 <= k < lead_ws(s) implies is_ws(#[trigger] s[k]) by {
            if k > 0 {
                assert(s[k] == t[k - 1]);
            }
        }
    }
}

/// `trail_ws` counts exactly the trailing whitespace.
pub proof fn lemma_trail_ws_props(s: Seq<char>)
    ensures
        trail_ws(s) <= s.len(),
        trail_ws(s) < s.len() ==> !is_ws(s[s.len() - trail_ws(s) - 1]),
    decreases s.len(),
{
    if s.len() > 0 && is_ws(s.last()) {
        let t = s.drop_last();
        lemma_trail_ws_props(t);
        if trail_ws(t) < t.len() {
            assert(s[s.len() - trail_ws(s) - 1] == t[t.len() - trail_ws(t) - 1]);
        }
    }
}

/// Trimming twice trims once: a trimmed text neither starts nor ends with
/// whitespace.
pub proof fn lemma_trim_idempotent(s: Seq<char>)
    ensures
        trim(trim(s)) == trim(s),
{
    let u = trim_start(s);
    let t = trim(s);
    lemma_lead_ws_props(s);
    lemma_lead_ws_props(u);
    lemma_trail_ws_props(u);
    if t.len() > 0 {
        assert(t[0] == u[0]);
        assert(t[t.len() - 1] == u[u.len() - trail_ws(u) - 1]);
        if lead_ws(u) > 0 {
            assert(u[0] == s[lead_ws(s) as int]);
        }
        assert(lead_ws(u) == 0) by {
            if u.len() > 0 && is_ws(u[0]) {
                assert(u[0] == s[lead_ws(s) as int]);
            }
        }
        lemma_lead_ws(t, 0);
        assert(trim_start(t) =~= t);
        lemma_trail_ws(t, t.len() as int);
        assert(trim_end(t) =~= t);
    } else {
        assert(trim_start(t) =~= t);
        assert(trim_end(t) =~= t);
    }
}

/// Trailing whitespace does not survive a trim.
pub proof fn lemma_trim_push_ws(x: Seq<char>, c: char)
    requires
        is_ws(c),
    ensures
        trim(x.push(c)) == trim(x),
{
    let y = x.push(c);
    lemma_lead_ws_props(x);
    let l = lead_ws(x) as int;
    if l == x.len() {
        assert forall|k: int| 0 <= k < y.len() implies is_ws(#[trigger] y[k]) by {
            if k < x.len() {
                assert(y[k] == x[k]);
            }
        }
        lemma_lead_ws(y, y.len() as int);
        assert(trim_start(y) =~= Seq::<char>::empty());
        assert(trim_start(x) =~= Seq::<char>::empty());
    } else {
        assert forall|k: int| 0 <= k < l implies is_ws(#[trigger] y[k]) by {
            assert(y[k] == x[k]);
        }
        assert(y[l] == x[l]);
        lemma_lead_ws(y, l);
        let u = trim_start(x);
        assert(trim_start(y) =~= u.push(c));
        let v = u.push(c);
        assert(v.drop_last() =~= u);
        assert(v.last() == c);
        assert(trail_ws(v) == 1 + trail_ws(u));
        lemma_trail_ws_props(u);
        assert(trim_end(v) =~= trim_end(u));
    }
}

/// `first_ws` finds exactly the first whitespace.
pub proof fn lemma_first_ws_props(s: Seq<char>)
    ensures
        first_ws(s) <= s.len(),
        forall|k: int| 0 <= k < first_ws(s) ==> !is_ws(#[trigger] s[k]),
        first_ws(s) < s.len() ==> is_ws(s[first_ws(s) as int]),
    decreases s.len(),
{
    if s.len() > 0 && !is_ws(s[0]) {
        let t = s.drop_first();
        lemma_first_ws_props(t);
        assert forall|k: int| 0 <= k < first_ws(s) implies !is_ws(#[trigger] s[k]) by {
            if k > 0 {
                assert(s[k] == t[k - 1]);
            }
        }
    }
}

/// No character of `s` is whitespace.
pub open spec fn no_ws(s: Seq<char>) -> bool {
    forall|i: int| 0 <= i < s.len() ==> !is_ws(#[trigger] s[i])
}

/// The first whitespace of `a` followed by text starting with whitespace
/// lies within `a` or right after it.
pub proof fn lemma_first_ws_concat(a: Seq<char>, b: Seq<char>)
    requires
        b.len() > 0,
        is_ws(b[0]),
    ensures
        first_ws(a + b) == first_ws(a),
{
    lemma_first_ws_props(a);
    let i = first_ws(a) as int;
    let ab = a + b;
    assert forall|k: int| 0 <= k < i implies !is_ws(#[trigger] ab[k]) by {
        assert(ab[k] == a[k]);
    }
    if i < a.len() {
        assert(ab[i] == a[i]);
    } else {
        assert(ab[i] == b[0]);
    }
    lemma_first_ws(ab, i);
}

/// The first whitespace of a text without any is its end.
pub proof fn lemma_first_ws_none(a: Seq<char>)
    requires
        no_ws(a),
    ensures
        first_ws(a) == a.len(),
{
    lemma_first_ws(a, a.len() as int);
}

/// UTF-8 lengths add up over concatenation.
pub proof fn lemma_utf8_len_concat(a: Seq<char>, b: Seq<char>)
    ensures
        utf8_len(a + b) == utf8_len(a) + utf8_len(b),
    decreases b.len(),
{
    if b.len() > 0 {
        lemma_utf8_len_concat(a, b.drop_last());
        assert((a + b).drop_last() =~= a + b.drop_last());
    } else {
        assert(a + b =~= a);
    }
}

/// The whitespace-separated words of `s` (`str::split_whitespace`).
pub open spec fn words(s: Seq<char>) -> Seq<Seq<char>>
    decreases s.len(),
{
    let i = lead_ws(s) as int;
    if i >= s.len() {
        Seq::empty()
    } else {
        let t = s.subrange(i, s.len() as int);
        let j = first_ws(t) as int;
        proof {
            lemma_lead_ws_props(s);
            lemma_first_ws_props(t);
        }
        seq![t.subrange(0, j)] + words(t.subrange(j, t.len() as int))
    }
}

/// Every word is non-empty and holds no whitespace.
pub proof fn lemma_words_props(s: Seq<char>)
    ensures
        forall|k: int|
            0 <= k < words(s).len() ==> (#[trigger] words(s)[k]).len() > 0 && no_ws(words(s)[k]),
    decreases s.len(),
{
    let i = lead_ws(s) as int;
    lemma_lead_ws_props(s);
    if i < s.len() {
        let t = s.subrange(i, s.len() as int);
        let j = first_ws(t) as int;
        lemma_first_ws_props(t);
        assert(t[0] == s[i]);
        let w = t.subrange(0, j);
        assert forall|m: int| 0 <= m < w.len() implies !is_ws(#[trigger] w[m]) by {
            assert(w[m] == t[m]);
        }
        let rest = t.subrange(j, t.len() as int);
        lemma_words_props(rest);
        assert forall|k: int| 0 <= k < words(s).len() implies (#[trigger] words(s)[k]).len() > 0 && no_ws(
            words(s)[k],
        ) by {
            if k > 0 {
                assert(words(s)[k] == words(rest)[k - 1]);
            } else {
                assert(words(s)[0] == w);
            }
        }
    }
}

/// Bytes in the UTF-8 encoding of `v`.
pub fn utf8_len_of(v: &Vec<char>) -> (r: u128)
    ensures
        r == utf8_len(v@),
        r <= 4 * v@.len(),
{
    let len = v.len();
    let mut total: u128 = 0;
    let mut i: usize = 0;
    while i < len
        invariant
            i <= len == v@.len(),
            total == utf8_len(v@.subrange(0, i as int)),
            total <= 4 * i,
        decreases len - i,
    {
        let c = v[i] as u32;
        let w: u128 = if c < 0x80 {
            1
        } else if c < 0x800 {
            2
        } else if c < 0x10000 {
            3
        } else {
            4
        };
        assert(v@.subrange(0, i + 1).drop_last() =~= v@.subrange(0, i as int));
        total = total + w;
        i = i + 1;
    }
    assert(v@.subrange(0, len as int) =~= v@);
    total
}

/// A strictly longer prefix takes strictly more bytes.
pub proof fn lemma_utf8_prefix_strict(s: Seq<char>, k: int, j: int)
    requires
        0 <= k < j <= s.len(),
    ensures
        utf8_len(s.subrange(0, k)) < utf8_len(s.subrange(0, j)),
{
    let t = s.subrange(0, j);
    lemma_utf8_len_prefix(t, k + 1);
    assert(t.subrange(0, k + 1) =~= s.subrange(0, k + 1));
    assert(s.subrange(0, k + 1).drop_last() =~= s.subrange(0, k));
}

/// The characters after the first `n` bytes of `s` in UTF-8 (`&s[n..]`),
/// when byte `n` is on a character boundary; `None` where slicing there
/// would panic.
pub open spec fn byte_suffix(s: Seq<char>, n: nat) -> Option<Seq<char>> {
    if exists|k: int| 0 <= k <= s.len() && utf8_len(#[trigger] s.subrange(0, k)) == n {
        let k = choose|k: int| 0 <= k <= s.len() && utf8_len(#[trigger] s.subrange(0, k)) == n;
        Some(s.subrange(k, s.len() as int))
    } else {
        None
    }
}

/// The optional sequence's characters.
pub open spec fn opt_vec(o: Option<Vec<char>>) -> Option<Seq<char>> {
    match o {
        Some(v) => Some(v@),
        None => None,
    }
}

/// `&v[n..]` for a short byte offset `n`, or `None` when byte `n` is not on
/// a character boundary.
pub fn byte_suffix_of(v: &Vec<char>, n: usize) -> (r: Option<Vec<char>>)
    requires
        n <= 8,
    ensures
        opt_vec(r) == byte_suffix(v@, n as nat),
{
    let len = v.len();
    let mut k: usize = 0;
    let mut total: usize = 0;
    while k < len && total < n
        invariant
            k <= len == v@.len(),
            n <= 8,
            total <= n + 4,
            total == utf8_len(v@.subrange(0, k as int)),
            forall|j: int| 0 <= j < k ==> utf8_len(#[trigger] v@.subrange(0, j)) < n,
        decreases len - k,
    {
        let c = v[k] as u32;
        let w: usize = if c < 0x80 {
            1
        } else if c < 0x800 {
            2
        } else if c < 0x10000 {
            3
        } else {
            4
        };
        proof {
            assert(v@.subrange(0, k + 1).drop_last() =~= v@.subrange(0, k as int));
            assert forall|j: int| 0 <= j < k + 1 implies utf8_len(#[trigger] v@.subrange(0, j)) < n by {
                if j < k {
                } else {
                    assert(j == k);
                }
            }
        }
        total = total + w;
        k = k + 1;
    }
    if total == n {
        proof {
            assert(utf8_len(v@.subrange(0, k as int)) == n);
            let kk = choose|kk: int| 0 <= kk <= v@.len() && utf8_len(#[trigger] v@.subrange(0, kk)) == n;
            if kk < k {
            } else if kk > k {
                lemma_utf8_prefix_strict(v@, k as int, kk);
            }
            assert(kk == k);
        }
        Some(slice_of(v, k, len))
    } else {
        proof {
            assert forall|j: int| 0 <= j <= v@.len() implies utf8_len(#[trigger] v@.subrange(0, j)) != n by {
                if j > k {
                    lemma_utf8_prefix_strict(v@, k as int, j);
                }
            }
        }
        None
    }
}

/// The optional string's characters.
pub open spec fn opt_chars(o: Option<String>) -> Option<Seq<char>> {
    match o {
        Some(s) => Some(s@),
        None => None,
    }
}

/// Whether `c` is a control character (general category Cc:
/// U+0000 to U+001F and U+007F to U+009F).
pub open spec fn control_char(c: char) -> bool {
    (c as u32) <= 0x1f || (0x7f <= (c as u32) && (c as u32) <= 0x9f)
}

/// Whether `c` is a control character.
pub fn is_control(c: char) -> (r: bool)
    ensures
        r == control_char(c),
{
    let v = c as u32;
    v <= 0x1f || (0x7f <= v && v <= 0x9f)
}

} // verus!
