//! Character-level scanning used by the subtitle parser: the characters of a
//! string, white space and trimming, unsigned numbers, pattern search and
//! the `:`/`.` separated fields of a time stamp.

use vstd::prelude::*;
use crate::text::digits_value;
use vstd::std_specs::iter::IteratorSpec;

verus! {

broadcast use vstd::string::group_string_axioms;

/// The characters of `s`, in order.
pub fn chars_of(s: &str) -> (v: Vec<char>)
    ensures
        v@ == s@,
{
    let mut v: Vec<char> = Vec::new();
    let mut it = s.chars();
    loop
        invariant
            v@ + it.remaining() == s@,
            it.decrease() is Some,
        ensures
            v@ == s@,
        decreases it.decrease()->0,
    {
        match it.next() {
            Some(c) => {
                v.push(c);
            },
            None => {
                break ;
            },
        }
    }
    v
}

/// The characters with the Unicode `White_Space` property, which is what
/// `char::is_whitespace` and `str::trim` go by.
pub open spec fn is_white_space(c: char) -> bool {
    ('\u{9}' <= c && c <= '\u{D}') || c == ' ' || c == '\u{85}' || c == '\u{A0}' || c == '\u{1680}'
        || ('\u{2000}' <= c && c <= '\u{200A}') || c == '\u{2028}' || c == '\u{2029}' || c == '\u{202F}'
        || c == '\u{205F}' || c == '\u{3000}'
}

/// Whether `c` is white space (see [`is_white_space`]).
pub fn white_space(c: char) -> (ws: bool)
    ensures
        ws == is_white_space(c),
{
    ('\u{9}' <= c && c <= '\u{D}') || c == ' ' || c == '\u{85}' || c == '\u{A0}' || c == '\u{1680}'
        || ('\u{2000}' <= c && c <= '\u{200A}') || c == '\u{2028}' || c == '\u{2029}' || c == '\u{202F}'
        || c == '\u{205F}' || c == '\u{3000}'
}

/// The first index from `k` on that does not hold white space (or the length).
pub open spec fn skip_space(s: Seq<char>, k: int) -> int
    decreases s.len() - k,
{
    if 0 <= k < s.len() && is_white_space(s[k]) {
        skip_space(s, k + 1)
    } else {
        k
    }
}

/// The end of `s[lo..e]` once its trailing white space is dropped.
pub open spec fn back_space(s: Seq<char>, lo: int, e: int) -> int
    decreases e - lo,
{
    if lo < e && e <= s.len() && is_white_space(s[e - 1]) {
        back_space(s, lo, e - 1)
    } else {
        e
    }
}

/// `s` without its leading and trailing white space.
pub open spec fn trim(s: Seq<char>) -> Seq<char> {
    let lo = skip_space(s, 0);
    s.subrange(lo, back_space(s, lo, s.len() as int))
}

/// Whether a line holds nothing but white space.
pub open spec fn is_blank(s: Seq<char>) -> bool {
    trim(s).len() == 0
}

/// The bounds of `s` without its leading and trailing white space.
pub fn trim_bounds(s: &Vec<char>) -> (bounds: (usize, usize))
    ensures
        bounds.0 <= bounds.1 <= s@.len(),
        s@.subrange(bounds.0 as int, bounds.1 as int) == trim(s@),
{
    let n = s.len();
    let mut lo: usize = 0;
    while lo < n && white_space(s[lo])
        invariant
            n == s@.len(),
            lo <= n,
            skip_space(s@, lo as int) == skip_space(s@, 0),
        decreases n - lo,
    {
        lo = lo + 1;
    }
    let mut hi: usize = n;
    while hi > lo && white_space(s[hi - 1])
        invariant
            n == s@.len(),
            lo <= hi <= n,
            lo == skip_space(s@, 0),
            back_space(s@, lo as int, hi as int) == back_space(s@, lo as int, n as int),
        decreases hi - lo,
    {
        hi = hi - 1;
    }
    (lo, hi)
}

/// Whether the line `s` is blank (see [`is_blank`]).
pub fn blank(s: &Vec<char>) -> (b: bool)
    ensures
        b == is_blank(s@),
{
    let (lo, hi) = trim_bounds(s);
    lo == hi
}

/// Whether every character of `s` is an ASCII digit.
pub open spec fn all_digits(s: Seq<char>) -> bool {
    forall|i: int| 0 <= i < s.len() ==> '0' <= #[trigger] s[i] <= '9'
}

/// The number that an unsigned integer literal denotes, as the standard
/// library reads one: an optional `+`, then one digit or more. `None` when
/// the text is not such a literal.
pub open spec fn unsigned_value(s: Seq<char>) -> Option<int> {
    if s.len() == 0 {
        None
    } else {
        let body = if s[0] == '+' {
            s.drop_first()
        } else {
            s
        };
        if body.len() > 0 && all_digits(body) {
            Some(digits_value(body))
        } else {
            None
        }
    }
}

/// Lemma: a string of digits denotes a non-negative number that is at least
/// what any of its prefixes denotes.
pub proof fn lemma_digits_value_prefix(s: Seq<char>, k: int)
    requires
        all_digits(s),
        0 <= k <= s.len(),
    ensures
        0 <= digits_value(s.take(k)) <= digits_value(s),
    decreases s.len(),
{
    if s.len() > 0 {
        let t = s.drop_last();
        assert(all_digits(t)) by {
            assert forall|i: int| 0 <= i < t.len() implies '0' <= #[trigger] t[i] <= '9' by {
                assert(t[i] == s[i]);
            }
        }
        if k == s.len() {
            assert(s.take(k) =~= s);
            lemma_digits_value_prefix(t, t.len() as int);
            assert(t.take(t.len() as int) =~= t);
        } else {
            lemma_digits_value_prefix(t, k);
            assert(t.take(k) =~= s.take(k));
            lemma_digits_value_prefix(t, t.len() as int);
            assert(t.take(t.len() as int) =~= t);
        }
    } else {
        assert(s.take(k) =~= s);
    }
}

/// Reads `s[lo..hi]` as an unsigned 64-bit integer literal: `None` when it is
/// not a literal (see [`unsigned_value`]) or its value does not fit.
pub fn parse_u64(s: &Vec<char>, lo: usize, hi: usize) -> (res: Option<u64>)
    requires
        lo <= hi <= s@.len(),
    ensures
        res is Some <==> (unsigned_value(s@.subrange(lo as int, hi as int)) matches Some(v) && v <= u64::MAX),
        res matches Some(v) ==> unsigned_value(s@.subrange(lo as int, hi as int)) == Some(v as int),
{
    let ghost t = s@.subrange(lo as int, hi as int);
    if lo == hi {
        return None;
    }
    assert(t[0] == s@[lo as int]);
    let start = if s[lo] == '+' { lo + 1 } else { lo };
    let ghost body = s@.subrange(start as int, hi as int);
    assert(body =~= (if t[0] == '+' { t.drop_first() } else { t }));
    if start == hi {
        return None;
    }
    let mut acc: u64 = 0;
    let mut k: usize = start;
    while k < hi
        invariant
            lo <= start <= k <= hi <= s@.len(),
            t == s@.subrange(lo as int, hi as int),
            body == s@.subrange(start as int, hi as int),
            t.len() > 0,
            body == (if t[0] == '+' { t.drop_first() } else { t }),
            body.len() > 0,
            all_digits(body.take(k - start)),
            acc as int == digits_value(body.take(k - start)),
        decreases hi - k,
    {
        let c = s[k];
        if !('0' <= c && c <= '9') {
            assert(!all_digits(body)) by {
                assert(body[k - start] == c);
            }
            return None;
        }
        let d = (c as u32 - '0' as u32) as u64;
        let ghost next = body.take(k - start + 1);
        assert(next.drop_last() =~= body.take(k - start));
        assert(next.last() == c);
        assert(d as int == c as int - 48);
        assert(digits_value(next) == acc as int * 10 + d as int);
        assert(all_digits(next)) by {
            assert forall|i: int| 0 <= i < next.len() implies '0' <= #[trigger] next[i] <= '9' by {
                if i < next.len() - 1 {
                    assert(next[i] == body.take(k - start)[i]);
                }
            }
        }
        match acc.checked_mul(10) {
            Some(m) => match m.checked_add(d) {
                Some(a) => {
                    acc = a;
                },
                None => {
                    proof {
                        lemma_overflow_fails(body, (k - start + 1) as int);
                    }
                    return None;
                },
            },
            None => {
                proof {
                    lemma_overflow_fails(body, (k - start + 1) as int);
                }
                return None;
            },
        }
        k = k + 1;
    }
    assert(body.take(hi - start) =~= body);
    Some(acc)
}

/// Lemma: when a prefix of digits already denotes more than `u64::MAX`, the
/// whole text either is no literal or denotes more than `u64::MAX`.
proof fn lemma_overflow_fails(body: Seq<char>, k: int)
    requires
        0 < k <= body.len(),
        all_digits(body.take(k)),
        digits_value(body.take(k)) > u64::MAX,
    ensures
        !(all_digits(body) && digits_value(body) <= u64::MAX),
{
    if all_digits(body) {
        lemma_digits_value_prefix(body, k);
    }
}

/// Whether `p` occurs in `s` at index `i`.
pub open spec fn matches_at(s: Seq<char>, p: Seq<char>, i: int) -> bool {
    0 <= i && i + p.len() <= s.len() && s.subrange(i, i + p.len()) == p
}

/// The first index from `k` on at which `p` occurs in `s`.
pub open spec fn first_match(s: Seq<char>, p: Seq<char>, k: int) -> Option<int>
    decreases s.len() + 1 - k,
{
    if k < 0 || k + p.len() > s.len() {
        None
    } else if matches_at(s, p, k) {
        Some(k)
    } else {
        first_match(s, p, k + 1)
    }
}

/// Lemma: a match that the search finds is a match, at or after where the
/// search began.
pub proof fn lemma_first_match_found(s: Seq<char>, p: Seq<char>, k: int)
    ensures
        first_match(s, p, k) matches Some(i) ==> k <= i && matches_at(s, p, i),
    decreases s.len() + 1 - k,
{
    if !(k < 0 || k + p.len() > s.len()) && !matches_at(s, p, k) {
        lemma_first_match_found(s, p, k + 1);
    }
}

/// Whether `p` occurs in `s` at index `i`.
fn occurs_at(s: &Vec<char>, p: &Vec<char>, i: usize) -> (m: bool)
    requires
        i + p@.len() <= s@.len(),
    ensures
        m == matches_at(s@, p@, i as int),
{
    let n = s.len();
    let mut j: usize = 0;
    while j < p.len()
        invariant
            i + p@.len() <= s@.len(),
            n == s@.len(),
            j <= p@.len(),
            forall|q: int| 0 <= q < j ==> s@[i + q] == p@[q],
        decreases p@.len() - j,
    {
        if s[i + j] != p[j] {
            assert(s@.subrange(i as int, i + p@.len())[j as int] != p@[j as int]);
            return false;
        }
        j = j + 1;
    }
    assert(s@.subrange(i as int, i + p@.len()) =~= p@);
    true
}

/// The first index at which `p` occurs in `s`.
pub fn find(s: &Vec<char>, p: &Vec<char>) -> (res: Option<usize>)
    ensures
        res matches Some(i) ==> first_match(s@, p@, 0) == Some(i as int),
        res is None ==> first_match(s@, p@, 0) is None,
{
    if p.len() > s.len() {
        return None;
    }
    let last = s.len() - p.len();
    let mut k: usize = 0;
    while k <= last
        invariant
            last + p@.len() == s@.len(),
            k <= last + 1,
            first_match(s@, p@, k as int) == first_match(s@, p@, 0),
        decreases last + 1 - k,
    {
        if occurs_at(s, p, k) {
            return Some(k);
        }
        if k == last {
            assert(first_match(s@, p@, k + 1) is None);
            return None;
        }
        k = k + 1;
    }
    None
}

/// The first index from `k` on that holds `:` or `.` (or the length).
pub open spec fn next_sep(s: Seq<char>, k: int) -> int
    decreases s.len() - k,
{
    if 0 <= k < s.len() && !(s[k] == ':' || s[k] == '.') {
        next_sep(s, k + 1)
    } else {
        k
    }
}

/// The first index from `k` on that holds `:` or `.` (or the length).
pub fn find_sep(s: &Vec<char>, k: usize) -> (e: usize)
    requires
        k <= s@.len(),
    ensures
        e as int == next_sep(s@, k as int),
        k <= e <= s@.len(),
{
    let mut e = k;
    while e < s.len() && !(s[e] == ':' || s[e] == '.')
        invariant
            k <= e <= s@.len(),
            next_sep(s@, e as int) == next_sep(s@, k as int),
        decreases s@.len() - e,
    {
        e = e + 1;
    }
    e
}

/// A line without the carriage return that ends it, if one does.
pub open spec fn strip_cr(l: Seq<char>) -> Seq<char> {
    if l.len() > 0 && l.last() == '\r' {
        l.drop_last()
    } else {
        l
    }
}

/// The lines of `s` from index `k` on, the current line having started at
/// `start`: a line ends at each `\n` (which, with a `\r` before it, is
/// dropped); text after the last `\n` is a last line, kept as it is.
pub open spec fn lines_from(s: Seq<char>, start: int, k: int) -> Seq<Seq<char>>
    decreases s.len() - k,
{
    if k >= s.len() {
        if start < s.len() {
            seq![s.subrange(start, s.len() as int)]
        } else {
            seq![]
        }
    } else if s[k] == '\n' {
        seq![strip_cr(s.subrange(start, k))] + lines_from(s, k + 1, k + 1)
    } else {
        lines_from(s, start, k + 1)
    }
}

/// The lines of `s`, as `str::lines` gives them.
pub open spec fn lines_of(s: Seq<char>) -> Seq<Seq<char>> {
    lines_from(s, 0, 0)
}

/// `s[lo..hi]` as a vector of its own.
pub fn copy_range(s: &Vec<char>, lo: usize, hi: usize) -> (v: Vec<char>)
    requires
        lo <= hi <= s@.len(),
    ensures
        v@ == s@.subrange(lo as int, hi as int),
{
    let mut v: Vec<char> = Vec::new();
    let mut i = lo;
    while i < hi
        invariant
            lo <= i <= hi <= s@.len(),
            v@ == s@.subrange(lo as int, i as int),
        decreases hi - i,
    {
        v.push(s[i]);
        i = i + 1;
        assert(v@ =~= s@.subrange(lo as int, i as int));
    }
    v
}

/// The lines of `s` (see [`lines_of`]).
pub fn split_lines(s: &Vec<char>) -> (lines: Vec<Vec<char>>)
    ensures
        lines.deep_view() == lines_of(s@),
{
    let mut lines: Vec<Vec<char>> = Vec::new();
    let ghost mut done: Seq<Seq<char>> = seq![];
    let mut start: usize = 0;
    let mut k: usize = 0;
    while k < s.len()
        invariant
            start <= k <= s@.len(),
            lines@.len() == done.len(),
            forall|i: int| 0 <= i < done.len() ==> (#[trigger] lines@[i])@ == done[i],
            done + lines_from(s@, start as int, k as int) == lines_of(s@),
        decreases s@.len() - k,
    {
        if s[k] == '\n' {
            let mut end = k;
            if end > start && s[end - 1] == '\r' {
                end = end - 1;
            }
            let line = copy_range(s, start, end);
            assert(line@ =~= strip_cr(s@.subrange(start as int, k as int)));
            proof {
                let added = strip_cr(s@.subrange(start as int, k as int));
                assert(done.push(added) + lines_from(s@, k + 1, k + 1) =~= done + lines_from(s@, start as int, k as int));
                done = done.push(added);
            }
            lines.push(line);
            start = k + 1;
        }
        k = k + 1;
    }
    if start < s.len() {
        let line = copy_range(s, start, s.len());
        proof {
            done = done.push(s@.subrange(start as int, s@.len() as int));
        }
        lines.push(line);
    }
    assert(done =~= lines_of(s@));
    assert(lines.deep_view() =~~= done);
    lines
}

} // verus!
