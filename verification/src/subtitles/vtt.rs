//! Reading WebVTT subtitle files: a header, then cues made of an optional
//! number line, a `start --> end` timing line and text lines up to a blank
//! line.

use vstd::prelude::*;
use crate::subtitles::{Cue, Subtitle, Subtitles};
use crate::subtitles::scan::{
    blank, chars_of, copy_range, find, find_sep, first_match, lemma_first_match_found, is_blank,
    lines_of, next_sep, parse_u64, split_lines, trim, trim_bounds, unsigned_value,
};

verus! {

/// `-->`, which marks a timing line.
pub open spec fn arrow() -> Seq<char> {
    seq!['-', '-', '>']
}

/// ` --> `, which separates the start and end times of a timing line.
pub open spec fn spaced_arrow() -> Seq<char> {
    seq![' ', '-', '-', '>', ' ']
}

/// The index of the first line after the header: the header ends after its
/// first blank line, or just before a line that holds `-->`.
pub open spec fn header_end(lines: Seq<Seq<char>>, i: int) -> int
    decreases lines.len() - i,
{
    if 0 <= i < lines.len() {
        if is_blank(lines[i]) {
            i + 1
        } else if first_match(lines[i], arrow(), 0) is Some {
            i
        } else {
            header_end(lines, i + 1)
        }
    } else {
        i
    }
}

/// The time, in whole seconds, of `hh:mm:ss.ttt` (fields split at every `:`
/// and `.`; the first four are read as unsigned numbers, the milliseconds
/// rounded down to whole seconds). `None` when there are fewer than four
/// fields, a field is not a number, or a value leaves `u64`.
pub open spec fn time_value(s: Seq<char>) -> Option<int> {
    let e0 = next_sep(s, 0);
    let e1 = next_sep(s, e0 + 1);
    let e2 = next_sep(s, e1 + 1);
    let e3 = next_sep(s, e2 + 1);
    if e0 >= s.len() || e1 >= s.len() || e2 >= s.len() {
        None
    } else {
        match (
            unsigned_value(s.subrange(0, e0)),
            unsigned_value(s.subrange(e0 + 1, e1)),
            unsigned_value(s.subrange(e1 + 1, e2)),
            unsigned_value(s.subrange(e2 + 1, e3)),
        ) {
            (Some(h), Some(m), Some(sec), Some(ms)) => {
                if h <= u64::MAX && m <= u64::MAX && sec <= u64::MAX && ms <= u64::MAX && h * 3600
                    + m * 60 + sec + ms / 1000 <= u64::MAX {
                    Some(h * 3600 + m * 60 + sec + ms / 1000)
                } else {
                    None
                }
            },
            _ => None,
        }
    }
}

/// Whether a line, trimmed, is a cue number (an unsigned number that fits
/// in `usize`).
pub open spec fn is_cue_number(line: Seq<char>) -> bool {
    unsigned_value(trim(line)) matches Some(v) && v <= usize::MAX
}

/// The first line from `k` on that is blank (or the number of lines).
pub open spec fn text_end(lines: Seq<Seq<char>>, k: int) -> int
    decreases lines.len() - k,
{
    if 0 <= k < lines.len() && !is_blank(lines[k]) {
        text_end(lines, k + 1)
    } else {
        k
    }
}

/// Lemma: the text of a cue ends at or after the line it starts at.
pub proof fn lemma_text_end_bounds(lines: Seq<Seq<char>>, k: int)
    requires
        0 <= k,
    ensures
        k <= text_end(lines, k),
        k <= lines.len() ==> text_end(lines, k) <= lines.len(),
    decreases lines.len() - k,
{
    if 0 <= k < lines.len() && !is_blank(lines[k]) {
        lemma_text_end_bounds(lines, k + 1);
    }
}

/// Lines joined with `\n` between them.
pub open spec fn join_lines(ls: Seq<Seq<char>>) -> Seq<char>
    decreases ls.len(),
{
    if ls.len() == 0 {
        seq![]
    } else if ls.len() == 1 {
        ls[0]
    } else {
        join_lines(ls.drop_last()).push('\n') + ls.last()
    }
}

/// The cues from line `i` on; `None` when a timing line holds a time that
/// cannot be read.
pub open spec fn cues_from(lines: Seq<Seq<char>>, i: int) -> Option<Seq<Cue>>
    decreases lines.len() + 2 - i,
{
    if i < 0 || i >= lines.len() {
        Some(seq![])
    } else {
        let j = if is_cue_number(lines[i]) {
            i + 1
        } else {
            i
        };
        if j >= lines.len() {
            Some(seq![])
        } else {
            match first_match(lines[j], spaced_arrow(), 0) {
                None => cues_from(lines, j + 2),
                Some(a) => {
                    let start = time_value(lines[j].take(a));
                    let end = time_value(lines[j].skip(a + 5));
                    if start is Some && end is Some {
                        let k = text_end(lines, j + 1);
                        proof {
                            lemma_text_end_bounds(lines, j + 1);
                        }
                        match cues_from(lines, k + 1) {
                            Some(rest) => Some(
                                seq![(start->0, end->0, join_lines(lines.subrange(j + 1, k)))] + rest,
                            ),
                            None => None,
                        }
                    } else {
                        None
                    }
                },
            }
        }
    }
}

/// The cues of a WebVTT file; `None` when a timing line holds a time that
/// cannot be read.
pub open spec fn vtt_cues(content: Seq<char>) -> Option<Seq<Cue>> {
    let lines = lines_of(content);
    cues_from(lines, header_end(lines, 0))
}

/// The time, in whole seconds, of a time stamp (see [`time_value`]).
fn parse_time_vtt(s: &Vec<char>) -> (t: Option<u64>)
    ensures
        t matches Some(v) ==> time_value(s@) == Some(v as int),
        t is None ==> time_value(s@) is None,
{
    let n = s.len();
    let e0 = find_sep(s, 0);
    if e0 == n {
        return None;
    }
    let e1 = find_sep(s, e0 + 1);
    if e1 == n {
        return None;
    }
    let e2 = find_sep(s, e1 + 1);
    if e2 == n {
        return None;
    }
    let e3 = find_sep(s, e2 + 1);
    let h = parse_u64(s, 0, e0);
    let m = parse_u64(s, e0 + 1, e1);
    let sec = parse_u64(s, e1 + 1, e2);
    let ms = parse_u64(s, e2 + 1, e3);
    match (h, m, sec, ms) {
        (Some(h), Some(m), Some(sec), Some(ms)) => {
            let total = match h.checked_mul(3600) {
                Some(a) => match m.checked_mul(60) {
                    Some(b) => match a.checked_add(b) {
                        Some(c) => match c.checked_add(sec) {
                            Some(d) => d.checked_add(ms / 1000),
                            None => None,
                        },
                        None => None,
                    },
                    None => None,
                },
                None => None,
            };
            total
        },
        _ => None,
    }
}

/// Whether a line, trimmed, is a cue number (see [`is_cue_number`]).
fn cue_number(line: &Vec<char>) -> (b: bool)
    ensures
        b == is_cue_number(line@),
{
    let (lo, hi) = trim_bounds(line);
    match parse_u64(line, lo, hi) {
        Some(v) => v <= usize::MAX as u64,
        None => false,
    }
}

/// The index of the first line after the header (see [`header_end`]).
fn skip_header(lines: &Vec<Vec<char>>) -> (i: usize)
    ensures
        i as int == header_end(lines.deep_view(), 0),
        i <= lines@.len(),
{
    let ghost ls = lines.deep_view();
    let marker: Vec<char> = vec!['-', '-', '>'];
    assert(marker@ =~= arrow());
    let mut i: usize = 0;
    while i < lines.len()
        invariant
            ls == lines.deep_view(),
            marker@ == arrow(),
            i <= lines@.len(),
            header_end(ls, i as int) == header_end(ls, 0),
        decreases lines@.len() - i,
    {
        assert(ls[i as int] == lines@[i as int]@);
        if blank(&lines[i]) {
            return i + 1;
        }
        if find(&lines[i], &marker).is_some() {
            return i;
        }
        i = i + 1;
    }
    i
}

/// The lines `lo..hi` joined with `\n` between them.
fn join_text(lines: &Vec<Vec<char>>, lo: usize, hi: usize) -> (text: String)
    requires
        lo <= hi <= lines@.len(),
    ensures
        text@ == join_lines(lines.deep_view().subrange(lo as int, hi as int)),
{
    let ghost ls = lines.deep_view();
    let mut text = String::new();
    let mut k: usize = lo;
    while k < hi
        invariant
            ls == lines.deep_view(),
            lo <= k <= hi <= lines@.len(),
            text@ == join_lines(ls.subrange(lo as int, k as int)),
        decreases hi - k,
    {
        let ghost before = text@;
        if k > lo {
            text.push('\n');
        }
        let line: &Vec<char> = &lines[k];
        assert(ls[k as int] == line@);
        let mut c: usize = 0;
        while c < line.len()
            invariant
                c <= line@.len(),
                text@ == (if k > lo { before.push('\n') } else { before }) + line@.take(c as int),
            decreases line@.len() - c,
        {
            text.push(line[c]);
            c = c + 1;
            assert(text@ =~= (if k > lo { before.push('\n') } else { before }) + line@.take(c as int));
        }
        let ghost part = ls.subrange(lo as int, k + 1);
        assert(part.drop_last() =~= ls.subrange(lo as int, k as int));
        assert(line@.take(line@.len() as int) =~= line@);
        k = k + 1;
        assert(text@ =~= join_lines(ls.subrange(lo as int, k as int)));
    }
    text
}

/// `got` followed by the cues that `rest` holds, if it holds any.
pub open spec fn after(got: Seq<Cue>, rest: Option<Seq<Cue>>) -> Option<Seq<Cue>> {
    match rest {
        Some(r) => Some(got + r),
        None => None,
    }
}

/// One step of reading cues at line `i` (meant for `i` inside the lines):
/// the line to go on at and the cue read, if any; `None` when the timing
/// line holds a time that cannot be read.
pub open spec fn cue_step(lines: Seq<Seq<char>>, i: int) -> Option<(int, Option<Cue>)> {
    let n = lines.len() as int;
    let j = if is_cue_number(lines[i]) {
        i + 1
    } else {
        i
    };
    if j >= n {
        Some((n, None))
    } else {
        match first_match(lines[j], spaced_arrow(), 0) {
            None => Some((if j + 2 <= n { j + 2 } else { n }, None)),
            Some(a) => {
                let start = time_value(lines[j].take(a));
                let end = time_value(lines[j].skip(a + 5));
                if start is Some && end is Some {
                    let k = text_end(lines, j + 1);
                    Some(
                        (
                            if k < n { k + 1 } else { n },
                            Some((start->0, end->0, join_lines(lines.subrange(j + 1, k)))),
                        ),
                    )
                } else {
                    None
                }
            },
        }
    }
}

/// Lemma: reading the cues from line `i` is one step, then reading on.
pub proof fn lemma_cue_step(lines: Seq<Seq<char>>, i: int)
    requires
        0 <= i < lines.len(),
    ensures
        cue_step(lines, i) matches Some((next, _)) ==> i < next <= lines.len(),
        cues_from(lines, i) == match cue_step(lines, i) {
            None => None,
            Some((next, None)) => cues_from(lines, next),
            Some((next, Some(cue))) => after(seq![cue], cues_from(lines, next)),
        },
{
    let n = lines.len() as int;
    let j = if is_cue_number(lines[i]) {
        i + 1
    } else {
        i
    };
    if j < n {
        if let Some(a) = first_match(lines[j], spaced_arrow(), 0) {
            lemma_text_end_bounds(lines, j + 1);
            let k = text_end(lines, j + 1);
            if k >= n {
                assert(cues_from(lines, k + 1) == Some(Seq::<Cue>::empty()));
                assert(cues_from(lines, n) == Some(Seq::<Cue>::empty()));
            }
        }
    }
}

/// One step of reading cues at line `i` (see [`cue_step`]).
fn read_cue(lines: &Vec<Vec<char>>, i: usize, spaced: &Vec<char>) -> (res: Option<(usize, Option<Subtitle>)>)
    requires
        i < lines@.len(),
        spaced@ == spaced_arrow(),
    ensures
        res is None <==> cue_step(lines.deep_view(), i as int) is None,
        res matches Some((next, sub)) ==> cue_step(lines.deep_view(), i as int) matches Some((
            next_spec,
            cue,
        )) && next as int == next_spec && (sub is None <==> cue is None) && (sub matches Some(s)
            ==> s.cue() == cue->0),
{
    let ghost ls = lines.deep_view();
    let n = lines.len();
    assert(ls[i as int] == lines@[i as int]@);
    let j = if cue_number(&lines[i]) { i + 1 } else { i };
    if j >= n {
        return Some((n, None));
    }
    let times: &Vec<char> = &lines[j];
    assert(ls[j as int] == times@);
    match find(times, spaced) {
        None => Some((if n - j >= 2 { j + 2 } else { n }, None)),
        Some(a) => {
            proof {
                lemma_first_match_found(times@, spaced@, 0);
            }
            let times_len = times.len();
            assert(a + 5 <= times_len);
            let start_text = copy_range(times, 0, a);
            let end_text = copy_range(times, a + 5, times.len());
            assert(start_text@ =~= times@.take(a as int));
            assert(end_text@ =~= times@.skip(a + 5));
            let start = parse_time_vtt(&start_text);
            let end = parse_time_vtt(&end_text);
            match (start, end) {
                (Some(start), Some(end)) => {
                    let mut k = j + 1;
                    while k < n && !blank(&lines[k])
                        invariant
                            ls == lines.deep_view(),
                            n == ls.len(),
                            j + 1 <= k <= n,
                            text_end(ls, k as int) == text_end(ls, j + 1),
                        decreases n - k,
                    {
                        assert(ls[k as int] == lines@[k as int]@);
                        k = k + 1;
                    }
                    proof {
                        if k < n {
                            assert(ls[k as int] == lines@[k as int]@);
                        }
                    }
                    let text = join_text(lines, j + 1, k);
                    let sub = Subtitle { start, end, text };
                    Some((if k < n { k + 1 } else { n }, Some(sub)))
                },
                _ => None,
            }
        },
    }
}

/// Reads a WebVTT file; `None` exactly when a timing line holds a time that
/// cannot be read (see [`vtt_cues`]).
pub fn try_parse_vtt(content: &str) -> (res: Option<Subtitles>)
    ensures
        res is None <==> vtt_cues(content@) is None,
        res matches Some(subs) ==> subs.cues() == vtt_cues(content@)->0,
{
    let chars = chars_of(content);
    let lines = split_lines(&chars);
    let ghost ls = lines.deep_view();
    let spaced: Vec<char> = vec![' ', '-', '-', '>', ' '];
    assert(spaced@ =~= spaced_arrow());
    let n = lines.len();
    let mut subs: Vec<Subtitle> = Vec::new();
    let ghost mut got: Seq<Cue> = seq![];
    let mut i: usize = skip_header(&lines);
    while i < n
        invariant
            ls == lines.deep_view(),
            ls == lines_of(content@),
            n == ls.len(),
            spaced@ == spaced_arrow(),
            i <= n,
            subs@.len() == got.len(),
            forall|q: int| 0 <= q < got.len() ==> (#[trigger] subs@[q]).cue() == got[q],
            vtt_cues(content@) == after(got, cues_from(ls, i as int)),
        decreases n - i,
    {
        proof {
            lemma_cue_step(ls, i as int);
        }
        match read_cue(&lines, i, &spaced) {
            None => {
                return None;
            },
            Some((next, sub)) => {
                match sub {
                    Some(sub) => {
                        proof {
                            let cue = sub.cue();
                            match cues_from(ls, next as int) {
                                Some(r) => {
                                    assert(got + (seq![cue] + r) =~= got.push(cue) + r);
                                },
                                None => {},
                            }
                            got = got.push(cue);
                        }
                        subs.push(sub);
                    },
                    None => {},
                }
                i = next;
            },
        }
    }
    assert(got + seq![] =~= got);
    let res = Subtitles { inner: subs };
    assert(res.cues() =~= got);
    Some(res)
}

/// Reads a WebVTT file whose timing lines all hold readable times.
pub fn parse_vtt(content: &str) -> (subs: Subtitles)
    requires
        vtt_cues(content@) is Some,
    ensures
        subs.cues() == vtt_cues(content@)->0,
{
    match try_parse_vtt(content) {
        Some(subs) => subs,
        None => {
            proof {
                assert(false);
            }
            Subtitles { inner: Vec::new() }
        },
    }
}

} // verus!
