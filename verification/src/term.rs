//! Picks the size that frames are scaled to from the terminal's size and the
//! graphics mode: modes that pack several pixel rows or columns into one
//! character cell ask for that many more pixels.

use vstd::prelude::*;

verus! {

/// Whether two strings hold the same characters.
pub fn same_text(a: &str, b: &str) -> (same: bool)
    ensures
        same == (a@ == b@),
{
    let n = a.unicode_len();
    if n != b.unicode_len() {
        return false;
    }
    let mut i: usize = 0;
    while i < n
        invariant
            n == a@.len(),
            n == b@.len(),
            i <= n,
            forall|j: int| 0 <= j < i ==> a@[j] == b@[j],
        decreases n - i,
    {
        if a.get_char(i) != b.get_char(i) {
            return false;
        }
        i = i + 1;
    }
    assert(a@ =~= b@);
    true
}

/// Pixel rows per text line in a graphics mode: two for the half-block and
/// braille modes, six for the black-and-white SIXEL modes, one otherwise.
pub open spec fn rows_per_line(mode: Seq<char>) -> int {
    if mode == seq!['h', 'i', 'g', 'h'] || mode == seq!['c', 'h', 'e', 'e', 's', 'e', 'g', 'r', 'a', 't', 'e', 'r'] {
        2
    } else if mode == seq!['b', 'r', 'a', 'i', 'l', 'l', 'e', 'b', 'w'] || mode == seq!['b', 'r', 'a', 'i', 'l', 'l', 'e', 'r', 'g', 'b'] {
        2
    } else if mode == seq!['s', 'i', 'x', 'e', 'l', 'b', 'w'] || mode == seq!['s', 'i', 'x', 'e', 'l', 'b', 'w', '2'] {
        6
    } else {
        1
    }
}

/// Pixel columns per character in a graphics mode: four for the braille
/// modes, one otherwise.
pub open spec fn columns_per_cell(mode: Seq<char>) -> int {
    if mode == seq!['b', 'r', 'a', 'i', 'l', 'l', 'e', 'b', 'w'] || mode == seq!['b', 'r', 'a', 'i', 'l', 'l', 'e', 'r', 'g', 'b'] {
        4
    } else {
        1
    }
}

/// The frame height for a terminal `term_height` lines high: for modes with
/// several pixel rows per line, that many rows per line less one; one line
/// less again when the status bar is shown.
pub open spec fn frame_height(term_height: int, mode: Seq<char>, no_status_bar: bool) -> int {
    (if rows_per_line(mode) == 1 {
        term_height
    } else {
        term_height * rows_per_line(mode) - 1
    }) - (if no_status_bar {
        0int
    } else {
        1int
    })
}

/// The frame width for a terminal `term_width` columns wide.
pub open spec fn frame_width(term_width: int, mode: Seq<char>) -> int {
    term_width * columns_per_cell(mode)
}

/// The graphics-mode names, as the text that `rows_per_line` and
/// `columns_per_cell` compare against.
proof fn lemma_mode_names()
    ensures
        "high"@ == seq!['h', 'i', 'g', 'h'],
        "cheesegrater"@ == seq!['c', 'h', 'e', 'e', 's', 'e', 'g', 'r', 'a', 't', 'e', 'r'],
        "braillebw"@ == seq!['b', 'r', 'a', 'i', 'l', 'l', 'e', 'b', 'w'],
        "braillergb"@ == seq!['b', 'r', 'a', 'i', 'l', 'l', 'e', 'r', 'g', 'b'],
        "sixelbw"@ == seq!['s', 'i', 'x', 'e', 'l', 'b', 'w'],
        "sixelbw2"@ == seq!['s', 'i', 'x', 'e', 'l', 'b', 'w', '2'],
{
        reveal_strlit("high");
        assert("high"@ =~= seq!['h', 'i', 'g', 'h']);
        reveal_strlit("cheesegrater");
        assert("cheesegrater"@ =~= seq!['c', 'h', 'e', 'e', 's', 'e', 'g', 'r', 'a', 't', 'e', 'r']);
        reveal_strlit("braillebw");
        assert("braillebw"@ =~= seq!['b', 'r', 'a', 'i', 'l', 'l', 'e', 'b', 'w']);
        reveal_strlit("braillergb");
        assert("braillergb"@ =~= seq!['b', 'r', 'a', 'i', 'l', 'l', 'e', 'r', 'g', 'b']);
        reveal_strlit("sixelbw");
        assert("sixelbw"@ =~= seq!['s', 'i', 'x', 'e', 'l', 'b', 'w']);
        reveal_strlit("sixelbw2");
        assert("sixelbw2"@ =~= seq!['s', 'i', 'x', 'e', 'l', 'b', 'w', '2']);
}

/// The frame size `(width, height)` that suits a terminal of
/// `term_width` by `term_height` cells in the given graphics mode.
pub fn autodetect_term_size(term_width: u16, term_height: u16, graphics: &str, no_status_bar: bool) -> (size: (u16, u16))
    requires
        0 <= frame_height(term_height as int, graphics@, no_status_bar),
        term_height * rows_per_line(graphics@) <= u16::MAX,
        frame_width(term_width as int, graphics@) <= u16::MAX,
    ensures
        size.0 == frame_width(term_width as int, graphics@),
        size.1 == frame_height(term_height as int, graphics@, no_status_bar),
{
    let mut term_width = term_width;
    let mut term_height = term_height;
    let high = same_text(graphics, "high");
    let cheesegrater = same_text(graphics, "cheesegrater");
    let braillebw = same_text(graphics, "braillebw");
    let braillergb = same_text(graphics, "braillergb");
    let sixelbw = same_text(graphics, "sixelbw");
    let sixelbw2 = same_text(graphics, "sixelbw2");
    proof {
        lemma_mode_names();
        assert(high <==> graphics@ =~= seq!['h', 'i', 'g', 'h']);
        assert(cheesegrater <==> graphics@ =~= seq!['c', 'h', 'e', 'e', 's', 'e', 'g', 'r', 'a', 't', 'e', 'r']);
        assert(braillebw <==> graphics@ =~= seq!['b', 'r', 'a', 'i', 'l', 'l', 'e', 'b', 'w']);
        assert(braillergb <==> graphics@ =~= seq!['b', 'r', 'a', 'i', 'l', 'l', 'e', 'r', 'g', 'b']);
        assert(sixelbw <==> graphics@ =~= seq!['s', 'i', 'x', 'e', 'l', 'b', 'w']);
        assert(sixelbw2 <==> graphics@ =~= seq!['s', 'i', 'x', 'e', 'l', 'b', 'w', '2']);
    }
    term_height = if high || cheesegrater {
        (term_height * 2) - 1
    } else if braillebw || braillergb {
        (term_height * 2) - 1
    } else if sixelbw || sixelbw2 {
        (term_height * 6) - 1
    } else {
        term_height
    };
    term_width = if braillebw || braillergb {
        term_width * 4
    } else {
        term_width
    };
    if !no_status_bar {
        term_height = term_height - 1;
    }
    (term_width, term_height)
}

/// The frame size for a terminal of `term_width` by `term_height` cells in
/// the given graphics mode (see [`autodetect_term_size`]); `None` when that
/// size does not fit in `u16` or would be negative.
pub fn try_autodetect_term_size(term_width: u16, term_height: u16, graphics: &str, no_status_bar: bool) -> (size: Option<(u16, u16)>)
    ensures
        size is Some <==> (0 <= frame_height(term_height as int, graphics@, no_status_bar) && term_height
            * rows_per_line(graphics@) <= u16::MAX && frame_width(term_width as int, graphics@) <= u16::MAX),
        size matches Some(s) ==> s.0 == frame_width(term_width as int, graphics@) && s.1 == frame_height(
            term_height as int,
            graphics@,
            no_status_bar,
        ),
{
    let rows: u32 = if same_text(graphics, "high") || same_text(graphics, "cheesegrater")
        || same_text(graphics, "braillebw") || same_text(graphics, "braillergb") {
        2
    } else if same_text(graphics, "sixelbw") || same_text(graphics, "sixelbw2") {
        6
    } else {
        1
    };
    let cols: u32 = if same_text(graphics, "braillebw") || same_text(graphics, "braillergb") {
        4
    } else {
        1
    };
    proof {
        lemma_mode_names();
        assert(rows == rows_per_line(graphics@));
        assert(cols == columns_per_cell(graphics@));
    }
    let tall: u32 = term_height as u32 * rows;
    let wide: u32 = term_width as u32 * cols;
    let lines: u32 = if rows == 1 { tall } else if tall >= 1 { tall - 1 } else { return None };
    let height: u32 = if no_status_bar { lines } else if lines >= 1 { lines - 1 } else { return None };
    if tall > u16::MAX as u32 || wide > u16::MAX as u32 {
        return None;
    }
    Some(autodetect_term_size(term_width, term_height, graphics, no_status_bar))
}

} // verus!
