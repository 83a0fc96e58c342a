//! Display-width helpers: how many terminal columns chars and lines take.
//!
//! Column sums saturate at `usize::MAX` instead of overflowing.
use crate::text::string_push;
use unicode_width::{UnicodeWidthChar, UnicodeWidthStr};
use vstd::prelude::*;

verus! {

/// The displayed width of `c` in columns per Unicode Standard Annex #11, or
/// `None` for a control character.
pub uninterp spec fn char_width(c: char) -> Option<usize>;

/// The displayed width of the string `s` in columns per Unicode Standard Annex #11.
pub uninterp spec fn str_width(s: Seq<char>) -> usize;

/// `UnicodeWidthChar::width`: the char's width as the crate's tables give it.
/// The crate's source answers `None` below U+0020 and from U+007F to U+009F,
/// 1 for the rest of ASCII, and at most 3 otherwise.
#[verifier::external_body]
fn unicode_char_width(c: char) -> (r: Option<usize>)
    ensures
        r == char_width(c),
        (c as u32) < 0x20 ==> r is None,
        0x20 <= (c as u32) < 0x7F ==> r == Some(1usize),
        0x7F <= (c as u32) < 0xA0 ==> r is None,
        (c as u32) >= 0xA0 ==> r is Some,
        r matches Some(w) ==> w <= 3,
{
    UnicodeWidthChar::width(c)
}

/// `UnicodeWidthStr::width`: the width of a whole string.
#[verifier::external_body]
pub(crate) fn unicode_str_width(s: &str) -> (r: usize)
    ensures
        r == str_width(s@),
{
    UnicodeWidthStr::width(s)
}

/// `a + b`, or `usize::MAX` when that is larger.
pub open spec fn sat_add(a: nat, b: nat) -> nat {
    if a + b > usize::MAX {
        usize::MAX as nat
    } else {
        a + b
    }
}

/// Columns a char takes when drawn at column `col`: tabs reach the next tab
/// stop, control chars take none.
pub open spec fn cdw(ch: char, col: nat, tab_width: nat) -> nat {
    if ch == '\t' {
        (tab_width - col % tab_width) as nat
    } else {
        match char_width(ch) {
            Some(w) => w as nat,
            None => 0,
        }
    }
}

/// The display column reached after drawing the first `n` chars of `line`.
pub open spec fn display_col_spec(line: Seq<char>, n: int, tab_width: nat) -> nat
    decreases n,
{
    if n <= 0 {
        0
    } else if n > line.len() {
        display_col_spec(line, line.len() as int, tab_width)
    } else {
        let c = display_col_spec(line, n - 1, tab_width);
        sat_add(c, cdw(line[n - 1], c, tab_width))
    }
}

/// The index of the char that covers display column `target`, scanning at
/// most `max_chars` chars of `line` from index `idx` at column `col`.
pub open spec fn char_at_display_from(
    line: Seq<char>,
    target: nat,
    max_chars: nat,
    tab_width: nat,
    idx: nat,
    col: nat,
) -> nat
    decreases line.len() - idx,
{
    if idx >= max_chars || idx >= line.len() {
        idx
    } else {
        let w = cdw(line[idx as int], col, tab_width);
        if sat_add(col, w) > target {
            idx
        } else {
            char_at_display_from(line, target, max_chars, tab_width, idx + 1, sat_add(col, w))
        }
    }
}

pub fn char_display_width(ch: char, col: usize, tab_width: usize) -> (w: usize)
    requires
        tab_width >= 1,
    ensures
        w == cdw(ch, col as nat, tab_width as nat),
{
    if ch == '\t' {
        tab_width - (col % tab_width)
    } else {
        match unicode_char_width(ch) {
            Some(w) => w,
            None => 0,
        }
    }
}

fn sat(a: usize, b: usize) -> (r: usize)
    ensures
        r == sat_add(a as nat, b as nat),
{
    if a > usize::MAX - b {
        usize::MAX
    } else {
        a + b
    }
}

/// The display column reached after drawing the first `char_idx` chars of `line`.
pub fn display_col(line: &[char], char_idx: usize, tab_width: usize) -> (c: usize)
    requires
        tab_width >= 1,
    ensures
        c == display_col_spec(line@, char_idx as int, tab_width as nat),
{
    let mut col: usize = 0;
    let mut i: usize = 0;
    let n = if char_idx < line.len() {
        char_idx
    } else {
        line.len()
    };
    while i < n
        invariant
            i <= n <= line@.len(),
            n == char_idx || (n == line@.len() && char_idx > line@.len()),
            tab_width >= 1,
            col == display_col_spec(line@, i as int, tab_width as nat),
        decreases n - i,
    {
        col = sat(col, char_display_width(line[i], col, tab_width));
        i = i + 1;
    }
    col
}

/// The index of the char under display column `target`, among the first
/// `max_chars` chars of `line`.
pub fn char_at_display(line: &[char], target: usize, max_chars: usize, tab_width: usize) -> (r:
    usize)
    requires
        tab_width >= 1,
    ensures
        r == char_at_display_from(
            line@,
            target as nat,
            max_chars as nat,
            tab_width as nat,
            0,
            0,
        ),
        r <= max_chars,
        r <= line@.len(),
{
    let mut col: usize = 0;
    let mut idx: usize = 0;
    while idx < max_chars && idx < line.len()
        invariant
            idx <= max_chars,
            idx <= line@.len(),
            tab_width >= 1,
            char_at_display_from(line@, target as nat, max_chars as nat, tab_width as nat, 0, 0)
                == char_at_display_from(
                line@,
                target as nat,
                max_chars as nat,
                tab_width as nat,
                idx as nat,
                col as nat,
            ),
        decreases line.len() - idx,
    {
        let w = char_display_width(line[idx], col, tab_width);
        let next = sat(col, w);
        if next > target {
            return idx;
        }
        col = next;
        idx = idx + 1;
    }
    proof {
        lemma_char_at_display_bound(line@, target as nat, max_chars as nat, tab_width as nat, 0, 0);
    }
    idx
}

pub proof fn lemma_char_at_display_bound(
    line: Seq<char>,
    target: nat,
    max_chars: nat,
    tab_width: nat,
    idx: nat,
    col: nat,
)
    requires
        idx <= max_chars,
        idx <= line.len(),
    ensures
        idx <= char_at_display_from(line, target, max_chars, tab_width, idx, col) <= max_chars,
        char_at_display_from(line, target, max_chars, tab_width, idx, col) <= line.len(),
    decreases line.len() - idx,
{
    if idx < max_chars && idx < line.len() {
        let w = cdw(line[idx as int], col, tab_width);
        if sat_add(col, w) <= target {
            lemma_char_at_display_bound(line, target, max_chars, tab_width, idx + 1, sat_add(col, w));
        }
    }
}

/// The chars of `s` that fit in `width` columns, padded with spaces to exactly
/// `width` columns when they are narrower.
pub open spec fn fit_prefix_len(s: Seq<char>, width: nat, i: nat, w: nat) -> nat
    decreases s.len() - i,
{
    if i >= s.len() {
        i
    } else {
        let cw = match char_width(s[i as int]) {
            Some(x) => x as nat,
            None => 0,
        };
        if w + cw > width {
            i
        } else {
            fit_prefix_len(s, width, i + 1, w + cw)
        }
    }
}

/// The width of a char, counting control chars as zero.
pub open spec fn cwidth(c: char) -> nat {
    match char_width(c) {
        Some(x) => x as nat,
        None => 0,
    }
}

/// The width of the first `n` chars of `s`, counting control chars as zero.
pub open spec fn plain_width(s: Seq<char>, n: int) -> nat
    decreases n,
{
    if n <= 0 || n > s.len() {
        0
    } else {
        plain_width(s, n - 1) + match char_width(s[n - 1]) {
            Some(x) => x as nat,
            None => 0,
        }
    }
}

/// `s` cut to `width` columns and padded with spaces up to `width` columns.
pub open spec fn fit_spec(s: Seq<char>, width: nat) -> Seq<char> {
    let n = fit_prefix_len(s, width, 0, 0);
    s.take(n as int) + Seq::new((width - plain_width(s, n as int)) as nat, |i: int| ' ')
}

/// Cut `s` to `width` columns and pad it with spaces to exactly `width` columns.
pub fn fit(s: &[char], width: usize) -> (out: String)
    ensures
        out@ == fit_spec(s@, width as nat),
{
    let mut out = String::new();
    let mut w: usize = 0;
    let mut i: usize = 0;
    while i < s.len()
        invariant
            i <= s@.len(),
            w <= width,
            w == plain_width(s@, i as int),
            out@ == s@.take(i as int),
            fit_prefix_len(s@, width as nat, 0, 0) == fit_prefix_len(
                s@,
                width as nat,
                i as nat,
                w as nat,
            ),
        ensures
            i <= s@.len(),
            w == plain_width(s@, i as int),
            out@ == s@.take(i as int),
            fit_prefix_len(s@, width as nat, 0, 0) == fit_prefix_len(
                s@,
                width as nat,
                i as nat,
                w as nat,
            ),
            i == s@.len() || w + cwidth(s@[i as int]) > width,
        decreases s.len() - i,
    {
        let cw = match unicode_char_width(s[i]) {
            Some(x) => x,
            None => 0,
        };
        if cw > width || w > width - cw {
            break;
        }
        string_push(&mut out, s[i]);
        w = w + cw;
        i = i + 1;
        assert(out@ =~= s@.take(i as int));
    }
    proof {
        lemma_fit_prefix_stop(s@, width as nat, i as nat, w as nat);
    }
    let ghost prefix = out@;
    while w < width
        invariant
            w <= width,
            prefix == s@.take(fit_prefix_len(s@, width as nat, 0, 0) as int),
            w >= plain_width(s@, fit_prefix_len(s@, width as nat, 0, 0) as int),
            out@ == prefix + Seq::new(
                (w - plain_width(s@, fit_prefix_len(s@, width as nat, 0, 0) as int)) as nat,
                |i: int| ' ',
            ),
        decreases width - w,
    {
        string_push(&mut out, ' ');
        w = w + 1;
        assert(out@ =~= prefix + Seq::new(
            (w - plain_width(s@, fit_prefix_len(s@, width as nat, 0, 0) as int)) as nat,
            |i: int| ' ',
        ));
    }
    out
}

proof fn lemma_fit_prefix_stop(s: Seq<char>, width: nat, i: nat, w: nat)
    requires
        i <= s.len(),
        w == plain_width(s, i as int),
        i == s.len() || w + cwidth(s[i as int]) > width,
    ensures
        fit_prefix_len(s, width, i, w) == i,
{
}

} // verus!
