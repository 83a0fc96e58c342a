//! Lightweight syntax highlighting.
//!
//! Each language is a list of `Rule`s applied left-to-right on each line.
//! Rules do not span lines (no multi-line states in this version).
//! The highlighter returns a list of `(start_char, end_char, Color)` spans.
//!
//! Auto-disable: if the file size exceeds `highlight_max_kb` KiB the caller
//! should pass an empty list of rules (or skip calling highlight entirely).
use crate::search::{find_at, find_from, lemma_find_from, occurs_at};
use crate::style::{str_is, Color};
use crate::text::{char_is_whitespace, chars_of, trim_start};
use vstd::prelude::*;

verus! {

/// A single syntax rule: a literal prefix or a set of start-chars.
#[derive(Clone, Copy, Debug)]
pub enum Rule {
    /// Line starts with this string (after leading white space): color the whole line.
    LinePrefix { prefix: &'static str, color: Color },
    /// Keyword surrounded by word boundaries.
    Keyword { word: &'static str, color: Color },
    /// Starts with `open`, ends with `close` (or EOL), both on same line.
    Delimited { open: &'static str, close: &'static str, color: Color },
    /// Everything from `marker` to the end of the line.
    ToEol { marker: &'static str, color: Color },
}

/// Whether `c` is alphabetic or numeric in Unicode (`char::is_alphanumeric`).
pub uninterp spec fn is_alphanumeric(c: char) -> bool;

/// `char::is_alphanumeric`.  Its documentation makes the ASCII letters and
/// digits alphanumeric and no other ASCII char.
#[verifier::external_body]
fn char_is_alphanumeric(c: char) -> (r: bool)
    ensures
        r == is_alphanumeric(c),
        ('a' <= c <= 'z' || 'A' <= c <= 'Z' || '0' <= c <= '9') ==> r,
        (c as u32) < 0x80 && !('a' <= c <= 'z' || 'A' <= c <= 'Z' || '0' <= c <= '9') ==> !r,
{
    c.is_alphanumeric()
}

/// A char that can be part of a word: alphanumeric or `_`.
pub open spec fn is_word_char(c: char) -> bool {
    is_alphanumeric(c) || c == '_'
}

/// A rule the scan always makes progress with: keywords are not empty, and a
/// delimited region has an opening or a closing string.
pub open spec fn rule_ok(r: Rule) -> bool {
    match r {
        Rule::Keyword { word, .. } => word@.len() > 0,
        Rule::Delimited { open, close, .. } => open@.len() > 0 || close@.len() > 0,
        _ => true,
    }
}

/// No word char right before index `i`.
pub open spec fn boundary_before(line: Seq<char>, i: int) -> bool {
    i == 0 || !is_word_char(line[i - 1])
}

/// No word char at index `j`.
pub open spec fn boundary_after(line: Seq<char>, j: int) -> bool {
    j >= line.len() || !is_word_char(line[j])
}

/// The spans of the whole-word occurrences of `word`, scanning from `i`; a
/// match resumes the scan after it.
pub open spec fn keyword_spans(line: Seq<char>, word: Seq<char>, color: Color, i: int) -> Seq<
    (usize, usize, Color),
>
    decreases line.len() - i,
{
    if i < 0 || word.len() == 0 || i + word.len() > line.len() {
        Seq::empty()
    } else if occurs_at(line, word, i) && boundary_before(line, i) && boundary_after(
        line,
        i + word.len(),
    ) {
        seq![(i as usize, (i + word.len()) as usize, color)] + keyword_spans(
            line,
            word,
            color,
            i + word.len(),
        )
    } else {
        keyword_spans(line, word, color, i + 1)
    }
}

/// Where a region opened at `i` ends: past the first `close` after the
/// opening string, or at the end of the line.
pub open spec fn delimited_end(line: Seq<char>, open: Seq<char>, close: Seq<char>, i: int) -> int {
    match find_from(line, close, i + open.len()) {
        Some(r) => r + close.len(),
        None => line.len() as int,
    }
}

/// The spans of the delimited regions, scanning from `i`; a region resumes
/// the scan where it ends.
pub open spec fn delimited_spans(
    line: Seq<char>,
    open: Seq<char>,
    close: Seq<char>,
    color: Color,
    i: int,
) -> Seq<(usize, usize, Color)>
    decreases line.len() - i,
{
    if i < 0 || i >= line.len() {
        Seq::empty()
    } else if occurs_at(line, open, i) {
        let end = delimited_end(line, open, close, i);
        if end <= i || end > line.len() {
            Seq::empty()
        } else {
            seq![(i as usize, end as usize, color)] + delimited_spans(line, open, close, color, end)
        }
    } else {
        delimited_spans(line, open, close, color, i + 1)
    }
}

/// The span from the first `marker` to the end of the line, when it is not empty.
pub open spec fn to_eol_spans(line: Seq<char>, marker: Seq<char>, color: Color) -> Seq<
    (usize, usize, Color),
> {
    match find_from(line, marker, 0) {
        Some(k) => if k < line.len() {
            seq![(k as usize, line.len() as usize, color)]
        } else {
            Seq::empty()
        },
        None => Seq::empty(),
    }
}

/// The whole line, when it starts with `prefix` once leading white space is skipped.
pub open spec fn line_prefix_spans(line: Seq<char>, prefix: Seq<char>, color: Color) -> Seq<
    (usize, usize, Color),
> {
    let t = trim_start(line);
    if prefix.len() <= t.len() && t.take(prefix.len() as int) == prefix {
        seq![(0usize, line.len() as usize, color)]
    } else {
        Seq::empty()
    }
}

/// The spans one rule gives on `line`.
pub open spec fn rule_spans(line: Seq<char>, rule: Rule) -> Seq<(usize, usize, Color)> {
    match rule {
        Rule::LinePrefix { prefix, color } => line_prefix_spans(line, prefix@, color),
        Rule::Keyword { word, color } => keyword_spans(line, word@, color, 0),
        Rule::Delimited { open, close, color } => delimited_spans(line, open@, close@, color, 0),
        Rule::ToEol { marker, color } => to_eol_spans(line, marker@, color),
    }
}

/// The spans of all the rules, rule after rule.
pub open spec fn all_spans(line: Seq<char>, rules: Seq<Rule>) -> Seq<(usize, usize, Color)>
    decreases rules.len(),
{
    if rules.len() == 0 {
        Seq::empty()
    } else {
        all_spans(line, rules.drop_last()) + rule_spans(line, rules.last())
    }
}

/// `t` holds the spans of `s`, ordered by their start.
pub open spec fn sorted_by_start(s: Seq<(usize, usize, Color)>, t: Seq<(usize, usize, Color)>) -> bool {
    &&& t.to_multiset() == s.to_multiset()
    &&& forall|i: int, j: int| 0 <= i < j < t.len() ==> t[i].0 <= t[j].0
}

/// The spans of `t` from index `i` on that start at or after the end of the
/// last span kept (`end`): an earlier span wins over a later one it overlaps.
pub open spec fn keep_from(t: Seq<(usize, usize, Color)>, i: int, end: nat) -> Seq<
    (usize, usize, Color),
>
    decreases t.len() - i,
{
    if i < 0 || i >= t.len() {
        Seq::empty()
    } else if t[i].0 >= end {
        seq![t[i]] + keep_from(t, i + 1, t[i].1 as nat)
    } else {
        keep_from(t, i + 1, end)
    }
}

/// A span within a line of `len` chars.
pub open spec fn span_ok(s: (usize, usize, Color), len: nat) -> bool {
    s.0 <= s.1 <= len
}

/// Whether `n` occurs in `h` at `i`.
fn matches_at(h: &Vec<char>, n: &Vec<char>, i: usize) -> (r: bool)
    requires
        i <= h@.len(),
    ensures
        r == occurs_at(h@, n@, i as int),
{
    if n.len() > h.len() - i {
        return false;
    }
    let hl = h.len();
    let mut j: usize = 0;
    while j < n.len()
        invariant
            hl == h@.len(),
            i + n@.len() <= h@.len(),
            j <= n@.len(),
            forall|k: int| 0 <= k < j ==> h@[i + k] == n@[k],
        decreases n.len() - j,
    {
        assert(i + j < hl);
        if h[i + j] != n[j] {
            assert(h@.subrange(i as int, i + n@.len())[j as int] != n@[j as int]);
            return false;
        }
        j = j + 1;
    }
    assert(h@.subrange(i as int, i + n@.len()) =~= n@);
    true
}

fn is_word(c: char) -> (r: bool)
    ensures
        r == is_word_char(c),
{
    c == '_' || char_is_alphanumeric(c)
}

fn push_keywords(line: &Vec<char>, word: &str, color: Color, out: &mut Vec<(usize, usize, Color)>)
    requires
        word@.len() > 0,
    ensures
        final(out)@ == old(out)@ + keyword_spans(line@, word@, color, 0),
{
    let w = chars_of(word);
    let wlen = w.len();
    let mut i: usize = 0;
    while wlen <= line.len() && i <= line.len() - wlen
        invariant
            w@ == word@,
            wlen == w@.len(),
            wlen > 0,
            old(out)@ + keyword_spans(line@, word@, color, 0) == out@ + keyword_spans(
                line@,
                word@,
                color,
                i as int,
            ),
        decreases line.len() - i,
    {
        let ghost before = out@;
        if matches_at(line, &w, i) {
            let before_ok = i == 0 || !is_word(line[i - 1]);
            let after_ok = i + wlen >= line.len() || !is_word(line[i + wlen]);
            if before_ok && after_ok {
                out.push((i, i + wlen, color));
                proof {
                    assert(out@ + keyword_spans(line@, word@, color, i + wlen) =~= before
                        + keyword_spans(line@, word@, color, i as int));
                }
                i = i + wlen;
                continue;
            }
        }
        i = i + 1;
    }
}

fn push_delimited(
    line: &Vec<char>,
    open: &str,
    close: &str,
    color: Color,
    out: &mut Vec<(usize, usize, Color)>,
)
    requires
        open@.len() > 0 || close@.len() > 0,
    ensures
        final(out)@ == old(out)@ + delimited_spans(line@, open@, close@, color, 0),
{
    let o = chars_of(open);
    let c = chars_of(close);
    let mut i: usize = 0;
    while i < line.len()
        invariant
            o@ == open@,
            c@ == close@,
            open@.len() > 0 || close@.len() > 0,
            i <= line@.len(),
            old(out)@ + delimited_spans(line@, open@, close@, color, 0) == out@ + delimited_spans(
                line@,
                open@,
                close@,
                color,
                i as int,
            ),
        decreases line.len() - i,
    {
        let ghost before = out@;
        if matches_at(line, &o, i) {
            let inner = i + o.len();
            let found = find_at(line, &c, inner);
            proof {
                lemma_find_from(line@, close@, inner as int);
            }
            let end = match found {
                Some(r) => r + c.len(),
                None => line.len(),
            };
            proof {
                assert(end as int == delimited_end(line@, open@, close@, i as int));
                assert(end > i);
            }
            out.push((i, end, color));
            proof {
                assert(out@ + delimited_spans(line@, open@, close@, color, end as int) =~= before
                    + delimited_spans(line@, open@, close@, color, i as int));
            }
            i = end;
        } else {
            i = i + 1;
        }
    }
}

fn push_to_eol(line: &Vec<char>, marker: &str, color: Color, out: &mut Vec<(usize, usize, Color)>)
    ensures
        final(out)@ == old(out)@ + to_eol_spans(line@, marker@, color),
{
    let m = chars_of(marker);
    match find_at(line, &m, 0) {
        Some(k) => {
            if k < line.len() {
                out.push((k, line.len(), color));
            }
        },
        None => {},
    }
    assert(out@ =~= old(out)@ + to_eol_spans(line@, marker@, color));
}

fn push_line_prefix(
    line: &Vec<char>,
    prefix: &str,
    color: Color,
    out: &mut Vec<(usize, usize, Color)>,
)
    ensures
        final(out)@ == old(out)@ + line_prefix_spans(line@, prefix@, color),
{
    let p = chars_of(prefix);
    let mut lo: usize = 0;
    assert(line@.skip(0) =~= line@);
    while lo < line.len() && char_is_whitespace(line[lo])
        invariant
            lo <= line@.len(),
            trim_start(line@) == trim_start(line@.skip(lo as int)),
        decreases line.len() - lo,
    {
        assert(line@.skip(lo as int).skip(1) =~= line@.skip(lo + 1));
        lo = lo + 1;
    }
    assert(trim_start(line@) == line@.skip(lo as int));
    let hit = matches_at(line, &p, lo);
    proof {
        let t = line@.skip(lo as int);
        if p@.len() <= t.len() {
            assert(t.take(p@.len() as int) =~= line@.subrange(lo as int, lo + p@.len()));
        }
    }
    if hit {
        out.push((0, line.len(), color));
    }
    assert(out@ =~= old(out)@ + line_prefix_spans(line@, prefix@, color));
}

fn apply_rule(line: &Vec<char>, rule: &Rule, out: &mut Vec<(usize, usize, Color)>)
    requires
        rule_ok(*rule),
    ensures
        final(out)@ == old(out)@ + rule_spans(line@, *rule),
{
    match rule {
        Rule::LinePrefix { prefix, color } => push_line_prefix(line, prefix, *color, out),
        Rule::Keyword { word, color } => push_keywords(line, word, *color, out),
        Rule::Delimited { open, close, color } => push_delimited(line, open, close, *color, out),
        Rule::ToEol { marker, color } => push_to_eol(line, marker, *color, out),
    }
}

/// `slice::sort_unstable_by_key` on the start of each span: the spans end up
/// ordered by their start.  Spans with equal starts may end up in any order.
#[verifier::external_body]
fn sort_spans_by_start(v: &mut Vec<(usize, usize, Color)>)
    ensures
        sorted_by_start(old(v)@, final(v)@),
{
    v.sort_unstable_by_key(|&(s, _, _)| s)
}

proof fn lemma_keyword_spans_ok(line: Seq<char>, word: Seq<char>, color: Color, i: int)
    requires
        line.len() <= usize::MAX,
    ensures
        forall|k: int|
            0 <= k < keyword_spans(line, word, color, i).len() ==> span_ok(
                #[trigger] keyword_spans(line, word, color, i)[k],
                line.len(),
            ),
    decreases line.len() - i,
{
    if i < 0 || word.len() == 0 || i + word.len() > line.len() {
    } else if occurs_at(line, word, i) && boundary_before(line, i) && boundary_after(
        line,
        i + word.len(),
    ) {
        lemma_keyword_spans_ok(line, word, color, i + word.len());
        let a = seq![(i as usize, (i + word.len()) as usize, color)];
        let b = keyword_spans(line, word, color, i + word.len());
        assert(keyword_spans(line, word, color, i) == a + b);
        assert forall|k: int| 0 <= k < (a + b).len() implies span_ok(#[trigger] (a + b)[k], line.len()) by {
            if k >= 1 {
                assert((a + b)[k] == b[k - 1]);
            }
        }
    } else {
        lemma_keyword_spans_ok(line, word, color, i + 1);
        assert(keyword_spans(line, word, color, i) == keyword_spans(line, word, color, i + 1));
    }
}

proof fn lemma_delimited_spans_ok(
    line: Seq<char>,
    open: Seq<char>,
    close: Seq<char>,
    color: Color,
    i: int,
)
    requires
        line.len() <= usize::MAX,
    ensures
        forall|k: int|
            0 <= k < delimited_spans(line, open, close, color, i).len() ==> span_ok(
                #[trigger] delimited_spans(line, open, close, color, i)[k],
                line.len(),
            ),
    decreases line.len() - i,
{
    if i < 0 || i >= line.len() {
    } else if occurs_at(line, open, i) {
        let end = delimited_end(line, open, close, i);
        if end > i && end <= line.len() {
            lemma_delimited_spans_ok(line, open, close, color, end);
            let a = seq![(i as usize, end as usize, color)];
            let b = delimited_spans(line, open, close, color, end);
            assert(delimited_spans(line, open, close, color, i) == a + b);
            assert forall|k: int| 0 <= k < (a + b).len() implies span_ok(#[trigger] (a + b)[k], line.len()) by {
                if k >= 1 {
                    assert((a + b)[k] == b[k - 1]);
                }
            }
        }
    } else {
        lemma_delimited_spans_ok(line, open, close, color, i + 1);
        assert(delimited_spans(line, open, close, color, i) == delimited_spans(
            line,
            open,
            close,
            color,
            i + 1,
        ));
    }
}

proof fn lemma_all_spans_ok(line: Seq<char>, rules: Seq<Rule>)
    requires
        line.len() <= usize::MAX,
    ensures
        forall|k: int|
            0 <= k < all_spans(line, rules).len() ==> span_ok(
                #[trigger] all_spans(line, rules)[k],
                line.len(),
            ),
    decreases rules.len(),
{
    if rules.len() > 0 {
        lemma_all_spans_ok(line, rules.drop_last());
        let a = all_spans(line, rules.drop_last());
        let b = rule_spans(line, rules.last());
        match rules.last() {
            Rule::Keyword { word, color } => lemma_keyword_spans_ok(line, word@, color, 0),
            Rule::Delimited { open, close, color } => lemma_delimited_spans_ok(
                line,
                open@,
                close@,
                color,
                0,
            ),
            Rule::ToEol { marker, .. } => lemma_find_from(line, marker@, 0),
            Rule::LinePrefix { .. } => {},
        }
        assert forall|k: int| 0 <= k < (a + b).len() implies span_ok(#[trigger] (a + b)[k], line.len()) by {
            if k >= a.len() {
                assert((a + b)[k] == b[k - a.len()]);
            }
        }
    }
}

/// Apply `rules` to `line` and return sorted, non-overlapping color spans
/// as `(char_start, char_end, Color)`.  The spans of all rules are ordered by
/// their start, and a span is dropped when it starts before the end of the
/// last one kept.
pub fn highlight_line(line: &str, rules: &[Rule]) -> (r: Vec<(usize, usize, Color)>)
    requires
        forall|i: int| 0 <= i < rules@.len() ==> rule_ok(#[trigger] rules@[i]),
    ensures
        exists|t: Seq<(usize, usize, Color)>|
            sorted_by_start(all_spans(line@, rules@), t) && r@ == keep_from(t, 0, 0),
        forall|i: int| 0 <= i < r@.len() ==> #[trigger] r@[i].0 <= r@[i].1 <= line@.len(),
        forall|i: int| 0 <= i < r@.len() - 1 ==> #[trigger] r@[i].1 <= r@[i + 1].0,
{
    let chars = chars_of(line);
    let mut spans: Vec<(usize, usize, Color)> = Vec::new();
    let mut k: usize = 0;
    while k < rules.len()
        invariant
            k <= rules@.len(),
            chars@ == line@,
            forall|i: int| 0 <= i < rules@.len() ==> rule_ok(#[trigger] rules@[i]),
            spans@ == all_spans(line@, rules@.take(k as int)),
        decreases rules.len() - k,
    {
        apply_rule(&chars, &rules[k], &mut spans);
        assert(rules@.take(k + 1).drop_last() =~= rules@.take(k as int));
        k = k + 1;
    }
    assert(rules@.take(rules@.len() as int) =~= rules@);
    let ghost all = spans@;
    let n = chars.len();
    proof {
        assert(line@.len() == n);
        lemma_all_spans_ok(line@, rules@);
    }
    sort_spans_by_start(&mut spans);
    let ghost t = spans@;
    proof {
        t.to_multiset_ensures();
        all.to_multiset_ensures();
        assert forall|i: int| 0 <= i < t.len() implies span_ok(#[trigger] t[i], line@.len()) by {
            assert(t.to_multiset().count(t[i]) > 0);
            assert(all.contains(t[i]));
        }
    }
    let mut merged: Vec<(usize, usize, Color)> = Vec::new();
    let mut end_so_far: usize = 0;
    let mut i: usize = 0;
    while i < spans.len()
        invariant
            spans@ == t,
            i <= t.len(),
            forall|j: int| 0 <= j < t.len() ==> span_ok(#[trigger] t[j], line@.len()),
            keep_from(t, 0, 0) == merged@ + keep_from(t, i as int, end_so_far as nat),
            forall|j: int| 0 <= j < merged@.len() ==> #[trigger] merged@[j].0 <= merged@[j].1 <= line@.len(),
            forall|j: int| 0 <= j < merged@.len() - 1 ==> #[trigger] merged@[j].1 <= merged@[j + 1].0,
            merged@.len() > 0 ==> merged@.last().1 == end_so_far,
        decreases spans.len() - i,
    {
        let (s, e, c) = spans[i];
        if s >= end_so_far {
            let ghost before = merged@;
            merged.push((s, e, c));
            assert(merged@ + keep_from(t, i + 1, e as nat) =~= before + keep_from(
                t,
                i as int,
                end_so_far as nat,
            ));
            end_so_far = e;
        }
        i = i + 1;
    }
    assert(merged@ + Seq::<(usize, usize, Color)>::empty() =~= merged@);
    merged
}

// --- built-in language rulesets -----------------------------------------------
/// Rust: comments, strings, chars, keywords and literals.
pub open spec fn rust_rules() -> Seq<Rule> {
    seq![
        Rule::ToEol { marker: "//", color: Color::DarkGrey },
        Rule::Delimited { open: "\"", close: "\"", color: Color::Green },
        Rule::Delimited { open: "'", close: "'", color: Color::Green },
        Rule::Keyword { word: "fn", color: Color::Yellow },
        Rule::Keyword { word: "let", color: Color::Yellow },
        Rule::Keyword { word: "mut", color: Color::Yellow },
        Rule::Keyword { word: "pub", color: Color::Yellow },
        Rule::Keyword { word: "use", color: Color::Yellow },
        Rule::Keyword { word: "mod", color: Color::Yellow },
        Rule::Keyword { word: "struct", color: Color::Yellow },
        Rule::Keyword { word: "enum", color: Color::Yellow },
        Rule::Keyword { word: "impl", color: Color::Yellow },
        Rule::Keyword { word: "trait", color: Color::Yellow },
        Rule::Keyword { word: "match", color: Color::Yellow },
        Rule::Keyword { word: "if", color: Color::Yellow },
        Rule::Keyword { word: "else", color: Color::Yellow },
        Rule::Keyword { word: "for", color: Color::Yellow },
        Rule::Keyword { word: "while", color: Color::Yellow },
        Rule::Keyword { word: "return", color: Color::Yellow },
        Rule::Keyword { word: "true", color: Color::Cyan },
        Rule::Keyword { word: "false", color: Color::Cyan },
        Rule::Keyword { word: "self", color: Color::Cyan },
        Rule::Keyword { word: "Self", color: Color::Cyan },
    ]
}

/// TOML: comments, strings, section headers and booleans.
pub open spec fn toml_rules() -> Seq<Rule> {
    seq![
        Rule::ToEol { marker: "#", color: Color::DarkGrey },
        Rule::Delimited { open: "\"", close: "\"", color: Color::Green },
        Rule::LinePrefix { prefix: "[", color: Color::Yellow },
        Rule::Keyword { word: "true", color: Color::Cyan },
        Rule::Keyword { word: "false", color: Color::Cyan },
    ]
}

/// JSON: strings and literals.
pub open spec fn json_rules() -> Seq<Rule> {
    seq![
        Rule::Delimited { open: "\"", close: "\"", color: Color::Green },
        Rule::Keyword { word: "true", color: Color::Cyan },
        Rule::Keyword { word: "false", color: Color::Cyan },
        Rule::Keyword { word: "null", color: Color::Cyan },
    ]
}

/// Markdown: headings, fences, quotes, list items, bold and code.
pub open spec fn markdown_rules() -> Seq<Rule> {
    seq![
        Rule::LinePrefix { prefix: "#", color: Color::Yellow },
        Rule::LinePrefix { prefix: "```", color: Color::DarkGrey },
        Rule::LinePrefix { prefix: ">", color: Color::DarkGrey },
        Rule::LinePrefix { prefix: "-", color: Color::Cyan },
        Rule::LinePrefix { prefix: "*", color: Color::Cyan },
        Rule::Delimited { open: "**", close: "**", color: Color::White },
        Rule::Delimited { open: "`", close: "`", color: Color::Green },
    ]
}

/// Shell: comments, strings and keywords.
pub open spec fn sh_rules() -> Seq<Rule> {
    seq![
        Rule::ToEol { marker: "#", color: Color::DarkGrey },
        Rule::Delimited { open: "\"", close: "\"", color: Color::Green },
        Rule::Delimited { open: "'", close: "'", color: Color::Green },
        Rule::Keyword { word: "if", color: Color::Yellow },
        Rule::Keyword { word: "then", color: Color::Yellow },
        Rule::Keyword { word: "else", color: Color::Yellow },
        Rule::Keyword { word: "fi", color: Color::Yellow },
        Rule::Keyword { word: "for", color: Color::Yellow },
        Rule::Keyword { word: "do", color: Color::Yellow },
        Rule::Keyword { word: "done", color: Color::Yellow },
        Rule::Keyword { word: "while", color: Color::Yellow },
        Rule::Keyword { word: "function", color: Color::Yellow },
        Rule::Keyword { word: "export", color: Color::Yellow },
        Rule::Keyword { word: "local", color: Color::Yellow },
    ]
}

/// Python: comments, docstrings, strings, keywords and literals.
pub open spec fn py_rules() -> Seq<Rule> {
    seq![
        Rule::ToEol { marker: "#", color: Color::DarkGrey },
        Rule::Delimited { open: "\"\"\"", close: "\"\"\"", color: Color::DarkGrey },
        Rule::Delimited { open: "\"", close: "\"", color: Color::Green },
        Rule::Delimited { open: "'", close: "'", color: Color::Green },
        Rule::Keyword { word: "def", color: Color::Yellow },
        Rule::Keyword { word: "class", color: Color::Yellow },
        Rule::Keyword { word: "import", color: Color::Yellow },
        Rule::Keyword { word: "from", color: Color::Yellow },
        Rule::Keyword { word: "return", color: Color::Yellow },
        Rule::Keyword { word: "if", color: Color::Yellow },
        Rule::Keyword { word: "elif", color: Color::Yellow },
        Rule::Keyword { word: "else", color: Color::Yellow },
        Rule::Keyword { word: "for", color: Color::Yellow },
        Rule::Keyword { word: "while", color: Color::Yellow },
        Rule::Keyword { word: "with", color: Color::Yellow },
        Rule::Keyword { word: "as", color: Color::Yellow },
        Rule::Keyword { word: "True", color: Color::Cyan },
        Rule::Keyword { word: "False", color: Color::Cyan },
        Rule::Keyword { word: "None", color: Color::Cyan },
    ]
}

/// The rules for files with extension `ext` (none for an unknown one).
pub open spec fn rules_spec(ext: Seq<char>) -> Seq<Rule> {
    if ext == "rs"@ {
        rust_rules()
    } else if ext == "toml"@ {
        toml_rules()
    } else if ext == "json"@ {
        json_rules()
    } else if ext == "md"@ || ext == "markdown"@ {
        markdown_rules()
    } else if ext == "sh"@ || ext == "bash"@ || ext == "zsh"@ || ext == "fish"@ {
        sh_rules()
    } else if ext == "py"@ {
        py_rules()
    } else {
        Seq::empty()
    }
}

fn push_all(v: &mut Vec<Rule>, rs: &[Rule])
    ensures
        final(v)@ == old(v)@ + rs@,
{
    let mut i: usize = 0;
    while i < rs.len()
        invariant
            i <= rs@.len(),
            v@ == old(v)@ + rs@.take(i as int),
        decreases rs.len() - i,
    {
        v.push(rs[i]);
        i = i + 1;
        assert(v@ =~= old(v)@ + rs@.take(i as int));
    }
    assert(rs@.take(rs@.len() as int) =~= rs@);
}

/// The built-in rules for files with extension `ext`; none for an unknown one.
pub fn rules_for_extension(ext: &str) -> (r: Vec<Rule>)
    ensures
        r@ == rules_spec(ext@),
        forall|i: int| 0 <= i < r@.len() ==> rule_ok(#[trigger] r@[i]),
{
    let mut v: Vec<Rule> = Vec::new();
    if str_is(ext, "rs") {
        let rs = [
            Rule::ToEol { marker: "//", color: Color::DarkGrey },
            Rule::Delimited { open: "\"", close: "\"", color: Color::Green },
            Rule::Delimited { open: "'", close: "'", color: Color::Green },
            Rule::Keyword { word: "fn", color: Color::Yellow },
            Rule::Keyword { word: "let", color: Color::Yellow },
            Rule::Keyword { word: "mut", color: Color::Yellow },
            Rule::Keyword { word: "pub", color: Color::Yellow },
            Rule::Keyword { word: "use", color: Color::Yellow },
            Rule::Keyword { word: "mod", color: Color::Yellow },
            Rule::Keyword { word: "struct", color: Color::Yellow },
            Rule::Keyword { word: "enum", color: Color::Yellow },
            Rule::Keyword { word: "impl", color: Color::Yellow },
            Rule::Keyword { word: "trait", color: Color::Yellow },
            Rule::Keyword { word: "match", color: Color::Yellow },
            Rule::Keyword { word: "if", color: Color::Yellow },
            Rule::Keyword { word: "else", color: Color::Yellow },
            Rule::Keyword { word: "for", color: Color::Yellow },
            Rule::Keyword { word: "while", color: Color::Yellow },
            Rule::Keyword { word: "return", color: Color::Yellow },
            Rule::Keyword { word: "true", color: Color::Cyan },
            Rule::Keyword { word: "false", color: Color::Cyan },
            Rule::Keyword { word: "self", color: Color::Cyan },
            Rule::Keyword { word: "Self", color: Color::Cyan },
        ];
        push_all(&mut v, &rs);
        assert(v@ =~= rust_rules());
        proof {
            reveal_strlit("'");
            reveal_strlit("Self");
            reveal_strlit("\"");
            reveal_strlit("else");
            reveal_strlit("enum");
            reveal_strlit("false");
            reveal_strlit("fn");
            reveal_strlit("for");
            reveal_strlit("if");
            reveal_strlit("impl");
            reveal_strlit("let");
            reveal_strlit("match");
            reveal_strlit("mod");
            reveal_strlit("mut");
            reveal_strlit("pub");
            reveal_strlit("return");
            reveal_strlit("self");
            reveal_strlit("struct");
            reveal_strlit("trait");
            reveal_strlit("true");
            reveal_strlit("use");
            reveal_strlit("while");
        }
    } else if str_is(ext, "toml") {
        let rs = [
            Rule::ToEol { marker: "#", color: Color::DarkGrey },
            Rule::Delimited { open: "\"", close: "\"", color: Color::Green },
            Rule::LinePrefix { prefix: "[", color: Color::Yellow },
            Rule::Keyword { word: "true", color: Color::Cyan },
            Rule::Keyword { word: "false", color: Color::Cyan },
        ];
        push_all(&mut v, &rs);
        assert(v@ =~= toml_rules());
        proof {
            reveal_strlit("\"");
            reveal_strlit("false");
            reveal_strlit("true");
        }
    } else if str_is(ext, "json") {
        let rs = [
            Rule::Delimited { open: "\"", close: "\"", color: Color::Green },
            Rule::Keyword { word: "true", color: Color::Cyan },
            Rule::Keyword { word: "false", color: Color::Cyan },
            Rule::Keyword { word: "null", color: Color::Cyan },
        ];
        push_all(&mut v, &rs);
        assert(v@ =~= json_rules());
        proof {
            reveal_strlit("\"");
            reveal_strlit("false");
            reveal_strlit("null");
            reveal_strlit("true");
        }
    } else if str_is(ext, "md") || str_is(ext, "markdown") {
        let rs = [
            Rule::LinePrefix { prefix: "#", color: Color::Yellow },
            Rule::LinePrefix { prefix: "```", color: Color::DarkGrey },
            Rule::LinePrefix { prefix: ">", color: Color::DarkGrey },
            Rule::LinePrefix { prefix: "-", color: Color::Cyan },
            Rule::LinePrefix { prefix: "*", color: Color::Cyan },
            Rule::Delimited { open: "**", close: "**", color: Color::White },
            Rule::Delimited { open: "`", close: "`", color: Color::Green },
        ];
        push_all(&mut v, &rs);
        assert(v@ =~= markdown_rules());
        proof {
            reveal_strlit("**");
            reveal_strlit("`");
        }
    } else if str_is(ext, "sh") || str_is(ext, "bash") || str_is(ext, "zsh") || str_is(ext, "fish") {
        let rs = [
            Rule::ToEol { marker: "#", color: Color::DarkGrey },
            Rule::Delimited { open: "\"", close: "\"", color: Color::Green },
            Rule::Delimited { open: "'", close: "'", color: Color::Green },
            Rule::Keyword { word: "if", color: Color::Yellow },
            Rule::Keyword { word: "then", color: Color::Yellow },
            Rule::Keyword { word: "else", color: Color::Yellow },
            Rule::Keyword { word: "fi", color: Color::Yellow },
            Rule::Keyword { word: "for", color: Color::Yellow },
            Rule::Keyword { word: "do", color: Color::Yellow },
            Rule::Keyword { word: "done", color: Color::Yellow },
            Rule::Keyword { word: "while", color: Color::Yellow },
            Rule::Keyword { word: "function", color: Color::Yellow },
            Rule::Keyword { word: "export", color: Color::Yellow },
            Rule::Keyword { word: "local", color: Color::Yellow },
        ];
        push_all(&mut v, &rs);
        assert(v@ =~= sh_rules());
        proof {
            reveal_strlit("'");
            reveal_strlit("\"");
            reveal_strlit("do");
            reveal_strlit("done");
            reveal_strlit("else");
            reveal_strlit("export");
            reveal_strlit("fi");
            reveal_strlit("for");
            reveal_strlit("function");
            reveal_strlit("if");
            reveal_strlit("local");
            reveal_strlit("then");
            reveal_strlit("while");
        }
    } else if str_is(ext, "py") {
        let rs = [
            Rule::ToEol { marker: "#", color: Color::DarkGrey },
            Rule::Delimited { open: "\"\"\"", close: "\"\"\"", color: Color::DarkGrey },
            Rule::Delimited { open: "\"", close: "\"", color: Color::Green },
            Rule::Delimited { open: "'", close: "'", color: Color::Green },
            Rule::Keyword { word: "def", color: Color::Yellow },
            Rule::Keyword { word: "class", color: Color::Yellow },
            Rule::Keyword { word: "import", color: Color::Yellow },
            Rule::Keyword { word: "from", color: Color::Yellow },
            Rule::Keyword { word: "return", color: Color::Yellow },
            Rule::Keyword { word: "if", color: Color::Yellow },
            Rule::Keyword { word: "elif", color: Color::Yellow },
            Rule::Keyword { word: "else", color: Color::Yellow },
            Rule::Keyword { word: "for", color: Color::Yellow },
            Rule::Keyword { word: "while", color: Color::Yellow },
            Rule::Keyword { word: "with", color: Color::Yellow },
            Rule::Keyword { word: "as", color: Color::Yellow },
            Rule::Keyword { word: "True", color: Color::Cyan },
            Rule::Keyword { word: "False", color: Color::Cyan },
            Rule::Keyword { word: "None", color: Color::Cyan },
        ];
        push_all(&mut v, &rs);
        assert(v@ =~= py_rules());
        proof {
            reveal_strlit("'");
            reveal_strlit("False");
            reveal_strlit("None");
            reveal_strlit("True");
            reveal_strlit("\"");
            reveal_strlit("\"\"\"");
            reveal_strlit("as");
            reveal_strlit("class");
            reveal_strlit("def");
            reveal_strlit("elif");
            reveal_strlit("else");
            reveal_strlit("for");
            reveal_strlit("from");
            reveal_strlit("if");
            reveal_strlit("import");
            reveal_strlit("return");
            reveal_strlit("while");
            reveal_strlit("with");
        }
    }
    v
}

} // verus!
