//! Splitting a drawn text row into runs of one colour: syntax colours, with
//! search highlights over them.
use crate::display::{display_col, display_col_spec};
use crate::editor::{text_width_spec, Editor};
use crate::lines::{line_len, line_with_break, num_lines};
use crate::style::Color;
use crate::text::{chars_of, sub_string};
use crate::view::{min_nat, sat_sub, window_spec};
use vstd::prelude::*;

verus! {

/// A run of drawn chars in one colour.
pub struct Segment {
    pub text: String,
    pub fg: Option<Color>,
    pub bg: Option<Color>,
}

/// The screen columns `[start, end)` a syntax span covers among the `n`
/// drawn columns: its display columns shifted by the first column shown.
pub open spec fn span_cols(
    line: Seq<char>,
    sp: (usize, usize, Color),
    tab_width: nat,
    left: nat,
    n: nat,
) -> (nat, nat) {
    let ds = display_col_spec(line, sp.0 as int, tab_width);
    let de = display_col_spec(line, sp.1 as int, tab_width);
    let se = min_nat(sat_sub(de, left), n);
    (min_nat(min_nat(sat_sub(ds, left), n), se), se)
}

/// The syntax colour of drawn column `k`: that of the last span covering it.
pub open spec fn syn_color(
    line: Seq<char>,
    spans: Seq<(usize, usize, Color)>,
    tab_width: nat,
    left: nat,
    n: nat,
    k: int,
) -> Option<Color>
    decreases spans.len(),
{
    if spans.len() == 0 {
        None
    } else {
        let c = span_cols(line, spans.last(), tab_width, left, n);
        if c.0 <= k < c.1 {
            Some(spans.last().2)
        } else {
            syn_color(line, spans.drop_last(), tab_width, left, n, k)
        }
    }
}

/// Drawn column `k` lies in one of the search ranges (cut to `n` columns).
pub open spec fn in_ranges(ranges: Seq<(usize, usize)>, n: nat, k: int) -> bool
    decreases ranges.len(),
{
    ranges.len() > 0 && ((ranges.last().0 <= k && k < min_nat(ranges.last().1 as nat, n))
        || in_ranges(ranges.drop_last(), n, k))
}

/// The foreground colour of each drawn column: the search highlight's over
/// the syntax colour.
pub open spec fn fg_seq(
    e: Editor,
    line: Seq<char>,
    spans: Seq<(usize, usize, Color)>,
    ranges: Seq<(usize, usize)>,
    n: nat,
) -> Seq<Option<Color>> {
    Seq::new(
        n,
        |k: int|
            if in_ranges(ranges, n, k) {
                Some(e.theme.search_hl_fg)
            } else {
                syn_color(line, spans, e.cfg.tab_width as nat, e.left as nat, n, k)
            },
    )
}

/// The background colour of each drawn column: the search highlight's, or none.
pub open spec fn bg_seq(e: Editor, ranges: Seq<(usize, usize)>, n: nat) -> Seq<Option<Color>> {
    Seq::new(
        n,
        |k: int|
            if in_ranges(ranges, n, k) {
                Some(e.theme.search_hl_bg)
            } else {
                None
            },
    )
}

/// `segs` split the first `end` chars of `text` into the runs of equal
/// colours: each segment is non-empty, holds chars of one colour pair, and
/// starts where the colour pair changes.
pub open spec fn runs_upto(
    segs: Seq<Segment>,
    text: Seq<char>,
    fgs: Seq<Option<Color>>,
    bgs: Seq<Option<Color>>,
    end: int,
) -> bool
    decreases segs.len(),
{
    if segs.len() == 0 {
        end == 0
    } else {
        let s = segs.last();
        let l = s.text@.len() as int;
        &&& 0 < l <= end
        &&& text.subrange(end - l, end) == s.text@
        &&& forall|k: int| end - l <= k < end ==> fgs[k] == s.fg && bgs[k] == s.bg
        &&& end - l > 0 ==> (fgs[end - l - 1], bgs[end - l - 1]) != (s.fg, s.bg)
        &&& runs_upto(segs.drop_last(), text, fgs, bgs, end - l)
    }
}

fn same_color(a: Option<Color>, b: Option<Color>) -> (r: bool)
    ensures
        r == (a == b),
{
    match (a, b) {
        (None, None) => true,
        (Some(x), Some(y)) => x == y,
        _ => false,
    }
}

impl Editor {
    /// Text row `row` drawn and split into runs of one colour, given the
    /// row's search ranges (screen columns) and syntax spans (char indices).
    /// Drawn chars are counted as columns.
    pub fn line_segments(
        &self,
        row: usize,
        search_ranges: &[(usize, usize)],
        syntax_spans: &[(usize, usize, Color)],
    ) -> (r: Vec<Segment>)
        requires
            self.wf(),
            row < num_lines(self.buf.text()),
        ensures
            ({
                let t = self.buf.text();
                let rendered = window_spec(
                    line_with_break(t, row as nat),
                    line_len(t, row as nat) as nat,
                    self.cfg.tab_width as nat,
                    self.left as nat,
                    text_width_spec(*self),
                );
                let n = rendered.len();
                runs_upto(
                    r@,
                    rendered,
                    fg_seq(*self, line_with_break(t, row as nat), syntax_spans@, search_ranges@, n),
                    bg_seq(*self, search_ranges@, n),
                    n as int,
                )
            }),
    {
        let rendered = chars_of(self.render_line(row).as_str());
        let n = rendered.len();
        let line = self.buf.line(row);
        let tab = self.cfg.tab_width;
        let left = self.left;
        let mut fg: Vec<Option<Color>> = Vec::new();
        let mut bg: Vec<Option<Color>> = Vec::new();
        let mut k: usize = 0;
        while k < n
            invariant
                k <= n,
                fg@.len() == k,
                bg@.len() == k,
                forall|j: int| 0 <= j < k ==> fg@[j] is None && bg@[j] is None,
            decreases n - k,
        {
            fg.push(None);
            bg.push(None);
            k = k + 1;
        }
        let mut p: usize = 0;
        while p < syntax_spans.len()
            invariant
                p <= syntax_spans@.len(),
                tab >= 1,
                fg@.len() == n,
                bg@.len() == n,
                forall|j: int| 0 <= j < n ==> bg@[j] is None,
                forall|j: int|
                    0 <= j < n ==> fg@[j] == syn_color(
                        line@,
                        syntax_spans@.take(p as int),
                        tab as nat,
                        left as nat,
                        n as nat,
                        j,
                    ),
            decreases syntax_spans.len() - p,
        {
            let (cs, ce, color) = syntax_spans[p];
            let ds = display_col(line.as_slice(), cs, tab);
            let de = display_col(line.as_slice(), ce, tab);
            let a = if ds >= left {
                ds - left
            } else {
                0
            };
            let b = if de >= left {
                de - left
            } else {
                0
            };
            let se = if b <= n {
                b
            } else {
                n
            };
            let ss0 = if a <= n {
                a
            } else {
                n
            };
            let ss = if ss0 <= se {
                ss0
            } else {
                se
            };
            proof {
                assert(syntax_spans@.take(p + 1).drop_last() =~= syntax_spans@.take(p as int));
                assert(syntax_spans@.take(p + 1).last() == syntax_spans@[p as int]);
            }
            let ghost prev = fg@;
            let mut q = ss;
            while q < se
                invariant
                    ss <= q <= se <= n,
                    fg@.len() == n,
                    forall|j: int|
                        0 <= j < n ==> fg@[j] == if ss <= j < q {
                            Some(color)
                        } else {
                            prev[j]
                        },
                decreases se - q,
            {
                fg.set(q, Some(color));
                q = q + 1;
            }
            p = p + 1;
        }
        assert(syntax_spans@.take(syntax_spans@.len() as int) =~= syntax_spans@);
        let hl_fg = self.theme.search_hl_fg;
        let hl_bg = self.theme.search_hl_bg;
        let mut p: usize = 0;
        while p < search_ranges.len()
            invariant
                p <= search_ranges@.len(),
                fg@.len() == n,
                bg@.len() == n,
                forall|j: int|
                    0 <= j < n ==> bg@[j] == if in_ranges(search_ranges@.take(p as int), n as nat, j) {
                        Some(hl_bg)
                    } else {
                        None
                    },
                forall|j: int|
                    0 <= j < n ==> fg@[j] == if in_ranges(search_ranges@.take(p as int), n as nat, j) {
                        Some(hl_fg)
                    } else {
                        syn_color(line@, syntax_spans@, tab as nat, left as nat, n as nat, j)
                    },
            decreases search_ranges.len() - p,
        {
            let (ss, se) = search_ranges[p];
            let end = if se <= n {
                se
            } else {
                n
            };
            let start = if ss <= end {
                ss
            } else {
                end
            };
            proof {
                assert(search_ranges@.take(p + 1).drop_last() =~= search_ranges@.take(p as int));
                assert(search_ranges@.take(p + 1).last() == search_ranges@[p as int]);
            }
            let ghost pf = fg@;
            let ghost pb = bg@;
            let mut q = start;
            while q < end
                invariant
                    start <= q <= end <= n,
                    fg@.len() == n,
                    bg@.len() == n,
                    forall|j: int|
                        0 <= j < n ==> fg@[j] == if start <= j < q {
                            Some(hl_fg)
                        } else {
                            pf[j]
                        },
                    forall|j: int|
                        0 <= j < n ==> bg@[j] == if start <= j < q {
                            Some(hl_bg)
                        } else {
                            pb[j]
                        },
                decreases end - q,
            {
                fg.set(q, Some(hl_fg));
                bg.set(q, Some(hl_bg));
                q = q + 1;
            }
            p = p + 1;
        }
        assert(search_ranges@.take(search_ranges@.len() as int) =~= search_ranges@);
        let ghost fgs = fg_seq(*self, line@, syntax_spans@, search_ranges@, n as nat);
        let ghost bgs = bg_seq(*self, search_ranges@, n as nat);
        assert(fg@ =~= fgs);
        assert(bg@ =~= bgs);
        let mut segs: Vec<Segment> = Vec::new();
        let mut i: usize = 0;
        while i < n
            invariant
                i <= n,
                fg@ == fgs,
                bg@ == bgs,
                fgs.len() == n,
                bgs.len() == n,
                rendered@.len() == n,
                runs_upto(segs@, rendered@, fgs, bgs, i as int),
                i > 0 && i < n ==> (fgs[i - 1], bgs[i - 1]) != (fgs[i as int], bgs[i as int])
                    || segs@.len() == 0,
                segs@.len() > 0 ==> i > 0 && segs@.last().fg == fgs[i - 1] && segs@.last().bg
                    == bgs[i - 1],
            decreases n - i,
        {
            let cf = fg[i];
            let cb = bg[i];
            let mut j = i + 1;
            while j < n && same_color(fg[j], cf) && same_color(bg[j], cb)
                invariant
                    i < j <= n,
                    fg@.len() == n,
                    bg@.len() == n,
                    cf == fg@[i as int],
                    cb == bg@[i as int],
                    forall|x: int| i <= x < j ==> fg@[x] == cf && bg@[x] == cb,
                decreases n - j,
            {
                j = j + 1;
            }
            let text = sub_string(&rendered, i, j);
            let ghost before = segs@;
            segs.push(Segment { text, fg: cf, bg: cb });
            proof {
                assert(segs@.drop_last() =~= before);
                assert(segs@.last().text@.len() == j - i);
            }
            i = j;
        }
        segs
    }
}

} // verus!
