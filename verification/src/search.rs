//! Search helpers: where a query occurs in a buffer, which match comes first
//! after the cursor, and merging highlighted column ranges.
use crate::buffer::Buffer;
use crate::display::sat_add;
use crate::lines::{col_of, lemma_index_in_row, row_of, valid_pos};
use crate::text::chars_of;
use vstd::prelude::*;

verus! {

/// The lowercase form of `s` per the Unicode `Lowercase` property (`str::to_lowercase`).
pub uninterp spec fn lowercase(s: Seq<char>) -> Seq<char>;

/// `str::to_lowercase`.
#[verifier::external_body]
fn str_to_lowercase(s: &str) -> (r: String)
    ensures
        r@ == lowercase(s@),
{
    s.to_lowercase()
}

/// `n` occurs in `h` starting at `m`.
pub open spec fn occurs_at(h: Seq<char>, n: Seq<char>, m: int) -> bool {
    0 <= m && m + n.len() <= h.len() && h.subrange(m, m + n.len()) == n
}

/// The first index at or after `p` where `n` occurs in `h` (`str::find`).
pub open spec fn find_from(h: Seq<char>, n: Seq<char>, p: int) -> Option<int>
    decreases h.len() - p,
{
    if p < 0 || p + n.len() > h.len() {
        None
    } else if n.len() == 0 || occurs_at(h, n, p) {
        Some(p)
    } else {
        find_from(h, n, p + 1)
    }
}

pub proof fn lemma_find_from(h: Seq<char>, n: Seq<char>, p: int)
    requires
        p >= 0,
    ensures
        find_from(h, n, p) matches Some(m) ==> p <= m && occurs_at(h, n, m) && forall|k: int|
            p <= k < m ==> !occurs_at(h, n, k),
        find_from(h, n, p) is None ==> forall|k: int| p <= k ==> !occurs_at(h, n, k),
    decreases h.len() - p,
{
    if !(p < 0 || p + n.len() > h.len()) && !(n.len() == 0 || occurs_at(h, n, p)) {
        lemma_find_from(h, n, p + 1);
    }
    if n.len() == 0 && 0 <= p <= h.len() {
        assert(h.subrange(p, p) =~= n);
    }
}

/// The start of every match of `n` in `h` found by scanning from `p`: after
/// a match the scan resumes past it (at least one char further).
pub open spec fn match_positions(h: Seq<char>, n: Seq<char>, p: int) -> Seq<int>
    decreases h.len() - p,
{
    if p < 0 || p >= h.len() {
        Seq::empty()
    } else {
        match find_from(h, n, p) {
            None => Seq::empty(),
            Some(m) => {
                proof {
                    lemma_find_from(h, n, p);
                }
                seq![m] + match_positions(h, n, m + if n.len() > 0 {
                    n.len() as int
                } else {
                    1
                })
            },
        }
    }
}

/// The `(row, start_col, end_col)` of each match position while the
/// positions lie within `text`; the end column is the start plus `qlen`.
pub open spec fn match_triples(text: Seq<char>, ms: Seq<int>, qlen: nat) -> Seq<(usize, usize, usize)>
    decreases ms.len(),
{
    if ms.len() == 0 || ms[0] > text.len() {
        Seq::empty()
    } else {
        let col = col_of(text, ms[0]);
        seq![(row_of(text, ms[0]) as usize, col as usize, sat_add(col as nat, qlen) as usize)]
            + match_triples(text, ms.skip(1), qlen)
    }
}

/// Every match of `query` in `text`, as `(row, start_col, end_col)`.  With
/// `case_insensitive`, both are lowercased first and match positions in the
/// lowercased text are read as positions in `text`.
pub open spec fn search_spec(text: Seq<char>, query: Seq<char>, case_insensitive: bool) -> Seq<
    (usize, usize, usize),
> {
    if query.len() == 0 {
        Seq::empty()
    } else {
        let h = if case_insensitive {
            lowercase(text)
        } else {
            text
        };
        let n = if case_insensitive {
            lowercase(query)
        } else {
            query
        };
        match_triples(text, match_positions(h, n, 0), query.len())
    }
}

/// Every triple names a place in `text`.
pub open spec fn matches_valid(text: Seq<char>, ms: Seq<(usize, usize, usize)>) -> bool {
    forall|i: int| 0 <= i < ms.len() ==> valid_pos(text, #[trigger] ms[i].0 as int, ms[i].1 as int)
}

/// Finds `needle` in `hay` from `p`.
pub(crate) fn find_at(hay: &Vec<char>, needle: &Vec<char>, p: usize) -> (r: Option<usize>)
    requires
        p <= hay@.len(),
    ensures
        match r {
            Some(m) => find_from(hay@, needle@, p as int) == Some(m as int),
            None => find_from(hay@, needle@, p as int) is None,
        },
{
    if needle.len() > hay.len() {
        proof {
            lemma_find_none_short(hay@, needle@, p as int);
        }
        return None;
    }
    let last = hay.len() - needle.len();
    if p > last {
        proof {
            lemma_find_none_short(hay@, needle@, p as int);
        }
        return None;
    }
    let mut m = p;
    loop
        invariant
            p <= m <= last,
            needle@.len() <= hay@.len(),
            last == hay@.len() - needle@.len(),
            find_from(hay@, needle@, p as int) == find_from(hay@, needle@, m as int),
        decreases last - m,
    {
        let mut j: usize = 0;
        let mut ok = true;
        while j < needle.len()
            invariant
                m <= last,
                needle@.len() <= hay@.len(),
                last == hay@.len() - needle@.len(),
                j <= needle@.len(),
                ok ==> forall|k: int| 0 <= k < j ==> hay@[m + k] == needle@[k],
                !ok ==> !occurs_at(hay@, needle@, m as int),
                !ok ==> needle@.len() > 0,
            decreases needle.len() - j,
        {
            let hl = hay.len();
            assert(m + j < hl);
            if hay[m + j] != needle[j] {
                ok = false;
                assert(hay@.subrange(m as int, m + needle@.len())[j as int] != needle@[j as int]);
            }
            j = j + 1;
        }
        if ok {
            assert(hay@.subrange(m as int, m + needle@.len()) =~= needle@);
            return Some(m);
        }
        if m == last {
            proof {
                lemma_find_none_short(hay@, needle@, m + 1);
            }
            return None;
        }
        m = m + 1;
    }
}

proof fn lemma_find_none_short(h: Seq<char>, n: Seq<char>, p: int)
    requires
        p + n.len() > h.len(),
    ensures
        find_from(h, n, p) is None,
{
}

/// Every match of `query` in the buffer's text, as `(row, start_col, end_col)`.
pub fn search_matches(buf: &Buffer, query: &str, case_insensitive: bool) -> (r: Vec<
    (usize, usize, usize),
>)
    ensures
        r@ == search_spec(buf.text(), query@, case_insensitive),
        matches_valid(buf.text(), r@),
{
    let qchars = chars_of(query);
    if qchars.len() == 0 {
        return Vec::new();
    }
    let text = buf.to_text();
    let text_len = buf.len_chars();
    let (hay, needle) = if case_insensitive {
        (chars_of(str_to_lowercase(text.as_str()).as_str()), chars_of(str_to_lowercase(query).as_str()))
    } else {
        (chars_of(text.as_str()), qchars.clone())
    };
    let qlen = qchars.len();
    let mut results: Vec<(usize, usize, usize)> = Vec::new();
    let mut p: usize = 0;
    let ghost all = match_positions(hay@, needle@, 0);
    while p < hay.len()
        invariant
            text_len == buf.text().len(),
            qlen == query@.len(),
            qlen > 0,
            search_spec(buf.text(), query@, case_insensitive) == results@ + match_triples(
                buf.text(),
                match_positions(hay@, needle@, p as int),
                qlen as nat,
            ),
            matches_valid(buf.text(), results@),
        decreases hay.len() - p,
    {
        let ghost before = results@;
        let m = match find_at(&hay, &needle, p) {
            Some(m) => m,
            None => {
                proof {
                    assert(match_positions(hay@, needle@, p as int) =~= Seq::<int>::empty());
                    assert(results@ + Seq::<(usize, usize, usize)>::empty() =~= results@);
                }
                return results;
            },
        };
        proof {
            lemma_find_from(hay@, needle@, p as int);
        }
        if m > text_len {
            proof {
                let ms = match_positions(hay@, needle@, p as int);
                assert(ms[0] == m);
                assert(match_triples(buf.text(), ms, qlen as nat) =~= Seq::<(usize, usize, usize)>::empty());
                assert(results@ + Seq::<(usize, usize, usize)>::empty() =~= results@);
            }
            return results;
        }
        let row = buf.char_to_line(m);
        proof {
            lemma_index_in_row(buf.text(), m as int);
        }
        let start = buf.char_idx(row, 0);
        let col = m - start;
        let end = if col > usize::MAX - qlen {
            usize::MAX
        } else {
            col + qlen
        };
        results.push((row, col, end));
        let step = if needle.len() > 0 {
            needle.len()
        } else {
            1
        };
        proof {
            assert(results@ =~= before + seq![(row, col, end)]);
            let ms = match_positions(hay@, needle@, p as int);
            assert(ms[0] == m);
            assert(ms.skip(1) =~= match_positions(hay@, needle@, m + step));
        }
        if m > hay.len() - step {
            proof {
                assert(match_positions(hay@, needle@, m + step) =~= Seq::<int>::empty());
            }
            p = hay.len();
        } else {
            p = m + step;
        }
    }
    proof {
        assert(match_positions(hay@, needle@, p as int) =~= Seq::<int>::empty());
        assert(results@ + Seq::<(usize, usize, usize)>::empty() =~= results@);
    }
    results
}

/// `i` is the index of the first match at or after `(row, col)`, or 0
/// when no match is.
pub open spec fn first_match_ok(matches: Seq<(usize, usize, usize)>, row: usize, col: usize, i: int) -> bool {
    &&& 0 <= i < matches.len()
    &&& if exists|k: int| 0 <= k < matches.len() && #[trigger] at_or_after(matches[k], row, col) {
        at_or_after(matches[i], row, col) && forall|j: int|
            0 <= j < i ==> !at_or_after(#[trigger] matches[j], row, col)
    } else {
        i == 0
    }
}

/// The match starts at or after `(row, col)`.
pub open spec fn at_or_after(m: (usize, usize, usize), row: usize, col: usize) -> bool {
    m.0 > row || (m.0 == row && m.1 >= col)
}

pub fn first_match_at_or_after(matches: &[(usize, usize, usize)], row: usize, col: usize) -> (r:
    Option<usize>)
    ensures
        r is None <==> matches@.len() == 0,
        r matches Some(i) ==> first_match_ok(matches@, row, col, i as int),
{
    if matches.len() == 0 {
        return None;
    }
    let mut i: usize = 0;
    while i < matches.len()
        invariant
            i <= matches@.len(),
            forall|j: int| 0 <= j < i ==> !at_or_after(#[trigger] matches@[j], row, col),
        decreases matches.len() - i,
    {
        let (mr, mc, _) = matches[i];
        if mr > row || (mr == row && mc >= col) {
            assert(at_or_after(matches@[i as int], row, col));
            return Some(i);
        }
        i = i + 1;
    }
    Some(0)
}

/// Lexicographic order on pairs.
pub open spec fn pair_le(a: (usize, usize), b: (usize, usize)) -> bool {
    a.0 < b.0 || (a.0 == b.0 && a.1 <= b.1)
}

/// `t` is `s` sorted in ascending lexicographic order.
pub open spec fn sorted_permutation(s: Seq<(usize, usize)>, t: Seq<(usize, usize)>) -> bool {
    &&& t.to_multiset() == s.to_multiset()
    &&& forall|i: int, j: int| 0 <= i < j < t.len() ==> pair_le(t[i], t[j])
}

/// `slice::sort_unstable` on pairs: the slice ends up sorted in ascending
/// lexicographic order, holding the same pairs.
#[verifier::external_body]
fn sort_pairs(v: &mut Vec<(usize, usize)>)
    ensures
        sorted_permutation(old(v)@, final(v)@),
{
    v.sort_unstable()
}

/// Merging overlapping or touching ranges of a sequence, scanned from index
/// `i` with the range `cur` still open.
pub open spec fn merge_from(s: Seq<(usize, usize)>, cur: (usize, usize), i: int) -> Seq<
    (usize, usize),
>
    decreases s.len() - i,
{
    if i < 0 || i >= s.len() {
        seq![cur]
    } else if s[i].0 <= cur.1 {
        merge_from(s, (cur.0, if s[i].1 > cur.1 { s[i].1 } else { cur.1 }), i + 1)
    } else {
        seq![cur] + merge_from(s, s[i], i + 1)
    }
}

/// The merge of sorted ranges: each range that starts within the open one
/// extends it.
pub open spec fn merge_spec(s: Seq<(usize, usize)>) -> Seq<(usize, usize)> {
    if s.len() < 2 {
        s
    } else {
        merge_from(s, s[0], 1)
    }
}

/// Merging sorted ranges from `i` on with `cur` open gives ranges that start
/// at or after `cur`, the first one at its start and reaching its end, each
/// ending before the next one starts.
proof fn lemma_merge_from_separated(s: Seq<(usize, usize)>, cur: (usize, usize), i: int)
    requires
        0 <= i <= s.len(),
        forall|a: int, b: int| 0 <= a < b < s.len() ==> pair_le(s[a], s[b]),
        forall|j: int| i <= j < s.len() ==> cur.0 <= (#[trigger] s[j]).0,
    ensures
        merge_from(s, cur, i).len() >= 1,
        merge_from(s, cur, i)[0].0 == cur.0,
        merge_from(s, cur, i)[0].1 >= cur.1,
        forall|k: int| 0 <= k < merge_from(s, cur, i).len() ==> cur.0 <= (#[trigger] merge_from(s, cur, i)[k]).0,
        forall|k: int|
            0 <= k < merge_from(s, cur, i).len() - 1 ==> (#[trigger] merge_from(s, cur, i)[k]).1
                < merge_from(s, cur, i)[k + 1].0,
    decreases s.len() - i,
{
    if i < s.len() {
        if s[i].0 <= cur.1 {
            let next = (cur.0, if s[i].1 > cur.1 { s[i].1 } else { cur.1 });
            lemma_merge_from_separated(s, next, i + 1);
        } else {
            assert forall|j: int| i + 1 <= j < s.len() implies s[i].0 <= (#[trigger] s[j]).0 by {
                assert(pair_le(s[i], s[j]));
            }
            lemma_merge_from_separated(s, s[i], i + 1);
            let rest = merge_from(s, s[i], i + 1);
            let r = merge_from(s, cur, i);
            assert(r == seq![cur] + rest);
            assert forall|k: int| 0 <= k < r.len() - 1 implies (#[trigger] r[k]).1 < r[k + 1].0 by {
                if k > 0 {
                    assert(r[k] == rest[k - 1]);
                    assert(r[k + 1] == rest[k]);
                }
            }
            assert forall|k: int| 0 <= k < r.len() implies cur.0 <= (#[trigger] r[k]).0 by {
                if k > 0 {
                    assert(r[k] == rest[k - 1]);
                }
            }
        }
    }
}

/// Sort the ranges and merge those that overlap or touch.  The merged ranges
/// come in order, each ending before the next one starts.
pub fn merge_ranges(ranges: Vec<(usize, usize)>) -> (r: Vec<(usize, usize)>)
    ensures
        ranges@.len() < 2 ==> r@ == ranges@,
        ranges@.len() >= 2 ==> exists|t: Seq<(usize, usize)>|
            sorted_permutation(ranges@, t) && r@ == merge_spec(t),
        ranges@.len() >= 2 ==> forall|k: int| 0 <= k < r@.len() - 1 ==> (#[trigger] r@[k]).1 < r@[k + 1].0,
{
    let mut ranges = ranges;
    if ranges.len() < 2 {
        return ranges;
    }
    let ghost orig = ranges@;
    sort_pairs(&mut ranges);
    proof {
        assert(ranges@.len() == orig.len()) by {
            ranges@.to_multiset_ensures();
            orig.to_multiset_ensures();
        }
        let t = ranges@;
        assert forall|j: int| 1 <= j < t.len() implies t[0].0 <= (#[trigger] t[j]).0 by {
            assert(pair_le(t[0], t[j]));
        }
        lemma_merge_from_separated(t, t[0], 1);
    }
    let mut merged: Vec<(usize, usize)> = Vec::new();
    let mut cur = ranges[0];
    let mut i: usize = 1;
    while i < ranges.len()
        invariant
            1 <= i <= ranges@.len(),
            merge_spec(ranges@) == merged@ + merge_from(ranges@, cur, i as int),
        decreases ranges.len() - i,
    {
        let (s, e) = ranges[i];
        let ghost before = merged@;
        if s <= cur.1 {
            cur.1 = if e > cur.1 {
                e
            } else {
                cur.1
            };
        } else {
            let ghost old_cur = cur;
            merged.push(cur);
            assert(merged@ + merge_from(ranges@, (s, e), i + 1) =~= before + (seq![old_cur]
                + merge_from(ranges@, (s, e), i + 1)));
            cur = (s, e);
        }
        i = i + 1;
    }
    let ghost before = merged@;
    merged.push(cur);
    assert(merged@ =~= before + seq![cur]);
    merged
}

} // verus!
