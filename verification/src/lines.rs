//! The line model of a text: lines are separated by `'\n'`, and each line
//! except the last owns the `'\n'` that ends it.  Positions are char indices.
use vstd::prelude::*;

verus! {

/// Number of `'\n'` chars in `s`.
pub open spec fn count_nl(s: Seq<char>) -> nat
    decreases s.len(),
{
    if s.len() == 0 {
        0
    } else {
        count_nl(s.drop_last()) + if s.last() == '\n' {
            1nat
        } else {
            0nat
        }
    }
}

/// Number of lines of `s`: one more than the number of line breaks.
pub open spec fn num_lines(s: Seq<char>) -> nat {
    count_nl(s) + 1
}

/// The index of the first `'\n'` at or after `from`, or `s.len()` when there is none.
pub open spec fn next_nl(s: Seq<char>, from: int) -> int
    decreases s.len() - from,
{
    if from < 0 || from >= s.len() {
        s.len() as int
    } else if s[from] == '\n' {
        from
    } else {
        next_nl(s, from + 1)
    }
}

/// Char index where line `r` starts: line 0 starts at 0, and line `r + 1`
/// starts right after the line break that ends line `r`.
pub open spec fn line_start(s: Seq<char>, r: nat) -> int
    decreases r,
{
    if r == 0 {
        0
    } else {
        next_nl(s, line_start(s, (r - 1) as nat)) + 1
    }
}

/// Char index where line `r` ends, not counting its line break.
pub open spec fn line_end(s: Seq<char>, r: nat) -> int {
    next_nl(s, line_start(s, r))
}

/// Number of chars of line `r`, not counting its line break.
pub open spec fn line_len(s: Seq<char>, r: nat) -> int {
    line_end(s, r) - line_start(s, r)
}

/// The chars of line `r` including its line break, as a rope hands it out.
pub open spec fn line_with_break(s: Seq<char>, r: nat) -> Seq<char> {
    if r < count_nl(s) {
        s.subrange(line_start(s, r), line_end(s, r) + 1)
    } else {
        s.subrange(line_start(s, r), s.len() as int)
    }
}

/// `(row, col)` names a place in `s`: an existing line, and a column from
/// 0 up to the end of that line.
pub open spec fn valid_pos(s: Seq<char>, row: int, col: int) -> bool {
    &&& 0 <= row <= count_nl(s)
    &&& 0 <= col <= line_len(s, row as nat)
}

/// Char index of `(row, col)`.
pub open spec fn pos_index(s: Seq<char>, row: int, col: int) -> int {
    line_start(s, row as nat) + col
}

/// The row of char index `k`: the number of line breaks before it.
pub open spec fn row_of(s: Seq<char>, k: int) -> int {
    count_nl(s.take(k)) as int
}

/// The column of char index `k` within its row.
pub open spec fn col_of(s: Seq<char>, k: int) -> int {
    k - line_start(s, row_of(s, k) as nat)
}

pub proof fn lemma_count_nl_add(a: Seq<char>, b: Seq<char>)
    ensures
        count_nl(a + b) == count_nl(a) + count_nl(b),
    decreases b.len(),
{
    if b.len() == 0 {
        assert(a + b =~= a);
    } else {
        lemma_count_nl_add(a, b.drop_last());
        assert((a + b).drop_last() =~= a + b.drop_last());
        assert((a + b).last() == b.last());
    }
}

pub proof fn lemma_count_nl_le_len(s: Seq<char>)
    ensures
        count_nl(s) <= s.len(),
    decreases s.len(),
{
    if s.len() > 0 {
        lemma_count_nl_le_len(s.drop_last());
    }
}

/// Counting line breaks before `j` splits at any `i <= j`.
pub proof fn lemma_count_nl_take_split(s: Seq<char>, i: int, j: int)
    requires
        0 <= i <= j <= s.len(),
    ensures
        count_nl(s.take(j)) == count_nl(s.take(i)) + count_nl(s.subrange(i, j)),
{
    assert(s.take(j) =~= s.take(i) + s.subrange(i, j));
    lemma_count_nl_add(s.take(i), s.subrange(i, j));
}

/// One more char adds one exactly when it is a line break.
pub proof fn lemma_count_nl_take_step(s: Seq<char>, i: int)
    requires
        0 <= i < s.len(),
    ensures
        count_nl(s.take(i + 1)) == count_nl(s.take(i)) + if s[i] == '\n' { 1nat } else { 0nat },
{
    assert(s.take(i + 1).drop_last() =~= s.take(i));
}

/// A stretch without line breaks counts none.
pub proof fn lemma_count_nl_none(s: Seq<char>)
    requires
        forall|k: int| 0 <= k < s.len() ==> s[k] != '\n',
    ensures
        count_nl(s) == 0,
    decreases s.len(),
{
    if s.len() > 0 {
        lemma_count_nl_none(s.drop_last());
    }
}

pub proof fn lemma_next_nl(s: Seq<char>, from: int)
    requires
        0 <= from <= s.len(),
    ensures
        from <= next_nl(s, from) <= s.len(),
        forall|k: int| from <= k < next_nl(s, from) ==> s[k] != '\n',
        next_nl(s, from) < s.len() ==> s[next_nl(s, from)] == '\n',
    decreases s.len() - from,
{
    if from < s.len() && s[from] != '\n' {
        lemma_next_nl(s, from + 1);
    }
}

/// No line break between `i` and `j`: the count before them is equal.
pub proof fn lemma_count_nl_flat(s: Seq<char>, i: int, j: int)
    requires
        0 <= i <= j <= s.len(),
        forall|k: int| i <= k < j ==> s[k] != '\n',
    ensures
        count_nl(s.take(j)) == count_nl(s.take(i)),
{
    lemma_count_nl_take_split(s, i, j);
    lemma_count_nl_none(s.subrange(i, j));
}

/// Facts of a line from facts of its start.
proof fn lemma_line_from_start(s: Seq<char>, r: nat)
    requires
        0 <= line_start(s, r) <= s.len(),
        count_nl(s.take(line_start(s, r))) == r,
        r <= count_nl(s),
    ensures
        line_start(s, r) <= line_end(s, r) <= s.len(),
        forall|k: int| line_start(s, r) <= k < line_end(s, r) ==> s[k] != '\n',
        r < count_nl(s) ==> line_end(s, r) < s.len() && s[line_end(s, r)] == '\n',
        r == count_nl(s) ==> line_end(s, r) == s.len(),
        count_nl(s.take(line_end(s, r))) == r,
{
    let ls = line_start(s, r);
    lemma_next_nl(s, ls);
    let le = line_end(s, r);
    lemma_count_nl_flat(s, ls, le);
    assert(s.take(s.len() as int) =~= s);
    if le < s.len() {
        lemma_count_nl_take_step(s, le);
        lemma_count_nl_take_split(s, le + 1, s.len() as int);
    }
}

/// The basic facts of line `r`, for every existing line.
pub proof fn lemma_line(s: Seq<char>, r: nat)
    requires
        r <= count_nl(s),
    ensures
        0 <= line_start(s, r) <= line_end(s, r) <= s.len(),
        count_nl(s.take(line_start(s, r))) == r,
        r > 0 ==> s[line_start(s, r) - 1] == '\n',
        forall|k: int| line_start(s, r) <= k < line_end(s, r) ==> s[k] != '\n',
        r < count_nl(s) ==> line_end(s, r) < s.len() && s[line_end(s, r)] == '\n',
        r < count_nl(s) ==> line_start(s, r + 1) == line_end(s, r) + 1,
        r == count_nl(s) ==> line_end(s, r) == s.len(),
        count_nl(s.take(line_end(s, r))) == r,
    decreases r,
{
    if r == 0 {
        assert(s.take(0) =~= Seq::<char>::empty());
        assert(count_nl(Seq::<char>::empty()) == 0);
    } else {
        let p = (r - 1) as nat;
        lemma_line(s, p);
        let le = line_end(s, p);
        assert(line_start(s, r) == le + 1);
        lemma_count_nl_take_step(s, le);
    }
    lemma_line_from_start(s, r);
    assert(line_start(s, r + 1) == line_end(s, r) + 1);
}

/// A char index lies within the line that the breaks before it name.
pub proof fn lemma_index_in_row(s: Seq<char>, k: int)
    requires
        0 <= k <= s.len(),
    ensures
        row_of(s, k) <= count_nl(s),
        line_start(s, row_of(s, k) as nat) <= k <= line_end(s, row_of(s, k) as nat),
        valid_pos(s, row_of(s, k), col_of(s, k)),
        pos_index(s, row_of(s, k), col_of(s, k)) == k,
{
    let r = row_of(s, k);
    lemma_count_nl_take_split(s, k, s.len() as int);
    assert(s.take(s.len() as int) =~= s);
    lemma_line(s, r as nat);
    let ls = line_start(s, r as nat);
    let le = line_end(s, r as nat);
    if k < ls {
        lemma_count_nl_take_split(s, k, ls);
        lemma_count_nl_take_split(s, k, ls - 1);
        lemma_count_nl_take_step(s, ls - 1);
        assert(false);
    }
    if k > le {
        lemma_count_nl_take_step(s, le);
        lemma_count_nl_take_split(s, le + 1, k);
        assert(false);
    }
}

/// Every index within a line has that line as its row.
pub proof fn lemma_row_of_in_line(s: Seq<char>, r: nat, k: int)
    requires
        r <= count_nl(s),
        line_start(s, r) <= k <= line_end(s, r),
    ensures
        row_of(s, k) == r,
        col_of(s, k) == k - line_start(s, r),
{
    lemma_line(s, r);
    lemma_count_nl_flat(s, line_start(s, r), k);
}

/// A position that starts a line with `r` breaks before it is the start of line `r`.
pub proof fn lemma_line_start_unique(s: Seq<char>, r: nat, i: int)
    requires
        0 <= i <= s.len(),
        count_nl(s.take(i)) == r,
        i == 0 || s[i - 1] == '\n',
    ensures
        r <= count_nl(s),
        line_start(s, r) == i,
{
    lemma_index_in_row(s, i);
    lemma_line(s, r);
    if i > line_start(s, r) {
        assert(s[i - 1] != '\n');
    }
}

/// Line `r` starts at the same place in two texts that agree up to a point
/// at or after its start in the first.
pub proof fn lemma_line_start_prefix(s1: Seq<char>, s2: Seq<char>, r: nat, m: int)
    requires
        r <= count_nl(s1),
        line_start(s1, r) <= m,
        0 <= m <= s1.len(),
        m <= s2.len(),
        s1.take(m) == s2.take(m),
    ensures
        r <= count_nl(s2),
        line_start(s2, r) == line_start(s1, r),
{
    lemma_line(s1, r);
    let ls = line_start(s1, r);
    assert(s1.take(ls) =~= s1.take(m).take(ls));
    assert(s2.take(ls) =~= s2.take(m).take(ls));
    if ls > 0 {
        assert(s1[ls - 1] == s1.take(m)[ls - 1]);
        assert(s2[ls - 1] == s2.take(m)[ls - 1]);
    }
    lemma_line_start_unique(s2, r, ls);
}

/// The row and column of index `k` do not change when only text at or
/// after `k` changes.
pub proof fn lemma_pos_prefix(s1: Seq<char>, s2: Seq<char>, k: int)
    requires
        0 <= k <= s1.len(),
        k <= s2.len(),
        s1.take(k) == s2.take(k),
    ensures
        row_of(s2, k) == row_of(s1, k),
        col_of(s2, k) == col_of(s1, k),
{
    lemma_index_in_row(s1, k);
    lemma_line_start_prefix(s1, s2, row_of(s1, k) as nat, k);
}

/// The place named by a valid position is an index of the text, inside that line.
pub proof fn lemma_valid_pos(s: Seq<char>, row: int, col: int)
    requires
        valid_pos(s, row, col),
    ensures
        0 <= pos_index(s, row, col) <= s.len(),
        row_of(s, pos_index(s, row, col)) == row,
        col_of(s, pos_index(s, row, col)) == col,
{
    lemma_line(s, row as nat);
    lemma_row_of_in_line(s, row as nat, pos_index(s, row, col));
}

/// The start of the text is a place in it.
pub proof fn lemma_origin_valid(s: Seq<char>)
    ensures
        valid_pos(s, 0, 0),
{
    lemma_line(s, 0);
}

/// The start of every line is a place in the text.
pub proof fn lemma_origin_col_valid(s: Seq<char>, row: int)
    requires
        0 <= row <= count_nl(s),
    ensures
        valid_pos(s, row, 0),
{
    lemma_line(s, row as nat);
}

/// Inserting a char other than a line break at a place moves the place
/// after it one column right on the same line.
pub proof fn lemma_insert_char_pos(s: Seq<char>, row: int, col: int, ch: char)
    requires
        valid_pos(s, row, col),
        ch != '\n',
    ensures
        ({
            let k = pos_index(s, row, col);
            let t = s.take(k) + seq![ch] + s.skip(k);
            &&& valid_pos(t, row, col + 1)
            &&& pos_index(t, row, col + 1) == k + 1
            &&& row_of(t, k + 1) == row
            &&& col_of(t, k + 1) == col + 1
        }),
{
    let k = pos_index(s, row, col);
    let t = s.take(k) + seq![ch] + s.skip(k);
    lemma_valid_pos(s, row, col);
    assert(t.take(k) =~= s.take(k));
    lemma_line_start_prefix(s, t, row as nat, k);
    lemma_count_nl_take_step(t, k);
    assert(t[k] == ch);
    lemma_index_in_row(t, k + 1);
}

/// Inserting a line break at a place moves the place after it to the start
/// of the next line.
pub proof fn lemma_insert_nl_pos(s: Seq<char>, row: int, col: int)
    requires
        valid_pos(s, row, col),
    ensures
        ({
            let k = pos_index(s, row, col);
            let t = s.take(k) + seq!['\n'] + s.skip(k);
            &&& valid_pos(t, row + 1, 0)
            &&& pos_index(t, row + 1, 0) == k + 1
        }),
{
    let k = pos_index(s, row, col);
    let t = s.take(k) + seq!['\n'] + s.skip(k);
    lemma_valid_pos(s, row, col);
    assert(t.take(k) =~= s.take(k));
    lemma_count_nl_take_step(t, k);
    assert(t[k] == '\n');
    lemma_line_start_unique(t, (row + 1) as nat, k + 1);
    lemma_origin_col_valid(t, row + 1);
}

/// A place before an edited stretch keeps its row and column.
pub proof fn lemma_pos_before_edit(s: Seq<char>, t: Seq<char>, k: int)
    requires
        0 <= k <= s.len(),
        k <= t.len(),
        s.take(k) == t.take(k),
    ensures
        row_of(t, k) == row_of(s, k),
        col_of(t, k) == col_of(s, k),
        valid_pos(t, row_of(s, k), col_of(s, k)),
        pos_index(t, row_of(s, k), col_of(s, k)) == k,
{
    lemma_pos_prefix(s, t, k);
    lemma_index_in_row(t, k);
}

/// The char before the start of a line (past the first) is the line break
/// that ends the previous line.
pub proof fn lemma_prev_line_end(s: Seq<char>, row: int)
    requires
        0 < row <= count_nl(s),
    ensures
        line_start(s, row as nat) - 1 == line_end(s, (row - 1) as nat),
        row_of(s, line_start(s, row as nat) - 1) == row - 1,
        col_of(s, line_start(s, row as nat) - 1) == line_len(s, (row - 1) as nat),
{
    lemma_line(s, (row - 1) as nat);
    lemma_row_of_in_line(s, (row - 1) as nat, line_end(s, (row - 1) as nat));
}

} // verus!
