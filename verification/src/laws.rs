//! Properties that relate several editor operations.
use crate::buffer::{crlf_at, crlf_to_lf, has_crlf, lf_to_crlf, Buffer, Eol};
use crate::edit::{
    clamp_col, clamp_row, cursor_idx, cut, deleted_back, deleted_forward, entry, inserted_char,
    inserted_newline, line_span_end, pasted, redone, undone,
};
use crate::editor::{
    gutter_spec, moved_down, moved_up, paged_down, paged_up, snap_col, Editor, Effect, Focus,
    ParkedBuffer,
};
use crate::keys::{MouseEvent, MouseEventKind};
use crate::session::mouse_handled;
use crate::input::{key_step, prepared, routed};
use crate::keys::{KeyCode, KeyEvent, KeyModifiers};
use crate::history::{apply_op_spec, lemma_delete_then_insert, lemma_insert_then_delete, EntryModel, OpModel};
use crate::lines::{
    col_of, count_nl, lemma_count_nl_add, lemma_count_nl_le_len, lemma_index_in_row, lemma_line,
    lemma_line_start_unique, lemma_valid_pos, line_end, line_len, line_start, num_lines, pos_index,
    row_of, valid_pos,
};
use crate::prompt::{search_closed, search_opened};
use crate::highlight::{is_alphanumeric, keyword_spans};
use crate::search::{find_from, lemma_find_from, lowercase, match_positions, match_triples, occurs_at, search_spec};
use crate::display::{char_at_display_from, display_col_spec, sat_add};
use crate::session::{parked_now, switched_next, switched_prev};
use crate::style::Color;
use vstd::prelude::*;

verus! {

/// Putting the cursor back at a place of the text leaves it there.
proof fn lemma_clamp_valid(t: Seq<char>, row: int, col: int)
    requires
        valid_pos(t, row, col),
    ensures
        clamp_row(t, row) == row,
        clamp_col(t, row, col) == col,
{
}

/// Undoing the last edit `e` applies its inverse: when that inverse maps the
/// text back to `t0`, where `e.before` names a place, undo yields `t0` with
/// the cursor at `e.before`.
proof fn lemma_undo_entry(m: Editor, n: Editor, e: EntryModel, t0: Seq<char>)
    requires
        !m.buf.readonly,
        m.history@.undo.len() > 0,
        m.history@.undo.last() == e,
        apply_op_spec(e.to_undo, m.buf.text()) == Some(t0),
        valid_pos(t0, e.before.0 as int, e.before.1 as int),
        undone(m, n),
    ensures
        n.buf.text() == t0,
        n.cursor_row == e.before.0,
        n.cursor_col == e.before.1,
{
    lemma_clamp_valid(t0, e.before.0 as int, e.before.1 as int);
}

/// Typing a char that starts a new undo step, then undoing, gives the text
/// and the cursor back.
pub proof fn law_insert_char_then_undo(o: Editor, m: Editor, n: Editor, ch: char)
    requires
        o.wf(),
        m.wf(),
        !o.buf.readonly,
        !o.history@.squashable(cursor_idx(o) as usize),
        inserted_char(o, m, ch),
        undone(m, n),
    ensures
        n.buf.text() == o.buf.text(),
        n.cursor_row == o.cursor_row,
        n.cursor_col == o.cursor_col,
{
    let t = o.buf.text();
    let k = cursor_idx(o);
    lemma_valid_pos(t, o.cursor_row as int, o.cursor_col as int);
    lemma_insert_then_delete(t, k as usize, seq![ch]);
    let e = m.history@.undo.last();
    lemma_undo_entry(m, n, e, t);
}

/// Typing a char that extends the last insertion, then undoing, removes the
/// whole run of typing: the text becomes what undoing before the char would
/// have given.
pub proof fn law_typing_run_undoes_at_once(o: Editor, m: Editor, n: Editor, ch: char)
    requires
        o.wf(),
        m.wf(),
        !o.buf.readonly,
        o.history@.squashable(cursor_idx(o) as usize),
        inserted_char(o, m, ch),
        undone(m, n),
    ensures
        m.history@.undo.len() == o.history@.undo.len(),
        apply_op_spec(o.history@.undo.last().to_undo, o.buf.text()) == Some(n.buf.text()),
{
    let t = o.buf.text();
    let k = cursor_idx(o);
    let top = o.history@.undo.last();
    lemma_valid_pos(t, o.cursor_row as int, o.cursor_col as int);
    let t1 = m.buf.text();
    match top.to_undo {
        OpModel::Delete { pos: p, char_len: c } => {
            assert(m.history@.undo.last().to_undo == OpModel::Delete {
                pos: p,
                char_len: (c + 1) as usize,
            });
            assert(t1.take(p as int) + t1.skip(p + c + 1) =~= t.take(p as int) + t.skip(p + c));
        },
        _ => {},
    }
}

/// A line break, then undo, gives the text and the cursor back.
pub proof fn law_newline_then_undo(o: Editor, m: Editor, n: Editor)
    requires
        o.wf(),
        m.wf(),
        !o.buf.readonly,
        inserted_newline(o, m),
        undone(m, n),
    ensures
        n.buf.text() == o.buf.text(),
        n.cursor_row == o.cursor_row,
        n.cursor_col == o.cursor_col,
{
    let t = o.buf.text();
    let k = cursor_idx(o);
    lemma_valid_pos(t, o.cursor_row as int, o.cursor_col as int);
    lemma_insert_then_delete(t, k as usize, seq!['\n']);
    lemma_undo_entry(m, n, m.history@.undo.last(), t);
}

/// Backspace, then undo, gives the text and the cursor back.
pub proof fn law_delete_back_then_undo(o: Editor, m: Editor, n: Editor)
    requires
        o.wf(),
        !o.buf.readonly,
        !(o.cursor_col == 0 && o.cursor_row == 0),
        deleted_back(o, m),
        undone(m, n),
    ensures
        n.buf.text() == o.buf.text(),
        n.cursor_row == o.cursor_row,
        n.cursor_col == o.cursor_col,
{
    let t = o.buf.text();
    let k = cursor_idx(o);
    lemma_valid_pos(t, o.cursor_row as int, o.cursor_col as int);
    lemma_line(t, o.cursor_row as nat);
    lemma_delete_then_insert(t, (k - 1) as usize, 1);
    lemma_undo_entry(m, n, m.history@.undo.last(), t);
}

/// Delete, then undo, gives the text and the cursor back.
pub proof fn law_delete_forward_then_undo(o: Editor, m: Editor, n: Editor)
    requires
        o.wf(),
        !o.buf.readonly,
        !(o.cursor_col >= line_len(o.buf.text(), o.cursor_row as nat) && o.cursor_row + 1
            >= num_lines(o.buf.text())),
        deleted_forward(o, m),
        undone(m, n),
    ensures
        n.buf.text() == o.buf.text(),
        n.cursor_row == o.cursor_row,
        n.cursor_col == o.cursor_col,
{
    let t = o.buf.text();
    let k = cursor_idx(o);
    lemma_valid_pos(t, o.cursor_row as int, o.cursor_col as int);
    lemma_line(t, o.cursor_row as nat);
    lemma_delete_then_insert(t, k as usize, 1);
    lemma_undo_entry(m, n, m.history@.undo.last(), t);
}

/// Cutting a line, then undoing, gives the text and the cursor back.
pub proof fn law_cut_then_undo(o: Editor, m: Editor, n: Editor)
    requires
        o.wf(),
        !o.buf.readonly,
        cut(o, m),
        undone(m, n),
    ensures
        n.buf.text() == o.buf.text(),
        n.cursor_row == o.cursor_row,
        n.cursor_col == o.cursor_col,
{
    let t = o.buf.text();
    let r = o.cursor_row as nat;
    lemma_line(t, r);
    if r < count_nl(t) {
        lemma_line(t, r + 1);
    }
    let start = line_start(t, r);
    let end = line_span_end(t, r);
    lemma_delete_then_insert(t, start as usize, (end - start) as usize);
    lemma_undo_entry(m, n, m.history@.undo.last(), t);
}

/// Pasting, then undoing, gives the text and the cursor back.
pub proof fn law_paste_then_undo(o: Editor, m: Editor, n: Editor)
    requires
        o.wf(),
        m.wf(),
        !o.buf.readonly,
        o.kill is Some,
        pasted(o, m),
        undone(m, n),
    ensures
        n.buf.text() == o.buf.text(),
        n.cursor_row == o.cursor_row,
        n.cursor_col == o.cursor_col,
{
    let t = o.buf.text();
    let k = cursor_idx(o);
    let s = o.kill->Some_0@;
    lemma_valid_pos(t, o.cursor_row as int, o.cursor_col as int);
    let t2 = m.buf.text();
    assert(t2.take(k) + t2.skip(k + s.len()) =~= t);
    lemma_undo_entry(m, n, m.history@.undo.last(), t);
}

/// `m` follows `o` by one edit that records an undo step of its own: a char
/// typed where it does not extend the last insertion, a line break, a
/// backspace or delete that removes a char, a cut, or a paste.
pub open spec fn new_undo_step(o: Editor, m: Editor, ch: char) -> bool {
    ||| !o.history@.squashable(cursor_idx(o) as usize) && inserted_char(o, m, ch)
    ||| inserted_newline(o, m)
    ||| !(o.cursor_col == 0 && o.cursor_row == 0) && deleted_back(o, m)
    ||| !(o.cursor_col >= line_len(o.buf.text(), o.cursor_row as nat) && o.cursor_row + 1
        >= num_lines(o.buf.text())) && deleted_forward(o, m)
    ||| cut(o, m)
    ||| o.kill is Some && pasted(o, m)
}

/// Any edit that records an undo step of its own, then undo, gives the text
/// and the cursor back.
pub proof fn law_edit_then_undo(o: Editor, m: Editor, n: Editor, ch: char)
    requires
        o.wf(),
        m.wf(),
        !o.buf.readonly,
        new_undo_step(o, m, ch),
        undone(m, n),
    ensures
        n.buf.text() == o.buf.text(),
        n.cursor_row == o.cursor_row,
        n.cursor_col == o.cursor_col,
{
    if !o.history@.squashable(cursor_idx(o) as usize) && inserted_char(o, m, ch) {
        law_insert_char_then_undo(o, m, n, ch);
    } else if inserted_newline(o, m) {
        law_newline_then_undo(o, m, n);
    } else if !(o.cursor_col == 0 && o.cursor_row == 0) && deleted_back(o, m) {
        law_delete_back_then_undo(o, m, n);
    } else if cut(o, m) {
        law_cut_then_undo(o, m, n);
    } else if o.kill is Some && pasted(o, m) {
        law_paste_then_undo(o, m, n);
    } else {
        law_delete_forward_then_undo(o, m, n);
    }
}

/// Undoing an edit and then redoing it gives the edited text back, for an
/// edit whose redo operation maps the earlier text to the edited one.
pub proof fn law_undo_then_redo(m: Editor, n: Editor, p: Editor, t0: Seq<char>)
    requires
        !m.buf.readonly,
        m.history@.undo.len() > 0,
        apply_op_spec(m.history@.undo.last().to_undo, m.buf.text()) == Some(t0),
        apply_op_spec(m.history@.undo.last().to_redo, t0) == Some(m.buf.text()),
        undone(m, n),
        redone(n, p),
    ensures
        n.buf.text() == t0,
        p.buf.text() == m.buf.text(),
        p.history@ == m.history@,
{
    crate::history::lemma_undo_then_redo(m.history@);
}

/// A fresh edit's entry maps the text back and forth: typing a char that
/// starts a new undo step, then undo, then redo, gives the typed text again.
pub proof fn law_insert_char_undo_redo(o: Editor, m: Editor, n: Editor, p: Editor, ch: char)
    requires
        o.wf(),
        m.wf(),
        !o.buf.readonly,
        !o.history@.squashable(cursor_idx(o) as usize),
        inserted_char(o, m, ch),
        undone(m, n),
        redone(n, p),
    ensures
        n.buf.text() == o.buf.text(),
        p.buf.text() == m.buf.text(),
{
    let t = o.buf.text();
    let k = cursor_idx(o);
    lemma_valid_pos(t, o.cursor_row as int, o.cursor_col as int);
    lemma_insert_then_delete(t, k as usize, seq![ch]);
    law_undo_then_redo(m, n, p, t);
}

/// Switching to the next buffer and back to the previous one restores the
/// buffer shown, its cursor and viewport, the parked buffers and the index.
pub proof fn law_next_then_prev_buffer(o: Editor, m: Editor, n: Editor)
    requires
        o.wf(),
        o.buf_total > 1,
        switched_next(o, m),
        switched_prev(m, n),
    ensures
        n.buf == o.buf,
        n.cursor_row == o.cursor_row,
        n.cursor_col == o.cursor_col,
        n.goal_col == o.goal_col,
        n.top == o.top,
        n.left == o.left,
        n.parked_bufs@ == o.parked_bufs@,
        n.buf_idx == o.buf_idx,
        n.buf_total == o.buf_total,
{
    let ps = o.parked_bufs@;
    let i = o.buf_idx as int;
    let t = o.buf_total as int;
    if i + 1 < t {
        assert((i + 1) % t == i + 1) by (nonlinear_arith)
            requires
                0 <= i + 1 < t,
        ;
    } else {
        assert((i + 1) % t == 0) by (nonlinear_arith)
            requires
                i + 1 == t,
                t > 0,
        ;
    }
    assert(m.parked_bufs@.last() == crate::session::parked_now(o));
    assert(crate::session::parked_now(m) == ps[0]);
    assert(n.parked_bufs@ =~= ps);
}

/// Opening the search and cancelling it puts the cursor back where it was.
pub proof fn law_search_cancel_restores_cursor(o: Editor, m: Editor, n: Editor)
    requires
        o.wf(),
        search_opened(o, m),
        search_closed(m, n, false),
    ensures
        n.cursor_row == o.cursor_row,
        n.cursor_col == o.cursor_col,
        n.buf == o.buf,
        n.focus is Edit,
{
    let cur = choose|cur: Option<usize>|
        crate::prompt::search_prompt(
            m,
            o.last_search@,
            false,
            crate::search::search_spec(o.buf.text(), o.last_search@, false),
            cur,
            o.cursor_row,
            o.cursor_col,
        ) && crate::prompt::jumped_to_first(
            o,
            m,
            crate::search::search_spec(o.buf.text(), o.last_search@, false),
            cur,
            o.cursor_row,
            o.cursor_col,
        );
}

/// Every line break of `s` ends a CRLF pair.
pub open spec fn crlf_only(s: Seq<char>) -> bool {
    forall|i: int| 0 <= i < s.len() && #[trigger] s[i] == '\n' ==> i > 0 && s[i - 1] == '\r'
}

/// A file whose line breaks are all CRLF is written back as it was read:
/// normalising CRLF to LF and restoring it gives the same text.
pub proof fn law_crlf_round_trip(s: Seq<char>)
    requires
        crlf_only(s),
    ensures
        lf_to_crlf(crlf_to_lf(s)) == s,
    decreases s.len(),
{
    if s.len() == 0 {
    } else if s.len() >= 2 && s[0] == '\r' && s[1] == '\n' {
        let r = s.skip(2);
        assert(crlf_only(r)) by {
            assert forall|i: int| 0 <= i < r.len() && #[trigger] r[i] == '\n' implies i > 0 && r[i - 1] == '\r' by {
                assert(s[i + 2] == '\n');
            }
        }
        law_crlf_round_trip(r);
        let x = seq!['\n'] + crlf_to_lf(r);
        assert(x[0] == '\n');
        assert(x.skip(1) =~= crlf_to_lf(r));
        assert(seq!['\r', '\n'] + r =~= s);
    } else {
        let r = s.skip(1);
        assert(s[0] != '\n');
        assert(crlf_only(r)) by {
            assert forall|i: int| 0 <= i < r.len() && #[trigger] r[i] == '\n' implies i > 0 && r[i - 1] == '\r' by {
                assert(s[i + 1] == '\n');
            }
        }
        law_crlf_round_trip(r);
        let x = seq![s[0]] + crlf_to_lf(r);
        assert(x[0] == s[0]);
        assert(x.skip(1) =~= crlf_to_lf(r));
        assert(seq![s[0]] + r =~= s);
    }
}

/// Text without a CRLF pair is left as it is by normalisation.
proof fn lemma_crlf_to_lf_id(s: Seq<char>)
    requires
        !has_crlf(s),
    ensures
        crlf_to_lf(s) == s,
    decreases s.len(),
{
    if s.len() > 0 {
        let r = s.skip(1);
        assert(!has_crlf(r)) by {
            if has_crlf(r) {
                let i = choose|i: int| 0 <= i < r.len() - 1 && #[trigger] crlf_at(r, i);
                assert(crlf_at(s, i + 1));
            }
        }
        if s.len() >= 2 && s[0] == '\r' && s[1] == '\n' {
            assert(crlf_at(s, 0));
        }
        lemma_crlf_to_lf_id(r);
        assert(seq![s[0]] + r =~= s);
    }
}

/// A file is written back as it was read when its line breaks are all LF or
/// all CRLF: a buffer loaded from text `t` (normalised, with its line-ending
/// style detected) encodes to `t` again.
pub proof fn law_load_save_round_trip(b: Buffer, t: Seq<char>)
    requires
        crlf_only(t) || !has_crlf(t),
        b.text() == crlf_to_lf(t),
        b.eol == if has_crlf(t) {
            Eol::Crlf
        } else {
            Eol::Lf
        },
    ensures
        (if b.eol == Eol::Crlf {
            lf_to_crlf(b.text())
        } else {
            b.text()
        }) == t,
{
    if has_crlf(t) {
        law_crlf_round_trip(t);
    } else {
        lemma_crlf_to_lf_id(t);
    }
}

/// Text restored to CRLF never starts with a bare line feed.
proof fn lemma_lf_to_crlf_head(s: Seq<char>)
    ensures
        lf_to_crlf(s).len() == 0 <==> s.len() == 0,
        lf_to_crlf(s).len() > 0 ==> lf_to_crlf(s)[0] != '\n',
{
}

/// Normalising CRLF to LF undoes restoring LF to CRLF, whatever the text.
proof fn lemma_crlf_to_lf_of_lf_to_crlf(s: Seq<char>)
    ensures
        crlf_to_lf(lf_to_crlf(s)) == s,
    decreases s.len(),
{
    if s.len() > 0 {
        let y = lf_to_crlf(s.skip(1));
        lemma_crlf_to_lf_of_lf_to_crlf(s.skip(1));
        if s[0] == '\n' {
            let x = seq!['\r', '\n'] + y;
            assert(x.skip(2) =~= y);
            assert(seq!['\n'] + s.skip(1) =~= s);
        } else {
            let x = seq![s[0]] + y;
            lemma_lf_to_crlf_head(s.skip(1));
            assert(x.skip(1) =~= y);
            assert(seq![s[0]] + s.skip(1) =~= s);
        }
    }
}

/// Text restored to CRLF holds a CRLF pair exactly when the text holds a
/// line feed.
proof fn lemma_has_crlf_of_lf_to_crlf(s: Seq<char>)
    ensures
        has_crlf(lf_to_crlf(s)) == s.contains('\n'),
    decreases s.len(),
{
    let x = lf_to_crlf(s);
    if s.len() == 0 {
        assert(!has_crlf(x));
        assert(!s.contains('\n'));
    } else {
        let t = s.skip(1);
        let y = lf_to_crlf(t);
        lemma_has_crlf_of_lf_to_crlf(t);
        if s[0] == '\n' {
            assert(crlf_at(x, 0));
            assert(s[0] == '\n');
        } else {
            lemma_lf_to_crlf_head(t);
            assert(x == seq![s[0]] + y);
            if has_crlf(x) {
                let i = choose|i: int| 0 <= i < x.len() - 1 && #[trigger] crlf_at(x, i);
                assert(i > 0);
                assert(crlf_at(y, i - 1));
            }
            if has_crlf(y) {
                let j = choose|j: int| 0 <= j < y.len() - 1 && #[trigger] crlf_at(y, j);
                assert(crlf_at(x, j + 1));
            }
            if s.contains('\n') {
                let k = choose|k: int| 0 <= k < s.len() && s[k] == '\n';
                assert(t[k - 1] == '\n');
            }
            if t.contains('\n') {
                let k = choose|k: int| 0 <= k < t.len() && t[k] == '\n';
                assert(s[k + 1] == '\n');
            }
        }
    }
}

/// A buffer saved and loaded again holds the same text: the text written is
/// normalised back to the buffer's, and CRLF is detected in it exactly when
/// the buffer writes CRLF and has a line break.  An LF buffer must not hold
/// a CRLF pair of its own, which loading would turn into a line feed.
pub proof fn law_save_load_round_trip(b: Buffer)
    requires
        b.eol == Eol::Crlf || !has_crlf(b.text()),
    ensures
        crlf_to_lf(
            if b.eol == Eol::Crlf {
                lf_to_crlf(b.text())
            } else {
                b.text()
            },
        ) == b.text(),
        has_crlf(
            if b.eol == Eol::Crlf {
                lf_to_crlf(b.text())
            } else {
                b.text()
            },
        ) == (b.eol == Eol::Crlf && b.text().contains('\n')),
{
    if b.eol == Eol::Crlf {
        lemma_crlf_to_lf_of_lf_to_crlf(b.text());
        lemma_has_crlf_of_lf_to_crlf(b.text());
    } else {
        lemma_crlf_to_lf_id(b.text());
    }
}

/// After cutting the cursor's line, the row the cursor was on still exists
/// and starts where the cut line started.
proof fn lemma_cut_keeps_row_start(o: Editor, m: Editor)
    requires
        o.wf(),
        !o.buf.readonly,
        cut(o, m),
    ensures
        o.cursor_row <= count_nl(m.buf.text()),
        line_start(m.buf.text(), o.cursor_row as nat) == line_start(o.buf.text(), o.cursor_row as nat),
        m.kill matches Some(k) && m.buf.text().take(line_start(o.buf.text(), o.cursor_row as nat)) + k@
            + m.buf.text().skip(line_start(o.buf.text(), o.cursor_row as nat)) == o.buf.text(),
{
    let t = o.buf.text();
    let r = o.cursor_row as nat;
    lemma_line(t, r);
    let start = line_start(t, r);
    let end = line_span_end(t, r);
    if r < count_nl(t) {
        lemma_line(t, r + 1);
    }
    let t1 = m.buf.text();
    assert(t1 == t.take(start) + t.skip(end));
    assert(t1.take(start) =~= t.take(start));
    assert(t.take(end) + t.skip(end) =~= t);
    lemma_count_nl_add(t.take(end), t.skip(end));
    lemma_count_nl_add(t.take(start), t.skip(end));
    assert(count_nl(t.take(end)) == if r < count_nl(t) { r + 1 } else { count_nl(t) });
    assert(r <= count_nl(t1));
    if start > 0 {
        assert(t1[start - 1] == t[start - 1]);
    }
    lemma_line_start_unique(t1, r, start);
    let k = m.kill->Some_0@;
    assert(k == t.subrange(start, end));
    assert(t1.take(start) + k + t1.skip(start) =~= t);
}

/// Cutting the cursor's line, then pasting at the start of the same row,
/// gives the text back: the cut line goes back where it was, wherever the
/// cursor was on it.
pub proof fn law_cut_then_paste_at_row_start(o: Editor, m: Editor, m2: Editor, n: Editor)
    requires
        o.wf(),
        !o.buf.readonly,
        cut(o, m),
        m2 == (Editor { cursor_row: o.cursor_row, cursor_col: 0, ..m }),
        pasted(m2, n),
    ensures
        n.buf.text() == o.buf.text(),
{
    lemma_cut_keeps_row_start(o, m);
    assert(cursor_idx(m2) == line_start(o.buf.text(), o.cursor_row as nat));
}

/// Cutting the line the cursor starts, then pasting, gives the text back:
/// the cursor stays at the start of its row, where the line goes back.
pub proof fn law_cut_then_paste(o: Editor, m: Editor, n: Editor)
    requires
        o.wf(),
        !o.buf.readonly,
        o.cursor_col == 0,
        cut(o, m),
        pasted(m, n),
    ensures
        n.buf.text() == o.buf.text(),
{
    let t1 = m.buf.text();
    let r = o.cursor_row as int;
    lemma_cut_keeps_row_start(o, m);
    lemma_line(t1, r as nat);
    assert(clamp_row(t1, r) == r);
    assert(clamp_col(t1, r, 0) == 0);
    assert(cursor_idx(m) == line_start(o.buf.text(), o.cursor_row as nat));
}

/// The buffer shown, parked as it stands, followed by the parked buffers:
/// the order in which switching to the next buffer visits them.
pub open spec fn buffer_ring(e: Editor) -> Seq<ParkedBuffer> {
    seq![parked_now(e)] + e.parked_bufs@
}

/// `s` rotated left by `k`.
pub open spec fn rotated(s: Seq<ParkedBuffer>, k: int) -> Seq<ParkedBuffer> {
    s.skip(k) + s.take(k)
}

/// Switching to the next buffer rotates the ring by one and advances the
/// buffer index, wrapping after the last buffer.
proof fn lemma_next_rotates(o: Editor, n: Editor)
    requires
        o.wf(),
        switched_next(o, n),
    ensures
        buffer_ring(n) == rotated(buffer_ring(o), 1),
        n.buf_idx == (o.buf_idx + 1) % (o.buf_total as int),
        n.buf_total == o.buf_total,
{
    let t = o.buf_total as int;
    let i = o.buf_idx as int;
    if t <= 1 {
        assert(rotated(buffer_ring(o), 1) =~= buffer_ring(o));
        assert(buffer_ring(n) =~= buffer_ring(o));
        assert((i + 1) % t == i) by (nonlinear_arith)
            requires
                t == 1,
                i == 0,
        ;
    } else {
        assert(parked_now(n) == o.parked_bufs@[0]);
        assert(buffer_ring(n) =~= rotated(buffer_ring(o), 1));
    }
}

/// Adding one commutes with reducing modulo `t`.
proof fn lemma_mod_succ(a: int, t: int)
    requires
        t > 0,
    ensures
        ((a % t) + 1) % t == (a + 1) % t,
{
    vstd::arithmetic::div_mod::lemma_add_mod_noop(a, 1, t);
    vstd::arithmetic::div_mod::lemma_add_mod_noop(a % t, 1, t);
    vstd::arithmetic::div_mod::lemma_mod_twice(a, t);
}

/// After `k` switches to the next buffer the ring is rotated by `k` and the
/// index has advanced by `k`, wrapping.
proof fn lemma_next_steps(es: Seq<Editor>, k: int)
    requires
        es.len() >= 1,
        0 <= k < es.len(),
        forall|i: int| 0 <= i < es.len() ==> (#[trigger] es[i]).wf(),
        forall|i: int| 0 <= i < es.len() - 1 ==> #[trigger] switched_next(es[i], es[i + 1]),
    ensures
        buffer_ring(es[k]) == rotated(buffer_ring(es[0]), k % (es[0].buf_total as int)),
        es[k].buf_idx == (es[0].buf_idx + k) % (es[0].buf_total as int),
        es[k].buf_total == es[0].buf_total,
    decreases k,
{
    let s = buffer_ring(es[0]);
    let t = es[0].buf_total as int;
    let i0 = es[0].buf_idx as int;
    if k == 0 {
        assert(rotated(s, 0) =~= s);
        vstd::arithmetic::div_mod::lemma_small_mod(0, t as nat);
        vstd::arithmetic::div_mod::lemma_small_mod(i0 as nat, t as nat);
    } else {
        lemma_next_steps(es, k - 1);
        assert(switched_next(es[k - 1], es[(k - 1) + 1]));
        lemma_next_rotates(es[k - 1], es[k]);
        let j = (k - 1) % t;
        vstd::arithmetic::div_mod::lemma_mod_bound(k - 1, t);
        assert(rotated(rotated(s, j), 1) =~= rotated(s, j + 1));
        lemma_mod_succ(k - 1, t);
        lemma_mod_succ(i0 + k - 1, t);
        if j + 1 < t {
            vstd::arithmetic::div_mod::lemma_small_mod((j + 1) as nat, t as nat);
        } else {
            vstd::arithmetic::div_mod::lemma_mod_self_0(t);
            assert(rotated(s, t) =~= rotated(s, 0));
        }
    }
}

/// Switching to the next buffer as many times as there are buffers comes
/// back to the buffer first shown, with its cursor and viewport, the same
/// parked buffers in the same order, and the same buffer index.
pub proof fn law_next_buffer_cycle(es: Seq<Editor>)
    requires
        es.len() >= 1,
        es.len() == es[0].buf_total + 1,
        forall|i: int| 0 <= i < es.len() ==> (#[trigger] es[i]).wf(),
        forall|i: int| 0 <= i < es.len() - 1 ==> #[trigger] switched_next(es[i], es[i + 1]),
    ensures
        es.last().buf == es[0].buf,
        es.last().cursor_row == es[0].cursor_row,
        es.last().cursor_col == es[0].cursor_col,
        es.last().goal_col == es[0].goal_col,
        es.last().top == es[0].top,
        es.last().left == es[0].left,
        es.last().parked_bufs@ == es[0].parked_bufs@,
        es.last().buf_idx == es[0].buf_idx,
{
    let o = es[0];
    let t = o.buf_total as int;
    let n = es[t];
    let s = buffer_ring(o);
    assert(es.last() == n);
    assert(buffer_ring(n) == s && n.buf_idx == o.buf_idx) by {
        lemma_next_steps(es, t);
        vstd::arithmetic::div_mod::lemma_mod_self_0(t);
        assert(rotated(s, 0) =~= s);
        vstd::arithmetic::div_mod::lemma_mod_add_multiples_vanish(o.buf_idx as int, t);
        vstd::arithmetic::div_mod::lemma_small_mod(o.buf_idx as nat, t as nat);
    }
    assert(parked_now(n) == buffer_ring(n)[0]);
    assert(parked_now(o) == s[0]);
    assert(n.parked_bufs@ =~= buffer_ring(n).skip(1));
    assert(o.parked_bufs@ =~= s.skip(1));
}

/// Every keyword span found from `i` on is a whole-word occurrence of the
/// keyword at or after `i`.
proof fn lemma_keyword_spans_whole(line: Seq<char>, word: Seq<char>, color: Color, i: int)
    requires
        line.len() <= usize::MAX,
        i >= 0,
    ensures
        forall|k: int| 0 <= k < keyword_spans(line, word, color, i).len() ==> {
            let sp = #[trigger] keyword_spans(line, word, color, i)[k];
            &&& i <= sp.0
            &&& sp.1 == sp.0 + word.len() <= line.len()
            &&& occurs_at(line, word, sp.0 as int)
            &&& (sp.0 == 0 || !(is_alphanumeric(line[sp.0 - 1]) || line[sp.0 - 1] == '_'))
            &&& (sp.1 == line.len() || !(is_alphanumeric(line[sp.1 as int]) || line[sp.1 as int] == '_'))
            &&& sp.2 == color
        },
    decreases line.len() - i,
{
    let ks = keyword_spans(line, word, color, i);
    if i < 0 || word.len() == 0 || i + word.len() > line.len() {
    } else if occurs_at(line, word, i) && crate::highlight::boundary_before(line, i)
        && crate::highlight::boundary_after(line, i + word.len()) {
        lemma_keyword_spans_whole(line, word, color, i + word.len());
        let rest = keyword_spans(line, word, color, i + word.len());
        assert forall|k: int| 0 < k < ks.len() implies ks[k] == rest[k - 1] by {}
    } else {
        lemma_keyword_spans_whole(line, word, color, i + 1);
    }
}

/// A keyword is coloured only as a whole word: every span a keyword rule
/// gives covers an occurrence of the keyword with no letter, digit or `_`
/// right before or right after it.
pub proof fn law_keywords_are_whole_words(line: Seq<char>, word: Seq<char>, color: Color)
    requires
        line.len() <= usize::MAX,
    ensures
        forall|k: int| 0 <= k < keyword_spans(line, word, color, 0).len() ==> {
            let (s, e, c) = #[trigger] keyword_spans(line, word, color, 0)[k];
            &&& line.subrange(s as int, e as int) == word
            &&& c == color
            &&& (s == 0 || !(is_alphanumeric(line[s - 1]) || line[s - 1] == '_'))
            &&& (e == line.len() || !(is_alphanumeric(line[e as int]) || line[e as int] == '_'))
        },
{
    lemma_keyword_spans_whole(line, word, color, 0);
}

/// Every position the scan from `p` reports is an occurrence at or after `p`.
proof fn lemma_match_positions_occur(h: Seq<char>, n: Seq<char>, p: int)
    requires
        p >= 0,
    ensures
        forall|k: int| 0 <= k < match_positions(h, n, p).len() ==> p <= #[trigger] match_positions(h, n, p)[k]
            && occurs_at(h, n, match_positions(h, n, p)[k]),
    decreases h.len() - p,
{
    if !(p < 0 || p >= h.len()) {
        lemma_find_from(h, n, p);
        match find_from(h, n, p) {
            None => {},
            Some(m) => {
                let q = m + if n.len() > 0 { n.len() as int } else { 1 };
                lemma_match_positions_occur(h, n, q);
                let ms = match_positions(h, n, p);
                assert forall|k: int| 0 < k < ms.len() implies ms[k] == match_positions(h, n, q)[k - 1] by {}
            },
        }
    }
}

/// Each reported triple reads its position in `text`.
proof fn lemma_match_triples_read(text: Seq<char>, ms: Seq<int>, qlen: nat)
    requires
        text.len() <= usize::MAX,
        forall|k: int| 0 <= k < ms.len() ==> 0 <= #[trigger] ms[k],
    ensures
        match_triples(text, ms, qlen).len() <= ms.len(),
        forall|k: int| 0 <= k < match_triples(text, ms, qlen).len() ==> {
            let t = #[trigger] match_triples(text, ms, qlen)[k];
            &&& ms[k] <= text.len()
            &&& t.0 as int == row_of(text, ms[k])
            &&& t.1 as int == col_of(text, ms[k])
            &&& t.2 as int == sat_add(t.1 as nat, qlen)
        },
    decreases ms.len(),
{
    if ms.len() > 0 && ms[0] <= text.len() {
        let rest = ms.skip(1);
        lemma_match_triples_read(text, rest, qlen);
        lemma_index_in_row(text, ms[0]);
        lemma_count_nl_le_len(text);
        let tr = match_triples(text, ms, qlen);
        let col = col_of(text, ms[0]);
        lemma_line(text, row_of(text, ms[0]) as nat);
        assert(0 <= col <= ms[0]);
        assert(row_of(text, ms[0]) <= text.len());
        assert(tr[0] == (row_of(text, ms[0]) as usize, col as usize, sat_add(col as nat, qlen) as usize));
        assert forall|k: int| 0 < k < tr.len() implies tr[k] == match_triples(text, rest, qlen)[k - 1]
            && ms[k] == rest[k - 1] by {}
        assert forall|k: int| 0 <= k < tr.len() implies {
            let t = #[trigger] tr[k];
            &&& ms[k] <= text.len()
            &&& t.0 as int == row_of(text, ms[k])
            &&& t.1 as int == col_of(text, ms[k])
            &&& t.2 as int == sat_add(t.1 as nat, qlen)
        } by {
            if k > 0 {
                assert(tr[k] == match_triples(text, rest, qlen)[k - 1]);
            }
        }
    }
}

/// Search reports occurrences, the first one included: every match it gives
/// names, by its row and column, a place `m` of the text where the query
/// occurs (in the lowercased text, when case is ignored, the query
/// lowercased too), its end column lies the query's length further, and
/// when the query occurs within the text the first match is its first
/// occurrence.
pub proof fn law_search_reports_occurrences(text: Seq<char>, query: Seq<char>, case_insensitive: bool)
    requires
        text.len() <= usize::MAX,
        query.len() > 0,
        case_insensitive ==> lowercase(query).len() > 0,
    ensures
        forall|k: int| 0 <= k < search_spec(text, query, case_insensitive).len() ==> {
            let t = #[trigger] search_spec(text, query, case_insensitive)[k];
            let m = pos_index(text, t.0 as int, t.1 as int);
            &&& 0 <= m <= text.len()
            &&& valid_pos(text, t.0 as int, t.1 as int)
            &&& if case_insensitive {
                occurs_at(lowercase(text), lowercase(query), m)
            } else {
                occurs_at(text, query, m)
            }
            &&& t.2 as int == sat_add(t.1 as nat, query.len())
        },
        forall|m: int|
            0 <= m <= text.len() && (if case_insensitive {
                occurs_at(lowercase(text), lowercase(query), m) && forall|j: int|
                    0 <= j < m ==> !occurs_at(lowercase(text), lowercase(query), j)
            } else {
                occurs_at(text, query, m) && forall|j: int| 0 <= j < m ==> !occurs_at(text, query, j)
            }) ==> search_spec(text, query, case_insensitive).len() > 0 && pos_index(
                text,
                search_spec(text, query, case_insensitive)[0].0 as int,
                search_spec(text, query, case_insensitive)[0].1 as int,
            ) == m,
{
    let h = if case_insensitive { lowercase(text) } else { text };
    let n = if case_insensitive { lowercase(query) } else { query };
    let ms = match_positions(h, n, 0);
    lemma_match_positions_occur(h, n, 0);
    lemma_match_triples_read(text, ms, query.len());
    let r = search_spec(text, query, case_insensitive);
    assert(r == match_triples(text, ms, query.len()));
    assert forall|k: int| 0 <= k < r.len() implies {
        let t = #[trigger] r[k];
        let m = pos_index(text, t.0 as int, t.1 as int);
        &&& 0 <= m <= text.len()
        &&& valid_pos(text, t.0 as int, t.1 as int)
        &&& occurs_at(h, n, m)
        &&& t.2 as int == sat_add(t.1 as nat, query.len())
    } by {
        assert(r[k] == match_triples(text, ms, query.len())[k]);
        lemma_index_in_row(text, ms[k]);
        assert(occurs_at(h, n, ms[k]));
    }
    assert forall|m: int|
        0 <= m <= text.len() && occurs_at(h, n, m) && (forall|j: int| 0 <= j < m ==> !occurs_at(h, n, j))
        implies r.len() > 0 && pos_index(text, r[0].0 as int, r[0].1 as int) == m by {
        lemma_find_from(h, n, 0);
        assert(h.len() > 0);
        match find_from(h, n, 0) {
            Some(f) => {
                if f < m {
                    assert(!occurs_at(h, n, f));
                }
                if m < f {
                    assert(!occurs_at(h, n, m));
                }
                assert(ms[0] == m);
                lemma_index_in_row(text, m);
            },
            None => {
                assert(!occurs_at(h, n, m));
            },
        }
    }
}

/// Ignoring case, the query's own case does not matter: two queries of the
/// same length that lowercase alike find the same matches.
pub proof fn law_case_insensitive_search_ignores_query_case(text: Seq<char>, q1: Seq<char>, q2: Seq<char>)
    requires
        q1.len() == q2.len(),
        lowercase(q1) == lowercase(q2),
    ensures
        search_spec(text, q1, true) == search_spec(text, q2, true),
{
}

/// Typing a char, then Ctrl+Z, then Ctrl+Y: the undo takes the char out
/// again and the redo puts it back, so the text is the typed one once more,
/// with "Undone" and then "Redone" said.
pub proof fn law_type_undo_redo_keys(
    o: Editor,
    m: Editor,
    n: Editor,
    p: Editor,
    ch: char,
    r1: Effect,
    r2: Effect,
    r3: Effect,
)
    requires
        o.wf(),
        m.wf(),
        n.wf(),
        o.focus is Edit,
        !o.help_visible,
        !o.buf.readonly,
        ch != '\n',
        !o.history@.squashable(cursor_idx(o) as usize),
        key_step(o, m, KeyEvent { code: KeyCode::Char(ch), modifiers: KeyModifiers::NONE }, r1, false),
        key_step(m, n, KeyEvent { code: KeyCode::Char('z'), modifiers: KeyModifiers::CONTROL }, r2, false),
        key_step(n, p, KeyEvent { code: KeyCode::Char('y'), modifiers: KeyModifiers::CONTROL }, r3, false),
    ensures
        m.buf.text() == o.buf.text().take(cursor_idx(o)) + seq![ch] + o.buf.text().skip(cursor_idx(o)),
        n.buf.text() == o.buf.text(),
        n.message@ == "Undone"@,
        p.buf.text() == m.buf.text(),
        p.message@ == "Redone"@,
{
    let k1 = KeyEvent { code: KeyCode::Char(ch), modifiers: KeyModifiers::NONE };
    let k2 = KeyEvent { code: KeyCode::Char('z'), modifiers: KeyModifiers::CONTROL };
    let k3 = KeyEvent { code: KeyCode::Char('y'), modifiers: KeyModifiers::CONTROL };
    let o1 = choose|x: Editor| prepared(o, x, k1) && routed(x, m, k1, r1, false);
    assert(inserted_char(o1, m, ch));
    let m1 = choose|x: Editor| prepared(m, x, k2) && routed(x, n, k2, r2, false);
    assert(undone(m1, n));
    let n1 = choose|x: Editor| prepared(n, x, k3) && routed(x, p, k3, r3, false);
    assert(redone(n1, p));
    let t = o.buf.text();
    let k = cursor_idx(o);
    lemma_valid_pos(t, o.cursor_row as int, o.cursor_col as int);
    lemma_insert_then_delete(t, k as usize, seq![ch]);
}

/// The char the scan for display column `target` stops at starts at or
/// before `target`, and the next one (when the scan could go on) ends past it.
proof fn lemma_char_at_display_covers(
    line: Seq<char>,
    target: nat,
    max_chars: nat,
    tab_width: nat,
    idx: nat,
    col: nat,
)
    requires
        idx <= max_chars <= line.len(),
        col == display_col_spec(line, idx as int, tab_width),
        col <= target,
    ensures
        ({
            let c = char_at_display_from(line, target, max_chars, tab_width, idx, col);
            &&& idx <= c <= max_chars
            &&& display_col_spec(line, c as int, tab_width) <= target
            &&& (c == max_chars || display_col_spec(line, c + 1int, tab_width) > target)
        }),
    decreases line.len() - idx,
{
    if idx < max_chars {
        let w = crate::display::cdw(line[idx as int], col, tab_width);
        assert(display_col_spec(line, idx + 1int, tab_width) == sat_add(col, w));
        if sat_add(col, w) <= target {
            lemma_char_at_display_covers(line, target, max_chars, tab_width, idx + 1, sat_add(col, w));
        }
    }
}

/// The column that line `row` has under display column `goal`: the last
/// char that starts at or before `goal`, or the end of the line.
pub open spec fn under_column(text: Seq<char>, row: nat, goal: nat, tab_width: nat, col: nat) -> bool {
    let line = crate::lines::line_with_break(text, row);
    &&& col <= line_len(text, row)
    &&& display_col_spec(line, col as int, tab_width) <= goal
    &&& (col == line_len(text, row) || display_col_spec(line, col + 1int, tab_width) > goal)
}

proof fn lemma_snap_col_under(text: Seq<char>, row: nat, goal: nat, tab_width: nat)
    requires
        row <= count_nl(text),
    ensures
        under_column(text, row, goal, tab_width, snap_col(text, row, goal, tab_width)),
{
    lemma_line(text, row);
    if row < count_nl(text) {
        lemma_line(text, row + 1);
    }
    let line = crate::lines::line_with_break(text, row);
    assert(line_len(text, row) <= line.len());
    assert(display_col_spec(line, 0, tab_width) == 0);
    lemma_char_at_display_covers(line, goal, line_len(text, row) as nat, tab_width, 0, 0);
}

/// Moving up or down a line, or a screen, keeps the goal column, and the
/// cursor lands under it: on the last char that starts at or before the
/// goal column, or at the end of a shorter line.  So passing over a short
/// line does not lose the column the cursor came from.
pub proof fn law_vertical_moves_keep_goal(o: Editor, n: Editor)
    requires
        o.wf(),
        moved_up(o, n) || moved_down(o, n) || paged_up(o, n) || paged_down(o, n),
    ensures
        n.goal_col == o.goal_col,
        n.cursor_row <= count_nl(o.buf.text()),
        n.cursor_row != o.cursor_row ==> under_column(
            o.buf.text(),
            n.cursor_row as nat,
            o.goal_col as nat,
            o.cfg.tab_width as nat,
            n.cursor_col as nat,
        ),
{
    crate::lines::lemma_count_nl_le_len(o.buf.text());
    if n.cursor_row != o.cursor_row {
        lemma_snap_col_under(o.buf.text(), n.cursor_row as nat, o.goal_col as nat, o.cfg.tab_width as nat);
    }
}

/// A left click on a text row puts the cursor on that row, on the char drawn
/// under the pointer: the screen column, shifted by the horizontal scroll
/// and less the line-number gutter, is the display column the char covers
/// (or the cursor goes to the end of a shorter line).
pub proof fn law_click_lands_under_pointer(o: Editor, n: Editor, e: MouseEvent)
    requires
        o.wf(),
        e.kind == MouseEventKind::LeftDown,
        0 < e.row,
        e.row + 2 < o.height,
        o.top + e.row - 1 < num_lines(o.buf.text()),
        e.column + o.left <= usize::MAX,
        mouse_handled(o, n, e),
    ensures
        n.cursor_row == o.top + e.row - 1,
        under_column(
            o.buf.text(),
            n.cursor_row as nat,
            if e.column + o.left >= gutter_spec(o) {
                (e.column + o.left - gutter_spec(o)) as nat
            } else {
                0
            },
            o.cfg.tab_width as nat,
            n.cursor_col as nat,
        ),
{
    let row = (o.top + e.row - 1) as nat;
    let target = crate::session::click_target(o, e.column as nat);
    lemma_snap_col_under(o.buf.text(), row, target, o.cfg.tab_width as nat);
}

} // verus!
