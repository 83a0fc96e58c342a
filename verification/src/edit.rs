//! Editing the buffer from the cursor, and undoing and redoing edits.
use crate::buffer::Buffer;
use crate::editor::{cursor_at, cursor_dcol, only_cursor, same_session, same_ui, same_view, Editor};
use crate::history::{
    apply_op_spec, lemma_apply_fits, lemma_fits_squash_fits, lemma_pushed_fits, lemma_redone_fits,
    lemma_squashed_fits, lemma_undone_fits, lemma_wf_preserved, op_fits, EntryModel, HistoryEntry, Op, OpModel,
};
use crate::lines::{
    count_nl, lemma_index_in_row, lemma_insert_char_pos, lemma_insert_nl_pos, lemma_line,
    lemma_pos_before_edit, lemma_prev_line_end, lemma_valid_pos, line_end, line_len, line_start,
    num_lines, pos_index, row_of, col_of, valid_pos,
};
use crate::text::chars_of;
use vstd::prelude::*;

verus! {

/// The message shown when an edit is refused on a read-only buffer.
pub open spec fn readonly_msg() -> Seq<char> {
    "Buffer is read-only (opened with --readonly)"@
}

/// Nothing changed (but the message and the keys being recorded).
pub open spec fn unchanged(o: Editor, n: Editor) -> bool {
    &&& only_cursor(o, n)
    &&& n.cursor_row == o.cursor_row
    &&& n.cursor_col == o.cursor_col
    &&& n.goal_col == o.goal_col
}

/// Only the document changed: the text, the cursor, the goal column, the
/// history and the kill ring; the buffer's file and mode stay.
pub open spec fn only_doc(o: Editor, n: Editor) -> bool {
    &&& same_view(o, n)
    &&& same_ui(o, n)
    &&& same_session(o, n)
    &&& n.buf.path == o.buf.path
    &&& n.buf.eol == o.buf.eol
    &&& n.buf.readonly == o.buf.readonly
    &&& n.buf.is_new == o.buf.is_new
}

/// The char index of the cursor.
pub open spec fn cursor_idx(e: Editor) -> int {
    pos_index(e.buf.text(), e.cursor_row as int, e.cursor_col as int)
}

/// A history entry.
pub open spec fn entry(
    to_undo: OpModel,
    to_redo: OpModel,
    before: (usize, usize),
    after: (usize, usize),
) -> EntryModel {
    EntryModel { to_undo, to_redo, before, after }
}

/// The row a cursor is put back on: its row, or the last one.
pub open spec fn clamp_row(t: Seq<char>, row: int) -> int {
    if row >= num_lines(t) {
        num_lines(t) - 1
    } else {
        row
    }
}

/// The column a cursor is put back on: its column, or the end of its line.
pub open spec fn clamp_col(t: Seq<char>, row: int, col: int) -> int {
    let r = clamp_row(t, row);
    if col <= line_len(t, r as nat) {
        col
    } else {
        line_len(t, r as nat)
    }
}

/// The cursor was brought back into the text from `(row, col)`.
pub open spec fn clamped_from(n: Editor, row: int, col: int) -> bool {
    cursor_at(n, clamp_row(n.buf.text(), row), clamp_col(n.buf.text(), row, col))
}

/// A typed char: it goes in at the cursor, which moves past it.  The edit
/// extends the last one when that inserted text ending right here.  Either
/// way it is a new edit, so nothing is left to redo.
pub open spec fn inserted_char(o: Editor, n: Editor, ch: char) -> bool {
    if o.buf.readonly {
        unchanged(o, n)
    } else {
        let k = cursor_idx(o);
        let before = (o.cursor_row, o.cursor_col);
        let after = (o.cursor_row, (o.cursor_col + 1) as usize);
        &&& only_doc(o, n)
        &&& n.buf.text() == o.buf.text().take(k) + seq![ch] + o.buf.text().skip(k)
        &&& n.buf.dirty
        &&& cursor_at(n, o.cursor_row as int, o.cursor_col + 1)
        &&& n.kill == o.kill
        &&& n.history@.redo.len() == 0
        &&& n.history@ == if o.history@.squashable(k as usize) {
            o.history@.squashed(ch, after)
        } else {
            o.history@.pushed(
                entry(
                    OpModel::Delete { pos: k as usize, char_len: 1 },
                    OpModel::Insert { pos: k as usize, text: seq![ch] },
                    before,
                    after,
                ),
            )
        }
    }
}

/// A line break goes in at the cursor, which moves to the start of the new line.
pub open spec fn inserted_newline(o: Editor, n: Editor) -> bool {
    if o.buf.readonly {
        unchanged(o, n)
    } else {
        let k = cursor_idx(o);
        &&& only_doc(o, n)
        &&& n.buf.text() == o.buf.text().take(k) + seq!['\n'] + o.buf.text().skip(k)
        &&& n.buf.dirty
        &&& cursor_at(n, o.cursor_row + 1, 0)
        &&& n.kill == o.kill
        &&& n.history@ == o.history@.pushed(
            entry(
                OpModel::Delete { pos: k as usize, char_len: 1 },
                OpModel::Insert { pos: k as usize, text: seq!['\n'] },
                (o.cursor_row, o.cursor_col),
                ((o.cursor_row + 1) as usize, 0),
            ),
        )
    }
}

/// The char before the cursor is deleted (joining the line with the
/// previous one at the start of a line); nothing at the start of the text.
pub open spec fn deleted_back(o: Editor, n: Editor) -> bool {
    if o.buf.readonly || (o.cursor_col == 0 && o.cursor_row == 0) {
        unchanged(o, n)
    } else {
        let k = cursor_idx(o);
        let t = o.buf.text();
        let (row, col) = if o.cursor_col > 0 {
            (o.cursor_row as int, o.cursor_col - 1)
        } else {
            (o.cursor_row - 1, line_len(t, (o.cursor_row - 1) as nat))
        };
        &&& only_doc(o, n)
        &&& n.buf.text() == t.take(k - 1) + t.skip(k)
        &&& n.buf.dirty
        &&& cursor_at(n, row, col)
        &&& n.kill == o.kill
        &&& n.history@ == o.history@.pushed(
            entry(
                OpModel::Insert { pos: (k - 1) as usize, text: t.subrange(k - 1, k) },
                OpModel::Delete { pos: (k - 1) as usize, char_len: 1 },
                (o.cursor_row, o.cursor_col),
                (row as usize, col as usize),
            ),
        )
    }
}

/// The char under the cursor is deleted (joining the next line at the end
/// of a line); nothing at the end of the text.
pub open spec fn deleted_forward(o: Editor, n: Editor) -> bool {
    let t = o.buf.text();
    if o.buf.readonly || (o.cursor_col >= line_len(t, o.cursor_row as nat) && o.cursor_row + 1
        >= num_lines(t)) {
        unchanged(o, n)
    } else {
        let k = cursor_idx(o);
        &&& only_doc(o, n)
        &&& n.buf.text() == t.take(k) + t.skip(k + 1)
        &&& n.buf.dirty
        &&& cursor_at(n, o.cursor_row as int, o.cursor_col as int)
        &&& n.kill == o.kill
        &&& n.history@ == o.history@.pushed(
            entry(
                OpModel::Insert { pos: k as usize, text: t.subrange(k, k + 1) },
                OpModel::Delete { pos: k as usize, char_len: 1 },
                (o.cursor_row, o.cursor_col),
                (o.cursor_row, o.cursor_col),
            ),
        )
    }
}

/// Where the cursor's line ends, its line break included.
pub open spec fn line_span_end(t: Seq<char>, row: nat) -> int {
    if row < count_nl(t) {
        line_start(t, row + 1)
    } else {
        t.len() as int
    }
}

/// The cursor's line, with its line break, moves to the kill ring.
pub open spec fn cut(o: Editor, n: Editor) -> bool {
    if o.buf.readonly {
        unchanged(o, n)
    } else {
        let t = o.buf.text();
        let start = line_start(t, o.cursor_row as nat);
        let end = line_span_end(t, o.cursor_row as nat);
        &&& only_doc(o, n)
        &&& n.buf.text() == t.take(start) + t.skip(end)
        &&& n.buf.dirty
        &&& n.kill matches Some(k) && k@ == t.subrange(start, end)
        &&& clamped_from(n, o.cursor_row as int, o.cursor_col as int)
        &&& n.history@ == o.history@.pushed(
            entry(
                OpModel::Insert { pos: start as usize, text: t.subrange(start, end) },
                OpModel::Delete { pos: start as usize, char_len: (end - start) as usize },
                (o.cursor_row, o.cursor_col),
                (n.cursor_row, n.cursor_col),
            ),
        )
    }
}

/// The kill ring's text goes in at the cursor, which moves past it.
pub open spec fn pasted(o: Editor, n: Editor) -> bool {
    if o.buf.readonly || o.kill is None {
        unchanged(o, n)
    } else {
        let t = o.buf.text();
        let s = o.kill->Some_0@;
        let k = cursor_idx(o);
        let t2 = t.take(k) + s + t.skip(k);
        &&& only_doc(o, n)
        &&& n.buf.text() == t2
        &&& n.buf.dirty
        &&& cursor_at(n, row_of(t2, k + s.len()), col_of(t2, k + s.len()))
        &&& n.kill == o.kill
        &&& n.history@ == o.history@.pushed(
            entry(
                OpModel::Delete { pos: k as usize, char_len: s.len() as usize },
                OpModel::Insert { pos: k as usize, text: s },
                (o.cursor_row, o.cursor_col),
                (n.cursor_row, n.cursor_col),
            ),
        )
    }
}

/// The last edit is undone: its inverse is applied, it moves to the redo
/// stack, and the cursor goes back to where it was before the edit.
pub open spec fn undone(o: Editor, n: Editor) -> bool {
    if o.buf.readonly || o.history@.undo.len() == 0 {
        unchanged(o, n)
    } else {
        let e = o.history@.undo.last();
        &&& only_doc(o, n)
        &&& apply_op_spec(e.to_undo, o.buf.text()) == Some(n.buf.text())
        &&& n.buf.dirty
        &&& n.kill == o.kill
        &&& n.history@ == o.history@.undone()
        &&& clamped_from(n, e.before.0 as int, e.before.1 as int)
    }
}

/// The last undone edit is done again, and the cursor goes where it was
/// after the edit.
pub open spec fn redone(o: Editor, n: Editor) -> bool {
    if o.buf.readonly || o.history@.redo.len() == 0 {
        unchanged(o, n)
    } else {
        let e = o.history@.redo.last();
        &&& only_doc(o, n)
        &&& apply_op_spec(e.to_redo, o.buf.text()) == Some(n.buf.text())
        &&& n.buf.dirty
        &&& n.kill == o.kill
        &&& n.history@ == o.history@.redone()
        &&& clamped_from(n, e.after.0 as int, e.after.1 as int)
    }
}

/// Apply a history operation to the buffer.
fn apply_op(buf: &mut Buffer, op: &Op)
    requires
        op_fits(op@, old(buf).text().len()),
        old(buf).text().len() <= usize::MAX,
    ensures
        apply_op_spec(op@, old(buf).text()) == Some(final(buf).text()),
        final(buf).text().len() <= usize::MAX,
        final(buf).dirty,
        final(buf).path == old(buf).path,
        final(buf).eol == old(buf).eol,
        final(buf).readonly == old(buf).readonly,
        final(buf).is_new == old(buf).is_new,
{
    match op {
        Op::Insert { pos, text } => buf.insert(*pos, text.as_str()),
        Op::Delete { pos, char_len } => buf.remove(*pos..*pos + *char_len),
    }
}

impl Editor {
    /// Refuse edits on a read-only buffer, saying so.
    fn ensure_writable(&mut self) -> (ok: bool)
        ensures
            ok == !old(self).buf.readonly,
            unchanged(*old(self), *final(self)),
            final(self).message@ == if ok {
                old(self).message@
            } else {
                readonly_msg()
            },
            final(self).macro_buf == old(self).macro_buf,
    {
        if self.buf.readonly {
            self.message = "Buffer is read-only (opened with --readonly)".to_owned();
            false
        } else {
            true
        }
    }

    /// Bring the cursor back into the text: onto the last line at most, and
    /// the end of its line at most.
    fn clamp_cursor(&mut self)
        requires
            old(self).cfg.tab_width >= 1,
        ensures
            clamped_from(*final(self), old(self).cursor_row as int, old(self).cursor_col as int),
            valid_pos(final(self).buf.text(), final(self).cursor_row as int, final(self).cursor_col as int),
            final(self).buf == old(self).buf,
            final(self).history@ == old(self).history@,
            final(self).kill == old(self).kill,
            same_view(*old(self), *final(self)),
            same_ui(*old(self), *final(self)),
            same_session(*old(self), *final(self)),
            final(self).message == old(self).message,
            final(self).macro_buf == old(self).macro_buf,
    {
        let lines = self.buf.len_lines();
        if self.cursor_row >= lines {
            self.cursor_row = lines - 1;
        }
        let len = self.buf.line_len_chars(self.cursor_row);
        if self.cursor_col > len {
            self.cursor_col = len;
        }
        proof {
            lemma_line(self.buf.text(), self.cursor_row as nat);
        }
        self.update_goal();
    }

    pub fn insert_char(&mut self, ch: char)
        requires
            old(self).wf(),
            old(self).focus is Edit,
            ch != '\n',
        ensures
            final(self).wf(),
            inserted_char(*old(self), *final(self), ch),
            final(self).message@ == if old(self).buf.readonly {
                readonly_msg()
            } else {
                old(self).message@
            },
            final(self).macro_buf == old(self).macro_buf,
    {
        if !self.ensure_writable() {
            return;
        }
        let ghost o = *self;
        let ghost t = self.buf.text();
        let before = (self.cursor_row, self.cursor_col);
        let idx = self.cur_idx();
        proof {
            lemma_insert_char_pos(t, self.cursor_row as int, self.cursor_col as int, ch);
            lemma_line(t, self.cursor_row as nat);
        }
        self.buf.insert_char(idx, ch);
        self.cursor_col = self.cursor_col + 1;
        self.update_goal();
        let after = (self.cursor_row, self.cursor_col);
        proof {
            lemma_fits_squash_fits(o.history@, t.len(), idx);
        }
        let ghost h0 = self.history@;
        if !self.history.try_squash_insert(idx, ch, after) {
            let ghost e = entry(
                OpModel::Delete { pos: idx, char_len: 1 },
                OpModel::Insert { pos: idx, text: seq![ch] },
                before,
                after,
            );
            proof {
                lemma_pushed_fits(h0, e, t.len(), t.len() + 1);
            }
            self.history.push(
                HistoryEntry {
                    to_undo: Op::Delete { pos: idx, char_len: 1 },
                    to_redo: Op::Insert { pos: idx, text: char_string(ch) },
                    before,
                    after,
                },
            );
        } else {
            proof {
                lemma_squashed_fits(h0, t.len(), idx, ch, after);
                lemma_wf_preserved(h0, h0.undo.last(), ch, after);
            }
        }
    }
}

impl Editor {
    pub fn insert_newline(&mut self)
        requires
            old(self).wf(),
            old(self).focus is Edit,
        ensures
            final(self).wf(),
            inserted_newline(*old(self), *final(self)),
            final(self).message@ == if old(self).buf.readonly {
                readonly_msg()
            } else {
                old(self).message@
            },
            final(self).macro_buf == old(self).macro_buf,
    {
        if !self.ensure_writable() {
            return;
        }
        let ghost t = self.buf.text();
        let before = (self.cursor_row, self.cursor_col);
        let idx = self.cur_idx();
        proof {
            lemma_insert_nl_pos(t, self.cursor_row as int, self.cursor_col as int);
            crate::lines::lemma_count_nl_le_len(t);
        }
        self.buf.insert_char(idx, '\n');
        self.cursor_row = self.cursor_row + 1;
        self.cursor_col = 0;
        self.update_goal();
        let after = (self.cursor_row, self.cursor_col);
        let ghost h0 = self.history@;
        let ghost e = entry(
            OpModel::Delete { pos: idx, char_len: 1 },
            OpModel::Insert { pos: idx, text: seq!['\n'] },
            before,
            after,
        );
        proof {
            lemma_pushed_fits(h0, e, t.len(), t.len() + 1);
        }
        self.history.push(
            HistoryEntry {
                to_undo: Op::Delete { pos: idx, char_len: 1 },
                to_redo: Op::Insert { pos: idx, text: char_string('\n') },
                before,
                after,
            },
        );
    }

    pub fn delete_back(&mut self)
        requires
            old(self).wf(),
            old(self).focus is Edit,
        ensures
            final(self).wf(),
            deleted_back(*old(self), *final(self)),
            final(self).message@ == if old(self).buf.readonly {
                readonly_msg()
            } else {
                old(self).message@
            },
            final(self).macro_buf == old(self).macro_buf,
    {
        if !self.ensure_writable() {
            return;
        }
        if self.cursor_col == 0 && self.cursor_row == 0 {
            return;
        }
        let ghost t = self.buf.text();
        let ghost row0 = self.cursor_row as int;
        let before = (self.cursor_row, self.cursor_col);
        let idx = self.cur_idx();
        proof {
            lemma_line(t, self.cursor_row as nat);
            if self.cursor_col == 0 {
                lemma_prev_line_end(t, self.cursor_row as int);
            } else {
                lemma_valid_pos(t, self.cursor_row as int, self.cursor_col as int);
                crate::lines::lemma_row_of_in_line(t, self.cursor_row as nat, idx - 1);
            }
        }
        let deleted = self.buf.slice_string(idx - 1, idx);
        let prev_len = if self.cursor_col == 0 {
            self.buf.line_len_chars(self.cursor_row - 1)
        } else {
            0
        };
        self.buf.remove(idx - 1..idx);
        proof {
            assert(self.buf.text().take(idx - 1) =~= t.take(idx - 1));
            lemma_pos_before_edit(t, self.buf.text(), idx - 1);
        }
        if self.cursor_col > 0 {
            self.cursor_col = self.cursor_col - 1;
        } else {
            self.cursor_row = self.cursor_row - 1;
            self.cursor_col = prev_len;
        }
        self.update_goal();
        let after = (self.cursor_row, self.cursor_col);
        let ghost h0 = self.history@;
        let ghost e = entry(
            OpModel::Insert { pos: (idx - 1) as usize, text: t.subrange(idx - 1, idx as int) },
            OpModel::Delete { pos: (idx - 1) as usize, char_len: 1 },
            before,
            after,
        );
        proof {
            lemma_pushed_fits(h0, e, t.len(), (t.len() - 1) as nat);
        }
        self.history.push(
            HistoryEntry {
                to_undo: Op::Insert { pos: idx - 1, text: deleted },
                to_redo: Op::Delete { pos: idx - 1, char_len: 1 },
                before,
                after,
            },
        );
    }

    pub fn delete_forward(&mut self)
        requires
            old(self).wf(),
            old(self).focus is Edit,
        ensures
            final(self).wf(),
            deleted_forward(*old(self), *final(self)),
            final(self).message@ == if old(self).buf.readonly {
                readonly_msg()
            } else {
                old(self).message@
            },
            final(self).macro_buf == old(self).macro_buf,
    {
        if !self.ensure_writable() {
            return;
        }
        let ghost t = self.buf.text();
        let before = (self.cursor_row, self.cursor_col);
        let line_len = self.buf.line_len_chars(self.cursor_row);
        let lines = self.buf.len_lines();
        let idx = self.cur_idx();
        if self.cursor_col < line_len || self.cursor_row < lines - 1 {
            proof {
                lemma_line(t, self.cursor_row as nat);
                lemma_valid_pos(t, self.cursor_row as int, self.cursor_col as int);
            }
            let deleted = self.buf.slice_string(idx, idx + 1);
            self.buf.remove(idx..idx + 1);
            proof {
                assert(self.buf.text().take(idx as int) =~= t.take(idx as int));
                lemma_pos_before_edit(t, self.buf.text(), idx as int);
            }
            self.update_goal();
            let ghost h0 = self.history@;
            let ghost e = entry(
                OpModel::Insert { pos: idx, text: t.subrange(idx as int, idx + 1) },
                OpModel::Delete { pos: idx, char_len: 1 },
                before,
                before,
            );
            proof {
                lemma_pushed_fits(h0, e, t.len(), (t.len() - 1) as nat);
            }
            self.history.push(
                HistoryEntry {
                    to_undo: Op::Insert { pos: idx, text: deleted },
                    to_redo: Op::Delete { pos: idx, char_len: 1 },
                    before,
                    after: (self.cursor_row, self.cursor_col),
                },
            );
        }
    }
}

impl Editor {
    /// Cut the cursor's line (with its line break) into the kill ring.
    pub fn cut_line(&mut self)
        requires
            old(self).wf(),
            old(self).focus is Edit,
        ensures
            final(self).wf(),
            cut(*old(self), *final(self)),
            final(self).message@ == if old(self).buf.readonly {
                readonly_msg()
            } else {
                "Cut line"@
            },
            final(self).macro_buf == old(self).macro_buf,
    {
        if !self.ensure_writable() {
            return;
        }
        let ghost t = self.buf.text();
        let before = (self.cursor_row, self.cursor_col);
        let row = self.cursor_row;
        let lines = self.buf.len_lines();
        proof {
            lemma_line(t, row as nat);
        }
        let start = self.buf.char_idx(row, 0);
        let end = if row < lines - 1 {
            proof {
                lemma_line(t, (row + 1) as nat);
            }
            self.buf.char_idx(row + 1, 0)
        } else {
            self.buf.len_chars()
        };
        let cut_text = self.buf.slice_string(start, end);
        self.kill = Some(cut_text.clone());
        self.buf.remove(start..end);
        self.clamp_cursor();
        let after = (self.cursor_row, self.cursor_col);
        let ghost h0 = self.history@;
        let ghost e = entry(
            OpModel::Insert { pos: start, text: t.subrange(start as int, end as int) },
            OpModel::Delete { pos: start, char_len: (end - start) as usize },
            before,
            after,
        );
        proof {
            lemma_pushed_fits(h0, e, t.len(), (t.len() - (end - start)) as nat);
        }
        self.history.push(
            HistoryEntry {
                to_undo: Op::Insert { pos: start, text: cut_text },
                to_redo: Op::Delete { pos: start, char_len: end - start },
                before,
                after,
            },
        );
        self.message = "Cut line".to_owned();
    }

    /// Paste the kill ring at the cursor.
    pub fn paste(&mut self)
        requires
            old(self).wf(),
            old(self).focus is Edit,
        ensures
            final(self).wf(),
            pasted(*old(self), *final(self)),
            final(self).message@ == if old(self).buf.readonly {
                readonly_msg()
            } else if old(self).kill is None {
                "Nothing to paste"@
            } else {
                "Uncut text"@
            },
            final(self).macro_buf == old(self).macro_buf,
    {
        if !self.ensure_writable() {
            return;
        }
        let text = match &self.kill {
            Some(t) => t.clone(),
            None => {
                self.message = "Nothing to paste".to_owned();
                return;
            },
        };
        let ghost t = self.buf.text();
        let before = (self.cursor_row, self.cursor_col);
        let idx = self.cur_idx();
        let char_count = chars_of(text.as_str()).len();
        self.buf.insert(idx, text.as_str());
        let ghost t2 = self.buf.text();
        let new_idx = idx + char_count;
        proof {
            lemma_index_in_row(t2, new_idx as int);
            lemma_line(t2, row_of(t2, new_idx as int) as nat);
        }
        self.cursor_row = self.buf.char_to_line(new_idx);
        self.cursor_col = new_idx - self.buf.char_idx(self.cursor_row, 0);
        self.update_goal();
        let after = (self.cursor_row, self.cursor_col);
        let ghost h0 = self.history@;
        let ghost e = entry(
            OpModel::Delete { pos: idx, char_len: char_count },
            OpModel::Insert { pos: idx, text: text@ },
            before,
            after,
        );
        proof {
            lemma_pushed_fits(h0, e, t.len(), t2.len());
        }
        self.history.push(
            HistoryEntry {
                to_undo: Op::Delete { pos: idx, char_len: char_count },
                to_redo: Op::Insert { pos: idx, text: text },
                before,
                after,
            },
        );
        self.message = "Uncut text".to_owned();
    }

    /// Undo the last edit.
    pub fn undo(&mut self)
        requires
            old(self).wf(),
            old(self).focus is Edit,
        ensures
            final(self).wf(),
            undone(*old(self), *final(self)),
            final(self).message@ == if old(self).buf.readonly {
                readonly_msg()
            } else if old(self).history@.undo.len() == 0 {
                "Nothing to undo"@
            } else {
                "Undone"@
            },
            final(self).macro_buf == old(self).macro_buf,
    {
        if !self.ensure_writable() {
            return;
        }
        let ghost h0 = self.history@;
        let ghost t = self.buf.text();
        let entry = match self.history.pop_undo() {
            Some(e) => e,
            None => {
                self.message = "Nothing to undo".to_owned();
                return;
            },
        };
        proof {
            lemma_undone_fits(h0, t.len());
        }
        apply_op(&mut self.buf, &entry.to_undo);
        proof {
            lemma_apply_fits(entry.to_undo@, t);
        }
        self.cursor_row = entry.before.0;
        self.cursor_col = entry.before.1;
        self.clamp_cursor();
        self.message = "Undone".to_owned();
    }

    /// Redo the last undone edit.
    pub fn redo(&mut self)
        requires
            old(self).wf(),
            old(self).focus is Edit,
        ensures
            final(self).wf(),
            redone(*old(self), *final(self)),
            final(self).message@ == if old(self).buf.readonly {
                readonly_msg()
            } else if old(self).history@.redo.len() == 0 {
                "Nothing to redo"@
            } else {
                "Redone"@
            },
            final(self).macro_buf == old(self).macro_buf,
    {
        if !self.ensure_writable() {
            return;
        }
        let ghost h0 = self.history@;
        let ghost t = self.buf.text();
        let entry = match self.history.pop_redo() {
            Some(e) => e,
            None => {
                self.message = "Nothing to redo".to_owned();
                return;
            },
        };
        proof {
            lemma_redone_fits(h0, t.len());
        }
        apply_op(&mut self.buf, &entry.to_redo);
        proof {
            lemma_apply_fits(entry.to_redo@, t);
        }
        self.cursor_row = entry.after.0;
        self.cursor_col = entry.after.1;
        self.clamp_cursor();
        self.message = "Redone".to_owned();
    }
}

/// The one-char string `ch`.
fn char_string(ch: char) -> (s: String)
    ensures
        s@ == seq![ch],
{
    let mut s = String::new();
    crate::text::string_push(&mut s, ch);
    assert(s@ =~= seq![ch]);
    s
}

} // verus!
