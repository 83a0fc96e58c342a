//! Switching between open buffers, recording and playing macros, the OS
//! clipboard, and the mouse.
use crate::buffer::{crlf_to_lf, replace_crlf};
use crate::display::{char_at_display, sat_add};
use crate::edit::{pasted, unchanged};
use crate::editor::{
    cursor_at, gutter_spec, only_cursor, same_doc, same_ui, same_view, snap_col,
    exceeds_kb, syntax_for_buf, syntax_rules_spec, text_height_spec, too_large, Editor, Effect,
    Focus, ParkedBuffer,
};
use crate::history::History;
use std::collections::VecDeque;
use crate::keys::{KeyEvent, MouseEvent, MouseEventKind};
use crate::lines::{num_lines, valid_pos};
use crate::text::{chars_of, decimal, decimal_string, push_str, string_of};
use vstd::prelude::*;

verus! {

/// The path of a buffer as a char sequence.
pub open spec fn path_view(p: Option<String>) -> Option<Seq<char>> {
    match p {
        Some(s) => Some(s@),
        None => None,
    }
}

/// The settings, the prompt and the macros are unchanged.
pub open spec fn same_settings(o: Editor, n: Editor) -> bool {
    &&& same_ui(o, n)
    &&& n.last_search == o.last_search
    &&& n.cfg == o.cfg
    &&& n.theme == o.theme
    &&& n.kill == o.kill
    &&& n.macro_recording == o.macro_recording
    &&& n.macro_saved == o.macro_saved
    &&& n.replay == o.replay
    &&& n.width == o.width
    &&& n.height == o.height
}

/// `n` shows `p`'s buffer with its cursor and viewport, with a fresh history
/// and the syntax rules for its file (highlighting as for an empty file
/// until its size is known).
pub open spec fn shows_parked(o: Editor, n: Editor, p: ParkedBuffer) -> bool {
    &&& n.buf == p.buf
    &&& n.cursor_row == p.cursor_row
    &&& n.cursor_col == p.cursor_col
    &&& n.goal_col == p.goal_col
    &&& n.top == p.top
    &&& n.left == p.left
    &&& n.history@.undo.len() == 0
    &&& n.history@.redo.len() == 0
    &&& n.history@.max_depth == if o.cfg.undo_depth >= 1 {
        o.cfg.undo_depth as nat
    } else {
        1
    }
    &&& n.syntax_rules@ == syntax_rules_spec(path_view(p.buf.path))
    &&& n.highlight_disabled == !o.cfg.syntax
}

/// The current buffer as it is parked.
pub open spec fn parked_now(o: Editor) -> ParkedBuffer {
    ParkedBuffer {
        buf: o.buf,
        cursor_row: o.cursor_row,
        cursor_col: o.cursor_col,
        goal_col: o.goal_col,
        top: o.top,
        left: o.left,
    }
}

/// The message naming the buffer shown: `Buffer i/n`.
pub open spec fn buffer_msg(idx: nat, total: nat) -> Seq<char> {
    "Buffer "@ + decimal(idx + 1) + "/"@ + decimal(total)
}

/// The next buffer is shown; the current one is parked last.
pub open spec fn switched_next(o: Editor, n: Editor) -> bool {
    if o.buf_total <= 1 {
        unchanged(o, n) && n.top == o.top && n.left == o.left
    } else {
        &&& same_settings(o, n)
        &&& shows_parked(o, n, o.parked_bufs@[0])
        &&& n.parked_bufs@ == o.parked_bufs@.drop_first().push(parked_now(o))
        &&& n.buf_idx == (o.buf_idx + 1) % (o.buf_total as int)
        &&& n.buf_total == o.buf_total
    }
}

/// The previous buffer is shown; the current one is parked first.
pub open spec fn switched_prev(o: Editor, n: Editor) -> bool {
    if o.buf_total <= 1 {
        unchanged(o, n) && n.top == o.top && n.left == o.left
    } else {
        &&& same_settings(o, n)
        &&& shows_parked(o, n, o.parked_bufs@.last())
        &&& n.parked_bufs@ == seq![parked_now(o)] + o.parked_bufs@.drop_last()
        &&& n.buf_idx == if o.buf_idx == 0 {
            o.buf_total - 1
        } else {
            o.buf_idx - 1
        }
        &&& n.buf_total == o.buf_total
    }
}

/// Everything but the macros and the message is unchanged.
pub open spec fn only_macros(o: Editor, n: Editor) -> bool {
    &&& same_doc(o, n)
    &&& same_view(o, n)
    &&& same_ui(o, n)
    &&& n.cursor_row == o.cursor_row
    &&& n.cursor_col == o.cursor_col
    &&& n.goal_col == o.goal_col
    &&& n.last_search == o.last_search
    &&& n.cfg == o.cfg
    &&& n.theme == o.theme
    &&& n.syntax_rules == o.syntax_rules
    &&& n.highlight_disabled == o.highlight_disabled
    &&& n.parked_bufs == o.parked_bufs
    &&& n.buf_idx == o.buf_idx
    &&& n.buf_total == o.buf_total
}

/// Recording starts, or stops: the keys recorded, but the last (the key
/// that stopped it), become the macro.
pub open spec fn recording_toggled(o: Editor, n: Editor) -> bool {
    &&& only_macros(o, n)
    &&& n.replay == o.replay
    &&& n.macro_recording == !o.macro_recording
    &&& n.macro_buf@.len() == 0
    &&& if o.macro_recording {
        &&& n.macro_saved@ == if o.macro_buf@.len() > 0 {
            o.macro_buf@.drop_last()
        } else {
            o.macro_buf@
        }
        &&& n.message@ == "Macro recorded ("@ + decimal(n.macro_saved@.len()) + " keys)"@
    } else {
        &&& n.macro_saved == o.macro_saved
        &&& n.message@ == "Recording macro…"@
    }
}

/// The macro's keys are queued for playback, before any still queued.
pub open spec fn macro_played(o: Editor, n: Editor) -> bool {
    &&& only_macros(o, n)
    &&& n.macro_recording == o.macro_recording
    &&& n.macro_saved == o.macro_saved
    &&& n.macro_buf == o.macro_buf
    &&& if o.macro_saved@.len() == 0 {
        n.replay == o.replay && n.message@ == "No macro recorded (use Ctrl+R to record)"@
    } else if o.macro_recording {
        n.replay == o.replay && n.message@ == "Cannot play macro while recording"@
    } else {
        n.replay@ == o.macro_saved@ + o.replay@ && n.message == o.message
    }
}

/// Text from the clipboard with every CRLF and every lone CR made an LF.
pub open spec fn clipboard_text(s: Seq<char>) -> Seq<char> {
    crlf_to_lf(s).map_values(|c: char| if c == '\r' { '\n' } else { c })
}

/// The column a click at screen column `sc` points at.
pub open spec fn click_target(e: Editor, sc: nat) -> nat {
    let x = sat_add(sc, e.left as nat);
    if x >= gutter_spec(e) {
        (x - gutter_spec(e)) as nat
    } else {
        0
    }
}

/// What the mouse did: a left click on the text puts the cursor there and
/// closes any prompt; scrolling moves the viewport by three lines, keeping
/// the cursor in view.
pub open spec fn mouse_handled(o: Editor, n: Editor, e: MouseEvent) -> bool {
    let lines = num_lines(o.buf.text());
    let sr = e.row as int;
    match e.kind {
        MouseEventKind::LeftDown => {
            if sr == 0 || sr + 2 >= o.height || o.top + sr - 1 >= lines {
                unchanged(o, n) && same_view(o, n) && n.message == o.message
            } else {
                let row = o.top + sr - 1;
                &&& same_doc(o, n)
                &&& same_view(o, n)
                &&& crate::editor::same_session(o, n)
                &&& n.help_visible == o.help_visible && n.help_scroll == o.help_scroll
                &&& n.should_quit == o.should_quit
                &&& n.focus is Edit
                &&& n.message@.len() == 0
                &&& cursor_at(
                    n,
                    row,
                    snap_col(o.buf.text(), row as nat, click_target(o, e.column as nat), o.cfg.tab_width as nat) as int,
                )
            }
        },
        MouseEventKind::ScrollDown => {
            let top = if o.top + 3 < lines - 1 {
                o.top + 3
            } else {
                lines - 1
            };
            &&& only_cursor_and_top(o, n)
            &&& n.top == top
            &&& n.message == o.message
            &&& if o.cursor_row < top {
                n.cursor_row == top && n.cursor_col == snap_col(
                    o.buf.text(),
                    top as nat,
                    o.goal_col as nat,
                    o.cfg.tab_width as nat,
                ) && n.goal_col == o.goal_col
            } else {
                n.cursor_row == o.cursor_row && n.cursor_col == o.cursor_col && n.goal_col == o.goal_col
            }
        },
        MouseEventKind::ScrollUp => {
            let top = if o.top >= 3 {
                o.top - 3
            } else {
                0
            };
            let h = text_height_spec(o);
            &&& only_cursor_and_top(o, n)
            &&& n.top == top
            &&& n.message == o.message
            &&& if o.cursor_row >= top + h {
                n.cursor_row == top + h - 1 && n.cursor_col == snap_col(
                    o.buf.text(),
                    (top + h - 1) as nat,
                    o.goal_col as nat,
                    o.cfg.tab_width as nat,
                ) && n.goal_col == o.goal_col
            } else {
                n.cursor_row == o.cursor_row && n.cursor_col == o.cursor_col && n.goal_col == o.goal_col
            }
        },
        MouseEventKind::Other => unchanged(o, n) && same_view(o, n) && n.message == o.message,
    }
}

/// Only the cursor, the goal column and the first row shown may have changed.
pub open spec fn only_cursor_and_top(o: Editor, n: Editor) -> bool {
    &&& same_doc(o, n)
    &&& same_ui(o, n)
    &&& crate::editor::same_session(o, n)
    &&& n.left == o.left
    &&& n.width == o.width
    &&& n.height == o.height
}

impl Editor {
    /// Show the next open buffer, parking the current one.  The caller
    /// measures the new buffer's file when asked to.
    pub fn next_buffer(&mut self) -> (r: Effect)
        requires
            old(self).wf(),
            old(self).focus is Edit,
        ensures
            final(self).wf(),
            switched_next(*old(self), *final(self)),
            final(self).macro_buf == old(self).macro_buf,
            final(self).message@ == if old(self).buf_total <= 1 {
                "Only one buffer open"@
            } else {
                buffer_msg(final(self).buf_idx as nat, final(self).buf_total as nat)
            },
            r == if old(self).buf_total > 1 && final(self).buf.path is Some {
                Effect::MeasureFile(final(self).buf.path->0)
            } else {
                Effect::Nothing
            },
    {
        if self.buf_total <= 1 {
            self.message = "Only one buffer open".to_owned();
            return Effect::Nothing;
        }
        let ghost o = *self;
        let p = self.parked_bufs.pop_front().unwrap();
        let ParkedBuffer { buf, cursor_row, cursor_col, goal_col, top, left } = p;
        let mut new_buf = buf;
        std::mem::swap(&mut new_buf, &mut self.buf);
        self.parked_bufs.push_back(
            ParkedBuffer {
                buf: new_buf,
                cursor_row: self.cursor_row,
                cursor_col: self.cursor_col,
                goal_col: self.goal_col,
                top: self.top,
                left: self.left,
            },
        );
        self.cursor_row = cursor_row;
        self.cursor_col = cursor_col;
        self.goal_col = goal_col;
        self.top = top;
        self.left = left;
        self.buf_idx = (self.buf_idx + 1) % self.buf_total;
        let (rules, dis) = syntax_for_buf(&self.buf, &self.cfg, 0);
        self.syntax_rules = rules;
        self.highlight_disabled = dis;
        self.history = History::new(self.cfg.undo_depth);
        self.message = buffer_message(self.buf_idx, self.buf_total);
        proof {
            assert(self.parked_bufs@ =~= o.parked_bufs@.drop_first().push(parked_now(o)));
            assert forall|i: int| 0 <= i < self.parked_bufs@.len() implies crate::editor::parked_ok(
                #[trigger] self.parked_bufs@[i],
            ) by {
                if i < self.parked_bufs@.len() - 1 {
                    assert(self.parked_bufs@[i] == o.parked_bufs@[i + 1]);
                }
            }
            assert(crate::editor::parked_ok(o.parked_bufs@[0]));
        }
        match &self.buf.path {
            Some(path) => Effect::MeasureFile(path.clone()),
            None => Effect::Nothing,
        }
    }

    /// Show the previous open buffer, parking the current one first.  The
    /// caller measures the new buffer's file when asked to.
    pub fn prev_buffer(&mut self) -> (r: Effect)
        requires
            old(self).wf(),
            old(self).focus is Edit,
        ensures
            final(self).wf(),
            switched_prev(*old(self), *final(self)),
            final(self).macro_buf == old(self).macro_buf,
            final(self).message@ == if old(self).buf_total <= 1 {
                "Only one buffer open"@
            } else {
                buffer_msg(final(self).buf_idx as nat, final(self).buf_total as nat)
            },
            r == if old(self).buf_total > 1 && final(self).buf.path is Some {
                Effect::MeasureFile(final(self).buf.path->0)
            } else {
                Effect::Nothing
            },
    {
        if self.buf_total <= 1 {
            self.message = "Only one buffer open".to_owned();
            return Effect::Nothing;
        }
        let ghost o = *self;
        let p = self.parked_bufs.pop_back().unwrap();
        let ParkedBuffer { buf, cursor_row, cursor_col, goal_col, top, left } = p;
        let mut new_buf = buf;
        std::mem::swap(&mut new_buf, &mut self.buf);
        self.parked_bufs.push_front(
            ParkedBuffer {
                buf: new_buf,
                cursor_row: self.cursor_row,
                cursor_col: self.cursor_col,
                goal_col: self.goal_col,
                top: self.top,
                left: self.left,
            },
        );
        self.cursor_row = cursor_row;
        self.cursor_col = cursor_col;
        self.goal_col = goal_col;
        self.top = top;
        self.left = left;
        self.buf_idx = if self.buf_idx == 0 {
            self.buf_total - 1
        } else {
            self.buf_idx - 1
        };
        let (rules, dis) = syntax_for_buf(&self.buf, &self.cfg, 0);
        self.syntax_rules = rules;
        self.highlight_disabled = dis;
        self.history = History::new(self.cfg.undo_depth);
        self.message = buffer_message(self.buf_idx, self.buf_total);
        proof {
            assert(self.parked_bufs@ =~= seq![parked_now(o)] + o.parked_bufs@.drop_last());
            assert forall|i: int| 0 <= i < self.parked_bufs@.len() implies crate::editor::parked_ok(
                #[trigger] self.parked_bufs@[i],
            ) by {
                if i > 0 {
                    assert(self.parked_bufs@[i] == o.parked_bufs@[i - 1]);
                }
            }
            assert(crate::editor::parked_ok(o.parked_bufs@[o.parked_bufs@.len() - 1]));
        }
        match &self.buf.path {
            Some(path) => Effect::MeasureFile(path.clone()),
            None => Effect::Nothing,
        }
    }

    /// Report the size in bytes of the shown buffer's file: highlighting is
    /// off for a file larger than the configured limit.
    pub fn set_file_size(&mut self, file_size: u64)
        requires
            old(self).wf(),
        ensures
            final(self).wf(),
            final(self).highlight_disabled == (too_large(file_size, old(self).cfg.highlight_max_kb)
                || !old(self).cfg.syntax),
            final(self).syntax_rules == old(self).syntax_rules,
            final(self).cfg == old(self).cfg,
            same_doc(*old(self), *final(self)),
            same_view(*old(self), *final(self)),
            same_ui(*old(self), *final(self)),
            final(self).cursor_row == old(self).cursor_row,
            final(self).cursor_col == old(self).cursor_col,
            final(self).message == old(self).message,
            final(self).macro_buf == old(self).macro_buf,
            final(self).parked_bufs == old(self).parked_bufs,
    {
        self.highlight_disabled = exceeds_kb(file_size, self.cfg.highlight_max_kb) || !self.cfg.syntax;
    }
}

impl Editor {
    /// Start recording a macro, or stop and keep what was recorded.
    pub fn macro_toggle_record(&mut self)
        requires
            old(self).wf(),
        ensures
            final(self).wf(),
            recording_toggled(*old(self), *final(self)),
    {
        if self.macro_recording {
            self.macro_recording = false;
            let _ = self.macro_buf.pop();
            let mut taken: Vec<KeyEvent> = Vec::new();
            std::mem::swap(&mut taken, &mut self.macro_buf);
            self.macro_saved = taken;
            let mut m = String::new();
            push_str(&mut m, "Macro recorded (");
            let n = decimal_string(self.macro_saved.len());
            push_str(&mut m, n.as_str());
            push_str(&mut m, " keys)");
            self.message = m;
        } else {
            self.macro_recording = true;
            self.macro_buf.clear();
            self.message = "Recording macro…".to_owned();
        }
    }

    /// Play the macro back: its keys are queued, to be handled one by one by
    /// [`Editor::continue_replay`] (which [`Editor::handle_key`] runs after
    /// an Alt+R).
    pub fn macro_play(&mut self)
        requires
            old(self).wf(),
        ensures
            final(self).wf(),
            macro_played(*old(self), *final(self)),
    {
        if self.macro_saved.len() == 0 {
            self.message = "No macro recorded (use Ctrl+R to record)".to_owned();
            return;
        }
        if self.macro_recording {
            self.message = "Cannot play macro while recording".to_owned();
            return;
        }
        let mut q: VecDeque<KeyEvent> = VecDeque::new();
        std::mem::swap(&mut q, &mut self.replay);
        let ghost old_replay = q@;
        let mut i = self.macro_saved.len();
        while i > 0
            invariant
                i <= self.macro_saved@.len(),
                q@ == self.macro_saved@.skip(i as int) + old_replay,
            decreases i,
        {
            i = i - 1;
            let k = self.macro_saved[i];
            q.push_front(k);
            assert(q@ =~= self.macro_saved@.skip(i as int) + old_replay);
        }
        assert(self.macro_saved@.skip(0) =~= self.macro_saved@);
        assert forall|j: int| 0 <= j < q@.len() implies crate::keys::key_ok(#[trigger] q@[j]) by {
            if j < self.macro_saved@.len() {
                assert(q@[j] == self.macro_saved@[j]);
            } else {
                assert(q@[j] == old_replay[j - self.macro_saved@.len()]);
            }
        }
        self.replay = q;
    }

    /// The next key of a macro being played back, if any; none once the
    /// editor is quitting (the rest of the macro is dropped).
    pub fn next_replay_key(&mut self) -> (r: Option<KeyEvent>)
        requires
            old(self).wf(),
        ensures
            final(self).wf(),
            *final(self) == (Editor { replay: final(self).replay, ..*old(self) }),
            only_macros(*old(self), *final(self)),
            final(self).message == old(self).message,
            final(self).macro_recording == old(self).macro_recording,
            final(self).macro_saved == old(self).macro_saved,
            final(self).macro_buf == old(self).macro_buf,
            final(self).should_quit == old(self).should_quit,
            old(self).should_quit ==> r is None && final(self).replay@.len() == 0,
            !old(self).should_quit ==> match r {
                Some(k) => old(self).replay@.len() > 0 && k == old(self).replay@[0]
                    && final(self).replay@ == old(self).replay@.drop_first() && crate::keys::key_ok(k),
                None => old(self).replay@.len() == 0 && final(self).replay@ == old(self).replay@,
            },
    {
        if self.should_quit {
            self.replay.clear();
            return None;
        }
        let r = self.replay.pop_front();
        proof {
            if old(self).replay@.len() > 0 {
                assert(self.replay@ =~= old(self).replay@.drop_first());
                assert forall|j: int| 0 <= j < self.replay@.len() implies crate::keys::key_ok(
                    #[trigger] self.replay@[j],
                ) by {
                    assert(self.replay@[j] == old(self).replay@[j + 1]);
                }
            }
        }
        r
    }

    /// Copy the kill ring to the OS clipboard: the caller does it and reports
    /// back with [`Editor::finish_copy`].
    pub fn copy_kill(&mut self) -> (r: Effect)
        requires
            old(self).wf(),
        ensures
            final(self).wf(),
            unchanged(*old(self), *final(self)),
            same_view(*old(self), *final(self)),
            final(self).macro_buf == old(self).macro_buf,
            match old(self).kill {
                Some(t) => r == Effect::CopyToClipboard(t) && final(self).message == old(self).message,
                None => r is Nothing && final(self).message@ == "Nothing to copy (use Ctrl+K first)"@,
            },
    {
        match &self.kill {
            Some(t) => Effect::CopyToClipboard(t.clone()),
            None => {
                self.message = "Nothing to copy (use Ctrl+K first)".to_owned();
                Effect::Nothing
            },
        }
    }

    /// Report whether copying to the OS clipboard worked.
    pub fn finish_copy(&mut self, ok: bool)
        requires
            old(self).wf(),
        ensures
            final(self).wf(),
            unchanged(*old(self), *final(self)),
            same_view(*old(self), *final(self)),
            final(self).macro_buf == old(self).macro_buf,
            final(self).message@ == if ok {
                "Copied to clipboard"@
            } else {
                "Clipboard unavailable (install xclip or xsel)"@
            },
    {
        self.message = if ok {
            "Copied to clipboard".to_owned()
        } else {
            "Clipboard unavailable (install xclip or xsel)".to_owned()
        };
    }

    /// Report what the OS clipboard held (`None` when it could not be read).
    /// Text that is there goes to the kill ring, with its line endings made
    /// LF, and is pasted at the cursor.
    pub fn finish_paste(&mut self, content: Option<String>)
        requires
            old(self).wf(),
            old(self).focus is Edit,
        ensures
            final(self).wf(),
            match content {
                Some(t) => if t@.len() > 0 {
                    &&& final(self).kill is Some
                    &&& final(self).kill->0@ == clipboard_text(t@)
                    &&& pasted(Editor { kill: final(self).kill, ..*old(self) }, *final(self))
                    &&& final(self).message@ == "Pasted from clipboard"@
                    &&& final(self).macro_buf == old(self).macro_buf
                } else {
                    unchanged(*old(self), *final(self)) && same_view(*old(self), *final(self))
                        && final(self).message@ == "Clipboard empty or unavailable"@
                        && final(self).macro_buf == old(self).macro_buf
                },
                None => unchanged(*old(self), *final(self)) && same_view(*old(self), *final(self))
                    && final(self).message@ == "Clipboard empty or unavailable"@
                    && final(self).macro_buf == old(self).macro_buf,
            },
    {
        match content {
            Some(t) => {
                if t.as_str().is_empty() {
                    self.message = "Clipboard empty or unavailable".to_owned();
                    return;
                }
                let chars = chars_of(t.as_str());
                let lf = replace_crlf(&chars);
                let norm = lone_cr_to_lf(lf.as_str());
                self.kill = Some(norm);
                let ghost mid = *self;
                self.paste();
                self.message = "Pasted from clipboard".to_owned();
                assert(mid == Editor { kill: self.kill, ..*old(self) });
            },
            None => {
                self.message = "Clipboard empty or unavailable".to_owned();
            },
        }
    }
}

impl Editor {
    /// React to the mouse: a left click on the text moves the cursor there
    /// (closing any prompt); the wheel scrolls by three lines.
    pub fn handle_mouse(&mut self, e: MouseEvent)
        requires
            old(self).wf(),
        ensures
            final(self).wf(),
            mouse_handled(*old(self), *final(self), e),
            final(self).macro_buf == old(self).macro_buf,
    {
        let lines = self.buf.len_lines();
        match e.kind {
            MouseEventKind::LeftDown => {
                let sr = e.row as usize;
                let sc = e.column as usize;
                let gutter = self.gutter_width();
                if sr == 0 || sr + 2 >= self.height {
                    return;
                }
                if self.top >= lines || sr - 1 >= lines - self.top {
                    return;
                }
                self.cursor_row = self.top + (sr - 1);
                let x = if self.left > usize::MAX - sc {
                    usize::MAX
                } else {
                    sc + self.left
                };
                let target_col = if x >= gutter {
                    x - gutter
                } else {
                    0
                };
                let max = self.buf.line_len_chars(self.cursor_row);
                let line = self.buf.line(self.cursor_row);
                self.cursor_col = char_at_display(line.as_slice(), target_col, max, self.cfg.tab_width);
                self.update_goal();
                self.focus = Focus::Edit;
                self.message = String::new();
            },
            MouseEventKind::ScrollDown => {
                self.top = if self.top < lines - 1 && 3 < lines - 1 - self.top {
                    self.top + 3
                } else {
                    lines - 1
                };
                if self.cursor_row < self.top {
                    self.cursor_row = self.top;
                    self.snap_to_goal();
                }
            },
            MouseEventKind::ScrollUp => {
                self.top = if self.top >= 3 {
                    self.top - 3
                } else {
                    0
                };
                let h = self.text_height();
                if self.cursor_row >= self.top && self.cursor_row - self.top >= h {
                    self.cursor_row = self.top + h - 1;
                    self.snap_to_goal();
                }
            },
            MouseEventKind::Other => {},
        }
    }
}

/// `s` with every CR made an LF.
fn lone_cr_to_lf(s: &str) -> (r: String)
    ensures
        r@ == s@.map_values(|c: char| if c == '\r' { '\n' } else { c }),
{
    let v = chars_of(s);
    let mut out = String::new();
    let mut i: usize = 0;
    while i < v.len()
        invariant
            i <= v@.len(),
            v@ == s@,
            out@ == s@.take(i as int).map_values(|c: char| if c == '\r' { '\n' } else { c }),
        decreases v.len() - i,
    {
        let c = v[i];
        crate::text::string_push(&mut out, if c == '\r' { '\n' } else { c });
        i = i + 1;
        assert(out@ =~= s@.take(i as int).map_values(|c: char| if c == '\r' { '\n' } else { c }));
    }
    assert(s@.take(v@.len() as int) =~= s@);
    out
}

/// `Buffer i/n`.
fn buffer_message(idx: usize, total: usize) -> (s: String)
    requires
        idx < total,
    ensures
        s@ == buffer_msg(idx as nat, total as nat),
{
    let mut s = String::new();
    push_str(&mut s, "Buffer ");
    let a = decimal_string(idx + 1);
    push_str(&mut s, a.as_str());
    push_str(&mut s, "/");
    let b = decimal_string(total);
    push_str(&mut s, b.as_str());
    s
}

} // verus!
