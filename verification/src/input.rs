//! Routing keys: to the help screen, to a prompt, or to an editing command.
use crate::config::Config;
use crate::display::sat_add;
use crate::edit::{
    cut, deleted_back, deleted_forward, inserted_char, inserted_newline, pasted, readonly_msg,
    redone, undone, unchanged,
};
use crate::editor::{
    cursor_dcol, moved_down, moved_end, moved_home, moved_left, moved_right, moved_up, paged_down,
    paged_up, text_height_spec, Editor, Effect, Focus, Prompt, PromptKind,
};
use crate::keys::{key_ok, KeyCode, KeyEvent};
use crate::lines::num_lines;
use crate::prompt::{search_closed, search_edited, search_opened, search_stepped, SearchEdit};
use crate::save::{message_is, quick_saved, quit_requested, save_msg, save_prompted};
use crate::session::{
    buffer_msg, macro_played, only_macros, recording_toggled, switched_next, switched_prev,
};
use crate::text::{chars_of, decimal, decimal_string, push_str, string_of, string_pop, string_push, trim, trim_bounds};
use vstd::prelude::*;

verus! {

/// Number of lines of the help screen.
pub const HELP_LEN: usize = 42;

/// `c` is the letter `lower` in either case.
pub open spec fn letter(c: char, lower: char, upper: char) -> bool {
    c == lower || c == upper
}

/// The message an edit leaves: read-only buffers refuse edits.
pub open spec fn edit_msg(o: Editor) -> Option<Seq<char>> {
    if o.buf.readonly {
        Some(readonly_msg())
    } else {
        None
    }
}

/// The message cutting a line leaves.
pub open spec fn cut_msg(o: Editor) -> Option<Seq<char>> {
    if o.buf.readonly {
        Some(readonly_msg())
    } else {
        Some("Cut line"@)
    }
}

/// The message pasting leaves.
pub open spec fn paste_msg(o: Editor) -> Option<Seq<char>> {
    if o.buf.readonly {
        Some(readonly_msg())
    } else if o.kill is None {
        Some("Nothing to paste"@)
    } else {
        Some("Uncut text"@)
    }
}

/// The message undoing leaves.
pub open spec fn undo_msg(o: Editor) -> Option<Seq<char>> {
    if o.buf.readonly {
        Some(readonly_msg())
    } else if o.history@.undo.len() == 0 {
        Some("Nothing to undo"@)
    } else {
        Some("Undone"@)
    }
}

/// The message redoing leaves.
pub open spec fn redo_msg(o: Editor) -> Option<Seq<char>> {
    if o.buf.readonly {
        Some(readonly_msg())
    } else if o.history@.redo.len() == 0 {
        Some("Nothing to redo"@)
    } else {
        Some("Redone"@)
    }
}

/// The message for a buffer switch.
pub open spec fn switch_msg(o: Editor, n: Editor) -> Option<Seq<char>> {
    if o.buf_total <= 1 {
        Some("Only one buffer open"@)
    } else {
        Some(buffer_msg(n.buf_idx as nat, n.buf_total as nat))
    }
}

/// What a buffer switch asks of the caller: to measure the new file.
pub open spec fn switch_effect(o: Editor, n: Editor, r: Effect) -> bool {
    r == if o.buf_total > 1 && n.buf.path is Some {
        Effect::MeasureFile(n.buf.path->0)
    } else {
        Effect::Nothing
    }
}

/// An operation's outcome: it did `done`, left message `m` (or kept it),
/// kept the keys being recorded and asked nothing of the caller.
pub open spec fn plain(o: Editor, n: Editor, r: Effect, done: bool, m: Option<Seq<char>>) -> bool {
    done && message_is(o, n, m) && n.macro_buf == o.macro_buf && r is Nothing
}

/// The cursor position message: `line r of n, col c`.
pub open spec fn position_msg(o: Editor) -> Seq<char> {
    "line "@ + decimal((o.cursor_row + 1) as nat) + " of "@ + decimal(num_lines(o.buf.text())) + ", col "@
        + decimal(sat_add(cursor_dcol(o), 1))
}

/// What Control with `c` does in the text.
pub open spec fn ctrl_handled(o: Editor, n: Editor, c: char, r: Effect) -> bool {
    if letter(c, 'x', 'X') {
        plain(o, n, r, quit_requested(o, n), None)
    } else if letter(c, 'o', 'O') {
        plain(o, n, r, save_prompted(o, n, false), save_msg(o))
    } else if letter(c, 's', 'S') {
        quick_saved(o, n, r, false) && message_is(o, n, save_msg(o)) && n.macro_buf == o.macro_buf
    } else if letter(c, 'g', 'G') {
        plain(o, n, r, n == Editor { help_visible: true, ..o }, None)
    } else if letter(c, 'k', 'K') {
        plain(o, n, r, cut(o, n), cut_msg(o))
    } else if letter(c, 'u', 'U') {
        plain(o, n, r, pasted(o, n), paste_msg(o))
    } else if letter(c, 'a', 'A') {
        plain(o, n, r, moved_home(o, n), None)
    } else if letter(c, 'e', 'E') {
        plain(o, n, r, moved_end(o, n), None)
    } else if letter(c, 'w', 'W') {
        plain(o, n, r, search_opened(o, n), None)
    } else if letter(c, 'z', 'Z') {
        plain(o, n, r, undone(o, n), undo_msg(o))
    } else if letter(c, 'y', 'Y') {
        plain(o, n, r, redone(o, n), redo_msg(o))
    } else if letter(c, 'n', 'N') {
        plain(
            o,
            n,
            r,
            n == Editor {
                cfg: Config { line_numbers: !o.cfg.line_numbers, ..o.cfg },
                message: n.message,
                ..o
            },
            Some(
                if o.cfg.line_numbers {
                    "Line numbers off"@
                } else {
                    "Line numbers on"@
                },
            ),
        )
    } else if letter(c, 'p', 'P') {
        plain(
            o,
            n,
            r,
            n == Editor {
                cfg: Config { soft_wrap: !o.cfg.soft_wrap, ..o.cfg },
                left: 0,
                message: n.message,
                ..o
            },
            Some(
                if o.cfg.soft_wrap {
                    "Soft wrap off"@
                } else {
                    "Soft wrap on"@
                },
            ),
        )
    } else if letter(c, 'c', 'C') {
        plain(o, n, r, n == Editor { message: n.message, ..o }, Some(position_msg(o)))
    } else if letter(c, 'r', 'R') {
        recording_toggled(o, n) && r is Nothing
    } else {
        plain(o, n, r, n == o, None)
    }
}

/// What Alt with `c` does in the text.
pub open spec fn alt_handled(o: Editor, n: Editor, c: char, r: Effect, replaying: bool) -> bool {
    if letter(c, 'w', 'W') {
        &&& unchanged(o, n)
        &&& n.top == o.top && n.left == o.left
        &&& n.macro_buf == o.macro_buf
        &&& match o.kill {
            Some(t) => r == Effect::CopyToClipboard(t) && n.message == o.message,
            None => r is Nothing && n.message@ == "Nothing to copy (use Ctrl+K first)"@,
        }
    } else if letter(c, 'u', 'U') {
        n == o && r is ReadClipboard
    } else if letter(c, 'r', 'R') {
        if replaying {
            &&& only_macros(o, n)
            &&& n.macro_recording == o.macro_recording
            &&& n.macro_saved == o.macro_saved
            &&& n.macro_buf == o.macro_buf
            &&& n.replay == o.replay
            &&& n.message@ == nested_play_msg()
            &&& r is Nothing
        } else {
            macro_played(o, n) && r is Nothing
        }
    } else if letter(c, 'n', 'N') {
        switched_next(o, n) && message_is(o, n, switch_msg(o, n)) && n.macro_buf == o.macro_buf
            && switch_effect(o, n, r)
    } else if letter(c, 'b', 'B') {
        switched_prev(o, n) && message_is(o, n, switch_msg(o, n)) && n.macro_buf == o.macro_buf
            && switch_effect(o, n, r)
    } else {
        n == o && r is Nothing
    }
}

/// The message for an Alt+R met while a macro plays back: a macro does not
/// play itself again.
pub open spec fn nested_play_msg() -> Seq<char> {
    "Cannot play a macro from within a macro"@
}

/// What a key does in the text (the message was cleared before).  A key of
/// a macro being played back is `replaying`.
pub open spec fn edit_key_handled(o: Editor, n: Editor, key: KeyEvent, r: Effect, replaying: bool) -> bool {
    let ctrl = key.modifiers.has_control();
    let alt = key.modifiers.has_alt();
    match key.code {
        KeyCode::Char(c) => if ctrl {
            ctrl_handled(o, n, c, r)
        } else if alt {
            alt_handled(o, n, c, r, replaying)
        } else {
            plain(o, n, r, inserted_char(o, n, c), edit_msg(o))
        },
        KeyCode::Tab => plain(o, n, r, inserted_char(o, n, '\t'), edit_msg(o)),
        KeyCode::Enter => plain(o, n, r, inserted_newline(o, n), edit_msg(o)),
        KeyCode::Backspace => plain(o, n, r, deleted_back(o, n), edit_msg(o)),
        KeyCode::Delete => plain(o, n, r, deleted_forward(o, n), edit_msg(o)),
        KeyCode::Left => plain(o, n, r, moved_left(o, n), None),
        KeyCode::Right => plain(o, n, r, moved_right(o, n), None),
        KeyCode::Up => plain(o, n, r, moved_up(o, n), None),
        KeyCode::Down => plain(o, n, r, moved_down(o, n), None),
        KeyCode::Home => plain(o, n, r, moved_home(o, n), None),
        KeyCode::End => plain(o, n, r, moved_end(o, n), None),
        KeyCode::PageUp => plain(o, n, r, paged_up(o, n), None),
        KeyCode::PageDown => plain(o, n, r, paged_down(o, n), None),
        _ => n == o && r is Nothing,
    }
}

/// What a key does on the help screen: the arrows scroll it, any other key
/// closes it.
pub open spec fn help_key_handled(o: Editor, n: Editor, key: KeyEvent) -> bool {
    let max = if HELP_LEN > text_height_spec(o) {
        (HELP_LEN - text_height_spec(o)) as nat
    } else {
        0
    };
    if key.code == KeyCode::Up {
        n == Editor {
            help_scroll: if o.help_scroll >= 1 {
                (o.help_scroll - 1) as usize
            } else {
                0
            },
            ..o
        }
    } else if key.code == KeyCode::Down {
        n == Editor {
            help_scroll: if o.help_scroll + 1 <= max {
                (o.help_scroll + 1) as usize
            } else {
                max as usize
            },
            ..o
        }
    } else {
        n == Editor { help_visible: false, help_scroll: 0, ..o }
    }
}

/// What a key does in the search prompt.
pub open spec fn search_key_handled(o: Editor, n: Editor, key: KeyEvent) -> bool {
    let ctrl = key.modifiers.has_control();
    let alt = key.modifiers.has_alt();
    if key.code == KeyCode::Enter {
        search_closed(o, n, true)
    } else if key.code == KeyCode::Esc || (key.code == KeyCode::Char('c') && ctrl) {
        search_closed(o, n, false)
    } else if key.code == KeyCode::Char('w') && ctrl {
        search_stepped(o, n, true) && n.message == o.message
    } else if key.code == KeyCode::Char('q') && ctrl {
        search_stepped(o, n, false) && n.message == o.message
    } else if key.code == KeyCode::Char('c') && alt {
        search_edited(o, n, SearchEdit::ToggleCase) && n.message == o.message
    } else if key.code == KeyCode::Backspace {
        search_edited(o, n, SearchEdit::Pop) && n.message == o.message
    } else if key.code is Char && !ctrl && !alt {
        search_edited(o, n, SearchEdit::Push(key.code->0)) && n.message == o.message
    } else {
        n == o
    }
}

/// The prompt is closed, with message `m`.
pub open spec fn closed_with(o: Editor, n: Editor, m: Seq<char>) -> bool {
    n == Editor { focus: Focus::Edit, message: n.message, ..o } && n.message@ == m
}

/// What a key does in the quit confirmation: `y` saves and quits, `n`
/// quits, Esc or Ctrl+C cancel; any other key is ignored.
pub open spec fn confirm_key_handled(o: Editor, n: Editor, key: KeyEvent, r: Effect) -> bool {
    let e = Editor { focus: Focus::Edit, ..o };
    if key.code == KeyCode::Char('y') || key.code == KeyCode::Char('Y') {
        quick_saved(e, n, r, true) && message_is(e, n, save_msg(e)) && n.macro_buf == o.macro_buf
    } else if key.code == KeyCode::Char('n') || key.code == KeyCode::Char('N') {
        n == Editor { focus: Focus::Edit, should_quit: true, ..o } && r is Nothing
    } else if key.code == KeyCode::Esc || (key.code == KeyCode::Char('c')
        && key.modifiers.has_control()) {
        closed_with(o, n, "Cancelled"@) && r is Nothing
    } else {
        n == o && r is Nothing
    }
}

/// What a key does in the file name prompt: Enter saves to the trimmed name
/// (cancelling when it is empty), Esc or Ctrl+C cancel, Backspace and chars
/// edit the name.
pub open spec fn save_as_key_handled(
    o: Editor,
    n: Editor,
    key: KeyEvent,
    r: Effect,
    p: Prompt,
    quit_after: bool,
) -> bool {
    let ctrl = key.modifiers.has_control();
    if key.code == KeyCode::Enter {
        if trim(p.input@).len() == 0 {
            closed_with(o, n, "Cancelled (no file name)"@) && r is Nothing
        } else {
            &&& n == Editor { focus: Focus::Edit, ..o }
            &&& r is Save
            &&& r->Save_path@ == trim(p.input@)
            &&& r->Save_backup == o.cfg.backup
            &&& r->Save_quit_after == quit_after
        }
    } else if key.code == KeyCode::Esc || (key.code == KeyCode::Char('c') && ctrl) {
        closed_with(o, n, "Cancelled"@) && r is Nothing
    } else if key.code == KeyCode::Backspace {
        &&& n == Editor { focus: n.focus, ..o }
        &&& n.focus is Prompt
        &&& n.focus->0.label == p.label
        &&& n.focus->0.kind == p.kind
        &&& n.focus->0.input@ == if p.input@.len() > 0 {
            p.input@.drop_last()
        } else {
            p.input@
        }
        &&& r is Nothing
    } else if key.code is Char && !ctrl {
        &&& n == Editor { focus: n.focus, ..o }
        &&& n.focus is Prompt
        &&& n.focus->0.label == p.label
        &&& n.focus->0.kind == p.kind
        &&& n.focus->0.input@ == p.input@.push(key.code->0)
        &&& r is Nothing
    } else {
        n == o && r is Nothing
    }
}

/// What a key does in a prompt.
pub open spec fn prompt_key_handled(o: Editor, n: Editor, key: KeyEvent, r: Effect) -> bool {
    match o.focus {
        Focus::Prompt(p) => match p.kind {
            PromptKind::Search { .. } => search_key_handled(o, n, key) && n.macro_buf == o.macro_buf
                && r is Nothing,
            PromptKind::ConfirmQuit => confirm_key_handled(o, n, key, r),
            PromptKind::SaveAs { quit_after } => save_as_key_handled(o, n, key, r, p, quit_after),
        },
        Focus::Edit => n == o && r is Nothing,
    }
}

/// The state a key meets: recorded when a macro is being recorded, and the
/// message cleared when the key goes to the text.
pub open spec fn prepared(o: Editor, m: Editor, key: KeyEvent) -> bool {
    &&& m == Editor { macro_buf: m.macro_buf, message: m.message, ..o }
    &&& m.macro_buf@ == if o.macro_recording {
        o.macro_buf@.push(key)
    } else {
        o.macro_buf@
    }
    &&& m.message@ == if !o.help_visible && o.focus is Edit {
        Seq::<char>::empty()
    } else {
        o.message@
    }
}

/// What a key does, from the state it meets.
pub open spec fn routed(m: Editor, n: Editor, key: KeyEvent, r: Effect, replaying: bool) -> bool {
    if m.help_visible {
        help_key_handled(m, n, key) && r is Nothing
    } else if m.focus is Prompt {
        prompt_key_handled(m, n, key, r)
    } else {
        edit_key_handled(m, n, key, r, replaying)
    }
}

/// A key, met in state `o`, takes the editor to `n` and answers `r`.
pub open spec fn key_step(o: Editor, n: Editor, key: KeyEvent, r: Effect, replaying: bool) -> bool {
    exists|m: Editor| prepared(o, m, key) && routed(m, n, key, r, replaying)
}

/// The first queued key of a macro is taken from the queue and handled.
pub open spec fn replay_step(o: Editor, n: Editor, r: Effect) -> bool {
    &&& o.replay@.len() > 0
    &&& !o.should_quit
    &&& exists|p: Editor|
        #![trigger key_step(p, n, o.replay@[0], r, true)]
        p == Editor { replay: p.replay, ..o } && p.replay@ == o.replay@.drop_first() && key_step(
            p,
            n,
            o.replay@[0],
            r,
            true,
        )
}

/// Replayed keys took the editor through `es`, answering `rs`.
pub open spec fn replay_run(es: Seq<Editor>, rs: Seq<Effect>) -> bool {
    &&& es.len() == rs.len() + 1
    &&& forall|i: int| 0 <= i < rs.len() ==> #[trigger] replay_step(es[i], es[i + 1], rs[i])
}

/// Playback through `es` stopped at `n` answering `r`: every key but the
/// last answered `Nothing`, and either the last asked for outside work or
/// nothing is left to play (a quitting editor drops what is left).
pub open spec fn stopped(es: Seq<Editor>, rs: Seq<Effect>, n: Editor, r: Effect) -> bool {
    &&& forall|i: int| 0 <= i < rs.len() - 1 ==> #[trigger] rs[i] is Nothing
    &&& if rs.len() > 0 && !(rs.last() is Nothing) {
        n == es.last() && r == rs.last()
    } else {
        &&& r is Nothing
        &&& es.last().should_quit || es.last().replay@.len() == 0
        &&& n == Editor { replay: n.replay, ..es.last() }
        &&& n.replay@.len() == 0
    }
}

/// From `o`, the queued keys were played back as far as they go without
/// outside work, ending at `n` with answer `r`.
pub open spec fn replayed(o: Editor, n: Editor, r: Effect) -> bool {
    exists|es: Seq<Editor>, rs: Seq<Effect>| replay_run(es, rs) && es[0] == o && stopped(es, rs, n, r)
}

impl Editor {
    fn position_message(&self) -> (s: String)
        requires
            self.wf(),
        ensures
            s@ == position_msg(*self),
    {
        let lines = self.buf.len_lines();
        let mut s = String::new();
        push_str(&mut s, "line ");
        let a = decimal_string(self.cursor_row + 1);
        push_str(&mut s, a.as_str());
        push_str(&mut s, " of ");
        let b = decimal_string(lines);
        push_str(&mut s, b.as_str());
        push_str(&mut s, ", col ");
        let d = self.cursor_display_col();
        let c = decimal_string(if d == usize::MAX { d } else { d + 1 });
        push_str(&mut s, c.as_str());
        s
    }

    fn handle_ctrl(&mut self, c: char) -> (r: Effect)
        requires
            old(self).wf(),
            old(self).focus is Edit,
        ensures
            final(self).wf(),
            ctrl_handled(*old(self), *final(self), c, r),
    {
        match c {
            'x' | 'X' => {
                self.request_quit();
                Effect::Nothing
            },
            'o' | 'O' => {
                self.prompt_save(false);
                Effect::Nothing
            },
            's' | 'S' => self.quick_save(false),
            'g' | 'G' => {
                self.help_visible = true;
                Effect::Nothing
            },
            'k' | 'K' => {
                self.cut_line();
                Effect::Nothing
            },
            'u' | 'U' => {
                self.paste();
                Effect::Nothing
            },
            'a' | 'A' => {
                self.move_home();
                Effect::Nothing
            },
            'e' | 'E' => {
                self.move_end();
                Effect::Nothing
            },
            'w' | 'W' => {
                self.open_search();
                Effect::Nothing
            },
            'z' | 'Z' => {
                self.undo();
                Effect::Nothing
            },
            'y' | 'Y' => {
                self.redo();
                Effect::Nothing
            },
            'n' | 'N' => {
                self.cfg.line_numbers = !self.cfg.line_numbers;
                self.message = if self.cfg.line_numbers {
                    "Line numbers on".to_owned()
                } else {
                    "Line numbers off".to_owned()
                };
                Effect::Nothing
            },
            'p' | 'P' => {
                self.cfg.soft_wrap = !self.cfg.soft_wrap;
                self.left = 0;
                self.message = if self.cfg.soft_wrap {
                    "Soft wrap on".to_owned()
                } else {
                    "Soft wrap off".to_owned()
                };
                Effect::Nothing
            },
            'c' | 'C' => {
                self.message = self.position_message();
                Effect::Nothing
            },
            'r' | 'R' => {
                self.macro_toggle_record();
                Effect::Nothing
            },
            _ => Effect::Nothing,
        }
    }

    fn handle_alt(&mut self, c: char, replaying: bool) -> (r: Effect)
        requires
            old(self).wf(),
            old(self).focus is Edit,
        ensures
            final(self).wf(),
            alt_handled(*old(self), *final(self), c, r, replaying),
    {
        match c {
            'w' | 'W' => self.copy_kill(),
            'u' | 'U' => Effect::ReadClipboard,
            'r' | 'R' => {
                if replaying {
                    self.message = "Cannot play a macro from within a macro".to_owned();
                } else {
                    self.macro_play();
                }
                Effect::Nothing
            },
            'n' | 'N' => self.next_buffer(),
            'b' | 'B' => self.prev_buffer(),
            _ => Effect::Nothing,
        }
    }

    fn handle_edit_key(&mut self, key: KeyEvent, replaying: bool) -> (r: Effect)
        requires
            old(self).wf(),
            old(self).focus is Edit,
            key_ok(key),
        ensures
            final(self).wf(),
            edit_key_handled(*old(self), *final(self), key, r, replaying),
    {
        let ctrl = key.modifiers.control();
        let alt = key.modifiers.alt();
        match key.code {
            KeyCode::Char(c) => {
                if ctrl {
                    self.handle_ctrl(c)
                } else if alt {
                    self.handle_alt(c, replaying)
                } else {
                    self.insert_char(c);
                    Effect::Nothing
                }
            },
            KeyCode::Tab => {
                self.insert_char('\t');
                Effect::Nothing
            },
            KeyCode::Enter => {
                self.insert_newline();
                Effect::Nothing
            },
            KeyCode::Backspace => {
                self.delete_back();
                Effect::Nothing
            },
            KeyCode::Delete => {
                self.delete_forward();
                Effect::Nothing
            },
            KeyCode::Left => {
                self.move_left();
                Effect::Nothing
            },
            KeyCode::Right => {
                self.move_right();
                Effect::Nothing
            },
            KeyCode::Up => {
                self.move_up();
                Effect::Nothing
            },
            KeyCode::Down => {
                self.move_down();
                Effect::Nothing
            },
            KeyCode::Home => {
                self.move_home();
                Effect::Nothing
            },
            KeyCode::End => {
                self.move_end();
                Effect::Nothing
            },
            KeyCode::PageUp => {
                self.page_up();
                Effect::Nothing
            },
            KeyCode::PageDown => {
                self.page_down();
                Effect::Nothing
            },
            _ => Effect::Nothing,
        }
    }

    fn handle_help_key(&mut self, key: KeyEvent)
        requires
            old(self).wf(),
        ensures
            final(self).wf(),
            help_key_handled(*old(self), *final(self), key),
    {
        match key.code {
            KeyCode::Up => {
                self.help_scroll = if self.help_scroll >= 1 {
                    self.help_scroll - 1
                } else {
                    0
                };
            },
            KeyCode::Down => {
                let h = self.text_height();
                let max = if HELP_LEN > h {
                    HELP_LEN - h
                } else {
                    0
                };
                self.help_scroll = if self.help_scroll < max {
                    self.help_scroll + 1
                } else {
                    max
                };
            },
            _ => {
                self.help_visible = false;
                self.help_scroll = 0;
            },
        }
    }

    /// React to a key while the search prompt is open.
    pub fn handle_search_key(&mut self, key: KeyEvent)
        requires
            old(self).wf(),
        ensures
            final(self).wf(),
            search_key_handled(*old(self), *final(self), key),
            final(self).macro_buf == old(self).macro_buf,
    {
        let ctrl = key.modifiers.control();
        let alt = key.modifiers.alt();
        let code = key.code;
        if code == KeyCode::Enter {
            self.search_close(true);
        } else if code == KeyCode::Esc || (code == KeyCode::Char('c') && ctrl) {
            self.search_close(false);
        } else if code == KeyCode::Char('w') && ctrl {
            self.search_step(true);
        } else if code == KeyCode::Char('q') && ctrl {
            self.search_step(false);
        } else if code == KeyCode::Char('c') && alt {
            self.search_edit(SearchEdit::ToggleCase);
        } else if code == KeyCode::Backspace {
            self.search_edit(SearchEdit::Pop);
        } else {
            match code {
                KeyCode::Char(c) => {
                    if !ctrl && !alt {
                        self.search_edit(SearchEdit::Push(c));
                    }
                },
                _ => {},
            }
        }
    }

    fn handle_prompt_key(&mut self, key: KeyEvent) -> (r: Effect)
        requires
            old(self).wf(),
            old(self).focus is Prompt,
        ensures
            final(self).wf(),
            prompt_key_handled(*old(self), *final(self), key, r),
    {
        let is_search = match &self.focus {
            Focus::Prompt(p) => match p.kind {
                PromptKind::Search { .. } => true,
                _ => false,
            },
            Focus::Edit => false,
        };
        if is_search {
            self.handle_search_key(key);
            return Effect::Nothing;
        }
        let ghost o = *self;
        let mut f = Focus::Edit;
        std::mem::swap(&mut f, &mut self.focus);
        let ctrl = key.modifiers.control();
        match f {
            Focus::Prompt(prompt) => {
                let Prompt { label, input, kind } = prompt;
                match kind {
                    PromptKind::ConfirmQuit => match key.code {
                        KeyCode::Char('y') | KeyCode::Char('Y') => self.quick_save(true),
                        KeyCode::Char('n') | KeyCode::Char('N') => {
                            self.should_quit = true;
                            Effect::Nothing
                        },
                        KeyCode::Esc => {
                            self.message = "Cancelled".to_owned();
                            Effect::Nothing
                        },
                        KeyCode::Char('c') if ctrl => {
                            self.message = "Cancelled".to_owned();
                            Effect::Nothing
                        },
                        _ => {
                            self.focus = Focus::Prompt(
                                Prompt { label, input, kind: PromptKind::ConfirmQuit },
                            );
                            Effect::Nothing
                        },
                    },
                    PromptKind::SaveAs { quit_after } => match key.code {
                        KeyCode::Enter => {
                            let v = chars_of(input.as_str());
                            let (lo, hi) = trim_bounds(&v, 0, v.len());
                            assert(v@.subrange(0, v@.len() as int) =~= v@);
                            if lo == hi {
                                self.message = "Cancelled (no file name)".to_owned();
                                Effect::Nothing
                            } else {
                                let name = crate::text::sub_string(&v, lo, hi);
                                self.do_save(name, quit_after)
                            }
                        },
                        KeyCode::Esc => {
                            self.message = "Cancelled".to_owned();
                            Effect::Nothing
                        },
                        KeyCode::Char('c') if ctrl => {
                            self.message = "Cancelled".to_owned();
                            Effect::Nothing
                        },
                        KeyCode::Backspace => {
                            let mut input = input;
                            string_pop(&mut input);
                            self.focus = Focus::Prompt(
                                Prompt { label, input, kind: PromptKind::SaveAs { quit_after } },
                            );
                            Effect::Nothing
                        },
                        KeyCode::Char(c) if !ctrl => {
                            let mut input = input;
                            string_push(&mut input, c);
                            self.focus = Focus::Prompt(
                                Prompt { label, input, kind: PromptKind::SaveAs { quit_after } },
                            );
                            Effect::Nothing
                        },
                        _ => {
                            self.focus = Focus::Prompt(
                                Prompt { label, input, kind: PromptKind::SaveAs { quit_after } },
                            );
                            Effect::Nothing
                        },
                    },
                    other => {
                        self.focus = Focus::Prompt(Prompt { label, input, kind: other });
                        Effect::Nothing
                    },
                }
            },
            Focus::Edit => Effect::Nothing,
        }
    }

    /// Handle one key, typed or `replaying` from a macro.
    fn handle_one_key(&mut self, key: KeyEvent, replaying: bool) -> (r: Effect)
        requires
            old(self).wf(),
            key_ok(key),
        ensures
            final(self).wf(),
            key_step(*old(self), *final(self), key, r, replaying),
            replaying ==> final(self).replay == old(self).replay,
    {
        if self.macro_recording {
            self.macro_buf.push(key);
        }
        let in_edit = match &self.focus {
            Focus::Edit => true,
            Focus::Prompt(_) => false,
        };
        if !self.help_visible && in_edit {
            self.message = String::new();
        }
        let ghost m = *self;
        proof {
            assert(crate::editor::keys_ok(self.macro_buf@)) by {
                if old(self).macro_recording {
                    assert forall|i: int| 0 <= i < self.macro_buf@.len() implies key_ok(
                        #[trigger] self.macro_buf@[i],
                    ) by {
                        if i < old(self).macro_buf@.len() {
                            assert(self.macro_buf@[i] == old(self).macro_buf@[i]);
                        }
                    }
                }
            }
            assert(prepared(*old(self), m, key));
        }
        if self.help_visible {
            self.handle_help_key(key);
            assert(routed(m, *self, key, Effect::Nothing, replaying));
            return Effect::Nothing;
        }
        if !in_edit {
            let r = self.handle_prompt_key(key);
            assert(routed(m, *self, key, r, replaying));
            return r;
        }
        let r = self.handle_edit_key(key, replaying);
        assert(routed(m, *self, key, r, replaying));
        r
    }

    /// Play back the queued keys of a macro, one by one, until one asks for
    /// outside work, which is returned (the rest stays queued for the next
    /// call), or none is left.  Once the editor is quitting, the rest of the
    /// macro is dropped.
    pub fn continue_replay(&mut self) -> (r: Effect)
        requires
            old(self).wf(),
        ensures
            final(self).wf(),
            replayed(*old(self), *final(self), r),
    {
        let ghost mut es: Seq<Editor> = seq![*self];
        let ghost mut rs: Seq<Effect> = Seq::empty();
        loop
            invariant
                self.wf(),
                replay_run(es, rs),
                es[0] == *old(self),
                es.last() == *self,
                forall|i: int| 0 <= i < rs.len() ==> #[trigger] rs[i] is Nothing,
            decreases self.replay@.len(),
        {
            let ghost before = *self;
            let k = match self.next_replay_key() {
                Some(k) => k,
                None => {
                    proof {
                        assert(replayed(*old(self), *self, Effect::Nothing)) by {
                            assert(stopped(es, rs, *self, Effect::Nothing));
                        }
                    }
                    return Effect::Nothing;
                },
            };
            let ghost popped = *self;
            let r = self.handle_one_key(k, true);
            proof {
                assert(replay_step(before, *self, r)) by {
                    assert(popped == Editor { replay: popped.replay, ..before });
                }
                let es0 = es;
                let rs0 = rs;
                es = es0.push(*self);
                rs = rs0.push(r);
                assert forall|i: int| 0 <= i < rs.len() implies #[trigger] replay_step(es[i], es[i + 1], rs[i]) by {
                    if i < rs0.len() {
                        assert(replay_step(es0[i], es0[i + 1], rs0[i]));
                    }
                }
                assert(es[0] == es0[0]);
                assert(replay_run(es, rs));
            }
            match r {
                Effect::Nothing => {},
                _ => {
                    proof {
                        assert(stopped(es, rs, *self, r));
                        assert(replayed(*old(self), *self, r));
                    }
                    return r;
                },
            }
        }
    }

    /// React to a key.  What the editor cannot do itself comes back as an
    /// [`Effect`] for the caller to perform.  When the key starts a macro,
    /// its keys are played back too, up to the first that asks for outside
    /// work (see [`Editor::continue_replay`]).
    pub fn handle_key(&mut self, key: KeyEvent) -> (r: Effect)
        requires
            old(self).wf(),
            key_ok(key),
        ensures
            final(self).wf(),
            exists|m: Editor, r1: Effect| key_step(*old(self), m, key, r1, false) && if r1 is Nothing {
                replayed(m, *final(self), r)
            } else {
                *final(self) == m && r == r1
            },
    {
        let r1 = self.handle_one_key(key, false);
        let ghost m = *self;
        match r1 {
            Effect::Nothing => self.continue_replay(),
            _ => r1,
        }
    }
}

} // verus!
