//! The editor's state: the buffer being edited, the cursor and viewport, the
//! prompt line, and the sessions of the other open buffers.
//!
//! Screen layout (top to bottom):
//! ```text
//!   row 0           title bar (reverse video)
//!   rows 1..H-2     text area
//!   row H-2         status / prompt line
//!   row H-1         key-hint line
//! ```
//!
//! The editor never touches the terminal, the clipboard or the file system:
//! where a key asks for one of them, it answers with an [`Effect`] for the
//! caller to perform, and the caller reports the outcome back.
use crate::buffer::Buffer;
use crate::config::Config;
use crate::display::{char_at_display, char_at_display_from, display_col, display_col_spec};
use crate::highlight::{rule_ok, rules_for_extension, rules_spec, Rule};
use crate::history::{fits, History};
use crate::keys::{key_ok, KeyEvent};
use crate::lines::{
    lemma_line, lemma_origin_col_valid, lemma_origin_valid, lemma_valid_pos, line_len,
    line_with_break, num_lines, pos_index, valid_pos,
};
use crate::search::matches_valid;
use crate::style::{dark_theme, light_theme, Theme};
use crate::text::{chars_of, decimal, decimal_string, string_of};
use std::collections::VecDeque;
use vstd::prelude::*;

verus! {

/// What a prompt on the status line asks for.
pub enum PromptKind {
    /// A file name to write the buffer to.
    SaveAs { quit_after: bool },
    /// Whether to save a modified buffer before quitting.
    ConfirmQuit,
    /// An incremental search.
    Search {
        case_insensitive: bool,
        /// Every match as `(row, start_col, end_col)`.
        matches: Vec<(usize, usize, usize)>,
        /// The match the cursor is on.
        current: Option<usize>,
        /// Where the cursor was when the search opened.
        saved_row: usize,
        saved_col: usize,
    },
}

/// A prompt on the status line.
pub struct Prompt {
    pub label: String,
    pub input: String,
    pub kind: PromptKind,
}

/// Where keys go: to the text, or to a prompt.
pub enum Focus {
    Edit,
    Prompt(Prompt),
}

/// A buffer that is open but not shown, with the cursor and viewport it had.
pub struct ParkedBuffer {
    pub buf: Buffer,
    pub cursor_row: usize,
    pub cursor_col: usize,
    pub goal_col: usize,
    pub top: usize,
    pub left: usize,
}

/// The editor.
pub struct Editor {
    pub buf: Buffer,
    pub cursor_row: usize,
    pub cursor_col: usize,
    /// The display column the cursor tries to keep on vertical moves.
    pub goal_col: usize,
    /// First text row shown.
    pub top: usize,
    /// First display column shown.
    pub left: usize,
    pub width: usize,
    pub height: usize,
    pub message: String,
    pub focus: Focus,
    pub help_visible: bool,
    pub help_scroll: usize,
    pub should_quit: bool,
    /// The kill ring: the last cut text.
    pub kill: Option<String>,
    pub last_search: String,
    pub history: History,
    pub cfg: Config,
    pub theme: Theme,
    /// Extension-based syntax rules (empty = no highlighting).
    pub syntax_rules: Vec<Rule>,
    /// Whether highlighting is suppressed due to file size.
    pub highlight_disabled: bool,
    /// The other open buffers, next-in-line first.
    pub parked_bufs: VecDeque<ParkedBuffer>,
    /// Index of the current buffer in the logical ordered list.
    pub buf_idx: usize,
    /// Total number of open buffers (1 + parked_bufs.len()).
    pub buf_total: usize,
    pub macro_recording: bool,
    pub macro_buf: Vec<KeyEvent>,
    pub macro_saved: Vec<KeyEvent>,
    /// Keys of a macro being played back, next first.
    pub replay: VecDeque<KeyEvent>,
}

/// What the caller has to do after a key: the editor cannot reach the file
/// system, the clipboard or other programs itself.
pub enum Effect {
    Nothing,
    /// Write the buffer's encoded text to `path` (copying the old file to
    /// `path~` first when `backup`), then report with `Editor::finish_save`.
    Save { path: String, backup: bool, quit_after: bool },
    /// Put `text` on the OS clipboard, then report with `Editor::finish_copy`.
    CopyToClipboard(String),
    /// Read the OS clipboard, then report with `Editor::finish_paste`.
    ReadClipboard,
    /// Measure the size of the file at `path` (in bytes), then report with
    /// `Editor::set_file_size`.
    MeasureFile(String),
    /// Run `command` through the shell, then report with `Editor::finish_hook`.
    RunHook(String),
}

/// A parked buffer's cursor names a place in its text.
pub open spec fn parked_ok(p: ParkedBuffer) -> bool {
    &&& valid_pos(p.buf.text(), p.cursor_row as int, p.cursor_col as int)
    &&& p.buf.text().len() <= usize::MAX
}

/// A search prompt's matches and saved cursor name places in `text`, and its
/// current match is one of them.
pub open spec fn focus_ok(f: Focus, text: Seq<char>) -> bool {
    match f {
        Focus::Edit => true,
        Focus::Prompt(p) => match p.kind {
            PromptKind::Search { matches, current, saved_row, saved_col, .. } => {
                &&& matches_valid(text, matches@)
                &&& (current matches Some(i) ==> i < matches@.len())
                &&& valid_pos(text, saved_row as int, saved_col as int)
            },
            _ => true,
        },
    }
}

/// Every key is one the editor can take.
pub open spec fn keys_ok(keys: Seq<KeyEvent>) -> bool {
    forall|i: int| 0 <= i < keys.len() ==> key_ok(#[trigger] keys[i])
}

/// The display column of the cursor.
pub open spec fn cursor_dcol(e: Editor) -> nat {
    display_col_spec(
        line_with_break(e.buf.text(), e.cursor_row as nat),
        e.cursor_col as int,
        e.cfg.tab_width as nat,
    )
}

/// The column of line `row` under display column `goal`.
pub open spec fn snap_col(text: Seq<char>, row: nat, goal: nat, tab_width: nat) -> nat {
    char_at_display_from(line_with_break(text, row), goal, line_len(text, row) as nat, tab_width, 0, 0)
}

/// Rows of the text area.
pub open spec fn text_height_spec(e: Editor) -> nat {
    if e.height >= 4 {
        (e.height - 3) as nat
    } else {
        1
    }
}

/// Width of the line-number gutter: the digits of the line count and a space,
/// or nothing when line numbers are off.
pub open spec fn gutter_spec(e: Editor) -> nat {
    if e.cfg.line_numbers {
        decimal(num_lines(e.buf.text())).len() + 1
    } else {
        0
    }
}

/// Columns of the text area: the width without the gutter, at least one.
pub open spec fn text_width_spec(e: Editor) -> nat {
    if e.width > gutter_spec(e) {
        (e.width - gutter_spec(e)) as nat
    } else {
        1
    }
}

/// The extension of the file name at the end of `path`, as `Path::extension`
/// reads it with the path syntax of the platform the crate is built for.
pub uninterp spec fn extension_of(path: Seq<char>) -> Option<Seq<char>>;

/// The syntax rules for a buffer at `path`.
pub open spec fn syntax_rules_spec(path: Option<Seq<char>>) -> Seq<Rule> {
    match path {
        Some(p) => match extension_of(p) {
            Some(e) => rules_spec(e),
            None => Seq::empty(),
        },
        None => Seq::empty(),
    }
}

/// `Path::extension`: the part of the file name after its last `.`, unless
/// the name has no `.` past its first char.  A path made from a `&str` has a
/// UTF-8 extension, so it converts to a `String` whole.
#[verifier::external_body]
fn path_extension(path: &str) -> (r: Option<String>)
    ensures
        match r {
            Some(e) => extension_of(path@) == Some(e@),
            None => extension_of(path@) is None,
        },
{
    match std::path::Path::new(path).extension() {
        Some(e) => e.to_str().map(String::from),
        None => None,
    }
}

/// A file of `size` bytes is larger than `max_kb` KiB.
pub open spec fn too_large(size: u64, max_kb: u64) -> bool {
    size > max_kb * 1024
}

/// Whether a file of `size` bytes is larger than `max_kb` KiB.
pub fn exceeds_kb(size: u64, max_kb: u64) -> (r: bool)
    ensures
        r == too_large(size, max_kb),
{
    if max_kb > u64::MAX / 1024 {
        assert(max_kb * 1024 > u64::MAX) by (nonlinear_arith)
            requires
                max_kb > u64::MAX / 1024,
        ;
        false
    } else {
        assert(max_kb * 1024 <= u64::MAX) by (nonlinear_arith)
            requires
                max_kb <= u64::MAX / 1024,
        ;
        size > max_kb * 1024
    }
}

/// The syntax rules for `buf` and whether highlighting is off for it: it is
/// when the file, of `file_size` bytes, is larger than the configured limit
/// or syntax is disabled.
pub fn syntax_for_buf(buf: &Buffer, cfg: &Config, file_size: u64) -> (r: (Vec<Rule>, bool))
    ensures
        r.0@ == syntax_rules_spec(
            match buf.path {
                Some(p) => Some(p@),
                None => None,
            },
        ),
        forall|i: int| 0 <= i < r.0@.len() ==> rule_ok(#[trigger] r.0@[i]),
        r.1 == (too_large(file_size, cfg.highlight_max_kb) || !cfg.syntax),
{
    let rules = match &buf.path {
        Some(p) => match path_extension(p.as_str()) {
            Some(e) => rules_for_extension(e.as_str()),
            None => Vec::new(),
        },
        None => Vec::new(),
    };
    let disabled = exceeds_kb(file_size, cfg.highlight_max_kb) || !cfg.syntax;
    (rules, disabled)
}

impl Editor {
    /// The text being edited.
    pub open spec fn text(&self) -> Seq<char> {
        self.buf.text()
    }

    /// The editor's invariant: the screen has room for its bars, tabs have a
    /// width, every cursor names a place in its text, the history's undos
    /// and redos stay within the text, and the buffer count is right.
    pub open spec fn wf(&self) -> bool {
        &&& self.width >= 1
        &&& self.height >= 4
        &&& self.cfg.tab_width >= 1
        &&& valid_pos(self.buf.text(), self.cursor_row as int, self.cursor_col as int)
        &&& self.buf.text().len() <= usize::MAX
        &&& self.history@.wf()
        &&& fits(self.history@, self.buf.text().len())
        &&& self.buf_total == self.parked_bufs@.len() + 1
        &&& self.buf_idx < self.buf_total
        &&& forall|i: int| 0 <= i < self.parked_bufs@.len() ==> parked_ok(#[trigger] self.parked_bufs@[i])
        &&& focus_ok(self.focus, self.buf.text())
        &&& forall|i: int| 0 <= i < self.syntax_rules@.len() ==> rule_ok(#[trigger] self.syntax_rules@[i])
        &&& keys_ok(self.macro_buf@)
        &&& keys_ok(self.macro_saved@)
        &&& keys_ok(self.replay@)
    }

    /// An editor over `bufs` (an empty unnamed buffer when there is none) on
    /// a `width` x `height` screen (at least 1 x 4).  `file_size` is the size
    /// in bytes of the first buffer's file, which decides whether it is
    /// highlighted.
    pub fn new(bufs: Vec<Buffer>, width: usize, height: usize, cfg: Config, file_size: u64) -> (e: Editor)
        requires
            cfg.tab_width >= 1,
        ensures
            e.wf(),
            bufs@.len() > 0 ==> e.buf == bufs@[0],
            bufs@.len() == 0 ==> e.buf.text().len() == 0 && e.buf.path is None && !e.buf.readonly,
            e.buf_total == if bufs@.len() > 0 { bufs@.len() } else { 1 },
            forall|i: int| 0 <= i < e.parked_bufs@.len() ==> {
                let p = #[trigger] e.parked_bufs@[i];
                &&& p.buf == bufs@[i + 1]
                &&& p.cursor_row == 0 && p.cursor_col == 0 && p.goal_col == 0
                &&& p.top == 0 && p.left == 0
            },
            e.buf_idx == 0,
            e.cursor_row == 0 && e.cursor_col == 0 && e.goal_col == 0,
            e.top == 0 && e.left == 0,
            e.width == if width >= 1 { width } else { 1 },
            e.height == if height >= 4 { height } else { 4 },
            e.message@ == if e.buf.is_new {
                "New file"@
            } else if e.buf.readonly {
                "Read-only mode"@
            } else {
                Seq::empty()
            },
            e.focus is Edit,
            !e.help_visible && e.help_scroll == 0 && !e.should_quit,
            e.kill is None,
            e.last_search@.len() == 0,
            e.history@.undo.len() == 0 && e.history@.redo.len() == 0,
            e.history@.max_depth == if cfg.undo_depth >= 1 { cfg.undo_depth as nat } else { 1 },
            e.cfg == cfg,
            e.theme == if cfg.theme@ == "light"@ { light_theme() } else { dark_theme() },
            e.syntax_rules@ == syntax_rules_spec(
                match e.buf.path {
                    Some(p) => Some(p@),
                    None => None,
                },
            ),
            e.highlight_disabled == (too_large(file_size, cfg.highlight_max_kb) || !cfg.syntax),
            !e.macro_recording,
            e.macro_buf@.len() == 0 && e.macro_saved@.len() == 0 && e.replay@.len() == 0,
    {
        let ghost orig = bufs@;
        let mut v = bufs;
        let mut parked: VecDeque<ParkedBuffer> = VecDeque::new();
        let buf = if v.len() == 0 {
            Buffer::new(false)
        } else {
            while v.len() > 1
                invariant
                    1 <= v@.len() <= orig.len(),
                    v@ == orig.take(v@.len() as int),
                    parked@.len() == orig.len() - v@.len(),
                    forall|i: int| 0 <= i < parked@.len() ==> (#[trigger] parked@[i]).buf.text().len() <= usize::MAX,
                    forall|i: int| 0 <= i < parked@.len() ==> {
                        let p = #[trigger] parked@[i];
                        &&& p.buf == orig[v@.len() + i]
                        &&& p.cursor_row == 0 && p.cursor_col == 0 && p.goal_col == 0
                        &&& p.top == 0 && p.left == 0
                    },
                decreases v.len(),
            {
                let ghost before = parked@;
                let b = v.pop().unwrap();
                // A buffer's length is a usize.
                let _ = b.len_chars();
                parked.push_front(
                    ParkedBuffer { buf: b, cursor_row: 0, cursor_col: 0, goal_col: 0, top: 0, left: 0 },
                );
                assert(v@ =~= orig.take(v@.len() as int));
                assert forall|i: int| 0 <= i < parked@.len() implies {
                    let p = #[trigger] parked@[i];
                    &&& p.buf == orig[v@.len() + i]
                    &&& p.cursor_row == 0 && p.cursor_col == 0 && p.goal_col == 0
                    &&& p.top == 0 && p.left == 0
                } by {
                    if i > 0 {
                        assert(parked@[i] == before[i - 1]);
                    }
                }
                assert forall|i: int| 0 <= i < parked@.len() implies (#[trigger] parked@[i]).buf.text().len() <= usize::MAX by {
                    if i > 0 {
                        assert(parked@[i] == before[i - 1]);
                    }
                }
            }
            v.pop().unwrap()
        };
        // A buffer's length is a usize.
        let _ = buf.len_chars();
        let buf_total = parked.len() + 1;
        let message = if buf.is_new {
            string_of(&chars_of("New file"))
        } else if buf.readonly {
            string_of(&chars_of("Read-only mode"))
        } else {
            String::new()
        };
        let theme = Theme::from_name(cfg.theme.as_str());
        let (syntax_rules, highlight_disabled) = syntax_for_buf(&buf, &cfg, file_size);
        let history = History::new(cfg.undo_depth);
        proof {
            lemma_origin_valid(buf.text());
            assert forall|i: int| 0 <= i < parked@.len() implies parked_ok(#[trigger] parked@[i]) by {
                lemma_origin_valid(parked@[i].buf.text());
            }
        }
        Editor {
            buf,
            cursor_row: 0,
            cursor_col: 0,
            goal_col: 0,
            top: 0,
            left: 0,
            width: if width >= 1 { width } else { 1 },
            height: if height >= 4 { height } else { 4 },
            message,
            focus: Focus::Edit,
            help_visible: false,
            help_scroll: 0,
            should_quit: false,
            kill: None,
            last_search: String::new(),
            history,
            cfg,
            theme,
            syntax_rules,
            highlight_disabled,
            parked_bufs: parked,
            buf_idx: 0,
            buf_total,
            macro_recording: false,
            macro_buf: Vec::new(),
            macro_saved: Vec::new(),
            replay: VecDeque::new(),
        }
    }

    /// Rows of the text area.
    pub fn text_height(&self) -> (h: usize)
        requires
            self.wf(),
        ensures
            h == text_height_spec(*self),
            h >= 1,
    {
        self.height - 3
    }

    /// Width of the line-number gutter (0 when disabled).
    pub fn gutter_width(&self) -> (g: usize)
        ensures
            g == gutter_spec(*self),
    {
        if !self.cfg.line_numbers {
            return 0;
        }
        let digits = chars_of(decimal_string(self.buf.len_lines()).as_str());
        proof {
            crate::text::lemma_decimal_len(num_lines(self.buf.text()));
        }
        digits.len() + 1
    }

    /// Usable text columns (viewport width minus gutter).
    pub fn text_width(&self) -> (w: usize)
        ensures
            w == text_width_spec(*self),
            w >= 1,
    {
        let g = self.gutter_width();
        if self.width > g {
            self.width - g
        } else {
            1
        }
    }
}


/// The viewport is unchanged.
pub open spec fn same_view(o: Editor, n: Editor) -> bool {
    n.top == o.top && n.left == o.left && n.width == o.width && n.height == o.height
}

/// The prompt, the help screen and the quit flag are unchanged.
pub open spec fn same_ui(o: Editor, n: Editor) -> bool {
    &&& n.focus == o.focus
    &&& n.help_visible == o.help_visible
    &&& n.help_scroll == o.help_scroll
    &&& n.should_quit == o.should_quit
}

/// The settings, the other buffers and the macros are unchanged (the keys
/// being recorded aside).
pub open spec fn same_session(o: Editor, n: Editor) -> bool {
    &&& n.last_search == o.last_search
    &&& n.cfg == o.cfg
    &&& n.theme == o.theme
    &&& n.syntax_rules == o.syntax_rules
    &&& n.highlight_disabled == o.highlight_disabled
    &&& n.parked_bufs == o.parked_bufs
    &&& n.buf_idx == o.buf_idx
    &&& n.buf_total == o.buf_total
    &&& n.macro_recording == o.macro_recording
    &&& n.macro_saved == o.macro_saved
    &&& n.replay == o.replay
}

/// The buffer, its history and the kill ring are unchanged.
pub open spec fn same_doc(o: Editor, n: Editor) -> bool {
    n.buf == o.buf && n.history@ == o.history@ && n.kill == o.kill
}

/// Only the cursor and the goal column may have changed (and the message and
/// the keys being recorded, which each operation states on its own).
pub open spec fn only_cursor(o: Editor, n: Editor) -> bool {
    same_doc(o, n) && same_view(o, n) && same_ui(o, n) && same_session(o, n)
}

/// The cursor is at `(row, col)` and the goal column follows it.
pub open spec fn cursor_at(n: Editor, row: int, col: int) -> bool {
    n.cursor_row == row && n.cursor_col == col && n.goal_col == cursor_dcol(n)
}

/// The cursor is on `row` at the column under the goal column, which stays.
pub open spec fn snapped_to(o: Editor, n: Editor, row: int) -> bool {
    &&& n.cursor_row == row
    &&& n.cursor_col == snap_col(o.buf.text(), row as nat, o.goal_col as nat, o.cfg.tab_width as nat)
    &&& n.goal_col == o.goal_col
}

/// One char left, or to the end of the previous line from the start of a line.
pub open spec fn moved_left(o: Editor, n: Editor) -> bool {
    &&& only_cursor(o, n)
    &&& if o.cursor_col > 0 {
        cursor_at(n, o.cursor_row as int, o.cursor_col - 1)
    } else if o.cursor_row > 0 {
        cursor_at(n, o.cursor_row - 1, line_len(o.buf.text(), (o.cursor_row - 1) as nat))
    } else {
        cursor_at(n, o.cursor_row as int, o.cursor_col as int)
    }
}

/// One char right, or to the start of the next line from the end of a line.
pub open spec fn moved_right(o: Editor, n: Editor) -> bool {
    &&& only_cursor(o, n)
    &&& if o.cursor_col < line_len(o.buf.text(), o.cursor_row as nat) {
        cursor_at(n, o.cursor_row as int, o.cursor_col + 1)
    } else if o.cursor_row + 1 < num_lines(o.buf.text()) {
        cursor_at(n, o.cursor_row + 1, 0)
    } else {
        cursor_at(n, o.cursor_row as int, o.cursor_col as int)
    }
}

/// One line up, at the goal column; nothing on the first line.
pub open spec fn moved_up(o: Editor, n: Editor) -> bool {
    &&& only_cursor(o, n)
    &&& if o.cursor_row > 0 {
        snapped_to(o, n, o.cursor_row - 1)
    } else {
        n.cursor_row == o.cursor_row && n.cursor_col == o.cursor_col && n.goal_col == o.goal_col
    }
}

/// One line down, at the goal column; nothing on the last line.
pub open spec fn moved_down(o: Editor, n: Editor) -> bool {
    &&& only_cursor(o, n)
    &&& if o.cursor_row + 1 < num_lines(o.buf.text()) {
        snapped_to(o, n, o.cursor_row + 1)
    } else {
        n.cursor_row == o.cursor_row && n.cursor_col == o.cursor_col && n.goal_col == o.goal_col
    }
}

/// To the start of the line.
pub open spec fn moved_home(o: Editor, n: Editor) -> bool {
    only_cursor(o, n) && cursor_at(n, o.cursor_row as int, 0)
}

/// To the end of the line.
pub open spec fn moved_end(o: Editor, n: Editor) -> bool {
    only_cursor(o, n) && cursor_at(n, o.cursor_row as int, line_len(o.buf.text(), o.cursor_row as nat))
}

/// A screen up (to the first line at most), at the goal column.
pub open spec fn paged_up(o: Editor, n: Editor) -> bool {
    &&& only_cursor(o, n)
    &&& snapped_to(
        o,
        n,
        if o.cursor_row >= text_height_spec(o) {
            o.cursor_row - text_height_spec(o)
        } else {
            0
        },
    )
}

/// A screen down (to the last line at most), at the goal column.
pub open spec fn paged_down(o: Editor, n: Editor) -> bool {
    &&& only_cursor(o, n)
    &&& snapped_to(
        o,
        n,
        if o.cursor_row + text_height_spec(o) < num_lines(o.buf.text()) - 1 {
            o.cursor_row + text_height_spec(o)
        } else {
            num_lines(o.buf.text()) - 1
        },
    )
}

impl Editor {
    /// The chars of the cursor's line, with its line break.
    pub fn cursor_line(&self) -> (v: Vec<char>)
        requires
            self.cursor_row < num_lines(self.buf.text()),
        ensures
            v@ == line_with_break(self.buf.text(), self.cursor_row as nat),
    {
        self.buf.line(self.cursor_row)
    }

    /// Char index of the cursor.
    pub fn cur_idx(&self) -> (k: usize)
        requires
            self.wf(),
        ensures
            k == pos_index(self.buf.text(), self.cursor_row as int, self.cursor_col as int),
            k <= self.buf.text().len(),
    {
        proof {
            lemma_valid_pos(self.buf.text(), self.cursor_row as int, self.cursor_col as int);
        }
        self.buf.char_idx(self.cursor_row, self.cursor_col)
    }

    /// The display column of the cursor.
    pub fn cursor_display_col(&self) -> (c: usize)
        requires
            self.cursor_row < num_lines(self.buf.text()),
            self.cfg.tab_width >= 1,
        ensures
            c == cursor_dcol(*self),
    {
        let line = self.cursor_line();
        display_col(line.as_slice(), self.cursor_col, self.cfg.tab_width)
    }

    /// Make the cursor's display column the goal column.
    pub fn update_goal(&mut self)
        requires
            old(self).cursor_row < num_lines(old(self).buf.text()),
            old(self).cfg.tab_width >= 1,
        ensures
            old(self).wf() ==> final(self).wf(),
            final(self).goal_col == cursor_dcol(*old(self)),
            final(self).cursor_row == old(self).cursor_row,
            final(self).cursor_col == old(self).cursor_col,
            only_cursor(*old(self), *final(self)),
            final(self).message == old(self).message,
            final(self).macro_buf == old(self).macro_buf,
    {
        self.goal_col = self.cursor_display_col();
    }

    /// Put the cursor on the column of its line under the goal column.
    pub fn snap_to_goal(&mut self)
        requires
            old(self).cfg.tab_width >= 1,
            old(self).cursor_row < num_lines(old(self).buf.text()),
        ensures
            final(self).cursor_col == snap_col(
                old(self).buf.text(),
                old(self).cursor_row as nat,
                old(self).goal_col as nat,
                old(self).cfg.tab_width as nat,
            ),
            valid_pos(final(self).buf.text(), final(self).cursor_row as int, final(self).cursor_col as int),
            final(self).cursor_row == old(self).cursor_row,
            final(self).goal_col == old(self).goal_col,
            only_cursor(*old(self), *final(self)),
            final(self).message == old(self).message,
            final(self).macro_buf == old(self).macro_buf,
    {
        let max = self.buf.line_len_chars(self.cursor_row);
        let line = self.buf.line(self.cursor_row);
        self.cursor_col = char_at_display(line.as_slice(), self.goal_col, max, self.cfg.tab_width);
    }

    pub fn move_left(&mut self)
        requires
            old(self).wf(),
        ensures
            final(self).wf(),
            moved_left(*old(self), *final(self)),
            final(self).message == old(self).message,
            final(self).macro_buf == old(self).macro_buf,
    {
        if self.cursor_col > 0 {
            self.cursor_col = self.cursor_col - 1;
        } else if self.cursor_row > 0 {
            self.cursor_row = self.cursor_row - 1;
            self.cursor_col = self.buf.line_len_chars(self.cursor_row);
        }
        self.update_goal();
    }

    pub fn move_right(&mut self)
        requires
            old(self).wf(),
        ensures
            final(self).wf(),
            moved_right(*old(self), *final(self)),
            final(self).message == old(self).message,
            final(self).macro_buf == old(self).macro_buf,
    {
        let len = self.buf.line_len_chars(self.cursor_row);
        if self.cursor_col < len {
            self.cursor_col = self.cursor_col + 1;
        } else if self.cursor_row < self.buf.len_lines() - 1 {
            self.cursor_row = self.cursor_row + 1;
            self.cursor_col = 0;
            proof {
                lemma_origin_col_valid(self.buf.text(), self.cursor_row as int);
            }
        }
        self.update_goal();
    }

    pub fn move_up(&mut self)
        requires
            old(self).wf(),
        ensures
            final(self).wf(),
            moved_up(*old(self), *final(self)),
            final(self).message == old(self).message,
            final(self).macro_buf == old(self).macro_buf,
    {
        if self.cursor_row > 0 {
            self.cursor_row = self.cursor_row - 1;
            self.snap_to_goal();
        }
    }

    pub fn move_down(&mut self)
        requires
            old(self).wf(),
        ensures
            final(self).wf(),
            moved_down(*old(self), *final(self)),
            final(self).message == old(self).message,
            final(self).macro_buf == old(self).macro_buf,
    {
        if self.cursor_row < self.buf.len_lines() - 1 {
            self.cursor_row = self.cursor_row + 1;
            self.snap_to_goal();
        }
    }

    pub fn move_home(&mut self)
        requires
            old(self).wf(),
        ensures
            final(self).wf(),
            moved_home(*old(self), *final(self)),
            final(self).message == old(self).message,
            final(self).macro_buf == old(self).macro_buf,
    {
        self.cursor_col = 0;
        self.update_goal();
    }

    pub fn move_end(&mut self)
        requires
            old(self).wf(),
        ensures
            final(self).wf(),
            moved_end(*old(self), *final(self)),
            final(self).message == old(self).message,
            final(self).macro_buf == old(self).macro_buf,
    {
        self.cursor_col = self.buf.line_len_chars(self.cursor_row);
        self.update_goal();
    }

    pub fn page_up(&mut self)
        requires
            old(self).wf(),
        ensures
            final(self).wf(),
            paged_up(*old(self), *final(self)),
            final(self).message == old(self).message,
            final(self).macro_buf == old(self).macro_buf,
    {
        let h = self.text_height();
        self.cursor_row = if self.cursor_row >= h {
            self.cursor_row - h
        } else {
            0
        };
        self.snap_to_goal();
    }

    pub fn page_down(&mut self)
        requires
            old(self).wf(),
        ensures
            final(self).wf(),
            paged_down(*old(self), *final(self)),
            final(self).message == old(self).message,
            final(self).macro_buf == old(self).macro_buf,
    {
        let h = self.text_height();
        let last = self.buf.len_lines() - 1;
        self.cursor_row = if self.cursor_row < last && h < last - self.cursor_row {
            self.cursor_row + h
        } else {
            last
        };
        self.snap_to_goal();
    }
}

} // verus!
