//! What the screen shows: the viewport that keeps the cursor in sight, the
//! title, status and hint lines, the help screen, and where the cursor goes.
//! The caller draws these; nothing here touches the terminal.
use crate::buffer::eol_label;
use crate::display::{fit, fit_spec, sat_add, str_width, unicode_str_width};
use crate::editor::{cursor_dcol, gutter_spec, text_height_spec, text_width_spec, Editor, Focus, Prompt, PromptKind};
use crate::lines::{line_len, line_with_break, num_lines};
use crate::input::HELP_LEN;
use crate::text::{chars_of, decimal, decimal_string, push_str};
use vstd::prelude::*;

verus! {

/// The viewport after scrolling: the first row shown keeps the cursor's row
/// in the text area, and (without soft wrap) the first column shown keeps
/// the cursor's display column in the text columns; with soft wrap the view
/// starts at column 0.
pub open spec fn scrolled(o: Editor, n: Editor) -> bool {
    let h = text_height_spec(o);
    let tw = text_width_spec(o);
    let top = if o.cursor_row < o.top {
        o.cursor_row as int
    } else if o.cursor_row >= o.top + h {
        o.cursor_row + 1 - h
    } else {
        o.top as int
    };
    let d = cursor_dcol(o);
    let left = if o.cfg.soft_wrap {
        0
    } else if d < o.left {
        d as int
    } else if d >= o.left + tw {
        d + 1 - tw
    } else {
        o.left as int
    };
    n == Editor { top: top as usize, left: left as usize, ..o }
}

/// The prompt line: the label and what was typed, and for a search whether
/// it ignores case and which match is current.
pub open spec fn prompt_text_spec(p: Prompt) -> Seq<char> {
    match p.kind {
        PromptKind::ConfirmQuit => " "@ + p.label@ + " "@,
        PromptKind::SaveAs { .. } => " "@ + p.label@ + ": "@ + p.input@,
        PromptKind::Search { case_insensitive, matches: found, current, .. } => {
            let ci = if case_insensitive {
                " [i]"@
            } else {
                Seq::empty()
            };
            let count = match current {
                Some(i) => " ["@ + decimal((i + 1) as nat) + "/"@ + decimal(found@.len()) + "]"@,
                None => if found@.len() > 0 {
                    " [0/"@ + decimal(found@.len()) + "]"@
                } else {
                    Seq::empty()
                },
            };
            " "@ + p.label@ + ci + ":"@ + p.input@ + count + " "@
        },
    }
}

/// The title bar: the file name (or `New Buffer`), a `*` when modified, and
/// marks for read-only buffers and for highlighting turned off.
pub open spec fn title_spec(e: Editor) -> Seq<char> {
    let name = match e.buf.path {
        Some(p) => p@,
        None => "New Buffer"@,
    };
    let modified = if e.buf.dirty {
        " *"@
    } else {
        Seq::empty()
    };
    let ro = if e.buf.readonly {
        " [readonly]"@
    } else {
        Seq::empty()
    };
    let hl_off = if e.highlight_disabled && e.syntax_rules@.len() > 0 {
        " [no hl]"@
    } else {
        Seq::empty()
    };
    " rnano  "@ + name + modified + ro + hl_off
}

/// The status line: the prompt, or the message, or else the cursor
/// position, the line-ending style, the buffer number when there are several
/// and a mark while a macro is recorded.
pub open spec fn status_spec(e: Editor) -> Seq<char> {
    match e.focus {
        Focus::Prompt(p) => prompt_text_spec(p),
        Focus::Edit => if e.message@.len() == 0 {
            let bufs = if e.buf_total > 1 {
                "  ["@ + decimal((e.buf_idx + 1) as nat) + "/"@ + decimal(e.buf_total as nat) + "]"@
            } else {
                Seq::empty()
            };
            let rec = if e.macro_recording {
                "  [REC]"@
            } else {
                Seq::empty()
            };
            " Ln "@ + decimal((e.cursor_row + 1) as nat) + ", Col "@ + decimal(sat_add(cursor_dcol(e), 1))
                + "   "@ + eol_label(e.buf.eol) + bufs + rec
        } else {
            " "@ + e.message@
        },
    }
}

/// The key-hint line.
pub open spec fn hint_spec() -> Seq<char> {
    " ^O Write  ^X Exit  ^G Help  ^K Cut  ^U Paste  ^W Search  ^Z Undo  ^Y Redo"@
}

/// The line of the help screen at `i`.
pub open spec fn help_line_spec(i: int) -> Seq<char> {
    if i == 0 { " rnano — keyboard shortcuts"@ }
    else if i == 2 { "  Navigation"@ }
    else if i == 3 { "    Arrows / Home / End / PgUp / PgDn   Move cursor"@ }
    else if i == 4 { "    Ctrl+A / Ctrl+E                     Start / end of line"@ }
    else if i == 6 { "  Editing"@ }
    else if i == 7 { "    Ctrl+K                              Cut line"@ }
    else if i == 8 { "    Ctrl+U                              Uncut (paste from kill ring)"@ }
    else if i == 9 { "    Alt+W                               Copy kill ring to OS clipboard"@ }
    else if i == 10 { "    Alt+U                               Paste from OS clipboard"@ }
    else if i == 11 { "    Ctrl+Z                              Undo"@ }
    else if i == 12 { "    Ctrl+Y                              Redo"@ }
    else if i == 14 { "  Macros"@ }
    else if i == 15 { "    Ctrl+R                              Start / stop macro recording"@ }
    else if i == 16 { "    Alt+R                               Play back last macro"@ }
    else if i == 18 { "  File"@ }
    else if i == 19 { "    Ctrl+O                              Write / Save as"@ }
    else if i == 20 { "    Ctrl+S                              Save (current filename)"@ }
    else if i == 21 { "    Ctrl+X                              Exit (prompts if modified)"@ }
    else if i == 23 { "  Buffers"@ }
    else if i == 24 { "    Alt+N                               Next buffer"@ }
    else if i == 25 { "    Alt+B                               Previous buffer"@ }
    else if i == 27 { "  Search"@ }
    else if i == 28 { "    Ctrl+W                              Incremental search"@ }
    else if i == 29 { "    Ctrl+W  (in search)                 Next match"@ }
    else if i == 30 { "    Ctrl+Q  (in search)                 Previous match"@ }
    else if i == 31 { "    Alt+C   (in search)                 Toggle case sensitivity"@ }
    else if i == 33 { "  View"@ }
    else if i == 34 { "    Ctrl+N                              Toggle line numbers"@ }
    else if i == 35 { "    Ctrl+P                              Toggle soft wrap"@ }
    else if i == 37 { "  Misc"@ }
    else if i == 38 { "    Ctrl+C                              Show cursor position"@ }
    else if i == 39 { "    Ctrl+G                              This help (↑↓ to scroll, any key closes)"@ }
    else if i == 41 { "  Press any key to return."@ }
    else { Seq::empty() }
}

/// The line of the help screen at `i` (empty past the end).
pub fn help_line(i: usize) -> (s: &'static str)
    ensures
        s@ == help_line_spec(i as int),
{
    if i == 0 { " rnano — keyboard shortcuts" }
    else if i == 2 { "  Navigation" }
    else if i == 3 { "    Arrows / Home / End / PgUp / PgDn   Move cursor" }
    else if i == 4 { "    Ctrl+A / Ctrl+E                     Start / end of line" }
    else if i == 6 { "  Editing" }
    else if i == 7 { "    Ctrl+K                              Cut line" }
    else if i == 8 { "    Ctrl+U                              Uncut (paste from kill ring)" }
    else if i == 9 { "    Alt+W                               Copy kill ring to OS clipboard" }
    else if i == 10 { "    Alt+U                               Paste from OS clipboard" }
    else if i == 11 { "    Ctrl+Z                              Undo" }
    else if i == 12 { "    Ctrl+Y                              Redo" }
    else if i == 14 { "  Macros" }
    else if i == 15 { "    Ctrl+R                              Start / stop macro recording" }
    else if i == 16 { "    Alt+R                               Play back last macro" }
    else if i == 18 { "  File" }
    else if i == 19 { "    Ctrl+O                              Write / Save as" }
    else if i == 20 { "    Ctrl+S                              Save (current filename)" }
    else if i == 21 { "    Ctrl+X                              Exit (prompts if modified)" }
    else if i == 23 { "  Buffers" }
    else if i == 24 { "    Alt+N                               Next buffer" }
    else if i == 25 { "    Alt+B                               Previous buffer" }
    else if i == 27 { "  Search" }
    else if i == 28 { "    Ctrl+W                              Incremental search" }
    else if i == 29 { "    Ctrl+W  (in search)                 Next match" }
    else if i == 30 { "    Ctrl+Q  (in search)                 Previous match" }
    else if i == 31 { "    Alt+C   (in search)                 Toggle case sensitivity" }
    else if i == 33 { "  View" }
    else if i == 34 { "    Ctrl+N                              Toggle line numbers" }
    else if i == 35 { "    Ctrl+P                              Toggle soft wrap" }
    else if i == 37 { "  Misc" }
    else if i == 38 { "    Ctrl+C                              Show cursor position" }
    else if i == 39 { "    Ctrl+G                              This help (↑↓ to scroll, any key closes)" }
    else if i == 41 { "  Press any key to return." }
    else {
        proof {
            reveal_strlit("");
        }
        ""
    }
}

/// A search prompt's current match index is below the number of matches, a
/// `usize`, so the next index fits one too.
proof fn lemma_current_match_fits(p: Prompt, len: nat)
    requires
        p.kind matches PromptKind::Search { matches: found, current: Some(i), .. } ==> i < found@.len(),
        p.kind matches PromptKind::Search { matches: found, .. } ==> found@.len() == len,
        len <= usize::MAX,
    ensures
        p.kind matches PromptKind::Search { current: Some(i), .. } ==> i < usize::MAX,
{
}

/// The number of matches a search prompt holds (0 for other prompts).
fn match_count(p: &Prompt) -> (n: usize)
    ensures
        p.kind matches PromptKind::Search { matches: found, .. } ==> n == found@.len(),
{
    match &p.kind {
        PromptKind::Search { matches: found, .. } => found.len(),
        _ => 0,
    }
}

/// The prompt line for `p`.
pub fn prompt_text(p: &Prompt) -> (s: String)
    requires
        p.kind matches PromptKind::Search { current: Some(i), .. } ==> i < usize::MAX,
    ensures
        s@ == prompt_text_spec(*p),
{
    let mut s = String::new();
    match &p.kind {
        PromptKind::ConfirmQuit => {
            push_str(&mut s, " ");
            push_str(&mut s, p.label.as_str());
            push_str(&mut s, " ");
        },
        PromptKind::SaveAs { .. } => {
            push_str(&mut s, " ");
            push_str(&mut s, p.label.as_str());
            push_str(&mut s, ": ");
            push_str(&mut s, p.input.as_str());
        },
        PromptKind::Search { case_insensitive, matches: found, current, .. } => {
            push_str(&mut s, " ");
            push_str(&mut s, p.label.as_str());
            if *case_insensitive {
                push_str(&mut s, " [i]");
            }
            push_str(&mut s, ":");
            push_str(&mut s, p.input.as_str());
            match current {
                Some(i) => {
                    let total = found.len();
                    push_str(&mut s, " [");
                    let a = decimal_string(*i + 1);
                    push_str(&mut s, a.as_str());
                    push_str(&mut s, "/");
                    let b = decimal_string(total);
                    push_str(&mut s, b.as_str());
                    push_str(&mut s, "]");
                },
                None => {
                    if found.len() > 0 {
                        push_str(&mut s, " [0/");
                        let b = decimal_string(found.len());
                        push_str(&mut s, b.as_str());
                        push_str(&mut s, "]");
                    }
                },
            }
            push_str(&mut s, " ");
        },
    }
    s
}

impl Editor {
    /// Move the viewport so the cursor is in sight.
    pub fn scroll(&mut self)
        requires
            old(self).wf(),
        ensures
            final(self).wf(),
            scrolled(*old(self), *final(self)),
    {
        let h = self.text_height();
        let tw = self.text_width();
        if self.cursor_row < self.top {
            self.top = self.cursor_row;
        } else if self.cursor_row - self.top >= h {
            self.top = self.cursor_row - (h - 1);
        }
        if self.cfg.soft_wrap {
            self.left = 0;
        } else {
            let dcol = self.cursor_display_col();
            if dcol < self.left {
                self.left = dcol;
            } else if dcol - self.left >= tw {
                self.left = dcol - (tw - 1);
            }
        }
    }

    /// The title bar's text, before it is fitted to the screen.
    pub fn title_text(&self) -> (s: String)
        ensures
            s@ == title_spec(*self),
    {
        let mut s = String::new();
        push_str(&mut s, " rnano  ");
        match &self.buf.path {
            Some(p) => push_str(&mut s, p.as_str()),
            None => push_str(&mut s, "New Buffer"),
        }
        if self.buf.dirty {
            push_str(&mut s, " *");
        }
        if self.buf.readonly {
            push_str(&mut s, " [readonly]");
        }
        if self.highlight_disabled && self.syntax_rules.len() > 0 {
            push_str(&mut s, " [no hl]");
        }
        s
    }

    /// The status line's text, before it is fitted to the screen.
    pub fn status_text(&self) -> (s: String)
        requires
            self.wf(),
        ensures
            s@ == status_spec(*self),
    {
        match &self.focus {
            Focus::Prompt(p) => {
                let n = match_count(p);
                proof {
                    lemma_current_match_fits(*p, n as nat);
                }
                prompt_text(p)
            },
            Focus::Edit => {
                let mut s = String::new();
                if self.message.as_str().is_empty() {
                    let lines = self.buf.len_lines();
                    push_str(&mut s, " Ln ");
                    let a = decimal_string(self.cursor_row + 1);
                    push_str(&mut s, a.as_str());
                    push_str(&mut s, ", Col ");
                    let d = self.cursor_display_col();
                    let b = decimal_string(if d == usize::MAX { d } else { d + 1 });
                    push_str(&mut s, b.as_str());
                    push_str(&mut s, "   ");
                    push_str(&mut s, self.buf.eol.label());
                    if self.buf_total > 1 {
                        push_str(&mut s, "  [");
                        let c = decimal_string(self.buf_idx + 1);
                        push_str(&mut s, c.as_str());
                        push_str(&mut s, "/");
                        let t = decimal_string(self.buf_total);
                        push_str(&mut s, t.as_str());
                        push_str(&mut s, "]");
                    }
                    if self.macro_recording {
                        push_str(&mut s, "  [REC]");
                    }
                } else {
                    push_str(&mut s, " ");
                    push_str(&mut s, self.message.as_str());
                }
                s
            },
        }
    }

    /// The three bars as the screen shows them: title, status and key hints,
    /// each cut and padded to the screen width.
    pub fn bars(&self) -> (r: (String, String, String))
        requires
            self.wf(),
        ensures
            r.0@ == fit_spec(title_spec(*self), self.width as nat),
            r.1@ == fit_spec(status_spec(*self), self.width as nat),
            r.2@ == fit_spec(hint_spec(), self.width as nat),
    {
        let t = chars_of(self.title_text().as_str());
        let st = chars_of(self.status_text().as_str());
        let h = chars_of(" ^O Write  ^X Exit  ^G Help  ^K Cut  ^U Paste  ^W Search  ^Z Undo  ^Y Redo");
        (fit(t.as_slice(), self.width), fit(st.as_slice(), self.width), fit(h.as_slice(), self.width))
    }

    /// The help screen: the help lines from the scroll position on, as many
    /// as the screen has rows, each cut and padded to the screen width.
    pub fn help_screen(&self) -> (r: Vec<String>)
        requires
            self.wf(),
        ensures
            r@.len() == if self.help_scroll < HELP_LEN {
                if HELP_LEN - self.help_scroll < self.height {
                    HELP_LEN - self.help_scroll
                } else {
                    self.height as int
                }
            } else {
                0
            },
            forall|i: int| 0 <= i < r@.len() ==> (#[trigger] r@[i])@ == fit_spec(
                help_line_spec(self.help_scroll + i),
                self.width as nat,
            ),
    {
        let mut r: Vec<String> = Vec::new();
        let rows = self.height;
        let mut i = self.help_scroll;
        while i < HELP_LEN && i - self.help_scroll < rows
            invariant
                self.help_scroll <= i,
                i <= HELP_LEN || i == self.help_scroll,
                i - self.help_scroll <= rows,
                rows == self.height,
                r@.len() == i - self.help_scroll,
                forall|k: int| 0 <= k < r@.len() ==> (#[trigger] r@[k])@ == fit_spec(
                    help_line_spec(self.help_scroll + k),
                    self.width as nat,
                ),
            decreases HELP_LEN - i,
        {
            let l = chars_of(help_line(i));
            r.push(fit(l.as_slice(), self.width));
            i = i + 1;
        }
        r
    }

    /// Where the terminal cursor goes: after the prompt on the status line,
    /// or on the text cursor.  Needs the viewport to show the cursor (see
    /// [`Editor::scroll`]).
    pub fn cursor_screen_pos(&self) -> (r: (usize, usize))
        requires
            self.wf(),
            self.top <= self.cursor_row,
            self.left <= cursor_dcol(*self),
            cursor_dcol(*self) - self.left + gutter_spec(*self) <= usize::MAX,
        ensures
            match self.focus {
                Focus::Prompt(p) => r == (
                    if str_width(prompt_text_spec(p)) < self.width - 1 {
                        str_width(prompt_text_spec(p))
                    } else {
                        (self.width - 1) as usize
                    },
                    (self.height - 2) as usize,
                ),
                Focus::Edit => r == (
                    (cursor_dcol(*self) - self.left + gutter_spec(*self)) as usize,
                    (1 + self.cursor_row - self.top) as usize,
                ),
            },
    {
        match &self.focus {
            Focus::Prompt(p) => {
                let n = match_count(p);
                proof {
                    lemma_current_match_fits(*p, n as nat);
                }
                let w = unicode_str_width(prompt_text(p).as_str());
                let col = if w < self.width - 1 {
                    w
                } else {
                    self.width - 1
                };
                (col, self.height - 2)
            },
            Focus::Edit => {
                let d = self.cursor_display_col();
                let g = self.gutter_width();
                // The line count is a usize, which bounds the cursor's row.
                let _ = self.buf.len_lines();
                (d - self.left + g, 1 + (self.cursor_row - self.top))
            },
        }
    }
}

/// `n` spaces.
pub open spec fn spaces(n: nat) -> Seq<char> {
    Seq::new(n, |i: int| ' ')
}

/// How many of the columns from `col` up to `end` lie in `[left, target)`.
pub open spec fn cut_cols(col: nat, end: nat, left: nat, target: nat) -> nat {
    let a = if col > left {
        col
    } else {
        left
    };
    let b = if end < target {
        end
    } else {
        target
    };
    if b > a {
        (b - a) as nat
    } else {
        0
    }
}

/// Drawing the chars of `line` from index `i` (at display column `col`) into
/// the columns `[left, target)`, after `out` was drawn taking `shown`
/// columns: a char wholly left of the window is skipped, the first char at
/// or past its right edge ends the drawing, a tab or a char cut by an edge
/// shows as spaces for its columns inside, any other char as itself.
pub open spec fn window_acc(
    line: Seq<char>,
    i: int,
    max: nat,
    col: nat,
    tab_width: nat,
    left: nat,
    target: nat,
    out: Seq<char>,
    shown: nat,
) -> (Seq<char>, nat)
    decreases line.len() - i,
{
    if i < 0 || i >= max || i >= line.len() {
        (out, shown)
    } else {
        let ch = line[i];
        let w = crate::display::cdw(ch, col, tab_width);
        let next = sat_add(col, w);
        if next <= left {
            window_acc(line, i + 1, max, next, tab_width, left, target, out, shown)
        } else if col >= target {
            (out, shown)
        } else if ch == '\t' || col < left || next > target {
            let n = cut_cols(col, next, left, target);
            window_acc(line, i + 1, max, next, tab_width, left, target, out + spaces(n), sat_add(shown, n))
        } else {
            window_acc(line, i + 1, max, next, tab_width, left, target, out.push(ch), sat_add(shown, w))
        }
    }
}

/// The first `max` chars of `line` drawn into `width` columns from display
/// column `left`, padded with spaces to `width` columns.
pub open spec fn window_spec(line: Seq<char>, max: nat, tab_width: nat, left: nat, width: nat) -> Seq<char> {
    let r = window_acc(line, 0, max, 0, tab_width, left, sat_add(left, width), Seq::empty(), 0);
    r.0 + spaces(if r.1 < width {
        (width - r.1) as nat
    } else {
        0
    })
}

/// Appends `n` spaces to `s`.
fn push_spaces(s: &mut String, n: usize)
    ensures
        final(s)@ == old(s)@ + spaces(n as nat),
{
    let mut i: usize = 0;
    while i < n
        invariant
            i <= n,
            s@ == old(s)@ + spaces(i as nat),
        decreases n - i,
    {
        crate::text::string_push(s, ' ');
        i = i + 1;
        assert(s@ =~= old(s)@ + spaces(i as nat));
    }
}

fn sat(a: usize, b: usize) -> (r: usize)
    ensures
        r == sat_add(a as nat, b as nat),
{
    if a > usize::MAX - b {
        usize::MAX
    } else {
        a + b
    }
}

/// Draw the first `max` chars of `line` into `width` columns starting at
/// display column `left`.
pub fn render_window(line: &[char], max: usize, tab_width: usize, left: usize, width: usize) -> (s: String)
    requires
        tab_width >= 1,
    ensures
        s@ == window_spec(line@, max as nat, tab_width as nat, left as nat, width as nat),
{
    let target = sat(left, width);
    let mut out = String::new();
    let mut col: usize = 0;
    let mut shown: usize = 0;
    let mut i: usize = 0;
    let mut stop = false;
    let ghost whole = window_acc(line@, 0, max as nat, 0, tab_width as nat, left as nat, target as nat, Seq::empty(), 0);
    while !stop && i < max && i < line.len()
        invariant
            tab_width >= 1,
            target == sat_add(left as nat, width as nat),
            stop ==> whole == (out@, shown as nat),
            !stop ==> whole == window_acc(
                line@,
                i as int,
                max as nat,
                col as nat,
                tab_width as nat,
                left as nat,
                target as nat,
                out@,
                shown as nat,
            ),
        decreases line.len() - i,
    {
        let ch = line[i];
        let w = crate::display::char_display_width(ch, col, tab_width);
        let next = sat(col, w);
        if next <= left {
            col = next;
            i = i + 1;
        } else if col >= target {
            stop = true;
            i = line.len();
        } else if ch == '\t' || col < left || next > target {
            let a = if col > left {
                col
            } else {
                left
            };
            let b = if next < target {
                next
            } else {
                target
            };
            let n = if b > a {
                b - a
            } else {
                0
            };
            push_spaces(&mut out, n);
            shown = sat(shown, n);
            col = next;
            i = i + 1;
        } else {
            crate::text::string_push(&mut out, ch);
            shown = sat(shown, w);
            col = next;
            i = i + 1;
        }
    }
    let pad = if shown < width {
        width - shown
    } else {
        0
    };
    push_spaces(&mut out, pad);
    out
}

/// The width of a wrapped line in screen rows: its display width plus one,
/// over the text width, at least one.
pub open spec fn wrap_rows(e: Editor, row: nat) -> nat {
    let t = e.buf.text();
    let c = crate::display::display_col_spec(line_with_break(t, row), line_len(t, row), e.cfg.tab_width as nat);
    let v = sat_add(c, 1) / text_width_spec(e);
    if v >= 1 {
        v
    } else {
        1
    }
}

/// The screen rows of the soft-wrapped text area from logical row `row` on,
/// `remaining` rows at most: each as `(logical row, wrapped segment)`.
pub open spec fn wrapped_from(e: Editor, row: nat, remaining: nat) -> Seq<(usize, usize)>
    decreases remaining,
{
    if remaining == 0 || row >= num_lines(e.buf.text()) {
        Seq::empty()
    } else {
        let v = wrap_rows(e, row);
        let k = if v < remaining {
            v
        } else {
            remaining
        };
        Seq::new(k, |j: int| (row as usize, j as usize)) + wrapped_from(e, row + 1, (remaining - k) as nat)
    }
}

/// The line-number cell of `row`: the number right-aligned in `gutter - 1`
/// columns and a space; nothing when the gutter is off.
pub open spec fn gutter_cell_spec(row: nat, gutter: nat) -> Seq<char> {
    if gutter == 0 {
        Seq::empty()
    } else {
        let d = decimal(row + 1);
        spaces(if gutter - 1 > d.len() {
            (gutter - 1 - d.len()) as nat
        } else {
            0
        }) + d + " "@
    }
}

/// The line-number cell of `row` (`format!("{:>w$} ", row + 1)` with `w` the
/// gutter width less one).
pub fn gutter_cell(row: usize, gutter: usize) -> (s: String)
    requires
        row < usize::MAX,
    ensures
        s@ == gutter_cell_spec(row as nat, gutter as nat),
{
    let mut s = String::new();
    if gutter == 0 {
        return s;
    }
    let d = decimal_string(row + 1);
    let n = chars_of(d.as_str()).len();
    let pad = if gutter - 1 > n {
        gutter - 1 - n
    } else {
        0
    };
    push_spaces(&mut s, pad);
    push_str(&mut s, d.as_str());
    push_str(&mut s, " ");
    s
}

impl Editor {
    /// Text row `row` drawn into the text columns from the first column shown.
    pub fn render_line(&self, row: usize) -> (s: String)
        requires
            self.wf(),
            row < num_lines(self.buf.text()),
        ensures
            s@ == window_spec(
                line_with_break(self.buf.text(), row as nat),
                line_len(self.buf.text(), row as nat) as nat,
                self.cfg.tab_width as nat,
                self.left as nat,
                text_width_spec(*self),
            ),
    {
        let line = self.buf.line(row);
        let max = self.buf.line_len_chars(row);
        render_window(line.as_slice(), max, self.cfg.tab_width, self.left, self.text_width())
    }

    /// Segment `subrow` of text row `row` wrapped at `tw` columns.
    pub fn render_wrapped_subrow(&self, row: usize, subrow: usize, tw: usize) -> (s: String)
        requires
            self.wf(),
            row < num_lines(self.buf.text()),
        ensures
            s@ == window_spec(
                line_with_break(self.buf.text(), row as nat),
                line_len(self.buf.text(), row as nat) as nat,
                self.cfg.tab_width as nat,
                if subrow * tw <= usize::MAX {
                    (subrow * tw) as nat
                } else {
                    usize::MAX as nat
                },
                tw as nat,
            ),
    {
        let start = if tw == 0 || subrow <= usize::MAX / tw {
            proof {
                if tw > 0 {
                    assert(subrow * tw <= usize::MAX) by (nonlinear_arith)
                        requires
                            subrow <= usize::MAX / tw,
                            tw > 0,
                    ;
                }
            }
            subrow * tw
        } else {
            proof {
                assert(subrow * tw > usize::MAX) by (nonlinear_arith)
                    requires
                        subrow > usize::MAX / tw,
                        tw > 0,
                ;
            }
            usize::MAX
        };
        let line = self.buf.line(row);
        let max = self.buf.line_len_chars(row);
        render_window(line.as_slice(), max, self.cfg.tab_width, start, tw)
    }

    fn wrap_rows_of(&self, row: usize) -> (v: usize)
        requires
            self.wf(),
            row < num_lines(self.buf.text()),
        ensures
            v == wrap_rows(*self, row as nat),
            v >= 1,
    {
        let line = self.buf.line(row);
        let max = self.buf.line_len_chars(row);
        let c = crate::display::display_col(line.as_slice(), max, self.cfg.tab_width);
        let v = sat(c, 1) / self.text_width();
        if v >= 1 {
            v
        } else {
            1
        }
    }

    /// The screen rows of the soft-wrapped text area, top to bottom, each as
    /// `(logical row, wrapped segment)`; rows past the text are blank.
    pub fn wrapped_rows(&self) -> (r: Vec<(usize, usize)>)
        requires
            self.wf(),
        ensures
            r@ == wrapped_from(*self, self.top as nat, text_height_spec(*self)),
    {
        let h = self.text_height();
        let lines = self.buf.len_lines();
        let mut r: Vec<(usize, usize)> = Vec::new();
        let mut remaining = h;
        let mut row = self.top;
        while remaining > 0 && row < lines
            invariant
                lines == num_lines(self.buf.text()),
                self.wf(),
                wrapped_from(*self, self.top as nat, text_height_spec(*self)) == r@ + wrapped_from(
                    *self,
                    row as nat,
                    remaining as nat,
                ),
            decreases remaining,
        {
            let v = self.wrap_rows_of(row);
            let k = if v < remaining {
                v
            } else {
                remaining
            };
            let ghost before = r@;
            let mut j: usize = 0;
            while j < k
                invariant
                    j <= k,
                    r@ == before + Seq::new(j as nat, |x: int| (row as usize, x as usize)),
                decreases k - j,
            {
                r.push((row, j));
                j = j + 1;
                assert(r@ =~= before + Seq::new(j as nat, |x: int| (row as usize, x as usize)));
            }
            proof {
                assert(before + (Seq::new(k as nat, |x: int| (row as usize, x as usize)) + wrapped_from(
                    *self,
                    (row + 1) as nat,
                    (remaining - k) as nat,
                )) =~= r@ + wrapped_from(*self, (row + 1) as nat, (remaining - k) as nat));
            }
            remaining = remaining - k;
            row = row + 1;
        }
        assert(r@ + Seq::<(usize, usize)>::empty() =~= r@);
        r
    }
}

/// `a - b`, or 0 when `b` is larger.
pub open spec fn sat_sub(a: nat, b: nat) -> nat {
    if a >= b {
        (a - b) as nat
    } else {
        0
    }
}

/// The smaller of two numbers.
pub open spec fn min_nat(a: nat, b: nat) -> nat {
    if a <= b {
        a
    } else {
        b
    }
}

/// The screen columns of the matches on `row`, from match `i` on: each
/// match's display columns shifted by the first column shown and cut to the
/// text columns; matches off screen are left out.
pub open spec fn match_ranges_from(
    ms: Seq<(usize, usize, usize)>,
    i: int,
    row: usize,
    line: Seq<char>,
    tab_width: nat,
    left: nat,
    tw: nat,
) -> Seq<(usize, usize)>
    decreases ms.len() - i,
{
    if i < 0 || i >= ms.len() {
        Seq::empty()
    } else {
        let rest = match_ranges_from(ms, i + 1, row, line, tab_width, left, tw);
        let m = ms[i];
        if m.0 != row {
            rest
        } else {
            let ds = crate::display::display_col_spec(line, m.1 as int, tab_width);
            let de = crate::display::display_col_spec(line, m.2 as int, tab_width);
            if de <= left || ds >= sat_add(left, tw) {
                rest
            } else {
                let ss = min_nat(sat_sub(ds, left), tw);
                let se = min_nat(sat_sub(de, left), tw);
                if ss < se {
                    seq![(ss as usize, se as usize)] + rest
                } else {
                    rest
                }
            }
        }
    }
}

/// The screen columns of the search matches on `row`, before merging.
pub open spec fn raw_screen_ranges(e: Editor, row: usize) -> Seq<(usize, usize)> {
    match e.focus {
        Focus::Prompt(p) => match p.kind {
            PromptKind::Search { matches: found, .. } => match_ranges_from(
                found@,
                0,
                row,
                line_with_break(e.buf.text(), row as nat),
                e.cfg.tab_width as nat,
                e.left as nat,
                text_width_spec(e),
            ),
            _ => Seq::empty(),
        },
        Focus::Edit => Seq::empty(),
    }
}

/// The chars of line `row`, without its line break.
pub open spec fn line_text(t: Seq<char>, row: nat) -> Seq<char> {
    t.subrange(crate::lines::line_start(t, row), crate::lines::line_end(t, row))
}

impl Editor {
    /// The screen columns of the search matches on `row`, sorted and merged.
    pub fn highlight_screen_ranges(&self, row: usize) -> (r: Vec<(usize, usize)>)
        requires
            self.wf(),
            row < num_lines(self.buf.text()),
        ensures
            raw_screen_ranges(*self, row).len() < 2 ==> r@ == raw_screen_ranges(*self, row),
            raw_screen_ranges(*self, row).len() >= 2 ==> exists|t: Seq<(usize, usize)>|
                crate::search::sorted_permutation(raw_screen_ranges(*self, row), t) && r@
                    == crate::search::merge_spec(t),
    {
        let found = match &self.focus {
            Focus::Prompt(p) => match &p.kind {
                PromptKind::Search { matches: found, .. } => found,
                _ => {
                    return Vec::new();
                },
            },
            Focus::Edit => {
                return Vec::new();
            },
        };
        let tab = self.cfg.tab_width;
        let tw = self.text_width();
        let line = self.buf.line(row);
        let limit = sat(self.left, tw);
        let mut raw: Vec<(usize, usize)> = Vec::new();
        let mut i = found.len();
        while i > 0
            invariant
                i <= found@.len(),
                tab >= 1,
                limit == sat_add(self.left as nat, tw as nat),
                raw@ == match_ranges_from(found@, i as int, row, line@, tab as nat, self.left as nat, tw as nat),
            decreases i,
        {
            i = i - 1;
            let (mr, cs, ce) = found[i];
            if mr == row {
                let ds = crate::display::display_col(line.as_slice(), cs, tab);
                let de = crate::display::display_col(line.as_slice(), ce, tab);
                if !(de <= self.left || ds >= limit) {
                    let a = if ds >= self.left {
                        ds - self.left
                    } else {
                        0
                    };
                    let b = if de >= self.left {
                        de - self.left
                    } else {
                        0
                    };
                    let ss = if a <= tw {
                        a
                    } else {
                        tw
                    };
                    let se = if b <= tw {
                        b
                    } else {
                        tw
                    };
                    if ss < se {
                        raw.insert(0, (ss, se));
                    }
                }
            }
        }
        crate::search::merge_ranges(raw)
    }

    /// The syntax spans of line `row`, or none when highlighting is off.
    pub fn syntax_spans_for_row(&self, row: usize) -> (r: Vec<(usize, usize, crate::style::Color)>)
        requires
            self.wf(),
            row < num_lines(self.buf.text()),
        ensures
            (self.highlight_disabled || self.syntax_rules@.len() == 0) ==> r@.len() == 0,
            !(self.highlight_disabled || self.syntax_rules@.len() == 0) ==> exists|
                t: Seq<(usize, usize, crate::style::Color)>,
            |
                crate::highlight::sorted_by_start(
                    crate::highlight::all_spans(line_text(self.buf.text(), row as nat), self.syntax_rules@),
                    t,
                ) && r@ == crate::highlight::keep_from(t, 0, 0),
            forall|i: int| 0 <= i < r@.len() ==> #[trigger] r@[i].0 <= r@[i].1 <= line_text(
                self.buf.text(),
                row as nat,
            ).len(),
            forall|i: int| 0 <= i < r@.len() - 1 ==> #[trigger] r@[i].1 <= r@[i + 1].0,
    {
        if self.highlight_disabled || self.syntax_rules.len() == 0 {
            return Vec::new();
        }
        let line = self.buf.line(row);
        let n = self.buf.line_len_chars(row);
        proof {
            crate::lines::lemma_line(self.buf.text(), row as nat);
            assert(line@.take(n as int) =~= line_text(self.buf.text(), row as nat));
        }
        let text = crate::text::sub_string(&line, 0, n);
        assert(line@.subrange(0, n as int) =~= line@.take(n as int));
        assert(text@ == line_text(self.buf.text(), row as nat));
        let ts = text.as_str();
        let r = crate::highlight::highlight_line(ts, self.syntax_rules.as_slice());
        assert(ts@ == line_text(self.buf.text(), row as nat));
        assert forall|i: int| 0 <= i < r@.len() implies #[trigger] r@[i].0 <= r@[i].1 <= line_text(
            self.buf.text(),
            row as nat,
        ).len() by {
            let s = r@[i];
            assert(s.0 <= s.1 <= ts@.len());
            assert(ts@.len() == line_text(self.buf.text(), row as nat).len());
        }
        assert(ts@.len() == line_text(self.buf.text(), row as nat).len());
        r
    }
}

impl Editor {
    /// The text row shown on each row of the text area (without soft wrap):
    /// `None` past the end of the text.
    pub fn text_area_rows(&self) -> (r: Vec<Option<usize>>)
        requires
            self.wf(),
        ensures
            r@.len() == text_height_spec(*self),
            forall|i: int|
                0 <= i < r@.len() ==> #[trigger] r@[i] == if self.top + i < num_lines(self.buf.text()) {
                    Some((self.top + i) as usize)
                } else {
                    None
                },
    {
        let h = self.text_height();
        let lines = self.buf.len_lines();
        let mut r: Vec<Option<usize>> = Vec::new();
        let mut i: usize = 0;
        while i < h
            invariant
                i <= h,
                h == text_height_spec(*self),
                lines == num_lines(self.buf.text()),
                r@.len() == i,
                forall|j: int|
                    0 <= j < i ==> #[trigger] r@[j] == if self.top + j < num_lines(self.buf.text()) {
                        Some((self.top + j) as usize)
                    } else {
                        None
                    },
            decreases h - i,
        {
            if self.top < lines && i < lines - self.top {
                r.push(Some(self.top + i));
            } else {
                r.push(None);
            }
            i = i + 1;
        }
        r
    }

    /// Whether an autosave is due to write anything: the buffer is modified,
    /// writable and has a file.
    pub fn wants_autosave(&self) -> (r: bool)
        ensures
            r == (self.buf.dirty && !self.buf.readonly && self.buf.path is Some),
    {
        self.buf.dirty && !self.buf.readonly && self.buf.path.is_some()
    }

    /// Report a failed autosave.
    pub fn autosave_failed(&mut self, err: &str)
        requires
            old(self).wf(),
        ensures
            final(self).wf(),
            *final(self) == (Editor { message: final(self).message, ..*old(self) }),
            final(self).message@ == "Autosave failed: "@ + err@,
    {
        let mut m = String::new();
        push_str(&mut m, "Autosave failed: ");
        push_str(&mut m, err);
        self.message = m;
    }
}

} // verus!
