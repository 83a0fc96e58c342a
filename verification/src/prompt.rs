//! The incremental search prompt.
use crate::editor::{cursor_at, same_doc, same_session, same_view, Editor, Focus, Prompt, PromptKind};
use crate::search::{first_match_at_or_after, first_match_ok, search_matches, search_spec};
use crate::text::{string_pop, string_push};
use vstd::prelude::*;

verus! {

/// A change to the search query.
#[derive(Clone, Copy, PartialEq, Eq, Debug, Structural)]
pub enum SearchEdit {
    /// Switch between case-sensitive and case-insensitive matching.
    ToggleCase,
    /// Delete the last char of the query.
    Pop,
    /// Add a char to the query.
    Push(char),
}

/// Everything but the cursor, the goal column and the prompt is unchanged.
pub open spec fn same_but_prompt(o: Editor, n: Editor) -> bool {
    &&& same_doc(o, n)
    &&& same_view(o, n)
    &&& same_session(o, n)
    &&& n.help_visible == o.help_visible
    &&& n.help_scroll == o.help_scroll
    &&& n.should_quit == o.should_quit
}

/// The focus is a search prompt with these contents.
pub open spec fn search_prompt(
    n: Editor,
    input: Seq<char>,
    ci: bool,
    ms: Seq<(usize, usize, usize)>,
    cur: Option<usize>,
    saved_row: usize,
    saved_col: usize,
) -> bool {
    &&& n.focus matches Focus::Prompt(p)
    &&& p.input@ == input
    &&& p.kind matches PromptKind::Search { case_insensitive, matches: found, current, saved_row: sr, saved_col: sc }
    &&& case_insensitive == ci
    &&& found@ == ms
    &&& current == cur
    &&& sr == saved_row
    &&& sc == saved_col
}

/// `cur` is the first of `ms` at or after `(row, col)` (the first of all when
/// none is), and the cursor jumped there; it stays when there is no match.
pub open spec fn jumped_to_first(
    o: Editor,
    n: Editor,
    ms: Seq<(usize, usize, usize)>,
    cur: Option<usize>,
    row: usize,
    col: usize,
) -> bool {
    &&& (cur is None <==> ms.len() == 0)
    &&& match cur {
        Some(i) => first_match_ok(ms, row, col, i as int) && cursor_at(
            n,
            ms[i as int].0 as int,
            ms[i as int].1 as int,
        ),
        None => n.cursor_row == o.cursor_row && n.cursor_col == o.cursor_col && n.goal_col
            == o.goal_col,
    }
}

/// The search prompt opened with the last query, its matches found and the
/// cursor on the first one at or after it.
pub open spec fn search_opened(o: Editor, n: Editor) -> bool {
    let ms = search_spec(o.buf.text(), o.last_search@, false);
    &&& same_but_prompt(o, n)
    &&& n.focus is Prompt
    &&& n.focus->0.label@ == "Search"@
    &&& exists|cur: Option<usize>|
        search_prompt(n, o.last_search@, false, ms, cur, o.cursor_row, o.cursor_col)
            && jumped_to_first(o, n, ms, cur, o.cursor_row, o.cursor_col)
}

/// The match after (or before) the current one, cycling, when the search has
/// matches; the first one when none is current.
pub open spec fn next_match(current: Option<usize>, len: nat, forward: bool) -> usize {
    match current {
        None => 0,
        Some(i) => if forward {
            ((i + 1) % (len as int)) as usize
        } else if i == 0 {
            (len - 1) as usize
        } else {
            (i - 1) as usize
        },
    }
}

/// The cursor moved to the next (or previous) match.
pub open spec fn search_stepped(o: Editor, n: Editor, forward: bool) -> bool {
    &&& same_but_prompt(o, n)
    &&& match o.focus {
        Focus::Prompt(p) => match p.kind {
            PromptKind::Search { case_insensitive, matches: found, current, saved_row, saved_col } => {
                if found@.len() == 0 {
                    n.focus == o.focus && n.cursor_row == o.cursor_row && n.cursor_col == o.cursor_col
                        && n.goal_col == o.goal_col
                } else {
                    let next = next_match(current, found@.len(), forward);
                    &&& n.focus == Focus::Prompt(
                        Prompt {
                            label: p.label,
                            input: p.input,
                            kind: PromptKind::Search {
                                case_insensitive,
                                matches: found,
                                current: Some(next),
                                saved_row,
                                saved_col,
                            },
                        },
                    )
                    &&& cursor_at(n, found@[next as int].0 as int, found@[next as int].1 as int)
                }
            },
            _ => n.focus == o.focus && n.cursor_row == o.cursor_row && n.cursor_col == o.cursor_col
                && n.goal_col == o.goal_col,
        },
        Focus::Edit => n.focus == o.focus && n.cursor_row == o.cursor_row && n.cursor_col
            == o.cursor_col && n.goal_col == o.goal_col,
    }
}

/// The search closed: accepted, the cursor stays on the current match and
/// the query is remembered; cancelled, the cursor goes back where it was.
pub open spec fn search_closed(o: Editor, n: Editor, accept: bool) -> bool {
    match o.focus {
        Focus::Prompt(p) => match p.kind {
            PromptKind::Search { matches: found, current, saved_row, saved_col, .. } => {
                &&& same_doc(o, n)
                &&& same_view(o, n)
                &&& n.help_visible == o.help_visible
                &&& n.help_scroll == o.help_scroll
                &&& n.should_quit == o.should_quit
                &&& n.cfg == o.cfg && n.theme == o.theme && n.syntax_rules == o.syntax_rules
                &&& n.highlight_disabled == o.highlight_disabled
                &&& n.parked_bufs == o.parked_bufs && n.buf_idx == o.buf_idx && n.buf_total == o.buf_total
                &&& n.macro_recording == o.macro_recording && n.macro_saved == o.macro_saved
                &&& n.replay == o.replay
                &&& n.focus is Edit
                &&& if accept {
                    &&& n.last_search@ == p.input@
                    &&& match current {
                        Some(i) => cursor_at(n, found@[i as int].0 as int, found@[i as int].1 as int),
                        None => cursor_at(n, o.cursor_row as int, o.cursor_col as int),
                    }
                    &&& n.message@ == if found@.len() == 0 {
                        "No matches"@
                    } else {
                        Seq::empty()
                    }
                } else {
                    &&& n.last_search == o.last_search
                    &&& cursor_at(n, saved_row as int, saved_col as int)
                    &&& n.message@ == "Search cancelled"@
                }
            },
            _ => same_but_prompt(o, n) && n.focus == o.focus && n.cursor_row == o.cursor_row
                && n.cursor_col == o.cursor_col && n.goal_col == o.goal_col && n.message == o.message,
        },
        Focus::Edit => same_but_prompt(o, n) && n.focus == o.focus && n.cursor_row == o.cursor_row
            && n.cursor_col == o.cursor_col && n.goal_col == o.goal_col && n.message == o.message,
    }
}

/// The query after an edit.
pub open spec fn edited_query(input: Seq<char>, edit: SearchEdit) -> Seq<char> {
    match edit {
        SearchEdit::Push(c) => input.push(c),
        SearchEdit::Pop => if input.len() > 0 {
            input.drop_last()
        } else {
            input
        },
        SearchEdit::ToggleCase => input,
    }
}

/// Whether the search ignores case after an edit.
pub open spec fn edited_case(ci: bool, edit: SearchEdit) -> bool {
    if edit == SearchEdit::ToggleCase {
        !ci
    } else {
        ci
    }
}

/// The query changed: the matches are found again and the cursor jumps to
/// the first one at or after where the search opened.
pub open spec fn search_edited(o: Editor, n: Editor, edit: SearchEdit) -> bool {
    &&& same_but_prompt(o, n)
    &&& match o.focus {
        Focus::Prompt(p) => match p.kind {
            PromptKind::Search { case_insensitive, saved_row, saved_col, .. } => {
                let ci = edited_case(case_insensitive, edit);
                let q = edited_query(p.input@, edit);
                let ms = search_spec(o.buf.text(), q, ci);
                &&& n.focus is Prompt
                &&& n.focus->0.label == p.label
                &&& exists|cur: Option<usize>|
                    search_prompt(n, q, ci, ms, cur, saved_row, saved_col) && jumped_to_first(
                        o,
                        n,
                        ms,
                        cur,
                        saved_row,
                        saved_col,
                    )
            },
            _ => n.focus == o.focus && n.cursor_row == o.cursor_row && n.cursor_col == o.cursor_col
                && n.goal_col == o.goal_col,
        },
        Focus::Edit => n.focus == o.focus && n.cursor_row == o.cursor_row && n.cursor_col
            == o.cursor_col && n.goal_col == o.goal_col,
    }
}

impl Editor {
    /// Open the search prompt with the last query.
    pub fn open_search(&mut self)
        requires
            old(self).wf(),
        ensures
            final(self).wf(),
            search_opened(*old(self), *final(self)),
            final(self).message == old(self).message,
            final(self).macro_buf == old(self).macro_buf,
    {
        let ghost o = *self;
        let saved_row = self.cursor_row;
        let saved_col = self.cursor_col;
        let initial = self.last_search.clone();
        let found = search_matches(&self.buf, initial.as_str(), false);
        let current = first_match_at_or_after(found.as_slice(), saved_row, saved_col);
        match current {
            Some(idx) => {
                let (r, c, _) = found[idx];
                self.cursor_row = r;
                self.cursor_col = c;
                self.update_goal();
            },
            None => {},
        }
        self.focus = Focus::Prompt(
            Prompt {
                label: "Search".to_owned(),
                input: initial,
                kind: PromptKind::Search {
                    case_insensitive: false,
                    matches: found,
                    current,
                    saved_row,
                    saved_col,
                },
            },
        );
        let ghost ms = search_spec(self.buf.text(), self.last_search@, false);
        assert(search_prompt(*self, self.last_search@, false, ms, current, saved_row, saved_col));
        assert(jumped_to_first(o, *self, ms, current, saved_row, saved_col));
    }

    /// Move to the next (or previous) match, cycling.
    pub fn search_step(&mut self, forward: bool)
        requires
            old(self).wf(),
        ensures
            final(self).wf(),
            search_stepped(*old(self), *final(self), forward),
            final(self).message == old(self).message,
            final(self).macro_buf == old(self).macro_buf,
    {
        let mut f = Focus::Edit;
        std::mem::swap(&mut f, &mut self.focus);
        match f {
            Focus::Prompt(p) => {
                let Prompt { label, input, kind } = p;
                match kind {
                    PromptKind::Search { case_insensitive, matches: found, current, saved_row, saved_col } => {
                        if found.len() == 0 {
                            self.focus = Focus::Prompt(
                                Prompt {
                                    label,
                                    input,
                                    kind: PromptKind::Search {
                                        case_insensitive,
                                        matches: found,
                                        current,
                                        saved_row,
                                        saved_col,
                                    },
                                },
                            );
                            return;
                        }
                        let next = match current {
                            None => 0,
                            Some(i) => {
                                if forward {
                                    (i + 1) % found.len()
                                } else if i == 0 {
                                    found.len() - 1
                                } else {
                                    i - 1
                                }
                            },
                        };
                        let (r, c, _) = found[next];
                        self.cursor_row = r;
                        self.cursor_col = c;
                        self.update_goal();
                        self.focus = Focus::Prompt(
                            Prompt {
                                label,
                                input,
                                kind: PromptKind::Search {
                                    case_insensitive,
                                    matches: found,
                                    current: Some(next),
                                    saved_row,
                                    saved_col,
                                },
                            },
                        );
                    },
                    other => {
                        self.focus = Focus::Prompt(Prompt { label, input, kind: other });
                    },
                }
            },
            Focus::Edit => {
                self.focus = Focus::Edit;
            },
        }
    }
}

impl Editor {
    /// Close the search, accepting the current match or going back.
    pub fn search_close(&mut self, accept: bool)
        requires
            old(self).wf(),
        ensures
            final(self).wf(),
            search_closed(*old(self), *final(self), accept),
            final(self).macro_buf == old(self).macro_buf,
    {
        let mut f = Focus::Edit;
        std::mem::swap(&mut f, &mut self.focus);
        match f {
            Focus::Prompt(p) => {
                let Prompt { label, input, kind } = p;
                match kind {
                    PromptKind::Search { matches: found, current, saved_row, saved_col, .. } => {
                        if accept {
                            match current {
                                Some(idx) => {
                                    let (r, c, _) = found[idx];
                                    self.cursor_row = r;
                                    self.cursor_col = c;
                                },
                                None => {},
                            }
                            self.last_search = input;
                            self.message = if found.len() == 0 {
                                "No matches".to_owned()
                            } else {
                                String::new()
                            };
                        } else {
                            self.cursor_row = saved_row;
                            self.cursor_col = saved_col;
                            self.message = "Search cancelled".to_owned();
                        }
                        self.update_goal();
                    },
                    other => {
                        self.focus = Focus::Prompt(Prompt { label, input, kind: other });
                    },
                }
            },
            Focus::Edit => {},
        }
    }

    /// Change the query and search again.
    pub fn search_edit(&mut self, edit: SearchEdit)
        requires
            old(self).wf(),
        ensures
            final(self).wf(),
            search_edited(*old(self), *final(self), edit),
            final(self).message == old(self).message,
            final(self).macro_buf == old(self).macro_buf,
    {
        let ghost o = *self;
        let mut f = Focus::Edit;
        std::mem::swap(&mut f, &mut self.focus);
        match f {
            Focus::Prompt(p) => {
                let Prompt { label, input, kind } = p;
                match kind {
                    PromptKind::Search { case_insensitive, saved_row, saved_col, .. } => {
                        let ghost old_input = input@;
                        let mut input = input;
                        let mut ci = case_insensitive;
                        match edit {
                            SearchEdit::ToggleCase => {
                                ci = !ci;
                            },
                            SearchEdit::Pop => {
                                string_pop(&mut input);
                            },
                            SearchEdit::Push(c) => {
                                string_push(&mut input, c);
                            },
                        }
                        let found = search_matches(&self.buf, input.as_str(), ci);
                        let current = first_match_at_or_after(found.as_slice(), saved_row, saved_col);
                        match current {
                            Some(idx) => {
                                let (r, c, _) = found[idx];
                                self.cursor_row = r;
                                self.cursor_col = c;
                                self.update_goal();
                            },
                            None => {},
                        }
                        let ghost q = input@;
                        let ghost ms = found@;
                        self.focus = Focus::Prompt(
                            Prompt {
                                label,
                                input,
                                kind: PromptKind::Search {
                                    case_insensitive: ci,
                                    matches: found,
                                    current,
                                    saved_row,
                                    saved_col,
                                },
                            },
                        );
                        let ghost ci2 = edited_case(case_insensitive, edit);
                        let ghost q2 = edited_query(old_input, edit);
                        let ghost ms2 = search_spec(o.buf.text(), q2, ci2);
                        assert(q == q2);
                        assert(ci == ci2);
                        assert(ms == ms2);
                        assert(search_prompt(*self, q2, ci2, ms2, current, saved_row, saved_col));
                        assert(jumped_to_first(o, *self, ms2, current, saved_row, saved_col));

                    },
                    other => {
                        self.focus = Focus::Prompt(Prompt { label, input, kind: other });
                    },
                }
            },
            Focus::Edit => {},
        }
    }
}

} // verus!
