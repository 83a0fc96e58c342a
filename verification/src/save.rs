//! Saving and quitting: the prompts that lead to a save, the messages that
//! report one, and the post-save hook command.
use crate::edit::unchanged;
use crate::editor::{same_doc, same_session, same_view, Editor, Effect, Focus, Prompt, PromptKind};
use crate::text::{decimal, decimal_string, push_str, string_push};
use vstd::prelude::*;

verus! {

/// The kind of an I/O failure.
#[derive(Clone, Copy, PartialEq, Eq, Debug, Structural)]
pub enum IoKind {
    NotFound,
    PermissionDenied,
    StorageFull,
    ReadOnlyFilesystem,
    InvalidInput,
    InvalidData,
    Other,
}

/// An I/O failure: its kind and the text it displays as.
#[derive(Clone, Debug)]
pub struct IoFailure {
    pub kind: IoKind,
    pub message: String,
}

/// How a post-save hook ended.
#[derive(Clone, Debug)]
pub enum HookOutcome {
    /// It ran and exited with status 0.
    Success,
    /// It ran and exited with this code (-1 when killed by a signal).
    Exited(i32),
    /// It could not be started; the error's text.
    Failed(String),
}

/// The message for a failed save of `path`, with a hint for the common causes.
pub open spec fn save_error_text(path: Seq<char>, kind: IoKind, msg: Seq<char>) -> Seq<char> {
    match kind {
        IoKind::PermissionDenied => "Permission denied writing \""@ + path
            + "\" — check file permissions or try sudo"@,
        IoKind::StorageFull => "No space left on device writing \""@ + path
            + "\" — free up disk space and retry"@,
        IoKind::ReadOnlyFilesystem => "Read-only filesystem writing \""@ + path
            + "\" — remount rw or save elsewhere"@,
        _ => "Error writing \""@ + path + "\": "@ + msg,
    }
}

/// The message for a failed save of `path`: actionable hints for permission
/// problems, a full disk and a read-only file system.
pub fn actionable_save_error(path: &str, e: &IoFailure) -> (s: String)
    ensures
        s@ == save_error_text(path@, e.kind, e.message@),
{
    let mut s = String::new();
    match e.kind {
        IoKind::PermissionDenied => {
            push_str(&mut s, "Permission denied writing \"");
            push_str(&mut s, path);
            push_str(&mut s, "\" — check file permissions or try sudo");
        },
        IoKind::StorageFull => {
            push_str(&mut s, "No space left on device writing \"");
            push_str(&mut s, path);
            push_str(&mut s, "\" — free up disk space and retry");
        },
        IoKind::ReadOnlyFilesystem => {
            push_str(&mut s, "Read-only filesystem writing \"");
            push_str(&mut s, path);
            push_str(&mut s, "\" — remount rw or save elsewhere");
        },
        _ => {
            push_str(&mut s, "Error writing \"");
            push_str(&mut s, path);
            push_str(&mut s, "\": ");
            push_str(&mut s, e.message.as_str());
        },
    }
    s
}

/// Annotate a read failure with an actionable hint for common cases: a
/// permission problem says to open the file read-only or check permissions.
pub fn annotate_read_error(path: &str, e: IoFailure) -> (r: IoFailure)
    ensures
        r.kind == e.kind,
        r.message@ == if e.kind == IoKind::PermissionDenied {
            path@ + ": permission denied — try opening with --readonly or check file permissions"@
        } else {
            e.message@
        },
{
    if e.kind == IoKind::PermissionDenied {
        let mut m = String::new();
        push_str(&mut m, path);
        push_str(&mut m, ": permission denied — try opening with --readonly or check file permissions");
        IoFailure { kind: e.kind, message: m }
    } else {
        e
    }
}

/// `s` with every `%f` replaced by `path` (`str::replace("%f", path)`).
pub open spec fn subst_file(s: Seq<char>, path: Seq<char>) -> Seq<char>
    decreases s.len(),
{
    if s.len() == 0 {
        s
    } else if s.len() >= 2 && s[0] == '%' && s[1] == 'f' {
        path + subst_file(s.skip(2), path)
    } else {
        seq![s[0]] + subst_file(s.skip(1), path)
    }
}

/// The digits of `i`, with a minus sign when it is negative (`format!("{}", i)`).
pub open spec fn int_text(i: int) -> Seq<char> {
    if i < 0 {
        seq!['-'] + decimal((-i) as nat)
    } else {
        decimal(i as nat)
    }
}

/// The message for a hook that did not succeed, if any.
pub open spec fn hook_message(outcome: HookOutcome) -> Option<Seq<char>> {
    match outcome {
        HookOutcome::Success => None,
        HookOutcome::Exited(code) => Some("Hook exited "@ + int_text(code as int)),
        HookOutcome::Failed(e) => Some("Hook failed: "@ + e@),
    }
}

/// Only the prompt, the message and the quit flag may have changed.
pub open spec fn only_ui(o: Editor, n: Editor) -> bool {
    &&& same_doc(o, n)
    &&& same_view(o, n)
    &&& same_session(o, n)
    &&& n.cursor_row == o.cursor_row
    &&& n.cursor_col == o.cursor_col
    &&& n.goal_col == o.goal_col
    &&& n.help_visible == o.help_visible
    &&& n.help_scroll == o.help_scroll
}

/// The prompt for a file name to write to, holding the buffer's file name.
pub open spec fn save_prompt_opened(o: Editor, n: Editor, quit_after: bool) -> bool {
    &&& n.focus is Prompt
    &&& n.focus->0.label@ == "File name to write"@
    &&& n.focus->0.input@ == match o.buf.path {
        Some(p) => p@,
        None => Seq::empty(),
    }
    &&& n.focus->0.kind == PromptKind::SaveAs { quit_after }
}

/// Quitting: a modified buffer asks first, otherwise the editor quits.
pub open spec fn quit_requested(o: Editor, n: Editor) -> bool {
    &&& only_ui(o, n)
    &&& if o.buf.dirty {
        &&& n.focus is Prompt
        &&& n.focus->0.label@ == "Save modified buffer? (Y/N)"@
        &&& n.focus->0.input@.len() == 0
        &&& n.focus->0.kind == PromptKind::ConfirmQuit
        &&& n.should_quit == o.should_quit
    } else {
        n.should_quit && n.focus == o.focus
    }
}

/// The message a save request leaves: read-only buffers cannot be saved.
pub open spec fn save_msg(o: Editor) -> Option<Seq<char>> {
    if o.buf.readonly {
        Some("Cannot save: read-only mode"@)
    } else {
        None
    }
}

/// The prompt for a file name opened (not for a read-only buffer).
pub open spec fn save_prompted(o: Editor, n: Editor, quit_after: bool) -> bool {
    &&& only_ui(o, n)
    &&& n.should_quit == o.should_quit
    &&& if o.buf.readonly {
        n.focus == o.focus
    } else {
        save_prompt_opened(o, n, quit_after)
    }
}

/// A save to the buffer's file is asked for, or its name when it has none.
pub open spec fn quick_saved(o: Editor, n: Editor, r: Effect, quit_after: bool) -> bool {
    &&& only_ui(o, n)
    &&& n.should_quit == o.should_quit
    &&& if o.buf.readonly {
        r is Nothing && n.focus == o.focus
    } else if o.buf.path is Some {
        r == (Effect::Save { path: o.buf.path->0, backup: o.cfg.backup, quit_after })
            && n.focus == o.focus
    } else {
        r is Nothing && save_prompt_opened(o, n, quit_after)
    }
}

/// The message is `m`, or stays when there is none.
pub open spec fn message_is(o: Editor, n: Editor, m: Option<Seq<char>>) -> bool {
    n.message@ == match m {
        Some(x) => x,
        None => o.message@,
    }
}

fn int_string(i: i32) -> (s: String)
    ensures
        s@ == int_text(i as int),
{
    if i < 0 {
        let m: i64 = -(i as i64);
        let mut s = String::new();
        string_push(&mut s, '-');
        let d = decimal_string(m as usize);
        push_str(&mut s, d.as_str());
        s
    } else {
        decimal_string(i as usize)
    }
}

impl Editor {
    /// Quit, asking first when the buffer is modified.
    pub fn request_quit(&mut self)
        requires
            old(self).wf(),
        ensures
            final(self).wf(),
            quit_requested(*old(self), *final(self)),
            final(self).message == old(self).message,
            final(self).macro_buf == old(self).macro_buf,
    {
        if self.buf.dirty {
            self.focus = Focus::Prompt(
                Prompt {
                    label: "Save modified buffer? (Y/N)".to_owned(),
                    input: String::new(),
                    kind: PromptKind::ConfirmQuit,
                },
            );
        } else {
            self.should_quit = true;
        }
    }

    /// Ask for a file name to write to (read-only buffers cannot be saved).
    pub fn prompt_save(&mut self, quit_after: bool)
        requires
            old(self).wf(),
        ensures
            final(self).wf(),
            save_prompted(*old(self), *final(self), quit_after),
            message_is(*old(self), *final(self), save_msg(*old(self))),
            final(self).macro_buf == old(self).macro_buf,
    {
        if self.buf.readonly {
            self.message = "Cannot save: read-only mode".to_owned();
            return;
        }
        let input = match &self.buf.path {
            Some(p) => p.clone(),
            None => String::new(),
        };
        self.focus = Focus::Prompt(
            Prompt {
                label: "File name to write".to_owned(),
                input,
                kind: PromptKind::SaveAs { quit_after },
            },
        );
    }

    /// Save to `path`: the caller writes the buffer and reports back with
    /// [`Editor::finish_save`].
    pub fn do_save(&self, path: String, quit_after: bool) -> (r: Effect)
        ensures
            r == (Effect::Save { path, backup: self.cfg.backup, quit_after }),
    {
        Effect::Save { path, backup: self.cfg.backup, quit_after }
    }

    /// Save to the buffer's file, or ask for a name when it has none.
    pub fn quick_save(&mut self, quit_after: bool) -> (r: Effect)
        requires
            old(self).wf(),
        ensures
            final(self).wf(),
            quick_saved(*old(self), *final(self), r, quit_after),
            message_is(*old(self), *final(self), save_msg(*old(self))),
            final(self).macro_buf == old(self).macro_buf,
    {
        if self.buf.readonly {
            self.message = "Cannot save: read-only mode".to_owned();
            return Effect::Nothing;
        }
        match &self.buf.path {
            Some(p) => {
                let p = p.clone();
                self.do_save(p, quit_after)
            },
            None => {
                self.prompt_save(quit_after);
                Effect::Nothing
            },
        }
    }

    /// Report how a save of the buffer to `path` went.  A successful save
    /// names the buffer after `path`, marks it unmodified, and asks for the
    /// post-save hook to run when one is configured.
    pub fn finish_save(&mut self, path: String, quit_after: bool, outcome: Result<(), IoFailure>) -> (r: Effect)
        requires
            old(self).wf(),
        ensures
            final(self).wf(),
            same_view(*old(self), *final(self)),
            same_session(*old(self), *final(self)),
            final(self).focus == old(self).focus,
            final(self).cursor_row == old(self).cursor_row,
            final(self).cursor_col == old(self).cursor_col,
            final(self).goal_col == old(self).goal_col,
            final(self).history@ == old(self).history@,
            final(self).kill == old(self).kill,
            final(self).macro_buf == old(self).macro_buf,
            final(self).buf.text() == old(self).buf.text(),
            final(self).buf.eol == old(self).buf.eol,
            final(self).buf.readonly == old(self).buf.readonly,
            match outcome {
                Ok(()) => {
                    &&& final(self).buf.path == Some(path)
                    &&& !final(self).buf.dirty
                    &&& !final(self).buf.is_new
                    &&& final(self).message@ == "Wrote \""@ + path@ + "\""@
                    &&& final(self).should_quit == (old(self).should_quit || quit_after)
                    &&& r == if old(self).cfg.on_save_hook@.len() > 0 {
                        Effect::RunHook(path)
                    } else {
                        Effect::Nothing
                    }
                },
                Err(e) => {
                    &&& final(self).buf == old(self).buf
                    &&& final(self).message@ == save_error_text(path@, e.kind, e.message@)
                    &&& final(self).should_quit == old(self).should_quit
                    &&& r is Nothing
                },
            },
    {
        match outcome {
            Ok(()) => {
                let mut m = String::new();
                push_str(&mut m, "Wrote \"");
                push_str(&mut m, path.as_str());
                push_str(&mut m, "\"");
                self.message = m;
                self.buf.mark_saved(path.clone());
                if quit_after {
                    self.should_quit = true;
                }
                if !self.cfg.on_save_hook.as_str().is_empty() {
                    Effect::RunHook(path)
                } else {
                    Effect::Nothing
                }
            },
            Err(e) => {
                self.message = actionable_save_error(path.as_str(), &e);
                Effect::Nothing
            },
        }
    }

    /// The post-save hook command for the saved file at `abs_path`: every
    /// `%f` in the configured command becomes the path.
    pub fn hook_command(&self, abs_path: &str) -> (r: String)
        ensures
            r@ == subst_file(self.cfg.on_save_hook@, abs_path@),
    {
        let s: Vec<char> = crate::text::chars_of(self.cfg.on_save_hook.as_str());
        let mut out = String::new();
        let mut i: usize = 0;
        assert(s@.skip(0) =~= s@);
        while i < s.len()
            invariant
                i <= s@.len(),
                s@ == self.cfg.on_save_hook@,
                subst_file(s@, abs_path@) == out@ + subst_file(s@.skip(i as int), abs_path@),
            decreases s.len() - i,
        {
            let ghost rest = s@.skip(i as int);
            let ghost before = out@;
            if i + 1 < s.len() && s[i] == '%' && s[i + 1] == 'f' {
                push_str(&mut out, abs_path);
                assert(rest.skip(2) =~= s@.skip(i + 2));
                assert(subst_file(rest, abs_path@) == abs_path@ + subst_file(rest.skip(2), abs_path@));
                assert(before + (abs_path@ + subst_file(rest.skip(2), abs_path@)) =~= out@
                    + subst_file(rest.skip(2), abs_path@));
                i = i + 2;
            } else {
                string_push(&mut out, s[i]);
                assert(rest.skip(1) =~= s@.skip(i + 1));
                assert(subst_file(rest, abs_path@) == seq![rest[0]] + subst_file(rest.skip(1), abs_path@));
                assert(before + (seq![rest[0]] + subst_file(rest.skip(1), abs_path@)) =~= out@
                    + subst_file(rest.skip(1), abs_path@));
                i = i + 1;
            }
        }
        assert(s@.skip(i as int) =~= Seq::<char>::empty());
        assert(out@ + Seq::<char>::empty() =~= out@);
        out
    }

    /// Report how the post-save hook ended.
    pub fn finish_hook(&mut self, outcome: HookOutcome)
        requires
            old(self).wf(),
        ensures
            final(self).wf(),
            only_ui(*old(self), *final(self)),
            final(self).focus == old(self).focus,
            final(self).should_quit == old(self).should_quit,
            final(self).macro_buf == old(self).macro_buf,
            final(self).message@ == match hook_message(outcome) {
                Some(m) => m,
                None => old(self).message@,
            },
    {
        match outcome {
            HookOutcome::Success => {},
            HookOutcome::Exited(code) => {
                let mut m = String::new();
                push_str(&mut m, "Hook exited ");
                let c = int_string(code);
                push_str(&mut m, c.as_str());
                self.message = m;
            },
            HookOutcome::Failed(e) => {
                let mut m = String::new();
                push_str(&mut m, "Hook failed: ");
                push_str(&mut m, e.as_str());
                self.message = m;
            },
        }
    }
}

/// The directory part of `path` (`Path::parent`), with the path syntax of
/// the platform the crate is built for; `None` for a root or an empty path.
pub uninterp spec fn parent_of(path: Seq<char>) -> Option<Seq<char>>;

/// The last component of `path` (`Path::file_name`); `None` when the path
/// ends in `..` or has no component.
pub uninterp spec fn file_name_of(path: Seq<char>) -> Option<Seq<char>>;

/// `name` appended to the directory `base` (`Path::join`).
pub uninterp spec fn joined(base: Seq<char>, name: Seq<char>) -> Seq<char>;

/// `Path::parent`.  A path made from a `&str` is valid UTF-8, and so is its
/// parent, so the conversion keeps every char.
#[verifier::external_body]
fn path_parent(path: &str) -> (r: Option<String>)
    ensures
        match r {
            Some(p) => parent_of(path@) == Some(p@),
            None => parent_of(path@) is None,
        },
{
    match std::path::Path::new(path).parent() {
        Some(p) => Some(p.to_string_lossy().into_owned()),
        None => None,
    }
}

/// `Path::file_name`, converted whole as for [`path_parent`].
#[verifier::external_body]
fn path_file_name(path: &str) -> (r: Option<String>)
    ensures
        match r {
            Some(n) => file_name_of(path@) == Some(n@),
            None => file_name_of(path@) is None,
        },
{
    match std::path::Path::new(path).file_name() {
        Some(n) => Some(n.to_string_lossy().into_owned()),
        None => None,
    }
}

/// `Path::join`, converted whole as for [`path_parent`].
#[verifier::external_body]
fn path_join(base: &str, name: &str) -> (r: String)
    ensures
        r@ == joined(base@, name@),
{
    std::path::Path::new(base).join(name).to_string_lossy().into_owned()
}

/// Where the autosave of the file at `path` goes: `.name.swp` in the same
/// directory (the current one when the path has none), or `.rnano.swp` when
/// the path names no file.
pub open spec fn swap_path_spec(path: Seq<char>) -> Seq<char> {
    let dir = match parent_of(path) {
        Some(p) => p,
        None => "."@,
    };
    let name = match file_name_of(path) {
        Some(n) => "."@ + n + ".swp"@,
        None => ".rnano.swp"@,
    };
    joined(dir, name)
}

/// The swap file for the file at `path`.
pub fn swap_path(path: &str) -> (r: String)
    ensures
        r@ == swap_path_spec(path@),
{
    let dir = match path_parent(path) {
        Some(p) => p,
        None => ".".to_owned(),
    };
    let mut name = String::new();
    match path_file_name(path) {
        Some(n) => {
            push_str(&mut name, ".");
            push_str(&mut name, n.as_str());
            push_str(&mut name, ".swp");
        },
        None => push_str(&mut name, ".rnano.swp"),
    }
    path_join(dir.as_str(), name.as_str())
}

} // verus!
