//! Text buffer backed by a [`ropey::Rope`].
//!
//! The buffer normalizes line endings to `\n` in memory (CRLF is detected on
//! load and restored on save) so the cursor and line model stay predictable.
//! Reading and writing files is left to the caller: this module decides what
//! a file's bytes become in memory, and what the buffer's text becomes on disk.
use crate::lines::{count_nl, lemma_line, line_len, line_start, line_with_break, num_lines, row_of};
use crate::text::{chars_of, string_of, string_push};
use ropey::Rope;
use vstd::prelude::*;

verus! {

#[verifier::external_type_specification]
#[verifier::external_body]
pub struct ExRope(Rope);

/// The chars a rope holds, in order.
pub uninterp spec fn rope_text(rope: Rope) -> Seq<char>;

/// `Rope::new`: an empty rope.
#[verifier::external_body]
fn rope_new() -> (r: Rope)
    ensures
        rope_text(r) == Seq::<char>::empty(),
{
    Rope::new()
}

/// `Rope::from_str`: a rope holding exactly the chars of `s`.
#[verifier::external_body]
fn rope_from_str(s: &str) -> (r: Rope)
    ensures
        rope_text(r) == s@,
{
    Rope::from_str(s)
}

/// `Rope::len_chars`: the number of chars held.
#[verifier::external_body]
fn rope_len_chars(r: &Rope) -> (n: usize)
    ensures
        n == rope_text(*r).len(),
{
    r.len_chars()
}

/// `Rope::len_lines`: the number of line breaks plus one.  Built without the
/// `cr_lines` and `unicode_lines` features, ropey's only line break is `'\n'`
/// (a CRLF pair counts once, by its `'\n'`).
#[verifier::external_body]
fn rope_len_lines(r: &Rope) -> (n: usize)
    ensures
        n == count_nl(rope_text(*r)) + 1,
{
    r.len_lines()
}

/// `Rope::line_to_char`: the char index where line `line` starts; one past
/// the last line it is the length.  It panics beyond that.
#[verifier::external_body]
fn rope_line_to_char(r: &Rope, line: usize) -> (n: usize)
    requires
        line <= count_nl(rope_text(*r)) + 1,
    ensures
        line <= count_nl(rope_text(*r)) ==> n == line_start(rope_text(*r), line as nat),
        line == count_nl(rope_text(*r)) + 1 ==> n == rope_text(*r).len(),
{
    r.line_to_char(line)
}

/// `Rope::char_to_line`: the number of line breaks before char index `k`.
/// It panics when `k` is past the end.
#[verifier::external_body]
fn rope_char_to_line(r: &Rope, k: usize) -> (n: usize)
    requires
        k <= rope_text(*r).len(),
    ensures
        n == count_nl(rope_text(*r).take(k as int)),
{
    r.char_to_line(k)
}

/// `Rope::char`: the char at index `k`.  It panics when `k` is out of bounds.
#[verifier::external_body]
fn rope_char(r: &Rope, k: usize) -> (c: char)
    requires
        k < rope_text(*r).len(),
    ensures
        c == rope_text(*r)[k as int],
{
    r.char(k)
}

/// `Rope::insert`: `s` is inserted at char index `k`.  It panics when `k`
/// is past the end.  A rope's length is a `usize`, so the result fits one.
#[verifier::external_body]
fn rope_insert(r: &mut Rope, k: usize, s: &str)
    requires
        k <= rope_text(*old(r)).len(),
    ensures
        rope_text(*final(r)) == rope_text(*old(r)).take(k as int) + s@ + rope_text(*old(r)).skip(
            k as int,
        ),
        rope_text(*final(r)).len() <= usize::MAX,
{
    r.insert(k, s)
}

/// `Rope::insert_char`: `c` is inserted at char index `k`.  It panics when
/// `k` is past the end.  A rope's length is a `usize`, so the result fits one.
#[verifier::external_body]
fn rope_insert_char(r: &mut Rope, k: usize, c: char)
    requires
        k <= rope_text(*old(r)).len(),
    ensures
        rope_text(*final(r)) == rope_text(*old(r)).take(k as int) + seq![c] + rope_text(
            *old(r),
        ).skip(k as int),
        rope_text(*final(r)).len() <= usize::MAX,
{
    r.insert_char(k, c)
}

/// `Rope::remove`: the chars from `start` up to `end` are removed.  It panics
/// when the range is reversed or reaches past the end.
#[verifier::external_body]
fn rope_remove(r: &mut Rope, start: usize, end: usize)
    requires
        start <= end <= rope_text(*old(r)).len(),
    ensures
        rope_text(*final(r)) == rope_text(*old(r)).take(start as int) + rope_text(*old(r)).skip(
            end as int,
        ),
{
    r.remove(start..end)
}

/// `Rope::to_string`: the chars of the rope as a string.
#[verifier::external_body]
fn rope_to_string(r: &Rope) -> (s: String)
    ensures
        s@ == rope_text(*r),
{
    r.to_string()
}

/// Whether `c` separates path components on the platform the crate is built
/// for (`std::path::is_separator`): `'/'` everywhere, and `'\\'` too on Windows.
pub uninterp spec fn is_path_separator(c: char) -> bool;

/// `std::path::is_separator`: `'/'` separates paths on every platform.
#[verifier::external_body]
fn char_is_path_separator(c: char) -> (r: bool)
    ensures
        r == is_path_separator(c),
        c == '/' ==> r,
{
    std::path::is_separator(c)
}

/// Line-ending style of a file.
#[derive(Clone, Copy, PartialEq, Eq, Debug, Structural)]
pub enum Eol {
    Lf,
    Crlf,
}

/// The line-ending style of the platform: CRLF where `'\\'` separates
/// paths (Windows), LF elsewhere.
pub open spec fn platform_eol() -> Eol {
    if is_path_separator('\\') {
        Eol::Crlf
    } else {
        Eol::Lf
    }
}

/// The status-bar label of a line-ending style.
pub open spec fn eol_label(e: Eol) -> Seq<char> {
    match e {
        Eol::Lf => "LF"@,
        Eol::Crlf => "CRLF"@,
    }
}

impl Eol {
    pub fn label(self) -> (r: &'static str)
        ensures
            r@ == eol_label(self),
    {
        match self {
            Eol::Lf => "LF",
            Eol::Crlf => "CRLF",
        }
    }

    /// CRLF on Windows, LF elsewhere: Windows is the platform whose paths
    /// are also separated by `'\\'`.
    fn platform_default() -> (r: Eol)
        ensures
            r == platform_eol(),
    {
        if char_is_path_separator('\\') {
            Eol::Crlf
        } else {
            Eol::Lf
        }
    }
}

/// `s` holds a CR immediately followed by an LF.
pub open spec fn has_crlf(s: Seq<char>) -> bool {
    exists|i: int| 0 <= i < s.len() - 1 && #[trigger] crlf_at(s, i)
}

/// A CR at `i` followed by an LF.
pub open spec fn crlf_at(s: Seq<char>, i: int) -> bool {
    s[i] == '\r' && s[i + 1] == '\n'
}

/// `s` with every CRLF pair, scanned from the left, replaced by LF.
pub open spec fn crlf_to_lf(s: Seq<char>) -> Seq<char>
    decreases s.len(),
{
    if s.len() == 0 {
        s
    } else if s.len() >= 2 && s[0] == '\r' && s[1] == '\n' {
        seq!['\n'] + crlf_to_lf(s.skip(2))
    } else {
        seq![s[0]] + crlf_to_lf(s.skip(1))
    }
}

/// `s` with every LF replaced by CRLF.
pub open spec fn lf_to_crlf(s: Seq<char>) -> Seq<char>
    decreases s.len(),
{
    if s.len() == 0 {
        s
    } else if s[0] == '\n' {
        seq!['\r', '\n'] + lf_to_crlf(s.skip(1))
    } else {
        seq![s[0]] + lf_to_crlf(s.skip(1))
    }
}

/// The chars a text file's bytes decode to as UTF-8, or `None` when they are
/// not valid UTF-8.
pub uninterp spec fn utf8_decode(bytes: Seq<u8>) -> Option<Seq<char>>;

/// `std::str::from_utf8`: the decoded text, or `None` for invalid UTF-8.
#[verifier::external_body]
fn decode_utf8(bytes: &[u8]) -> (r: Option<String>)
    ensures
        match r {
            Some(s) => utf8_decode(bytes@) == Some(s@),
            None => utf8_decode(bytes@) is None,
        },
{
    match std::str::from_utf8(bytes) {
        Ok(s) => Some(s.to_string()),
        Err(_) => None,
    }
}

/// Why a file's bytes cannot be edited as text.
#[derive(Clone, Copy, PartialEq, Eq, Debug, Structural)]
pub enum LoadError {
    /// The bytes contain a NUL byte.
    Binary,
    /// The bytes are not valid UTF-8.
    NotUtf8,
}

/// The message a load error is shown with.
pub open spec fn load_error_message(e: LoadError) -> Seq<char> {
    match e {
        LoadError::Binary => "appears to be a binary file (contains NUL bytes)"@,
        LoadError::NotUtf8 => "not valid UTF-8 — use --encoding (planned) to open legacy files"@,
    }
}

impl LoadError {
    /// The message shown to the user.
    pub fn message(self) -> (r: &'static str)
        ensures
            r@ == load_error_message(self),
    {
        match self {
            LoadError::Binary => "appears to be a binary file (contains NUL bytes)",
            LoadError::NotUtf8 => "not valid UTF-8 — use --encoding (planned) to open legacy files",
        }
    }
}

/// An in-memory text buffer plus the metadata needed to save it faithfully.
#[derive(Debug)]
pub struct Buffer {
    pub rope: Rope,
    pub path: Option<String>,
    pub eol: Eol,
    pub dirty: bool,
    pub readonly: bool,
    /// True when `path` was given but the file did not exist yet.
    pub is_new: bool,
}

impl Buffer {
    /// The text of the buffer.
    pub open spec fn text(&self) -> Seq<char> {
        rope_text(self.rope)
    }

    /// An empty, unnamed buffer.
    pub fn new(readonly: bool) -> (b: Buffer)
        ensures
            b.text() == Seq::<char>::empty(),
            b.path is None,
            b.eol == platform_eol(),
            !b.dirty,
            b.readonly == readonly,
            !b.is_new,
    {
        Buffer {
            rope: rope_new(),
            path: None,
            eol: Eol::platform_default(),
            dirty: false,
            readonly,
            is_new: false,
        }
    }

    /// An empty buffer for a file that does not exist yet at `path`.
    pub fn new_file(path: String, readonly: bool) -> (b: Buffer)
        ensures
            b.text() == Seq::<char>::empty(),
            b.path == Some(path),
            b.eol == platform_eol(),
            !b.dirty,
            b.readonly == readonly,
            b.is_new,
    {
        Buffer {
            rope: rope_new(),
            path: Some(path),
            eol: Eol::platform_default(),
            dirty: false,
            readonly,
            is_new: true,
        }
    }

    /// A buffer for the file at `path` whose contents decoded to `text`: a
    /// CRLF anywhere makes the file CRLF, and every CRLF becomes LF in memory.
    pub fn from_text(text: &str, path: String, readonly: bool) -> (b: Buffer)
        ensures
            b.text() == crlf_to_lf(text@),
            b.eol == if has_crlf(text@) {
                Eol::Crlf
            } else {
                Eol::Lf
            },
            b.path == Some(path),
            !b.dirty,
            b.readonly == readonly,
            !b.is_new,
    {
        let chars = chars_of(text);
        let crlf = contains_crlf(&chars);
        let eol = if crlf {
            Eol::Crlf
        } else {
            Eol::Lf
        };
        let rope = if crlf {
            let normalized = replace_crlf(&chars);
            rope_from_str(normalized.as_str())
        } else {
            proof {
                lemma_crlf_to_lf_plain(text@);
            }
            rope_from_str(text)
        };
        Buffer { rope, path: Some(path), eol, dirty: false, readonly, is_new: false }
    }

    /// Load the bytes of the file at `path`.  Binary files (with a NUL byte)
    /// and non-UTF-8 content are rejected.
    pub fn from_bytes(bytes: &[u8], path: String, readonly: bool) -> (r: Result<
        Buffer,
        LoadError,
    >)
        ensures
            r == Err::<Buffer, LoadError>(LoadError::Binary) <==> bytes@.contains(0u8),
            r == Err::<Buffer, LoadError>(LoadError::NotUtf8) <==> !bytes@.contains(0u8)
                && utf8_decode(bytes@) is None,
            r matches Ok(b) ==> {
                &&& !bytes@.contains(0u8)
                &&& utf8_decode(bytes@) matches Some(t)
                &&& b.text() == crlf_to_lf(t)
                &&& b.eol == if has_crlf(t) {
                    Eol::Crlf
                } else {
                    Eol::Lf
                }
                &&& b.path == Some(path)
                &&& !b.dirty
                &&& b.readonly == readonly
                &&& !b.is_new
            },
    {
        let mut i: usize = 0;
        while i < bytes.len()
            invariant
                i <= bytes@.len(),
                forall|j: int| 0 <= j < i ==> bytes@[j] != 0u8,
            decreases bytes.len() - i,
        {
            if bytes[i] == 0 {
                return Err(LoadError::Binary);
            }
            i = i + 1;
        }
        match decode_utf8(bytes) {
            Some(text) => Ok(Buffer::from_text(text.as_str(), path, readonly)),
            None => Err(LoadError::NotUtf8),
        }
    }

    /// The text as it is written to disk: with the buffer's line endings.
    pub fn encoded_text(&self) -> (s: String)
        ensures
            s@ == if self.eol == Eol::Crlf {
                lf_to_crlf(self.text())
            } else {
                self.text()
            },
    {
        let data = rope_to_string(&self.rope);
        if self.eol == Eol::Crlf {
            let chars = chars_of(data.as_str());
            expand_lf(&chars)
        } else {
            data
        }
    }

    /// Record a successful save of the buffer to `path`.
    pub fn mark_saved(&mut self, path: String)
        ensures
            final(self).text() == old(self).text(),
            final(self).path == Some(path),
            !final(self).dirty,
            !final(self).is_new,
            final(self).eol == old(self).eol,
            final(self).readonly == old(self).readonly,
    {
        self.path = Some(path);
        self.dirty = false;
        self.is_new = false;
    }

    // --- line / index helpers -------------------------------------------------
    /// Number of chars in the buffer.
    pub fn len_chars(&self) -> (n: usize)
        ensures
            n == self.text().len(),
    {
        rope_len_chars(&self.rope)
    }

    pub fn len_lines(&self) -> (n: usize)
        ensures
            n == num_lines(self.text()),
    {
        rope_len_lines(&self.rope)
    }

    /// The chars of line `row`, with its line break when it has one.
    pub fn line(&self, row: usize) -> (v: Vec<char>)
        requires
            row < num_lines(self.text()),
        ensures
            v@ == line_with_break(self.text(), row as nat),
    {
        let ghost s = self.text();
        proof {
            lemma_line(s, row as nat);
        }
        // The line count is a usize, so `row + 1` below fits.
        let _ = rope_len_lines(&self.rope);
        let start = rope_line_to_char(&self.rope, row);
        let end = rope_line_to_char(&self.rope, row + 1);
        proof {
            if row < count_nl(s) {
                lemma_line(s, (row + 1) as nat);
            }
        }
        let mut v: Vec<char> = Vec::new();
        let mut k = start;
        while k < end
            invariant
                start <= k <= end <= s.len(),
                s == self.text(),
                v@ == s.subrange(start as int, k as int),
            decreases end - k,
        {
            v.push(rope_char(&self.rope, k));
            k = k + 1;
            assert(v@ =~= s.subrange(start as int, k as int));
        }
        v
    }

    /// Number of chars in `row`, excluding a trailing `\n`.
    pub fn line_len_chars(&self, row: usize) -> (n: usize)
        requires
            row < num_lines(self.text()),
        ensures
            n == line_len(self.text(), row as nat),
    {
        let ghost s = self.text();
        proof {
            lemma_line(s, row as nat);
        }
        // The line count is a usize, so `row + 1` below fits.
        let _ = rope_len_lines(&self.rope);
        let start = rope_line_to_char(&self.rope, row);
        let end = rope_line_to_char(&self.rope, row + 1);
        proof {
            if row < count_nl(s) {
                lemma_line(s, (row + 1) as nat);
            }
        }
        let mut n = end - start;
        if n > 0 && rope_char(&self.rope, end - 1) == '\n' {
            n = n - 1;
        }
        n
    }

    /// Absolute char index of `(row, col)`.
    pub fn char_idx(&self, row: usize, col: usize) -> (k: usize)
        requires
            row <= num_lines(self.text()),
            row < num_lines(self.text()) ==> line_start(self.text(), row as nat) + col
                <= usize::MAX,
            row == num_lines(self.text()) ==> self.text().len() + col <= usize::MAX,
        ensures
            row < num_lines(self.text()) ==> k == line_start(self.text(), row as nat) + col,
            row == num_lines(self.text()) ==> k == self.text().len() + col,
    {
        rope_line_to_char(&self.rope, row) + col
    }

    /// The char at index `k`.
    pub fn char_at(&self, k: usize) -> (c: char)
        requires
            k < self.text().len(),
        ensures
            c == self.text()[k as int],
    {
        rope_char(&self.rope, k)
    }

    /// The line holding char index `k`.
    pub fn char_to_line(&self, k: usize) -> (r: usize)
        requires
            k <= self.text().len(),
        ensures
            r == row_of(self.text(), k as int),
    {
        rope_char_to_line(&self.rope, k)
    }

    /// The whole text as a string.
    pub fn to_text(&self) -> (s: String)
        ensures
            s@ == self.text(),
    {
        rope_to_string(&self.rope)
    }

    /// The chars from `start` up to `end` as a string.
    pub fn slice_string(&self, start: usize, end: usize) -> (s: String)
        requires
            start <= end <= self.text().len(),
        ensures
            s@ == self.text().subrange(start as int, end as int),
    {
        let mut s = String::new();
        let mut k = start;
        while k < end
            invariant
                start <= k <= end <= self.text().len(),
                s@ == self.text().subrange(start as int, k as int),
            decreases end - k,
        {
            string_push(&mut s, rope_char(&self.rope, k));
            k = k + 1;
            assert(s@ =~= self.text().subrange(start as int, k as int));
        }
        s
    }

    // --- edits ----------------------------------------------------------------
    pub fn insert_char(&mut self, char_idx: usize, ch: char)
        requires
            char_idx <= old(self).text().len(),
        ensures
            final(self).text() == old(self).text().take(char_idx as int) + seq![ch] + old(
                self,
            ).text().skip(char_idx as int),
            final(self).text().len() <= usize::MAX,
            final(self).dirty,
            final(self).path == old(self).path,
            final(self).eol == old(self).eol,
            final(self).readonly == old(self).readonly,
            final(self).is_new == old(self).is_new,
    {
        rope_insert_char(&mut self.rope, char_idx, ch);
        self.dirty = true;
    }

    pub fn insert(&mut self, char_idx: usize, text: &str)
        requires
            char_idx <= old(self).text().len(),
        ensures
            final(self).text() == old(self).text().take(char_idx as int) + text@ + old(
                self,
            ).text().skip(char_idx as int),
            final(self).text().len() <= usize::MAX,
            final(self).dirty,
            final(self).path == old(self).path,
            final(self).eol == old(self).eol,
            final(self).readonly == old(self).readonly,
            final(self).is_new == old(self).is_new,
    {
        rope_insert(&mut self.rope, char_idx, text);
        self.dirty = true;
    }

    pub fn remove(&mut self, range: std::ops::Range<usize>)
        requires
            range.start <= range.end <= old(self).text().len(),
        ensures
            final(self).text() == old(self).text().take(range.start as int) + old(
                self,
            ).text().skip(range.end as int),
            final(self).dirty,
            final(self).path == old(self).path,
            final(self).eol == old(self).eol,
            final(self).readonly == old(self).readonly,
            final(self).is_new == old(self).is_new,
    {
        rope_remove(&mut self.rope, range.start, range.end);
        self.dirty = true;
    }
}

/// Whether `s` holds a CR immediately followed by an LF.
fn contains_crlf(s: &Vec<char>) -> (r: bool)
    ensures
        r == has_crlf(s@),
{
    let mut i: usize = 0;
    while i < s.len()
        invariant
            i <= s@.len(),
            forall|j: int| 0 <= j < i && j < s@.len() - 1 ==> !#[trigger] crlf_at(s@, j),
        decreases s.len() - i,
    {
        if i + 1 < s.len() && s[i] == '\r' && s[i + 1] == '\n' {
            assert(crlf_at(s@, i as int));
            return true;
        }
        i = i + 1;
    }
    false
}

proof fn lemma_crlf_to_lf_plain(s: Seq<char>)
    requires
        !has_crlf(s),
    ensures
        crlf_to_lf(s) == s,
    decreases s.len(),
{
    if s.len() > 0 {
        assert(!has_crlf(s.skip(1))) by {
            if has_crlf(s.skip(1)) {
                let i = choose|i: int| 0 <= i < s.skip(1).len() - 1 && #[trigger] crlf_at(s.skip(1), i);
                assert(crlf_at(s, i + 1));
            }
        }
        lemma_crlf_to_lf_plain(s.skip(1));
        if s.len() >= 2 {
            assert(!crlf_at(s, 0));
        }
        assert(seq![s[0]] + s.skip(1) =~= s);
    }
}

/// `s` with every CRLF pair replaced by LF (`str::replace("\r\n", "\n")`).
pub(crate) fn replace_crlf(s: &Vec<char>) -> (r: String)
    ensures
        r@ == crlf_to_lf(s@),
{
    let mut out = String::new();
    let mut i: usize = 0;
    assert(s@.skip(0) =~= s@);
    while i < s.len()
        invariant
            i <= s@.len(),
            crlf_to_lf(s@) == out@ + crlf_to_lf(s@.skip(i as int)),
        decreases s.len() - i,
    {
        let ghost rest = s@.skip(i as int);
        if i + 1 < s.len() && s[i] == '\r' && s[i + 1] == '\n' {
            string_push(&mut out, '\n');
            assert(rest.skip(2) =~= s@.skip(i + 2));
            i = i + 2;
        } else {
            string_push(&mut out, s[i]);
            assert(rest.skip(1) =~= s@.skip(i + 1));
            i = i + 1;
        }
    }
    assert(s@.skip(i as int) =~= Seq::<char>::empty());
    assert(out@ + Seq::<char>::empty() =~= out@);
    out
}

/// `s` with every LF replaced by CRLF (`str::replace('\n', "\r\n")`).
fn expand_lf(s: &Vec<char>) -> (r: String)
    ensures
        r@ == lf_to_crlf(s@),
{
    let mut out = String::new();
    let mut i: usize = 0;
    assert(s@.skip(0) =~= s@);
    while i < s.len()
        invariant
            i <= s@.len(),
            lf_to_crlf(s@) == out@ + lf_to_crlf(s@.skip(i as int)),
        decreases s.len() - i,
    {
        let ghost rest = s@.skip(i as int);
        assert(rest.skip(1) =~= s@.skip(i + 1));
        if s[i] == '\n' {
            string_push(&mut out, '\r');
            string_push(&mut out, '\n');
        } else {
            string_push(&mut out, s[i]);
        }
        i = i + 1;
    }
    assert(s@.skip(i as int) =~= Seq::<char>::empty());
    assert(out@ + Seq::<char>::empty() =~= out@);
    out
}

} // verus!
