//! User configuration: schema and a minimal parser.
//!
//! **Precedence** (lowest → highest): built-in defaults → config file → CLI flags.
//!
//! **Format**: a strict subset of TOML — top-level `key = value` pairs only.
//! `#` starts a line comment. `[section]` headers are accepted and ignored.
//! Unknown keys are silently skipped so older binaries tolerate new options.
//!
//! **Example**:
//! ```toml
//! tab_width        = 4      # display columns per tab stop  (default: 4)
//! line_numbers     = false  # show line-number gutter        (default: false)
//! soft_wrap        = false  # wrap long lines at viewport     (default: false)
//! backup           = false  # write <file>~ before saving    (default: false)
//! undo_depth       = 1000   # max undo history entries       (default: 1000)
//! highlight_max_kb = 512    # disable syntax hl above N KiB  (default: 512)
//! ```
use crate::lines::{lemma_next_nl, next_nl};
use crate::text::{
    chars_of, decimal, decimal_string, push_str, slice_is, string_of, trim, trim_bounds,
};
use vstd::prelude::*;

verus! {

/// Runtime configuration for rnano.
#[derive(Debug, Clone, PartialEq, Eq)]
pub struct Config {
    /// Display columns per tab stop.
    pub tab_width: usize,
    /// Show line-number gutter.
    pub line_numbers: bool,
    /// Soft-wrap long lines at the viewport width.
    pub soft_wrap: bool,
    /// Write a `<file>~` backup before overwriting.
    pub backup: bool,
    /// Maximum number of undo history entries.
    pub undo_depth: usize,
    /// Disable syntax highlighting for files larger than this many KiB.
    pub highlight_max_kb: u64,
    /// Autosave interval in seconds (0 = disabled).
    pub autosave_interval: u64,
    /// Colour theme: `"dark"` (default) or `"light"`.
    pub theme: String,
    /// Enable syntax highlighting.
    pub syntax: bool,
    /// Shell command run after a successful save; `%f` → file path.  Empty = disabled.
    pub on_save_hook: String,
}

/// The value of a [`Config`], with its strings as char sequences.
pub struct ConfigModel {
    pub tab_width: usize,
    pub line_numbers: bool,
    pub soft_wrap: bool,
    pub backup: bool,
    pub undo_depth: usize,
    pub highlight_max_kb: u64,
    pub autosave_interval: u64,
    pub theme: Seq<char>,
    pub syntax: bool,
    pub on_save_hook: Seq<char>,
}

impl View for Config {
    type V = ConfigModel;

    open spec fn view(&self) -> ConfigModel {
        ConfigModel {
            tab_width: self.tab_width,
            line_numbers: self.line_numbers,
            soft_wrap: self.soft_wrap,
            backup: self.backup,
            undo_depth: self.undo_depth,
            highlight_max_kb: self.highlight_max_kb,
            autosave_interval: self.autosave_interval,
            theme: self.theme@,
            syntax: self.syntax,
            on_save_hook: self.on_save_hook@,
        }
    }
}

/// The built-in defaults.
pub open spec fn default_config() -> ConfigModel {
    ConfigModel {
        tab_width: 4,
        line_numbers: false,
        soft_wrap: false,
        backup: false,
        undo_depth: 1000,
        highlight_max_kb: 512,
        autosave_interval: 0,
        theme: "dark"@,
        syntax: true,
        on_save_hook: Seq::empty(),
    }
}

impl Default for Config {
    fn default() -> (c: Config)
        ensures
            c@ == default_config(),
    {
        Config {
            tab_width: 4,
            line_numbers: false,
            soft_wrap: false,
            backup: false,
            undo_depth: 1000,
            highlight_max_kb: 512,
            autosave_interval: 0,
            theme: string_of(&chars_of("dark")),
            syntax: true,
            on_save_hook: String::new(),
        }
    }
}

impl Config {
    /// Apply CLI flag overrides on top of file-loaded values.
    /// CLI flags only set values to `true`; they never force `false`.
    pub fn apply_cli(&mut self, backup: bool)
        ensures
            final(self)@ == (ConfigModel { backup: old(self)@.backup || backup, ..old(self)@ }),
    {
        if backup {
            self.backup = true;
        }
    }
}

/// Why a config file could not be read.
#[derive(Debug, Clone, PartialEq, Eq)]
pub enum ConfigErrorKind {
    /// A line is neither blank, a comment, a section header nor `key = value`.
    ExpectedKeyValue,
    /// `tab_width` is not an unsigned integer.
    TabWidth,
    /// `undo_depth` is not an unsigned integer.
    UndoDepth,
    /// `highlight_max_kb` is not an unsigned integer.
    HighlightMaxKb,
    /// `autosave_interval` is not an unsigned integer.
    AutosaveInterval,
    /// A boolean key holds this value instead of `true` or `false`.
    NotBool(String),
}

/// A parse error and the (1-based) line it stands on.
#[derive(Debug, Clone, PartialEq, Eq)]
pub struct ConfigError {
    pub line: usize,
    pub kind: ConfigErrorKind,
}

pub enum ConfigErrorKindModel {
    ExpectedKeyValue,
    TabWidth,
    UndoDepth,
    HighlightMaxKb,
    AutosaveInterval,
    NotBool(Seq<char>),
}

pub struct ConfigErrorModel {
    pub line: nat,
    pub kind: ConfigErrorKindModel,
}

impl View for ConfigError {
    type V = ConfigErrorModel;

    open spec fn view(&self) -> ConfigErrorModel {
        ConfigErrorModel {
            line: self.line as nat,
            kind: match &self.kind {
                ConfigErrorKind::ExpectedKeyValue => ConfigErrorKindModel::ExpectedKeyValue,
                ConfigErrorKind::TabWidth => ConfigErrorKindModel::TabWidth,
                ConfigErrorKind::UndoDepth => ConfigErrorKindModel::UndoDepth,
                ConfigErrorKind::HighlightMaxKb => ConfigErrorKindModel::HighlightMaxKb,
                ConfigErrorKind::AutosaveInterval => ConfigErrorKindModel::AutosaveInterval,
                ConfigErrorKind::NotBool(v) => ConfigErrorKindModel::NotBool(v@),
            },
        }
    }
}

/// The text a parse error is reported with.
pub open spec fn error_text(e: ConfigErrorModel) -> Seq<char> {
    "line "@ + decimal(e.line) + match e.kind {
        ConfigErrorKindModel::ExpectedKeyValue => ": expected `key = value`"@,
        ConfigErrorKindModel::TabWidth => ": `tab_width` must be a positive integer"@,
        ConfigErrorKindModel::UndoDepth => ": `undo_depth` must be a positive integer"@,
        ConfigErrorKindModel::HighlightMaxKb => ": `highlight_max_kb` must be a non-negative integer"@,
        ConfigErrorKindModel::AutosaveInterval => ": `autosave_interval` must be a non-negative integer"@,
        ConfigErrorKindModel::NotBool(v) => ": expected `true` or `false`, got `"@ + v + "`"@,
    }
}

impl ConfigError {
    /// The message shown to the user.
    pub fn message(&self) -> (s: String)
        ensures
            s@ == error_text(self@),
    {
        let mut s = String::new();
        push_str(&mut s, "line ");
        let n = decimal_string(self.line);
        push_str(&mut s, n.as_str());
        match &self.kind {
            ConfigErrorKind::ExpectedKeyValue => push_str(&mut s, ": expected `key = value`"),
            ConfigErrorKind::TabWidth => push_str(
                &mut s,
                ": `tab_width` must be a positive integer",
            ),
            ConfigErrorKind::UndoDepth => push_str(
                &mut s,
                ": `undo_depth` must be a positive integer",
            ),
            ConfigErrorKind::HighlightMaxKb => push_str(
                &mut s,
                ": `highlight_max_kb` must be a non-negative integer",
            ),
            ConfigErrorKind::AutosaveInterval => push_str(
                &mut s,
                ": `autosave_interval` must be a non-negative integer",
            ),
            ConfigErrorKind::NotBool(v) => {
                push_str(&mut s, ": expected `true` or `false`, got `");
                push_str(&mut s, v.as_str());
                push_str(&mut s, "`");
                assert(s@ =~= "line "@ + decimal(self.line as nat) + (
                ": expected `true` or `false`, got `"@ + v@ + "`"@));
            },
        }
        s
    }
}

// --- the file format ------------------------------------------------------------
/// The lines of `s` as `str::lines` yields them: split at `'\n'`, a `'\r'`
/// before the `'\n'` dropped, and no empty line after a final line break.
pub open spec fn lines_of(s: Seq<char>) -> Seq<Seq<char>>
    decreases s.len(),
{
    if s.len() == 0 {
        Seq::empty()
    } else {
        let j = next_nl(s, 0);
        proof {
            lemma_next_nl(s, 0);
        }
        if j >= s.len() {
            seq![s]
        } else {
            seq![strip_cr(s.take(j))] + lines_of(s.skip(j + 1))
        }
    }
}

/// `l` without one trailing `'\r'`.
pub open spec fn strip_cr(l: Seq<char>) -> Seq<char> {
    if l.len() > 0 && l.last() == '\r' {
        l.drop_last()
    } else {
        l
    }
}

/// Whether `s[..i]` holds an odd number of `'"'`.
pub open spec fn in_quotes(s: Seq<char>, i: int) -> bool
    decreases i,
{
    if i <= 0 {
        false
    } else if s[i - 1] == '"' {
        !in_quotes(s, i - 1)
    } else {
        in_quotes(s, i - 1)
    }
}

/// Index of the first `#` outside double quotes at or after `i`, or `s.len()`.
pub open spec fn comment_start_from(s: Seq<char>, i: int) -> int
    decreases s.len() - i,
{
    if i < 0 || i >= s.len() {
        s.len() as int
    } else if s[i] == '#' && !in_quotes(s, i) {
        i
    } else {
        comment_start_from(s, i + 1)
    }
}

/// `s` up to its first `#` outside double quotes.
pub open spec fn strip_comment_spec(s: Seq<char>) -> Seq<char> {
    s.take(comment_start_from(s, 0))
}

/// `s` without any leading or trailing `'"'` (`str::trim_matches('"')`).
pub open spec fn trim_quotes(s: Seq<char>) -> Seq<char>
    decreases s.len(),
{
    if s.len() > 0 && s[0] == '"' {
        trim_quotes(s.skip(1))
    } else if s.len() > 0 && s.last() == '"' {
        trim_quotes(s.drop_last())
    } else {
        s
    }
}

/// Index of the first `c` in `s`, if any.
pub open spec fn find_char(s: Seq<char>, c: char) -> Option<int>
    decreases s.len(),
{
    if s.len() == 0 {
        None
    } else if s.last() == c {
        match find_char(s.drop_last(), c) {
            Some(i) => Some(i),
            None => Some(s.len() - 1),
        }
    } else {
        find_char(s.drop_last(), c)
    }
}

pub open spec fn is_ascii_digit(c: char) -> bool {
    '0' <= c <= '9'
}

/// The value of a string of ASCII digits.
pub open spec fn digits_value(s: Seq<char>) -> nat
    decreases s.len(),
{
    if s.len() == 0 {
        0
    } else {
        digits_value(s.drop_last()) * 10 + (s.last() as int - '0' as int) as nat
    }
}

/// What `str::parse` yields for an unsigned integer type whose maximum is
/// `max`: an optional `+`, then one or more ASCII digits, within range.
pub open spec fn parse_unsigned(s: Seq<char>, max: nat) -> Option<nat> {
    parse_digits(
        if s.len() > 0 && s[0] == '+' {
            s.skip(1)
        } else {
            s
        },
        max,
    )
}

/// The value of one or more ASCII digits, if it is at most `max`.
pub open spec fn parse_digits(d: Seq<char>, max: nat) -> Option<nat> {
    if d.len() > 0 && (forall|i: int| 0 <= i < d.len() ==> is_ascii_digit(#[trigger] d[i]))
        && digits_value(d) <= max {
        Some(digits_value(d))
    } else {
        None
    }
}

/// A boolean value: exactly `true` or `false`.
pub open spec fn parse_bool_spec(val: Seq<char>) -> Option<bool> {
    if val == "true"@ {
        Some(true)
    } else if val == "false"@ {
        Some(false)
    } else {
        None
    }
}

/// The result of setting `key` to `val` (read on line `line`).
pub open spec fn apply_key_spec(cfg: ConfigModel, key: Seq<char>, val: Seq<char>, line: nat) -> Result<
    ConfigModel,
    ConfigErrorModel,
> {
    let bad_bool = ConfigErrorModel { line, kind: ConfigErrorKindModel::NotBool(val) };
    if key == "tab_width"@ {
        match parse_unsigned(val, usize::MAX as nat) {
            Some(n) => Ok(ConfigModel { tab_width: if n >= 1 { n as usize } else { 1 }, ..cfg }),
            None => Err(ConfigErrorModel { line, kind: ConfigErrorKindModel::TabWidth }),
        }
    } else if key == "line_numbers"@ {
        match parse_bool_spec(val) {
            Some(b) => Ok(ConfigModel { line_numbers: b, ..cfg }),
            None => Err(bad_bool),
        }
    } else if key == "soft_wrap"@ {
        match parse_bool_spec(val) {
            Some(b) => Ok(ConfigModel { soft_wrap: b, ..cfg }),
            None => Err(bad_bool),
        }
    } else if key == "backup"@ {
        match parse_bool_spec(val) {
            Some(b) => Ok(ConfigModel { backup: b, ..cfg }),
            None => Err(bad_bool),
        }
    } else if key == "undo_depth"@ {
        match parse_unsigned(val, usize::MAX as nat) {
            Some(n) => Ok(ConfigModel { undo_depth: if n >= 1 { n as usize } else { 1 }, ..cfg }),
            None => Err(ConfigErrorModel { line, kind: ConfigErrorKindModel::UndoDepth }),
        }
    } else if key == "highlight_max_kb"@ {
        match parse_unsigned(val, u64::MAX as nat) {
            Some(n) => Ok(ConfigModel { highlight_max_kb: n as u64, ..cfg }),
            None => Err(ConfigErrorModel { line, kind: ConfigErrorKindModel::HighlightMaxKb }),
        }
    } else if key == "autosave_interval"@ {
        match parse_unsigned(val, u64::MAX as nat) {
            Some(n) => Ok(ConfigModel { autosave_interval: n as u64, ..cfg }),
            None => Err(ConfigErrorModel { line, kind: ConfigErrorKindModel::AutosaveInterval }),
        }
    } else if key == "theme"@ {
        Ok(ConfigModel { theme: val, ..cfg })
    } else if key == "syntax"@ {
        match parse_bool_spec(val) {
            Some(b) => Ok(ConfigModel { syntax: b, ..cfg }),
            None => Err(bad_bool),
        }
    } else if key == "on_save_hook"@ {
        Ok(ConfigModel { on_save_hook: val, ..cfg })
    } else {
        Ok(cfg)
    }
}

/// The result of reading one line (numbered `line`) into `cfg`.
pub open spec fn parse_line_spec(cfg: ConfigModel, raw: Seq<char>, line: nat) -> Result<
    ConfigModel,
    ConfigErrorModel,
> {
    let l = trim(strip_comment_spec(raw));
    if l.len() == 0 || l[0] == '[' {
        Ok(cfg)
    } else {
        match find_char(l, '=') {
            None => Err(ConfigErrorModel { line, kind: ConfigErrorKindModel::ExpectedKeyValue }),
            Some(eq) => apply_key_spec(
                cfg,
                trim(l.take(eq)),
                trim_quotes(trim(l.skip(eq + 1))),
                line,
            ),
        }
    }
}

/// The result of reading `lines`, the first of which is numbered `first`,
/// into `cfg`: the first error stops the parse.
pub open spec fn parse_lines_spec(cfg: ConfigModel, lines: Seq<Seq<char>>, first: nat) -> Result<
    ConfigModel,
    ConfigErrorModel,
>
    decreases lines.len(),
{
    if lines.len() == 0 {
        Ok(cfg)
    } else {
        match parse_line_spec(cfg, lines[0], first) {
            Ok(c) => parse_lines_spec(c, lines.skip(1), first + 1),
            Err(e) => Err(e),
        }
    }
}

/// The configuration a file with text `text` describes, on top of the defaults.
pub open spec fn parse_spec(text: Seq<char>) -> Result<ConfigModel, ConfigErrorModel> {
    parse_lines_spec(default_config(), lines_of(text), 1)
}

/// Parse a minimal TOML subset into a [`Config`].
///
/// Accepts: `key = value`, blank lines, and `# comments`.
/// `[section]` headers are skipped. String values may be optionally quoted.
/// Unknown keys are ignored. Tab characters are allowed around `=`.
pub fn parse(text: &str) -> (r: Result<Config, ConfigError>)
    ensures
        match r {
            Ok(c) => parse_spec(text@) == Ok::<ConfigModel, ConfigErrorModel>(c@),
            Err(e) => parse_spec(text@) == Err::<ConfigModel, ConfigErrorModel>(e@),
        },
{
    let s = chars_of(text);
    let mut cfg = Config::default();
    let mut pos: usize = 0;
    let mut idx: usize = 0;
    assert(s@.skip(0) =~= s@);
    while pos < s.len()
        invariant
            pos <= s@.len(),
            s@ == text@,
            idx <= pos,
            parse_spec(text@) == parse_lines_spec(cfg@, lines_of(s@.skip(pos as int)), (idx + 1) as nat),
        decreases s.len() - pos,
    {
        let ghost rest = s@.skip(pos as int);
        let end = find_newline(&s, pos);
        let next = if end < s.len() {
            end + 1
        } else {
            end
        };
        let line_end = if end < s.len() && end > pos && s[end - 1] == '\r' {
            end - 1
        } else {
            end
        };
        proof {
            lemma_next_nl_shift(s@, pos as int);
            if end < s.len() {
                assert(rest.take(end - pos) =~= s@.subrange(pos as int, end as int));
                assert(rest.skip(end - pos + 1) =~= s@.skip(next as int));
                if end > pos && s@[end - 1] == '\r' {
                    assert(strip_cr(rest.take(end - pos)) =~= s@.subrange(
                        pos as int,
                        line_end as int,
                    ));
                } else {
                    assert(strip_cr(rest.take(end - pos)) =~= s@.subrange(
                        pos as int,
                        line_end as int,
                    ));
                }
                assert(lines_of(rest) =~= seq![s@.subrange(pos as int, line_end as int)]
                    + lines_of(s@.skip(next as int)));
            } else {
                assert(rest =~= s@.subrange(pos as int, line_end as int));
                assert(s@.skip(next as int) =~= Seq::<char>::empty());
                assert(lines_of(Seq::<char>::empty()) =~= Seq::<Seq<char>>::empty());
                assert(lines_of(rest) =~= seq![s@.subrange(pos as int, line_end as int)]
                    + lines_of(s@.skip(next as int)));
            }
            let ls = lines_of(rest);
            assert(ls[0] == s@.subrange(pos as int, line_end as int));
            assert(ls.skip(1) =~= lines_of(s@.skip(next as int)));
        }
        match parse_line(&mut cfg, &s, pos, line_end, idx + 1) {
            Ok(()) => {},
            Err(e) => {
                return Err(e);
            },
        }
        pos = next;
        idx = idx + 1;
    }
    assert(s@.skip(pos as int) =~= Seq::<char>::empty());
    Ok(cfg)
}

proof fn lemma_next_nl_shift(s: Seq<char>, pos: int)
    requires
        0 <= pos < s.len(),
    ensures
        next_nl(s.skip(pos), 0) == next_nl(s, pos) - pos,
{
    lemma_next_nl_shift_from(s, pos, pos);
}

proof fn lemma_next_nl_shift_from(s: Seq<char>, pos: int, i: int)
    requires
        0 <= pos <= i <= s.len(),
    ensures
        next_nl(s.skip(pos), i - pos) == next_nl(s, i) - pos,
    decreases s.len() - i,
{
    if i < s.len() {
        lemma_next_nl_shift_from(s, pos, i + 1);
    }
}

/// Index of the first `'\n'` at or after `from`, or the length.
fn find_newline(s: &Vec<char>, from: usize) -> (r: usize)
    requires
        from <= s@.len(),
    ensures
        r == next_nl(s@, from as int),
        from <= r <= s@.len(),
{
    let mut i = from;
    while i < s.len() && s[i] != '\n'
        invariant
            from <= i <= s@.len(),
            next_nl(s@, from as int) == next_nl(s@, i as int),
        decreases s.len() - i,
    {
        i = i + 1;
    }
    i
}

/// Reads the line `s[lo..hi]` (numbered `lineno`) into `cfg`.
fn parse_line(cfg: &mut Config, s: &Vec<char>, lo: usize, hi: usize, lineno: usize) -> (r: Result<
    (),
    ConfigError,
>)
    requires
        lo <= hi <= s@.len(),
    ensures
        match r {
            Ok(()) => parse_line_spec(old(cfg)@, s@.subrange(lo as int, hi as int), lineno as nat)
                == Ok::<ConfigModel, ConfigErrorModel>(final(cfg)@),
            Err(e) => parse_line_spec(old(cfg)@, s@.subrange(lo as int, hi as int), lineno as nat)
                == Err::<ConfigModel, ConfigErrorModel>(e@),
        },
{
    let ghost raw = s@.subrange(lo as int, hi as int);
    let cend = strip_comment(s, lo, hi);
    proof {
        assert(strip_comment_spec(raw) =~= s@.subrange(lo as int, cend as int));
    }
    let (a, b) = trim_bounds(s, lo, cend);
    let ghost l = s@.subrange(a as int, b as int);
    if a == b || s[a] == '[' {
        return Ok(());
    }
    let eq = match find_eq(s, a, b) {
        Some(e) => e,
        None => {
            return Err(ConfigError { line: lineno, kind: ConfigErrorKind::ExpectedKeyValue });
        },
    };
    let (ka, kb) = trim_bounds(s, a, eq);
    let (va, vb) = trim_bounds(s, eq + 1, b);
    let (qa, qb) = trim_quote_bounds(s, va, vb);
    proof {
        assert(l.take(eq - a) =~= s@.subrange(a as int, eq as int));
        assert(l.skip(eq - a + 1) =~= s@.subrange(eq + 1, b as int));
    }
    apply_key(cfg, s, ka, kb, qa, qb, lineno)
}

/// Strip a comment from the line `s[lo..hi]`: the end of what is kept, the
/// index of the first `#` outside double quotes, or `hi`.
fn strip_comment(s: &Vec<char>, lo: usize, hi: usize) -> (r: usize)
    requires
        lo <= hi <= s@.len(),
    ensures
        lo <= r <= hi,
        r - lo == comment_start_from(s@.subrange(lo as int, hi as int), 0),
{
    let ghost raw = s@.subrange(lo as int, hi as int);
    let mut in_q = false;
    let mut i = lo;
    while i < hi
        invariant
            lo <= i <= hi <= s@.len(),
            raw == s@.subrange(lo as int, hi as int),
            in_q == in_quotes(raw, i - lo),
            comment_start_from(raw, 0) == comment_start_from(raw, i - lo),
        decreases hi - i,
    {
        let c = s[i];
        if c == '#' && !in_q {
            return i;
        }
        if c == '"' {
            in_q = !in_q;
        }
        i = i + 1;
    }
    i
}

/// Index of the first `=` in `s[lo..hi]`, if any.
fn find_eq(s: &Vec<char>, lo: usize, hi: usize) -> (r: Option<usize>)
    requires
        lo <= hi <= s@.len(),
    ensures
        match r {
            Some(i) => lo <= i < hi && find_char(s@.subrange(lo as int, hi as int), '=') == Some(
                i - lo,
            ),
            None => find_char(s@.subrange(lo as int, hi as int), '=') is None,
        },
{
    let mut i = lo;
    while i < hi
        invariant
            lo <= i <= hi <= s@.len(),
            forall|j: int| lo <= j < i ==> s@[j] != '=',
        decreases hi - i,
    {
        if s[i] == '=' {
            proof {
                lemma_find_char_first(s@.subrange(lo as int, hi as int), '=', i - lo);
            }
            return Some(i);
        }
        i = i + 1;
    }
    proof {
        lemma_find_char_none(s@.subrange(lo as int, hi as int), '=');
    }
    None
}

proof fn lemma_find_char_first(s: Seq<char>, c: char, i: int)
    requires
        0 <= i < s.len(),
        s[i] == c,
        forall|j: int| 0 <= j < i ==> s[j] != c,
    ensures
        find_char(s, c) == Some(i),
    decreases s.len(),
{
    if i < s.len() - 1 {
        lemma_find_char_first(s.drop_last(), c, i);
    } else {
        lemma_find_char_none(s.drop_last(), c);
    }
}

proof fn lemma_find_char_none(s: Seq<char>, c: char)
    requires
        forall|j: int| 0 <= j < s.len() ==> s[j] != c,
    ensures
        find_char(s, c) is None,
    decreases s.len(),
{
    if s.len() > 0 {
        lemma_find_char_none(s.drop_last(), c);
    }
}

/// The bounds of `s[lo..hi]` once leading and trailing `'"'` are removed.
fn trim_quote_bounds(s: &Vec<char>, lo: usize, hi: usize) -> (r: (usize, usize))
    requires
        lo <= hi <= s@.len(),
    ensures
        lo <= r.0 <= r.1 <= hi,
        s@.subrange(r.0 as int, r.1 as int) == trim_quotes(s@.subrange(lo as int, hi as int)),
{
    let mut a = lo;
    while a < hi && s[a] == '"'
        invariant
            lo <= a <= hi <= s@.len(),
            trim_quotes(s@.subrange(lo as int, hi as int)) == trim_quotes(
                s@.subrange(a as int, hi as int),
            ),
        decreases hi - a,
    {
        assert(s@.subrange(a as int, hi as int).skip(1) =~= s@.subrange(a + 1, hi as int));
        a = a + 1;
    }
    let mut b = hi;
    while b > a && s[b - 1] == '"'
        invariant
            lo <= a <= b <= hi <= s@.len(),
            a == b || s@[a as int] != '"',
            trim_quotes(s@.subrange(lo as int, hi as int)) == trim_quotes(
                s@.subrange(a as int, b as int),
            ),
        decreases b - a,
    {
        assert(s@.subrange(a as int, b as int).drop_last() =~= s@.subrange(a as int, b - 1));
        b = b - 1;
    }
    (a, b)
}

/// Parses `s[lo..hi]` as an unsigned integer no larger than `max`.
fn parse_uint(s: &Vec<char>, lo: usize, hi: usize, max: u64) -> (r: Option<u64>)
    requires
        lo <= hi <= s@.len(),
        max >= 9,
    ensures
        match r {
            Some(n) => parse_unsigned(s@.subrange(lo as int, hi as int), max as nat) == Some(
                n as nat,
            ),
            None => parse_unsigned(s@.subrange(lo as int, hi as int), max as nat) is None,
        },
{
    let ghost v = s@.subrange(lo as int, hi as int);
    let start = if lo < hi && s[lo] == '+' {
        lo + 1
    } else {
        lo
    };
    let ghost d = s@.subrange(start as int, hi as int);
    proof {
        if lo < hi && s@[lo as int] == '+' {
            assert(v.skip(1) =~= d);
        } else {
            assert(v =~= d);
        }
    }
    if start == hi {
        return None;
    }
    let mut value: u64 = 0;
    let mut i = start;
    while i < hi
        invariant
            start <= i <= hi <= s@.len(),
            max >= 9,
            d == s@.subrange(start as int, hi as int),
            d.len() > 0,
            parse_unsigned(s@.subrange(lo as int, hi as int), max as nat) == parse_digits(d, max as nat),
            forall|j: int| start <= j < i ==> is_ascii_digit(#[trigger] s@[j]),
            value as nat == digits_value(s@.subrange(start as int, i as int)),
            value <= max,
        decreases hi - i,
    {
        let c = s[i];
        if !('0' <= c && c <= '9') {
            assert(!is_ascii_digit(d[i - start]));
            return None;
        }
        assert(48 <= c as u32 <= 57);
        let digit = (c as u32 - '0' as u32) as u64;
        assert(digit <= 9);
        assert(s@.subrange(start as int, i + 1).drop_last() =~= s@.subrange(start as int, i as int));
        if value > (max - digit) / 10 {
            proof {
                lemma_digits_grow(s@, start as int, i as int + 1, hi as int, value as nat, digit as nat, max as nat);
            }
            return None;
        }
        assert(value * 10 + digit <= max) by (nonlinear_arith)
            requires
                value <= (max - digit) / 10,
                digit <= max,
        ;
        value = value * 10 + digit;
        i = i + 1;
    }
    assert(d =~= s@.subrange(start as int, i as int));
    Some(value)
}

/// Once a prefix of the digits is past `max`, so is the whole number.
proof fn lemma_digits_grow(s: Seq<char>, start: int, i: int, hi: int, value: nat, digit: nat, max: nat)
    requires
        0 <= start < i <= hi <= s.len(),
        digits_value(s.subrange(start, i - 1)) == value,
        digit as int == s[i - 1] as int - '0' as int,
        digit <= 9 <= max,
        value > (max - digit) / 10,
    ensures
        parse_unsigned_digits_over(s.subrange(start, hi), max),
    decreases hi - i,
{
    assert(s.subrange(start, i).drop_last() =~= s.subrange(start, i - 1));
    assert(digits_value(s.subrange(start, i)) > max) by (nonlinear_arith)
        requires
            digits_value(s.subrange(start, i)) == value * 10 + digit,
            digit <= 9 <= max,
            value > (max - digit) / 10,
    ;
    lemma_digits_mono(s, start, i, hi);
}

/// The digits of `d` are all ASCII digits but their value is past `max`, or
/// some char is not a digit.
pub open spec fn parse_unsigned_digits_over(d: Seq<char>, max: nat) -> bool {
    (forall|i: int| 0 <= i < d.len() ==> is_ascii_digit(#[trigger] d[i])) ==> digits_value(d) > max
}

proof fn lemma_digits_mono(s: Seq<char>, start: int, i: int, hi: int)
    requires
        0 <= start <= i <= hi <= s.len(),
    ensures
        (forall|j: int| 0 <= j < hi - start ==> is_ascii_digit(#[trigger] s.subrange(start, hi)[j]))
            ==> digits_value(s.subrange(start, hi)) >= digits_value(s.subrange(start, i)),
    decreases hi - i,
{
    if i < hi {
        lemma_digits_mono(s, start, i, hi - 1);
        assert(s.subrange(start, hi).drop_last() =~= s.subrange(start, hi - 1));
        if forall|j: int| 0 <= j < hi - start ==> is_ascii_digit(#[trigger] s.subrange(start, hi)[j]) {
            assert forall|j: int| 0 <= j < hi - 1 - start implies is_ascii_digit(
                #[trigger] s.subrange(start, hi - 1)[j],
            ) by {
                assert(s.subrange(start, hi - 1)[j] == s.subrange(start, hi)[j]);
            }
            assert(digits_value(s.subrange(start, hi)) >= digits_value(s.subrange(start, hi - 1)))
                by (nonlinear_arith)
                requires
                    digits_value(s.subrange(start, hi)) == digits_value(s.subrange(start, hi - 1))
                        * 10 + (s.subrange(start, hi).last() as int - '0' as int) as nat,
            ;
        }
    }
}

/// Sets the key `s[ka..kb]` to the value `s[va..vb]` (line `lineno`).
fn apply_key(
    cfg: &mut Config,
    s: &Vec<char>,
    ka: usize,
    kb: usize,
    va: usize,
    vb: usize,
    lineno: usize,
) -> (r: Result<(), ConfigError>)
    requires
        ka <= kb <= s@.len(),
        va <= vb <= s@.len(),
    ensures
        match r {
            Ok(()) => apply_key_spec(
                old(cfg)@,
                s@.subrange(ka as int, kb as int),
                s@.subrange(va as int, vb as int),
                lineno as nat,
            ) == Ok::<ConfigModel, ConfigErrorModel>(final(cfg)@),
            Err(e) => apply_key_spec(
                old(cfg)@,
                s@.subrange(ka as int, kb as int),
                s@.subrange(va as int, vb as int),
                lineno as nat,
            ) == Err::<ConfigModel, ConfigErrorModel>(e@) && final(cfg)@ == old(cfg)@,
        },
{
    let ghost val = s@.subrange(va as int, vb as int);
    if slice_is(s, ka, kb, "tab_width") {
        match parse_uint(s, va, vb, usize::MAX as u64) {
            Some(n) => {
                cfg.tab_width = if n >= 1 {
                    n as usize
                } else {
                    1
                };
                Ok(())
            },
            None => Err(ConfigError { line: lineno, kind: ConfigErrorKind::TabWidth }),
        }
    } else if slice_is(s, ka, kb, "line_numbers") {
        let b = parse_bool(s, va, vb, lineno)?;
        cfg.line_numbers = b;
        Ok(())
    } else if slice_is(s, ka, kb, "soft_wrap") {
        let b = parse_bool(s, va, vb, lineno)?;
        cfg.soft_wrap = b;
        Ok(())
    } else if slice_is(s, ka, kb, "backup") {
        let b = parse_bool(s, va, vb, lineno)?;
        cfg.backup = b;
        Ok(())
    } else if slice_is(s, ka, kb, "undo_depth") {
        match parse_uint(s, va, vb, usize::MAX as u64) {
            Some(n) => {
                cfg.undo_depth = if n >= 1 {
                    n as usize
                } else {
                    1
                };
                Ok(())
            },
            None => Err(ConfigError { line: lineno, kind: ConfigErrorKind::UndoDepth }),
        }
    } else if slice_is(s, ka, kb, "highlight_max_kb") {
        match parse_uint(s, va, vb, u64::MAX) {
            Some(n) => {
                cfg.highlight_max_kb = n;
                Ok(())
            },
            None => Err(ConfigError { line: lineno, kind: ConfigErrorKind::HighlightMaxKb }),
        }
    } else if slice_is(s, ka, kb, "autosave_interval") {
        match parse_uint(s, va, vb, u64::MAX) {
            Some(n) => {
                cfg.autosave_interval = n;
                Ok(())
            },
            None => Err(ConfigError { line: lineno, kind: ConfigErrorKind::AutosaveInterval }),
        }
    } else if slice_is(s, ka, kb, "theme") {
        cfg.theme = string_of(slice_of(s, va, vb).as_slice());
        Ok(())
    } else if slice_is(s, ka, kb, "syntax") {
        let b = parse_bool(s, va, vb, lineno)?;
        cfg.syntax = b;
        Ok(())
    } else if slice_is(s, ka, kb, "on_save_hook") {
        cfg.on_save_hook = string_of(slice_of(s, va, vb).as_slice());
        Ok(())
    } else {
        Ok(())
    }
}

/// The chars `s[lo..hi]`.
fn slice_of(s: &Vec<char>, lo: usize, hi: usize) -> (v: Vec<char>)
    requires
        lo <= hi <= s@.len(),
    ensures
        v@ == s@.subrange(lo as int, hi as int),
{
    let mut v: Vec<char> = Vec::new();
    let mut i = lo;
    while i < hi
        invariant
            lo <= i <= hi <= s@.len(),
            v@ == s@.subrange(lo as int, i as int),
        decreases hi - i,
    {
        v.push(s[i]);
        i = i + 1;
        assert(v@ =~= s@.subrange(lo as int, i as int));
    }
    v
}

/// Parses `s[lo..hi]` as exactly `true` or `false`.
fn parse_bool(s: &Vec<char>, lo: usize, hi: usize, line: usize) -> (r: Result<bool, ConfigError>)
    requires
        lo <= hi <= s@.len(),
    ensures
        match r {
            Ok(b) => parse_bool_spec(s@.subrange(lo as int, hi as int)) == Some(b),
            Err(e) => parse_bool_spec(s@.subrange(lo as int, hi as int)) is None && e@ == (
            ConfigErrorModel {
                line: line as nat,
                kind: ConfigErrorKindModel::NotBool(s@.subrange(lo as int, hi as int)),
            }),
        },
{
    if slice_is(s, lo, hi, "true") {
        Ok(true)
    } else if slice_is(s, lo, hi, "false") {
        Ok(false)
    } else {
        Err(
            ConfigError {
                line,
                kind: ConfigErrorKind::NotBool(string_of(slice_of(s, lo, hi).as_slice())),
            },
        )
    }
}

} // verus!
