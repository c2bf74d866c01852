//! Checks of commits, patch texts and diffs against the kernel's patch
//! submission rules.

use vstd::prelude::*;
use crate::commit::{opt_view, CommitInfo};
use crate::config::ValidationConfig;
use crate::text::{
    byte_len, byte_len_of, char_views, chars_of, contains, contains_chars, decimal, find_from,
    has_trailing_white_space, has_trailing_white_space_chars, contains_char, head_chars, is_blank, is_blank_chars, lines, tail_chars, occurs_at, push_decimal,
    split_lines, starts_with, starts_with_chars, string_views,
};

verus! {

broadcast use vstd::string::group_string_axioms;

// ---------------------------------------------------------------------------
// Validation results
// ---------------------------------------------------------------------------

/// Outcome of a check: errors make a patch invalid, warnings do not.
#[derive(Debug, Clone)]
pub struct ValidationResult {
    pub is_valid: bool,
    pub errors: Vec<String>,
    pub warnings: Vec<String>,
}

/// The ANSI terminal colour codes of the report: green for success, yellow
/// for warnings, red for errors.
pub enum Colour {
    Green,
    Yellow,
    Red,
}

/// The number of a colour's ANSI code.
pub open spec fn colour_code(c: Colour) -> Seq<char> {
    match c {
        Colour::Green => "32"@,
        Colour::Yellow => "33"@,
        Colour::Red => "31"@,
    }
}

/// `text` in colour `c`: the ANSI code that sets the colour, the text, and
/// the code that resets it (`ESC [ code m` ... `ESC [ 0 m`).
pub open spec fn painted(c: Colour, text: Seq<char>) -> Seq<char> {
    "\x1b["@ + colour_code(c) + "m"@ + text + "\x1b[0m"@
}

/// Bulleted list of the items in colour `c`, one `"  - item"` line each, in order.
pub open spec fn bullet_list(c: Colour, items: Seq<Seq<char>>) -> Seq<char>
    decreases items.len(),
{
    if items.len() == 0 {
        seq![]
    } else {
        bullet_list(c, items.drop_last()) + painted(c, "  - "@ + items.last()) + "\n"@
    }
}

/// What the report of `r` prints on standard output.
pub open spec fn report_stdout(r: ValidationResult) -> Seq<char> {
    if r.is_valid && r.warnings@.len() == 0 {
        painted(Colour::Green, "✓ Validation passed"@) + "\n"@
    } else if r.warnings@.len() > 0 {
        painted(Colour::Yellow, "⚠ Warnings:"@) + "\n"@ + bullet_list(
            Colour::Yellow,
            string_views(r.warnings@),
        )
    } else {
        seq![]
    }
}

/// What the report of `r` prints on standard error.
pub open spec fn report_stderr(r: ValidationResult) -> Seq<char> {
    if r.is_valid && r.warnings@.len() == 0 {
        seq![]
    } else if r.errors@.len() > 0 {
        painted(Colour::Red, "✗ Validation errors:"@) + "\n"@ + bullet_list(
            Colour::Red,
            string_views(r.errors@),
        )
    } else {
        seq![]
    }
}

/// Appends the ANSI code that sets colour `c`.
fn push_colour(s: &mut String, c: &Colour)
    ensures
        final(s)@ == old(s)@ + "\x1b["@ + colour_code(*c) + "m"@,
{
    s.append("\x1b[");
    match c {
        Colour::Green => s.append("32"),
        Colour::Yellow => s.append("33"),
        Colour::Red => s.append("31"),
    }
    s.append("m");
}

/// Appends `text` in colour `c`, then a line break.
fn push_painted_line(s: &mut String, c: &Colour, text: &str)
    ensures
        final(s)@ == old(s)@ + painted(*c, text@) + "\n"@,
{
    push_colour(s, c);
    s.append(text);
    s.append("\x1b[0m");
    s.append("\n");
    assert(s@ =~= old(s)@ + painted(*c, text@) + "\n"@);
}

impl ValidationResult {
    /// The result is valid exactly when it records no error.
    pub open spec fn wf(&self) -> bool {
        self.is_valid == (self.errors@.len() == 0)
    }

    /// A valid result with no errors and no warnings.
    pub fn new() -> (r: Self)
        ensures
            r.is_valid,
            r.errors@.len() == 0,
            r.warnings@.len() == 0,
            r.wf(),
    {
        ValidationResult { is_valid: true, errors: Vec::new(), warnings: Vec::new() }
    }

    /// Records an error; the result becomes invalid.
    pub fn add_error(&mut self, msg: String)
        ensures
            !final(self).is_valid,
            final(self).errors@ == old(self).errors@.push(msg),
            final(self).warnings@ == old(self).warnings@,
            final(self).wf(),
    {
        self.is_valid = false;
        self.errors.push(msg);
    }

    /// Records a warning; validity is unchanged.
    pub fn add_warning(&mut self, msg: String)
        ensures
            final(self).is_valid == old(self).is_valid,
            final(self).errors@ == old(self).errors@,
            final(self).warnings@ == old(self).warnings@.push(msg),
            old(self).wf() ==> final(self).wf(),
    {
        self.warnings.push(msg);
    }

    /// The text of the report, coloured with ANSI terminal codes: what goes
    /// to standard output (success in green, warnings in yellow) and what goes
    /// to standard error (errors in red), in that order.
    pub fn report(&self) -> (r: (String, String))
        ensures
            r.0@ == report_stdout(*self),
            r.1@ == report_stderr(*self),
    {
        let mut out = String::new();
        let mut err = String::new();
        if self.is_valid && self.warnings.len() == 0 {
            push_painted_line(&mut out, &Colour::Green, "✓ Validation passed");
            return (out, err);
        }
        if self.errors.len() > 0 {
            push_painted_line(&mut err, &Colour::Red, "✗ Validation errors:");
            push_bullets(&mut err, &Colour::Red, &self.errors);
        }
        if self.warnings.len() > 0 {
            push_painted_line(&mut out, &Colour::Yellow, "⚠ Warnings:");
            push_bullets(&mut out, &Colour::Yellow, &self.warnings);
        }
        (out, err)
    }
}

/// Appends the bulleted list of `items`, in colour `c`, to `s`.
fn push_bullets(s: &mut String, c: &Colour, items: &Vec<String>)
    ensures
        final(s)@ == old(s)@ + bullet_list(*c, string_views(items@)),
{
    let mut i: usize = 0;
    while i < items.len()
        invariant
            i <= items.len(),
            s@ == old(s)@ + bullet_list(*c, string_views(items@.take(i as int))),
        decreases items.len() - i,
    {
        assert(string_views(items@.take(i + 1)).drop_last() =~= string_views(
            items@.take(i as int),
        ));
        let ghost before = s@;
        push_colour(s, c);
        s.append("  - ");
        s.append(items[i].as_str());
        s.append("\x1b[0m");
        s.append("\n");
        assert(s@ =~= before + painted(*c, "  - "@ + items@[i as int]@) + "\n"@);
        i = i + 1;
    }
    assert(items@.take(items.len() as int) =~= items@);
}

// ---------------------------------------------------------------------------
// The validator and its settings
// ---------------------------------------------------------------------------

/// Which checks a validator runs, and the longest line it accepts.
pub struct PatchValidator {
    check_line_length: bool,
    max_line_length: usize,
    check_trailing_whitespace: bool,
    check_tab_indentation: bool,
    require_sign_off: bool,
    check_commit_message_format: bool,
}

impl PatchValidator {
    /// Whether over-long lines are reported.
    pub closed spec fn checks_line_length(&self) -> bool {
        self.check_line_length
    }

    /// The longest line, in bytes, that is not reported.
    pub closed spec fn line_length_limit(&self) -> usize {
        self.max_line_length
    }

    /// Whether trailing white space is reported.
    pub closed spec fn checks_trailing_whitespace(&self) -> bool {
        self.check_trailing_whitespace
    }

    /// Whether space indentation in C and Rust diffs is reported.
    pub closed spec fn checks_tab_indentation(&self) -> bool {
        self.check_tab_indentation
    }

    /// Whether a `Signed-off-by:` line is required.
    pub closed spec fn requires_sign_off(&self) -> bool {
        self.require_sign_off
    }

    /// Whether the commit message layout is checked.
    pub closed spec fn checks_commit_message_format(&self) -> bool {
        self.check_commit_message_format
    }

    /// All checks on, with lines of at most 80 bytes.
    pub fn new() -> (v: Self)
        ensures
            v.checks_line_length(),
            v.line_length_limit() == 80,
            v.checks_trailing_whitespace(),
            v.checks_tab_indentation(),
            v.requires_sign_off(),
            v.checks_commit_message_format(),
    {
        PatchValidator {
            check_line_length: true,
            max_line_length: 80,
            check_trailing_whitespace: true,
            check_tab_indentation: true,
            require_sign_off: true,
            check_commit_message_format: true,
        }
    }

    /// Sets the line-length check and its limit; the other settings stay.
    pub fn with_line_length_check(self, check: bool, max: usize) -> (v: Self)
        ensures
            v.checks_line_length() == check,
            v.line_length_limit() == max,
            v.checks_trailing_whitespace() == self.checks_trailing_whitespace(),
            v.checks_tab_indentation() == self.checks_tab_indentation(),
            v.requires_sign_off() == self.requires_sign_off(),
            v.checks_commit_message_format() == self.checks_commit_message_format(),
    {
        let mut v = self;
        v.check_line_length = check;
        v.max_line_length = max;
        v
    }

    /// Sets the trailing-white-space check; the other settings stay.
    pub fn with_trailing_whitespace_check(self, check: bool) -> (v: Self)
        ensures
            v.checks_line_length() == self.checks_line_length(),
            v.line_length_limit() == self.line_length_limit(),
            v.checks_trailing_whitespace() == check,
            v.checks_tab_indentation() == self.checks_tab_indentation(),
            v.requires_sign_off() == self.requires_sign_off(),
            v.checks_commit_message_format() == self.checks_commit_message_format(),
    {
        let mut v = self;
        v.check_trailing_whitespace = check;
        v
    }

    /// Sets the tab-indentation check; the other settings stay.
    pub fn with_tab_indentation_check(self, check: bool) -> (v: Self)
        ensures
            v.checks_line_length() == self.checks_line_length(),
            v.line_length_limit() == self.line_length_limit(),
            v.checks_trailing_whitespace() == self.checks_trailing_whitespace(),
            v.checks_tab_indentation() == check,
            v.requires_sign_off() == self.requires_sign_off(),
            v.checks_commit_message_format() == self.checks_commit_message_format(),
    {
        let mut v = self;
        v.check_tab_indentation = check;
        v
    }

    /// Sets whether a sign-off is required; the other settings stay.
    pub fn with_sign_off_requirement(self, require: bool) -> (v: Self)
        ensures
            v.checks_line_length() == self.checks_line_length(),
            v.line_length_limit() == self.line_length_limit(),
            v.checks_trailing_whitespace() == self.checks_trailing_whitespace(),
            v.checks_tab_indentation() == self.checks_tab_indentation(),
            v.requires_sign_off() == require,
            v.checks_commit_message_format() == self.checks_commit_message_format(),
    {
        let mut v = self;
        v.require_sign_off = require;
        v
    }

    /// Sets the commit-message check; the other settings stay.
    pub fn with_commit_message_check(self, check: bool) -> (v: Self)
        ensures
            v.checks_line_length() == self.checks_line_length(),
            v.line_length_limit() == self.line_length_limit(),
            v.checks_trailing_whitespace() == self.checks_trailing_whitespace(),
            v.checks_tab_indentation() == self.checks_tab_indentation(),
            v.requires_sign_off() == self.requires_sign_off(),
            v.checks_commit_message_format() == check,
    {
        let mut v = self;
        v.check_commit_message_format = check;
        v
    }
}

impl PatchValidator {
    /// The validator that a configuration's validation settings describe:
    /// each setting that is given is taken, and each one that is missing
    /// keeps the value of `PatchValidator::new`.
    pub fn from_config(c: &ValidationConfig) -> (v: Self)
        ensures
            v.checks_line_length() == c.check_line_length.unwrap_or(true),
            v.line_length_limit() == c.max_line_length.unwrap_or(80),
            v.checks_trailing_whitespace() == c.check_trailing_whitespace.unwrap_or(true),
            v.checks_tab_indentation() == c.check_tab_indentation.unwrap_or(true),
            v.requires_sign_off() == c.require_sign_off.unwrap_or(true),
            v.checks_commit_message_format() == c.check_commit_message_format.unwrap_or(true),
    {
        let d = PatchValidator::new();
        PatchValidator {
            check_line_length: match c.check_line_length {
                Some(b) => b,
                None => d.check_line_length,
            },
            max_line_length: match c.max_line_length {
                Some(n) => n,
                None => d.max_line_length,
            },
            check_trailing_whitespace: match c.check_trailing_whitespace {
                Some(b) => b,
                None => d.check_trailing_whitespace,
            },
            check_tab_indentation: match c.check_tab_indentation {
                Some(b) => b,
                None => d.check_tab_indentation,
            },
            require_sign_off: match c.require_sign_off {
                Some(b) => b,
                None => d.require_sign_off,
            },
            check_commit_message_format: match c.check_commit_message_format {
                Some(b) => b,
                None => d.check_commit_message_format,
            },
        }
    }
}

impl Default for PatchValidator {
    /// The same validator as `PatchValidator::new`.
    fn default() -> (v: Self)
        ensures
            v.checks_line_length(),
            v.line_length_limit() == 80,
            v.checks_trailing_whitespace(),
            v.checks_tab_indentation(),
            v.requires_sign_off(),
            v.checks_commit_message_format(),
    {
        Self::new()
    }
}

// ---------------------------------------------------------------------------
// Checks of a patch text
// ---------------------------------------------------------------------------

/// Lines that may exceed the length limit: diff headers and diff body lines.
pub open spec fn line_exempt_from_length(line: Seq<char>) -> bool {
    ||| starts_with(line, "diff --git"@)
    ||| starts_with(line, "index "@)
    ||| starts_with(line, "---"@)
    ||| starts_with(line, "+++"@)
    ||| starts_with(line, "@@"@)
    ||| starts_with(line, "+"@)
    ||| starts_with(line, "-"@)
    ||| starts_with(line, " "@)
}

/// Warning for line `number` (counted from 1) of `len` bytes over the limit `max`.
pub open spec fn long_line_message(number: nat, max: nat, len: nat) -> Seq<char> {
    "Line "@ + decimal(number) + " exceeds "@ + decimal(max) + " characters (length: "@
        + decimal(len) + ")"@
}

/// Warnings for the lines of `ls` longer than `max` bytes, in line order.
pub open spec fn long_line_warnings(ls: Seq<Seq<char>>, max: nat) -> Seq<Seq<char>>
    decreases ls.len(),
{
    if ls.len() == 0 {
        seq![]
    } else {
        let prev = long_line_warnings(ls.drop_last(), max);
        let line = ls.last();
        if !line_exempt_from_length(line) && byte_len(line) > max {
            prev.push(long_line_message(ls.len(), max, byte_len(line)))
        } else {
            prev
        }
    }
}

/// Warning for line `number` (counted from 1) that ends in white space.
pub open spec fn trailing_space_message(number: nat) -> Seq<char> {
    "Line "@ + decimal(number) + " has trailing whitespace"@
}

/// Warnings for the lines of `ls` that end in white space, in line order.
pub open spec fn trailing_space_warnings(ls: Seq<Seq<char>>) -> Seq<Seq<char>>
    decreases ls.len(),
{
    if ls.len() == 0 {
        seq![]
    } else {
        let prev = trailing_space_warnings(ls.drop_last());
        if has_trailing_white_space(ls.last()) {
            prev.push(trailing_space_message(ls.len()))
        } else {
            prev
        }
    }
}

/// The text holds a diff: a `diff --git` header or a `---` marker.
pub open spec fn has_diff(content: Seq<char>) -> bool {
    contains(content, "diff --git"@) || contains(content, "---"@)
}

/// `pat` occurs at `i` in `s` and nowhere before.
pub open spec fn first_occurrence_at(s: Seq<char>, pat: Seq<char>, i: int) -> bool {
    occurs_at(s, pat, i) && forall|j: int| 0 <= j < i ==> !occurs_at(s, pat, j)
}

/// The text holds a diff with no `---` separator before it. With a
/// `diff --git` header, the diff starts at the first one, and the text before
/// it holds no `---` line ending (`---` followed by `\n` or `\r\n`). Without
/// one, the diff starts at the first `---` marker, before which no `---` line
/// ending can stand.
pub open spec fn separator_missing(content: Seq<char>) -> bool {
    if contains(content, "diff --git"@) {
        exists|k: int|
            #![trigger first_occurrence_at(content, "diff --git"@, k)]
            first_occurrence_at(content, "diff --git"@, k) && !contains(content.take(k), "---\n"@)
                && !contains(content.take(k), "---\r\n"@)
    } else {
        contains(content, "---"@)
    }
}

/// The regular expression that a well-formed sign-off line matches.
pub open spec fn sign_off_pattern() -> Seq<char> {
    "Signed-off-by:\\s*[^<]+\\s*<[^>]+>"@
}

/// Errors of a patch text, in the order they are found. `sign_off_format_ok` is
/// the answer of the sign-off pattern on the text; it matters only when a
/// sign-off is required and present.
pub open spec fn patch_text_errors(
    require_sign_off: bool,
    content: Seq<char>,
    sign_off_format_ok: bool,
) -> Seq<Seq<char>> {
    (if !contains(content, "From:"@) {
        seq!["Missing 'From:' header"@]
    } else {
        seq![]
    }) + (if !contains(content, "Subject:"@) {
        seq!["Missing 'Subject:' header"@]
    } else {
        seq![]
    }) + (if !has_diff(content) {
        seq!["Missing diff content"@]
    } else {
        seq![]
    }) + (if require_sign_off && !contains(content, "Signed-off-by:"@) {
        seq!["Missing Signed-off-by line"@]
    } else if require_sign_off && !sign_off_format_ok {
        seq!["Invalid Signed-off-by format"@]
    } else {
        seq![]
    })
}

/// Warnings of a patch text, in the order they are found.
pub open spec fn patch_text_warnings(
    check_line_length: bool,
    max_line_length: nat,
    check_trailing_whitespace: bool,
    content: Seq<char>,
) -> Seq<Seq<char>> {
    (if check_line_length {
        long_line_warnings(lines(content), max_line_length)
    } else {
        seq![]
    }) + (if check_trailing_whitespace {
        trailing_space_warnings(lines(content))
    } else {
        seq![]
    }) + (if separator_missing(content) {
        seq!["Missing '---' separator before diff"@]
    } else {
        seq![]
    })
}

/// Name for whether `regex::Regex::new` accepts `pattern`.
pub uninterp spec fn regex_compiles(pattern: Seq<char>) -> bool;

/// Name for what `regex::Regex::is_match` answers for the expression `pattern` on `text`.
pub uninterp spec fn regex_matches(pattern: Seq<char>, text: Seq<char>) -> bool;

/// What the sign-off pattern `Signed-off-by:\s*[^<]+\s*<[^>]+>` finds in `t`:
/// `Signed-off-by:`, then one or more characters other than `<`, then `<`,
/// then one or more characters other than `>`, then `>`. (`\s*[^<]+\s*`
/// matches exactly the non-empty runs without `<`, line breaks included.)
pub open spec fn sign_off_format_ok(t: Seq<char>) -> bool {
    exists|i: int, a: int, b: int|
        #![trigger occurs_at(t, "Signed-off-by:"@, i), t[a], t[b]]
        {
            &&& occurs_at(t, "Signed-off-by:"@, i)
            &&& i + 14 < a < b < t.len()
            &&& t[a] == '<'
            &&& t[b] == '>'
            &&& a + 1 < b
            &&& forall|k: int| i + 14 <= k < a ==> t[k] != '<'
            &&& forall|k: int| a + 1 <= k < b ==> t[k] != '>'
        }
}

/// The regex crate: compiles `pattern` with `Regex::new` and, when that
/// succeeds, asks `Regex::is_match` on `text`.
/// Trusted: the contract claims that the answer is `None` exactly when the
/// pattern does not compile (named `regex_compiles`), and otherwise the match
/// named `regex_matches`. Of the one pattern the library uses, the sign-off
/// pattern, it claims what the crate's syntax documentation gives: it
/// compiles, and matches as `sign_off_format_ok` says. What other expressions
/// mean is left to the crate.
#[verifier::external_body]
fn regex_is_match(pattern: &str, text: &str) -> (r: Option<bool>)
    ensures
        r is Some <==> regex_compiles(pattern@),
        r matches Some(b) ==> b == regex_matches(pattern@, text@),
        pattern@ == sign_off_pattern() ==> r == Some(sign_off_format_ok(text@)),
{
    match regex::Regex::new(pattern) {
        Ok(re) => Some(re.is_match(text)),
        Err(_) => None,
    }
}

/// The warning for an over-long line, from its number, the limit and its length.
fn long_line_message_string(number: usize, max: usize, len: u128) -> (m: String)
    ensures
        m@ == long_line_message(number as nat, max as nat, len as nat),
{
    let mut m = String::from_str("Line ");
    push_decimal(&mut m, number as u128);
    m.append(" exceeds ");
    push_decimal(&mut m, max as u128);
    m.append(" characters (length: ");
    push_decimal(&mut m, len);
    m.append(")");
    m
}

/// Whether a line may exceed the length limit.
fn is_length_exempt(line: &Vec<char>) -> (b: bool)
    ensures
        b == line_exempt_from_length(line@),
{
    starts_with_chars(line, &chars_of("diff --git")) || starts_with_chars(line, &chars_of("index "))
        || starts_with_chars(line, &chars_of("---")) || starts_with_chars(line, &chars_of("+++"))
        || starts_with_chars(line, &chars_of("@@")) || starts_with_chars(line, &chars_of("+"))
        || starts_with_chars(line, &chars_of("-")) || starts_with_chars(line, &chars_of(" "))
}

impl PatchValidator {
    /// Adds a warning for every line longer than the limit.
    fn warn_long_lines(&self, result: &mut ValidationResult, ls: &Vec<Vec<char>>)
        ensures
            final(result).is_valid == old(result).is_valid,
            final(result).errors@ == old(result).errors@,
            string_views(final(result).warnings@) == string_views(old(result).warnings@)
                + long_line_warnings(char_views(ls@), self.max_line_length as nat),
    {
        let mut i: usize = 0;
        while i < ls.len()
            invariant
                i <= ls.len(),
                result.is_valid == old(result).is_valid,
                result.errors@ == old(result).errors@,
                string_views(result.warnings@) == string_views(old(result).warnings@)
                    + long_line_warnings(char_views(ls@).take(i as int), self.max_line_length as nat),
            decreases ls.len() - i,
        {
            assert(char_views(ls@).take(i + 1).drop_last() =~= char_views(ls@).take(i as int));
            assert(char_views(ls@).take(i + 1).last() == ls@[i as int]@);
            let line = &ls[i];
            let len = byte_len_of(line);
            if !is_length_exempt(line) && len > self.max_line_length as u128 {
                let m = long_line_message_string(i + 1, self.max_line_length, len);
                let ghost prev = result.warnings@;
                result.add_warning(m);
                assert(string_views(result.warnings@) =~= string_views(prev).push(m@));
            }
            i = i + 1;
        }
        assert(char_views(ls@).take(ls.len() as int) =~= char_views(ls@));
    }

    /// Adds a warning for every line that ends in white space.
    fn warn_trailing_space(&self, result: &mut ValidationResult, ls: &Vec<Vec<char>>)
        ensures
            final(result).is_valid == old(result).is_valid,
            final(result).errors@ == old(result).errors@,
            string_views(final(result).warnings@) == string_views(old(result).warnings@)
                + trailing_space_warnings(char_views(ls@)),
    {
        let mut i: usize = 0;
        while i < ls.len()
            invariant
                i <= ls.len(),
                result.is_valid == old(result).is_valid,
                result.errors@ == old(result).errors@,
                string_views(result.warnings@) == string_views(old(result).warnings@)
                    + trailing_space_warnings(char_views(ls@).take(i as int)),
            decreases ls.len() - i,
        {
            assert(char_views(ls@).take(i + 1).drop_last() =~= char_views(ls@).take(i as int));
            assert(char_views(ls@).take(i + 1).last() == ls@[i as int]@);
            if has_trailing_white_space_chars(&ls[i]) {
                let mut m = String::from_str("Line ");
                push_decimal(&mut m, (i + 1) as u128);
                m.append(" has trailing whitespace");
                let ghost prev = result.warnings@;
                result.add_warning(m);
                assert(string_views(result.warnings@) =~= string_views(prev).push(m@));
            }
            i = i + 1;
        }
        assert(char_views(ls@).take(ls.len() as int) =~= char_views(ls@));
    }

    /// Checks a patch text, given whether its sign-off matches the sign-off
    /// pattern (`sign_off_format_ok`).
    pub fn check_patch_text(&self, content: &str, sign_off_format_ok: bool) -> (r: ValidationResult)
        ensures
            r.wf(),
            string_views(r.errors@) == patch_text_errors(
                self.requires_sign_off(),
                content@,
                sign_off_format_ok,
            ),
            string_views(r.warnings@) == patch_text_warnings(
                self.checks_line_length(),
                self.line_length_limit() as nat,
                self.checks_trailing_whitespace(),
                content@,
            ),
    {
        let cv = chars_of(content);
        let mut result = ValidationResult::new();
        let has_from = contains_chars(&cv, &chars_of("From:"));
        let has_subject = contains_chars(&cv, &chars_of("Subject:"));
        let header = chars_of("diff --git");
        let has_header = contains_chars(&cv, &header);
        let has_dashes = contains_chars(&cv, &chars_of("---"));
        let has_diff_text = has_header || has_dashes;
        if !has_from {
            result.add_error(String::from_str("Missing 'From:' header"));
        }
        if !has_subject {
            result.add_error(String::from_str("Missing 'Subject:' header"));
        }
        if !has_diff_text {
            result.add_error(String::from_str("Missing diff content"));
        }
        let ghost header_errors = string_views(result.errors@);
        let ls = split_lines(&cv);
        if self.check_line_length {
            self.warn_long_lines(&mut result, &ls);
        }
        if self.check_trailing_whitespace {
            self.warn_trailing_space(&mut result, &ls);
        }
        if self.require_sign_off {
            if !contains_chars(&cv, &chars_of("Signed-off-by:")) {
                result.add_error(String::from_str("Missing Signed-off-by line"));
            } else if !sign_off_format_ok {
                result.add_error(String::from_str("Invalid Signed-off-by format"));
            }
        }
        if !has_header {
            if has_dashes {
                result.add_warning(String::from_str("Missing '---' separator before diff"));
            }
        } else if let Some(start) = find_from(&cv, &header, 0) {
            let before = head_chars(&cv, start);
            let has_lf = contains_chars(&before, &chars_of("---\n"));
            let has_crlf = contains_chars(&before, &chars_of("---\r\n"));
            proof {
                assert(first_occurrence_at(cv@, header@, start as int));
                assert forall|k: int| first_occurrence_at(cv@, header@, k) implies k == start by {
                    if k > start {
                        assert(!occurs_at(cv@, header@, start as int));
                    }
                }
            }
            if !has_lf && !has_crlf {
                result.add_warning(String::from_str("Missing '---' separator before diff"));
            }
        }
        result
    }
}

impl PatchValidator {
    /// Checks a patch text: headers, diff, line lengths, trailing white space,
    /// the `---` separator and the sign-off, whose format is checked with the
    /// sign-off pattern.
    pub fn validate_patch_text(&self, content: &str) -> (r: ValidationResult)
        ensures
            r.wf(),
            string_views(r.errors@) == patch_text_errors(
                self.requires_sign_off(),
                content@,
                sign_off_format_ok(content@),
            ),
            string_views(r.warnings@) == patch_text_warnings(
                self.checks_line_length(),
                self.line_length_limit() as nat,
                self.checks_trailing_whitespace(),
                content@,
            ),
    {
        let mut format_ok = true;
        if self.require_sign_off && contains_chars(&chars_of(content), &chars_of("Signed-off-by:")) {
            if let Some(b) = regex_is_match("Signed-off-by:\\s*[^<]+\\s*<[^>]+>", content) {
                format_ok = b;
            }
        }
        self.check_patch_text(content, format_ok)
    }
}

// ---------------------------------------------------------------------------
// Checks of a commit message
// ---------------------------------------------------------------------------

/// Warning for a subject line of `len` characters.
pub open spec fn long_subject_message(len: nat) -> Seq<char> {
    "Subject line is "@ + decimal(len) + " characters (recommended: <= 72)"@
}

/// Warnings about the layout of a commit message.
pub open spec fn commit_warnings(check_format: bool, message: Option<Seq<char>>) -> Seq<Seq<char>> {
    if !check_format {
        seq![]
    } else {
        match message {
            None => seq![],
            Some(m) => {
                let ls = lines(m);
                (if ls.len() > 0 && ls[0].len() > 72 {
                    seq![long_subject_message(ls[0].len())]
                } else {
                    seq![]
                }) + (if ls.len() > 0 && !contains(ls[0], ":"@) {
                    seq!["Subject line should follow 'subsystem: description' format"@]
                } else {
                    seq![]
                }) + (if ls.len() > 1 && !is_blank(ls[1]) {
                    seq!["Commit message should have empty line after subject"@]
                } else {
                    seq![]
                })
            },
        }
    }
}

/// Errors of a commit message.
pub open spec fn commit_errors(require_sign_off: bool, message: Option<Seq<char>>) -> Seq<
    Seq<char>,
> {
    match message {
        Some(m) => if require_sign_off && !contains(m, "Signed-off-by:"@) {
            seq!["Missing Signed-off-by line (required for kernel patches)"@]
        } else {
            seq![]
        },
        None => seq![],
    }
}

impl PatchValidator {
    /// Checks a commit message: subject length and form, the blank line after
    /// the subject, and the sign-off.
    pub fn validate_commit(&self, commit: &CommitInfo) -> (r: ValidationResult)
        ensures
            r.wf(),
            string_views(r.errors@) == commit_errors(
                self.requires_sign_off(),
                opt_view(commit.message),
            ),
            string_views(r.warnings@) == commit_warnings(
                self.checks_commit_message_format(),
                opt_view(commit.message),
            ),
    {
        let mut result = ValidationResult::new();
        if self.check_commit_message_format {
            if let Some(message) = &commit.message {
                let mv = chars_of(message.as_str());
                let ls = split_lines(&mv);
                let ghost lsv = char_views(ls@);
                assert(lsv.len() == ls@.len());
                proof {
                    reveal_strlit(":");
                    assert(seq![':'] =~= ":"@);
                }
                if ls.len() > 0 {
                    assert(lsv[0] == ls@[0]@);
                    let len = ls[0].len();
                    if len > 72 {
                        let mut m = String::from_str("Subject line is ");
                        push_decimal(&mut m, len as u128);
                        m.append(" characters (recommended: <= 72)");
                        result.add_warning(m);
                    }
                    let ghost after_length = result.warnings@;
                    if !contains_char(&ls[0], ':') {
                        result.add_warning(
                            String::from_str(
                                "Subject line should follow 'subsystem: description' format",
                            ),
                        );
                        assert(string_views(result.warnings@) =~= string_views(after_length).push(
                            "Subject line should follow 'subsystem: description' format"@,
                        ));
                    }
                }
                let ghost after_subject = result.warnings@;
                if ls.len() > 1 {
                    assert(lsv[1] == ls@[1]@);
                    if !is_blank_chars(&ls[1]) {
                        result.add_warning(
                            String::from_str("Commit message should have empty line after subject"),
                        );
                        assert(string_views(result.warnings@) =~= string_views(after_subject).push(
                            "Commit message should have empty line after subject"@,
                        ));
                    }
                }
                assert(string_views(result.warnings@) =~= commit_warnings(true, Some(mv@)));
            }
        }
        if self.require_sign_off {
            if let Some(message) = &commit.message {
                let mv = chars_of(message.as_str());
                if !contains_chars(&mv, &chars_of("Signed-off-by:")) {
                    result.add_error(
                        String::from_str("Missing Signed-off-by line (required for kernel patches)"),
                    );
                }
            }
        }
        result
    }
}

// ---------------------------------------------------------------------------
// Checks of a diff
// ---------------------------------------------------------------------------

/// A `diff --git` header naming a C or Rust file.
pub open spec fn names_c_or_rust_file(line: Seq<char>) -> bool {
    contains(line, ".c"@) || contains(line, ".h"@) || contains(line, ".rs"@)
}

/// An added or removed line whose code is indented with four spaces.
pub open spec fn space_indented_change(line: Seq<char>) -> bool {
    &&& (starts_with(line, "+"@) || starts_with(line, "-"@))
    &&& starts_with(line.drop_first(), "    "@)
    &&& !starts_with(line.drop_first(), "\t"@)
}

/// Tab-indentation warnings for the lines `ls`, `in_c` telling whether the
/// lines before them were in a C or Rust file.
pub open spec fn tab_warnings(ls: Seq<Seq<char>>, in_c: bool) -> Seq<Seq<char>>
    decreases ls.len(),
{
    if ls.len() == 0 {
        seq![]
    } else {
        let line = ls[0];
        let now_c = if starts_with(line, "diff --git"@) {
            names_c_or_rust_file(line)
        } else {
            in_c
        };
        (if now_c && space_indented_change(line) {
            seq!["C/Rust files should use tabs for indentation, not spaces"@]
        } else {
            seq![]
        }) + tab_warnings(ls.drop_first(), now_c)
    }
}

/// Warnings of a diff text.
pub open spec fn diff_content_warnings(check_tab_indentation: bool, diff: Seq<char>) -> Seq<
    Seq<char>,
> {
    if check_tab_indentation {
        tab_warnings(lines(diff), false)
    } else {
        seq![]
    }
}

impl PatchValidator {
    /// Checks a diff: changed lines of C and Rust files should be indented with tabs.
    pub fn validate_diff_content(&self, diff_content: &str) -> (r: ValidationResult)
        ensures
            r.is_valid,
            r.errors@.len() == 0,
            string_views(r.warnings@) == diff_content_warnings(
                self.checks_tab_indentation(),
                diff_content@,
            ),
    {
        let mut result = ValidationResult::new();
        if self.check_tab_indentation {
            let dv = chars_of(diff_content);
            let ls = split_lines(&dv);
            let header = chars_of("diff --git");
            let plus = chars_of("+");
            let minus = chars_of("-");
            let four = chars_of("    ");
            let tab = chars_of("\t");
            let mut in_c_file = false;
            let mut i: usize = 0;
            assert(char_views(ls@).skip(0) =~= char_views(ls@));
            while i < ls.len()
                invariant
                    i <= ls.len(),
                    result.is_valid,
                    result.errors@.len() == 0,
                    header@ == "diff --git"@,
                    plus@ == "+"@,
                    minus@ == "-"@,
                    four@ == "    "@,
                    tab@ == "\t"@,
                    string_views(result.warnings@) + tab_warnings(
                        char_views(ls@).skip(i as int),
                        in_c_file,
                    ) == tab_warnings(char_views(ls@), false),
                decreases ls.len() - i,
            {
                let line = &ls[i];
                let ghost rest = char_views(ls@).skip(i as int);
                assert(rest[0] == line@);
                assert(rest.drop_first() =~= char_views(ls@).skip(i + 1));
                if starts_with_chars(line, &header) {
                    in_c_file = contains_chars(line, &chars_of(".c")) || contains_chars(
                        line,
                        &chars_of(".h"),
                    ) || contains_chars(line, &chars_of(".rs"));
                }
                let ghost prev = result.warnings@;
                if in_c_file && (starts_with_chars(line, &plus) || starts_with_chars(line, &minus)) {
                    proof {
                        reveal_strlit("+");
                        reveal_strlit("-");
                    }
                    let code_line = tail_chars(line, 1);
                    if starts_with_chars(&code_line, &four) && !starts_with_chars(&code_line, &tab) {
                        result.add_warning(
                            String::from_str(
                                "C/Rust files should use tabs for indentation, not spaces",
                            ),
                        );
                        assert(string_views(result.warnings@) =~= string_views(prev).push(
                            "C/Rust files should use tabs for indentation, not spaces"@,
                        ));
                    }
                }
                i = i + 1;
            }
            assert(char_views(ls@).skip(ls.len() as int) =~= seq![]);
        }
        result
    }
}

} // verus!
