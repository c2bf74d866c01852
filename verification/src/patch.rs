//! Composing patches in the format kernel maintainers expect: the mail
//! headers, the subject prefix, the commit message body, the diff and the
//! sign-off; the cover letter of a series; and the commit range syntax.

use vstd::prelude::*;
use crate::asm_utils::{fast_sanitize_string, is_kept_char, lemma_sanitize_idempotent, sanitized};
use crate::commit::{opt_view, CommitInfo};
use crate::diff::{render_diff, rendered_diff, DiffLine};
use crate::validation::{has_diff, patch_text_errors};
use crate::text::{
    byte_len, byte_len_of, head_chars, lemma_byte_len_concat, string_of, tail_chars, utf8_width,
    utf8_width_of, zero_padded, char_views, chars_of, contains, decimal, is_blank, is_blank_chars, lines, occurs_at,
    push_chars, push_decimal, split_lines,
};

verus! {

broadcast use vstd::string::group_string_axioms;

// ---------------------------------------------------------------------------
// Subject prefix
// ---------------------------------------------------------------------------

/// The subject prefix: `RFC PATCH` when `rfc` is set, else `base`, followed by
/// ` vN` for a version `N`.
pub open spec fn prefix_text(base: Seq<char>, rfc: bool, version: Option<usize>) -> Seq<char> {
    (if rfc {
        "RFC PATCH"@
    } else {
        base
    }) + match version {
        Some(v) => " v"@ + decimal(v as nat),
        None => seq![],
    }
}

/// Builds the subject prefix from the base prefix, the RFC flag and the
/// version of the series.
pub fn build_prefix(base_prefix: &str, rfc: bool, version: Option<usize>) -> (r: String)
    ensures
        r@ == prefix_text(base_prefix@, rfc, version),
{
    let mut prefix = if rfc {
        String::from_str("RFC PATCH")
    } else {
        String::from_str(base_prefix)
    };
    if let Some(v) = version {
        prefix.append(" v");
        push_decimal(&mut prefix, v as u128);
    } else {
        assert(prefix@ + seq![] =~= prefix@);
    }
    prefix
}

// ---------------------------------------------------------------------------
// Commit ranges
// ---------------------------------------------------------------------------

/// What a commit range names.
#[derive(Debug, Clone, PartialEq, Eq)]
pub enum RangeSpec {
    /// The commits reachable from `to` but not from `from` (`from..to`).
    Between { from: String, to: String },
    /// The commits reachable from one revision.
    Single(String),
}

/// Why a commit range was refused.
#[derive(Debug, Clone, Copy, PartialEq, Eq)]
pub enum RangeError {
    /// The text holds `..` but does not split into exactly two revisions.
    InvalidFormat,
}

/// The pieces of `s` after the partial piece `cur`, split at `..` from left to
/// right, as `str::split("..")` does.
pub open spec fn split_dots_after(s: Seq<char>, cur: Seq<char>) -> Seq<Seq<char>>
    decreases s.len(),
{
    if s.len() == 0 {
        seq![cur]
    } else if s.len() >= 2 && s[0] == '.' && s[1] == '.' {
        seq![cur] + split_dots_after(s.skip(2), seq![])
    } else {
        split_dots_after(s.drop_first(), cur.push(s[0]))
    }
}

/// The pieces of `s` between occurrences of `..`.
pub open spec fn split_dots(s: Seq<char>) -> Seq<Seq<char>> {
    split_dots_after(s, seq![])
}

/// Splits `v` at `..` from left to right.
fn split_dots_exec(v: &Vec<char>) -> (r: Vec<Vec<char>>)
    ensures
        char_views(r@) == split_dots(v@),
{
    let mut out: Vec<Vec<char>> = Vec::new();
    let mut cur: Vec<char> = Vec::new();
    let mut i: usize = 0;
    assert(v@.skip(0) =~= v@);
    while i < v.len()
        invariant
            i <= v.len(),
            char_views(out@) + split_dots_after(v@.skip(i as int), cur@) == split_dots(v@),
        decreases v.len() - i,
    {
        let ghost rest = v@.skip(i as int);
        if i + 1 < v.len() && v[i] == '.' && v[i + 1] == '.' {
            assert(rest.skip(2) =~= v@.skip(i + 2));
            let ghost old_out = char_views(out@);
            out.push(cur);
            assert(char_views(out@) =~= old_out.push(cur@));
            assert(char_views(out@) + split_dots_after(v@.skip(i + 2), seq![]) =~= old_out + (seq![
                cur@] + split_dots_after(v@.skip(i + 2), seq![])));
            cur = Vec::new();
            assert(cur@ =~= seq![]);
            i = i + 2;
        } else {
            assert(rest.drop_first() =~= v@.skip(i + 1));
            cur.push(v[i]);
            i = i + 1;
        }
    }
    assert(v@.skip(i as int) =~= seq![]);
    let ghost old_out = char_views(out@);
    out.push(cur);
    assert(char_views(out@) =~= old_out + seq![cur@]);
    out
}

/// Reads a commit range: `from..to` names the commits between two
/// revisions; text without `..` names one revision. Text with `..` that
/// does not split into exactly two revisions is refused.
pub fn parse_range_spec(range: &str) -> (r: Result<RangeSpec, RangeError>)
    ensures
        contains(range@, ".."@) && split_dots(range@).len() == 2 ==> (r matches Ok(
            RangeSpec::Between { from, to },
        ) && from@ == split_dots(range@)[0] && to@ == split_dots(range@)[1]),
        contains(range@, ".."@) && split_dots(range@).len() != 2 ==> r == Err::<
            RangeSpec,
            RangeError,
        >(RangeError::InvalidFormat),
        !contains(range@, ".."@) ==> (r matches Ok(RangeSpec::Single(s)) && s@ == range@),
{
    let v = chars_of(range);
    if crate::text::contains_chars(&v, &chars_of("..")) {
        let parts = split_dots_exec(&v);
        if parts.len() == 2 {
            assert(char_views(parts@)[0] == parts@[0]@);
            assert(char_views(parts@)[1] == parts@[1]@);
            let from = crate::text::string_of(&parts[0]);
            let to = crate::text::string_of(&parts[1]);
            Ok(RangeSpec::Between { from, to })
        } else {
            Err(RangeError::InvalidFormat)
        }
    } else {
        Ok(RangeSpec::Single(String::from_str(range)))
    }
}

/// Splitting passes over a stretch with no `..` starting in it.
proof fn lemma_split_dots_skip(x: Seq<char>, t: Seq<char>, cur: Seq<char>)
    requires
        forall|i: int|
            0 <= i < x.len() ==> !(#[trigger] (x + t)[i] == '.' && i + 1 < (x + t).len() && (x
                + t)[i + 1] == '.'),
    ensures
        split_dots_after(x + t, cur) == split_dots_after(t, cur + x),
    decreases x.len(),
{
    if x.len() == 0 {
        assert(x + t =~= t);
        assert(cur + x =~= cur);
    } else {
        let s = x + t;
        assert(s[0] == x[0]);
        assert(s.drop_first() =~= x.drop_first() + t);
        assert forall|i: int|
            0 <= i < x.drop_first().len() implies !(#[trigger] (x.drop_first() + t)[i] == '.' && i + 1 < (
            x.drop_first() + t).len() && (x.drop_first() + t)[i + 1] == '.') by {
            assert((x.drop_first() + t)[i] == s[i + 1]);
            if i + 1 < (x.drop_first() + t).len() {
                assert((x.drop_first() + t)[i + 1] == s[i + 2]);
            }
        }
        lemma_split_dots_skip(x.drop_first(), t, cur.push(x[0]));
        assert(cur.push(x[0]) + x.drop_first() =~= cur + x);
    }
}

/// Text without `..` is one piece.
proof fn lemma_split_dots_none(t: Seq<char>, cur: Seq<char>)
    requires
        !contains(t, ".."@),
    ensures
        split_dots_after(t, cur) == seq![cur + t],
    decreases t.len(),
{
    reveal(contains);
    reveal_strlit("..");
    if t.len() == 0 {
        assert(cur + t =~= cur);
    } else {
        if t.len() >= 2 && t[0] == '.' && t[1] == '.' {
            assert(t.subrange(0, 2) =~= ".."@);
            assert(occurs_at(t, ".."@, 0));
        }
        assert forall|j: int| !occurs_at(t.drop_first(), ".."@, j) by {
            if occurs_at(t.drop_first(), ".."@, j) {
                assert(t.subrange(j + 1, j + 3) =~= t.drop_first().subrange(j, j + 2));
                assert(occurs_at(t, ".."@, j + 1));
            }
        }
        lemma_split_dots_none(t.drop_first(), cur.push(t[0]));
        assert(cur.push(t[0]) + t.drop_first() =~= cur + t);
    }
}

/// Law: `from..to` reads back as the range between `from` and `to` when
/// neither holds `..` and `from` does not end in `.`.
pub proof fn lemma_range_round_trip(from: Seq<char>, to: Seq<char>)
    requires
        !contains(from, ".."@),
        !contains(to, ".."@),
        from.len() == 0 || from.last() != '.',
    ensures
        contains(from + ".."@ + to, ".."@),
        split_dots(from + ".."@ + to) == seq![from, to],
{
    reveal_strlit("..");
    crate::text::lemma_contains_self(".."@);
    crate::text::lemma_contains_right(from, ".."@, ".."@);
    crate::text::lemma_contains_left(from + ".."@, to, ".."@);
    let rest = ".."@ + to;
    let s = from + rest;
    assert(from + ".."@ + to =~= s);
    lemma_no_adjacent_dots(from);
    assert forall|i: int|
        0 <= i < from.len() implies !(#[trigger] s[i] == '.' && i + 1 < s.len() && s[i + 1]
        == '.') by {
        if i + 1 < from.len() {
            assert(s[i + 1] == from[i + 1]);
        }
    }
    lemma_split_dots_skip(from, rest, seq![]);
    assert(Seq::<char>::empty() + from =~= from);
    assert(rest[0] == '.' && rest[1] == '.');
    assert(rest.skip(2) =~= to);
    lemma_split_dots_none(to, seq![]);
    assert(Seq::<char>::empty() + to =~= to);
    assert(split_dots_after(rest, from) == seq![from] + split_dots_after(to, seq![]));
    assert(seq![from] + seq![to] =~= seq![from, to]);
}

/// Text without `..` has no two dots in a row.
proof fn lemma_no_adjacent_dots(x: Seq<char>)
    requires
        !contains(x, ".."@),
    ensures
        forall|i: int| 0 <= i && i + 1 < x.len() ==> !(#[trigger] x[i] == '.' && x[i + 1] == '.'),
{
    reveal(contains);
    reveal_strlit("..");
    assert forall|i: int| 0 <= i && i + 1 < x.len() implies !(#[trigger] x[i] == '.' && x[i + 1]
        == '.') by {
        if x[i] == '.' && x[i + 1] == '.' {
            assert(x.subrange(i, i + 2) =~= ".."@);
            assert(occurs_at(x, ".."@, i));
        }
    }
}

// ---------------------------------------------------------------------------
// Patch text
// ---------------------------------------------------------------------------

/// The text of an optional string, or `default` when there is none.
pub open spec fn text_or(o: Option<Seq<char>>, default: Seq<char>) -> Seq<char> {
    match o {
        Some(t) => t,
        None => default,
    }
}

/// The subject of a commit message: its first line, or `default` when the
/// message is missing or has no line.
pub open spec fn subject_of(message: Option<Seq<char>>, default: Seq<char>) -> Seq<char> {
    match message {
        Some(m) => if lines(m).len() > 0 {
            lines(m)[0]
        } else {
            default
        },
        None => default,
    }
}

/// The bracketed subject prefix: `[P n/t]` in a series of more than one
/// patch, else `[P]`.
pub open spec fn subject_tag(prefix: Seq<char>, number: nat, total: nat) -> Seq<char> {
    if total > 1 {
        "["@ + prefix + " "@ + decimal(number) + "/"@ + decimal(total) + "]"@
    } else {
        "["@ + prefix + "]"@
    }
}

/// The non-blank lines of `ls`, each followed by a newline.
pub open spec fn nonblank_lines(ls: Seq<Seq<char>>) -> Seq<char>
    decreases ls.len(),
{
    if ls.len() == 0 {
        seq![]
    } else {
        nonblank_lines(ls.drop_last()) + if is_blank(ls.last()) {
            seq![]
        } else {
            ls.last() + "\n"@
        }
    }
}

/// The body of a patch mail: the message lines after the subject, blank
/// lines left out.
pub open spec fn body_of(message: Option<Seq<char>>) -> Seq<char> {
    match message {
        Some(m) => if lines(m).len() > 1 {
            nonblank_lines(lines(m).skip(1))
        } else {
            seq![]
        },
        None => seq![],
    }
}

/// The name and address on the sign-off line: the ones given, else the
/// commit author's, else placeholders.
pub open spec fn sign_off_line(
    commit: CommitInfo,
    author: Option<Seq<char>>,
    email: Option<Seq<char>>,
) -> Seq<char> {
    let name = match author {
        Some(a) => a,
        None => text_or(opt_view(commit.author_name), "Unknown"@),
    };
    let address = match email {
        Some(e) => e,
        None => text_or(opt_view(commit.author_email), "unknown@example.com"@),
    };
    "Signed-off-by: "@ + name + " <"@ + address + ">\n"@
}

/// The header lines of a patch mail, up to and including the blank line
/// after the subject.
pub open spec fn patch_header(
    commit: CommitInfo,
    date: Seq<char>,
    prefix: Seq<char>,
    number: nat,
    total: nat,
) -> Seq<char> {
    "From "@ + commit.id@ + " Mon Sep 17 00:00:00 2001\n"@ + "From: "@ + text_or(
        opt_view(commit.author_name),
        "Unknown"@,
    ) + " <"@ + text_or(opt_view(commit.author_email), "unknown@example.com"@) + ">\n"@
        + "Date: "@ + date + "\n"@ + "Subject: "@ + subject_tag(prefix, number, total) + " "@
        + subject_of(opt_view(commit.message), "No subject"@) + "\n\n"@
}

/// The whole patch mail for a commit, its date text and its diff text.
pub open spec fn patch_text(
    commit: CommitInfo,
    date: Seq<char>,
    diff: Seq<char>,
    prefix: Seq<char>,
    number: nat,
    total: nat,
    author: Option<Seq<char>>,
    email: Option<Seq<char>>,
    include_signoff: bool,
) -> Seq<char> {
    patch_header(commit, date, prefix, number, total) + body_of(opt_view(commit.message))
        + "---\n"@ + diff + "\n"@ + if include_signoff {
        sign_off_line(commit, author, email)
    } else {
        seq![]
    }
}

/// The first line of an optional message, or `default`.
fn subject_string(message: &Option<String>, default: &str) -> (s: String)
    ensures
        s@ == subject_of(opt_view(*message), default@),
{
    match message {
        Some(m) => {
            let ls = split_lines(&chars_of(m.as_str()));
            if ls.len() > 0 {
                assert(char_views(ls@)[0] == ls@[0]@);
                crate::text::string_of(&ls[0])
            } else {
                String::from_str(default)
            }
        },
        None => String::from_str(default),
    }
}

/// Appends the text of an optional string, or `default`.
fn push_text_or(out: &mut String, o: &Option<String>, default: &str)
    ensures
        final(out)@ == old(out)@ + text_or(opt_view(*o), default@),
{
    match o {
        Some(t) => out.append(t.as_str()),
        None => out.append(default),
    }
}

/// Appends the mail body: the message lines after the subject, blank lines left out.
fn push_body(out: &mut String, message: &Option<String>)
    ensures
        final(out)@ == old(out)@ + body_of(opt_view(*message)),
{
    if let Some(m) = message {
        let ls = split_lines(&chars_of(m.as_str()));
        if ls.len() > 1 {
            let ghost tail = char_views(ls@).skip(1);
            let mut i: usize = 1;
            while i < ls.len()
                invariant
                    1 <= i <= ls.len(),
                    tail == char_views(ls@).skip(1),
                    out@ == old(out)@ + nonblank_lines(tail.take(i - 1)),
                decreases ls.len() - i,
            {
                assert(tail.take(i as int).drop_last() =~= tail.take(i - 1));
                assert(tail.take(i as int).last() == ls@[i as int]@);
                if !is_blank_chars(&ls[i]) {
                    push_chars(out, &ls[i], 0, ls[i].len());
                    assert(ls@[i as int]@.subrange(0, ls@[i as int]@.len() as int) =~= ls@[i as int]@);
                    out.append("\n");
                }
                i = i + 1;
            }
            assert(tail.take(ls.len() - 1) =~= tail);
        } else {
            assert(old(out)@ + seq![] =~= old(out)@);
        }
    } else {
        assert(old(out)@ + seq![] =~= old(out)@);
    }
}

/// Composes the patch mail for a commit, given the text of its date and of
/// its diff: `From` line, author, date, subject with its `[prefix n/t]` tag,
/// the message body without blank lines, `---`, the diff and, when asked, a
/// `Signed-off-by` line.
pub fn compose_patch(
    commit: &CommitInfo,
    date: &str,
    diff: &str,
    prefix: &str,
    number: usize,
    total: usize,
    author: &Option<String>,
    email: &Option<String>,
    include_signoff: bool,
) -> (patch: String)
    ensures
        patch@ == patch_text(
            *commit,
            date@,
            diff@,
            prefix@,
            number as nat,
            total as nat,
            opt_view(*author),
            opt_view(*email),
            include_signoff,
        ),
{
    let mut patch = String::from_str("From ");
    patch.append(commit.id.as_str());
    patch.append(" Mon Sep 17 00:00:00 2001\n");
    patch.append("From: ");
    push_text_or(&mut patch, &commit.author_name, "Unknown");
    patch.append(" <");
    push_text_or(&mut patch, &commit.author_email, "unknown@example.com");
    patch.append(">\n");
    patch.append("Date: ");
    patch.append(date);
    patch.append("\n");
    patch.append("Subject: ");
    patch.append("[");
    patch.append(prefix);
    if total > 1 {
        patch.append(" ");
        push_decimal(&mut patch, number as u128);
        patch.append("/");
        push_decimal(&mut patch, total as u128);
    }
    patch.append("]");
    patch.append(" ");
    let subject = subject_string(&commit.message, "No subject");
    patch.append(subject.as_str());
    patch.append("\n\n");
    assert(patch@ =~= patch_header(*commit, date@, prefix@, number as nat, total as nat));
    push_body(&mut patch, &commit.message);
    patch.append("---\n");
    patch.append(diff);
    patch.append("\n");
    if include_signoff {
        let ghost before = patch@;
        patch.append("Signed-off-by: ");
        match author {
            Some(a) => patch.append(a.as_str()),
            None => push_text_or(&mut patch, &commit.author_name, "Unknown"),
        }
        patch.append(" <");
        match email {
            Some(e) => patch.append(e.as_str()),
            None => push_text_or(&mut patch, &commit.author_email, "unknown@example.com"),
        }
        patch.append(">\n");
        assert(patch@ =~= before + sign_off_line(*commit, opt_view(*author), opt_view(*email)));
    }
    proof {
        let p = patch_text(
            *commit,
            date@,
            diff@,
            prefix@,
            number as nat,
            total as nat,
            opt_view(*author),
            opt_view(*email),
            include_signoff,
        );
        assert(patch@ =~= p);
    }
    patch
}

/// The layout of the `Date:` header, in chrono's `strftime` syntax.
pub open spec fn mail_date_layout() -> Seq<char> {
    "%a, %d %b %Y %H:%M:%S %z"@
}

/// Name for the text chrono gives for the UTC time `secs` seconds after the
/// Unix epoch, formatted with the `strftime` layout `layout`; `None` when
/// `DateTime::from_timestamp` has no date for `secs`.
pub uninterp spec fn utc_date_text(secs: i64, layout: Seq<char>) -> Option<Seq<char>>;

/// chrono's `DateTime::<Utc>::from_timestamp(secs, 0)`, then
/// `DateTime::format(layout)` as text.
/// Trusted: the contract claims only that the result is the text named by
/// `utc_date_text` for these arguments, absent exactly when that name is.
/// chrono panics when it displays a malformed layout; which layouts are well
/// formed is not stated here, so the layout is held to the one this library uses.
#[verifier::external_body]
fn format_utc_timestamp(secs: i64, layout: &str) -> (r: Option<String>)
    requires
        layout@ == mail_date_layout(),
    ensures
        r is None <==> utc_date_text(secs, layout@) is None,
        r matches Some(t) ==> utc_date_text(secs, layout@) == Some(t@),
{
    match chrono::DateTime::<chrono::Utc>::from_timestamp(secs, 0) {
        Some(dt) => Some(dt.format(layout).to_string()),
        None => None,
    }
}

/// chrono's `Utc::now()`, formatted with `DateTime::format(layout)` as text.
/// Trusted: the contract claims only that the result is the text that
/// `utc_date_text` names for some whole second: the layout shows no fraction
/// of a second, so the current time formats as its whole second does. Which
/// second it is depends on the clock and is not stated. The layout is held to
/// the one this library uses, as above.
#[verifier::external_body]
fn format_utc_now(layout: &str) -> (r: String)
    requires
        layout@ == mail_date_layout(),
    ensures
        exists|s: i64| #[trigger] utc_date_text(s, layout@) == Some(r@),
{
    chrono::Utc::now().format(layout).to_string()
}

/// Generates the patch mail for a commit and the lines of its diff. The date
/// is the commit time in UTC; for a time chrono cannot represent, the current
/// time is used instead. Either way the date is chrono's text for some whole
/// second.
pub fn generate_patch(
    commit: &CommitInfo,
    diff: &Vec<DiffLine>,
    prefix: &str,
    number: usize,
    total: usize,
    author: &Option<String>,
    email: &Option<String>,
    include_signoff: bool,
) -> (patch: String)
    ensures
        utc_date_text(commit.time_seconds, mail_date_layout()) matches Some(d) ==> patch@ == patch_text(
            *commit,
            d,
            rendered_diff(diff@),
            prefix@,
            number as nat,
            total as nat,
            opt_view(*author),
            opt_view(*email),
            include_signoff,
        ),
        exists|s: i64, d: Seq<char>|
            #![trigger utc_date_text(s, mail_date_layout()), patch_text(*commit, d, rendered_diff(diff@), prefix@, number as nat, total as nat, opt_view(*author), opt_view(*email), include_signoff)]
            utc_date_text(s, mail_date_layout()) == Some(d) && patch@ == patch_text(
                *commit,
                d,
                rendered_diff(diff@),
                prefix@,
                number as nat,
                total as nat,
                opt_view(*author),
                opt_view(*email),
                include_signoff,
            ),
{
    let layout = "%a, %d %b %Y %H:%M:%S %z";
    let ghost mut secs: i64 = commit.time_seconds;
    let date = match format_utc_timestamp(commit.time_seconds, layout) {
        Some(d) => d,
        None => {
            let d = format_utc_now(layout);
            proof {
                secs = choose|s: i64| #[trigger] utc_date_text(s, layout@) == Some(d@);
            }
            d
        },
    };
    assert(utc_date_text(secs, mail_date_layout()) == Some(date@));
    let diff_text = render_diff(diff);
    let patch = compose_patch(
        commit,
        date.as_str(),
        diff_text.as_str(),
        prefix,
        number,
        total,
        author,
        email,
        include_signoff,
    );
    assert(patch@ == patch_text(
        *commit,
        date@,
        rendered_diff(diff@),
        prefix@,
        number as nat,
        total as nat,
        opt_view(*author),
        opt_view(*email),
        include_signoff,
    ));
    patch
}

/// Law: a generated patch passes the header, diff and sign-off checks of the
/// validator. Whatever the commit, date, diff and prefix, the `From:` and
/// `Subject:` headers and the diff marker are present; when the patch carries
/// a sign-off (or none is required) the only error that can remain is a
/// sign-off line that the sign-off pattern does not match.
pub proof fn lemma_generated_patch_passes_checks(
    commit: CommitInfo,
    date: Seq<char>,
    diff: Seq<char>,
    prefix: Seq<char>,
    number: nat,
    total: nat,
    author: Option<Seq<char>>,
    email: Option<Seq<char>>,
    include_signoff: bool,
    require_sign_off: bool,
    sign_off_format_ok: bool,
)
    requires
        include_signoff || !require_sign_off,
    ensures
        ({
            let p = patch_text(
                commit,
                date,
                diff,
                prefix,
                number,
                total,
                author,
                email,
                include_signoff,
            );
            patch_text_errors(require_sign_off, p, sign_off_format_ok) == if require_sign_off
                && !sign_off_format_ok {
                seq!["Invalid Signed-off-by format"@]
            } else {
                Seq::<Seq<char>>::empty()
            }
        }),
{
    let p = patch_text(commit, date, diff, prefix, number, total, author, email, include_signoff);
    let h = patch_header(commit, date, prefix, number, total);
    let body = body_of(opt_view(commit.message));
    let tail = if include_signoff {
        sign_off_line(commit, author, email)
    } else {
        seq![]
    };
    lemma_header_fields(commit, date, prefix, number, total);
    reveal_strlit("---\n");
    reveal_strlit("---");
    reveal_strlit("From:");
    reveal_strlit("Subject:");
    reveal_strlit("Signed-off-by:");
    crate::text::lemma_contains_self("---\n"@);
    let p1 = h + body;
    let p2 = p1 + "---\n"@;
    let p3 = p2 + diff;
    let p4 = p3 + "\n"@;
    assert(p == p4 + tail);
    crate::text::lemma_contains_left(h, body, "From:"@);
    crate::text::lemma_contains_left(p1, "---\n"@, "From:"@);
    crate::text::lemma_contains_left(p2, diff, "From:"@);
    crate::text::lemma_contains_left(p3, "\n"@, "From:"@);
    crate::text::lemma_contains_left(p4, tail, "From:"@);
    crate::text::lemma_contains_left(h, body, "Subject:"@);
    crate::text::lemma_contains_left(p1, "---\n"@, "Subject:"@);
    crate::text::lemma_contains_left(p2, diff, "Subject:"@);
    crate::text::lemma_contains_left(p3, "\n"@, "Subject:"@);
    crate::text::lemma_contains_left(p4, tail, "Subject:"@);
    crate::text::lemma_contains_right(p1, "---\n"@, "---\n"@);
    crate::text::lemma_contains_left(p2, diff, "---\n"@);
    crate::text::lemma_contains_left(p3, "\n"@, "---\n"@);
    crate::text::lemma_contains_left(p4, tail, "---\n"@);
    assert("---\n"@.subrange(0, 3) =~= "---"@);
    crate::text::lemma_contains_prefix_of_pattern(p, "---\n"@, "---"@);
    assert(has_diff(p));
    if include_signoff {
        lemma_sign_off_field(commit, author, email);
        crate::text::lemma_contains_right(p4, tail, "Signed-off-by:"@);
    }
    assert(patch_text_errors(require_sign_off, p, sign_off_format_ok) =~= if require_sign_off
        && !sign_off_format_ok {
        seq!["Invalid Signed-off-by format"@]
    } else {
        Seq::<Seq<char>>::empty()
    });
}

/// The header holds the `From:` and `Subject:` fields.
proof fn lemma_header_fields(
    commit: CommitInfo,
    date: Seq<char>,
    prefix: Seq<char>,
    number: nat,
    total: nat,
)
    ensures
        contains(patch_header(commit, date, prefix, number, total), "From:"@),
        contains(patch_header(commit, date, prefix, number, total), "Subject:"@),
{
    broadcast use crate::text::lemma_contains_left, crate::text::lemma_contains_right;

    reveal_strlit("From: ");
    reveal_strlit("From:");
    reveal_strlit("Subject: ");
    reveal_strlit("Subject:");
    crate::text::lemma_contains_self("From: "@);
    crate::text::lemma_contains_self("Subject: "@);
    let h = patch_header(commit, date, prefix, number, total);
    assert(contains(h, "From: "@));
    assert(contains(h, "Subject: "@));
    assert("From: "@.subrange(0, 5) =~= "From:"@);
    assert("Subject: "@.subrange(0, 8) =~= "Subject:"@);
    crate::text::lemma_contains_prefix_of_pattern(h, "From: "@, "From:"@);
    crate::text::lemma_contains_prefix_of_pattern(h, "Subject: "@, "Subject:"@);
}

/// The sign-off line holds the `Signed-off-by:` field.
proof fn lemma_sign_off_field(commit: CommitInfo, author: Option<Seq<char>>, email: Option<Seq<char>>)
    ensures
        contains(sign_off_line(commit, author, email), "Signed-off-by:"@),
{
    broadcast use crate::text::lemma_contains_left, crate::text::lemma_contains_right;

    reveal_strlit("Signed-off-by: ");
    reveal_strlit("Signed-off-by:");
    crate::text::lemma_contains_self("Signed-off-by: "@);
    let l = sign_off_line(commit, author, email);
    assert(contains(l, "Signed-off-by: "@));
    assert("Signed-off-by: "@.subrange(0, 14) =~= "Signed-off-by:"@);
    crate::text::lemma_contains_prefix_of_pattern(l, "Signed-off-by: "@, "Signed-off-by:"@);
}

// ---------------------------------------------------------------------------
// Cover letter
// ---------------------------------------------------------------------------

/// The numbered list `"k. subject\n"` of the commits, from `k = 1`.
pub open spec fn change_list(commits: Seq<CommitInfo>) -> Seq<char>
    decreases commits.len(),
{
    if commits.len() == 0 {
        seq![]
    } else {
        change_list(commits.drop_last()) + decimal(commits.len()) + ". "@ + subject_of(
            opt_view(commits.last().message),
            "No subject"@,
        ) + "\n"@
    }
}

/// The cover letter of a series.
pub open spec fn cover_letter(prefix: Seq<char>, total: nat, commits: Seq<CommitInfo>) -> Seq<
    char,
> {
    "Subject: ["@ + prefix + " 0/"@ + decimal(total) + "] Cover letter\n\n"@
        + "This patch series includes the following changes:\n\n"@ + change_list(commits)
        + "\n---\n"@ + "\n"@
}

/// The text of the cover letter of a series: its subject with `[prefix 0/total]`
/// and the numbered subjects of the commits.
pub fn cover_letter_text(prefix: &str, total: usize, commits: &Vec<CommitInfo>) -> (r: String)
    ensures
        r@ == cover_letter(prefix@, total as nat, commits@),
{
    let mut cover = String::from_str("Subject: [");
    cover.append(prefix);
    cover.append(" 0/");
    push_decimal(&mut cover, total as u128);
    cover.append("] Cover letter\n\n");
    cover.append("This patch series includes the following changes:\n\n");
    let ghost head = cover@;
    let mut idx: usize = 0;
    while idx < commits.len()
        invariant
            idx <= commits.len(),
            cover@ == head + change_list(commits@.take(idx as int)),
        decreases commits.len() - idx,
    {
        assert(commits@.take(idx + 1).drop_last() =~= commits@.take(idx as int));
        let ghost before = cover@;
        push_decimal(&mut cover, (idx + 1) as u128);
        cover.append(". ");
        let subject = subject_string(&commits[idx].message, "No subject");
        cover.append(subject.as_str());
        cover.append("\n");
        assert(cover@ =~= before + (decimal((idx + 1) as nat) + ". "@ + subject@ + "\n"@));
        idx = idx + 1;
    }
    assert(commits@.take(commits.len() as int) =~= commits@);
    cover.append("\n---\n");
    cover.append("\n");
    assert(cover@ =~= cover_letter(prefix@, total as nat, commits@));
    cover
}

// ---------------------------------------------------------------------------
// File names
// ---------------------------------------------------------------------------

/// The text after the first `": "` of `s`, if there is one.
pub open spec fn after_subsystem(s: Seq<char>) -> Option<Seq<char>>
    decreases s.len(),
{
    if s.len() < 2 {
        None
    } else if s[0] == ':' && s[1] == ' ' {
        Some(s.skip(2))
    } else {
        after_subsystem(s.drop_first())
    }
}

/// The part of a subject that names a patch file: what follows the
/// `subsystem: ` tag, or the whole subject when it has none.
pub open spec fn file_subject(subject: Seq<char>) -> Seq<char> {
    match after_subsystem(subject) {
        Some(rest) => rest,
        None => subject,
    }
}

/// `s` without leading `-`.
pub open spec fn trim_leading_dashes(s: Seq<char>) -> Seq<char>
    decreases s.len(),
{
    if s.len() > 0 && s[0] == '-' {
        trim_leading_dashes(s.drop_first())
    } else {
        s
    }
}

/// `s` without trailing `-`.
pub open spec fn trim_trailing_dashes(s: Seq<char>) -> Seq<char>
    decreases s.len(),
{
    if s.len() > 0 && s.last() == '-' {
        trim_trailing_dashes(s.drop_last())
    } else {
        s
    }
}

/// `s` without leading or trailing `-` (`trim_matches('-')`).
pub open spec fn trim_dashes(s: Seq<char>) -> Seq<char> {
    trim_trailing_dashes(trim_leading_dashes(s))
}

/// Some prefix of `t` is exactly `n` bytes long.
pub open spec fn is_byte_boundary(t: Seq<char>, n: nat) -> bool {
    exists|k: int| 0 <= k <= t.len() && byte_len(#[trigger] t.take(k)) == n
}

/// `t` cut to at most 50 bytes, or `None` when byte 50 falls inside a character.
pub open spec fn cut_to_50_bytes(t: Seq<char>) -> Option<Seq<char>> {
    if byte_len(t) <= 50 {
        Some(t)
    } else if is_byte_boundary(t, 50) {
        Some(t.take(choose|k: int| 0 <= k <= t.len() && byte_len(#[trigger] t.take(k)) == 50))
    } else {
        None
    }
}

/// The stem of a patch file name for a commit message.
pub open spec fn file_stem(message: Option<Seq<char>>) -> Option<Seq<char>> {
    cut_to_50_bytes(trim_dashes(sanitized(file_subject(subject_of(message, "patch"@)))))
}

/// The file name of a patch: `NNNN-stem.patch` in a series of more than
/// one patch, else `stem.patch`.
pub open spec fn patch_file_name(stem: Seq<char>, number: nat, total: nat) -> Seq<char> {
    if total > 1 {
        zero_padded(decimal(number), 4) + "-"@ + stem + ".patch"@
    } else {
        stem + ".patch"@
    }
}

/// Trimming leading dashes keeps the characters of a suffix and leaves none in front.
proof fn lemma_trim_leading(s: Seq<char>)
    ensures
        exists|k: int| 0 <= k <= s.len() && trim_leading_dashes(s) == s.skip(k),
        trim_leading_dashes(s).len() > 0 ==> trim_leading_dashes(s)[0] != '-',
    decreases s.len(),
{
    if s.len() > 0 && s[0] == '-' {
        lemma_trim_leading(s.drop_first());
        let k = choose|k: int|
            0 <= k <= s.drop_first().len() && trim_leading_dashes(s.drop_first())
                == s.drop_first().skip(k);
        assert(s.drop_first().skip(k) =~= s.skip(k + 1));
    } else {
        assert(s.skip(0) =~= s);
    }
}

/// Trimming trailing dashes keeps a prefix.
proof fn lemma_trim_trailing(s: Seq<char>)
    ensures
        exists|k: int| 0 <= k <= s.len() && trim_trailing_dashes(s) == s.take(k),
    decreases s.len(),
{
    if s.len() > 0 && s.last() == '-' {
        lemma_trim_trailing(s.drop_last());
        let k = choose|k: int|
            0 <= k <= s.drop_last().len() && trim_trailing_dashes(s.drop_last())
                == s.drop_last().take(k);
        assert(s.drop_last().take(k) =~= s.take(k));
    } else {
        assert(s.take(s.len() as int) =~= s);
    }
}

/// Law: a patch file stem is made only of characters that sanitising keeps
/// (alphanumerics, `.`, `_`, `-`, `/`) and does not begin with `-`.
pub proof fn lemma_file_stem_characters(message: Option<Seq<char>>)
    ensures
        file_stem(message) matches Some(st) ==> {
            &&& forall|i: int| 0 <= i < st.len() ==> is_kept_char(#[trigger] st[i])
            &&& st.len() > 0 ==> st[0] != '-'
        },
{
    let san = sanitized(file_subject(subject_of(message, "patch"@)));
    lemma_sanitize_idempotent(file_subject(subject_of(message, "patch"@)));
    lemma_trim_leading(san);
    let lead = trim_leading_dashes(san);
    let k1 = choose|k: int| 0 <= k <= san.len() && lead == san.skip(k);
    lemma_trim_trailing(lead);
    let t = trim_dashes(san);
    let k2 = choose|k: int| 0 <= k <= lead.len() && t == lead.take(k);
    assert forall|i: int| 0 <= i < t.len() implies is_kept_char(#[trigger] t[i]) by {
        assert(t[i] == san[i + k1]);
    }
    if t.len() > 0 {
        assert(t[0] == lead[0]);
    }
    if file_stem(message) is Some && byte_len(t) > 50 {
        let c = choose|k: int| 0 <= k <= t.len() && byte_len(#[trigger] t.take(k)) == 50;
        let st = t.take(c);
        assert forall|i: int| 0 <= i < st.len() implies is_kept_char(#[trigger] st[i]) by {
            assert(st[i] == t[i]);
        }
        if st.len() > 0 {
            assert(st[0] == t[0]);
        }
    }
}

/// The byte length of a prefix grows by the width of the next character.
proof fn lemma_byte_len_take_step(t: Seq<char>, i: int)
    requires
        0 <= i < t.len(),
    ensures
        byte_len(t.take(i + 1)) == byte_len(t.take(i)) + utf8_width(t[i]),
{
    assert(t.take(i + 1) =~= t.take(i) + seq![t[i]]);
    lemma_byte_len_concat(t.take(i), seq![t[i]]);
    assert(seq![t[i]].drop_first() =~= Seq::<char>::empty());
    assert(byte_len(Seq::<char>::empty()) == 0);
    assert(byte_len(seq![t[i]]) == utf8_width(t[i]) + byte_len(seq![t[i]].drop_first()));
}

/// Longer prefixes have more bytes.
proof fn lemma_byte_len_take_strict(t: Seq<char>, i: int, j: int)
    requires
        0 <= i < j <= t.len(),
    ensures
        byte_len(t.take(i)) < byte_len(t.take(j)),
    decreases j - i,
{
    lemma_byte_len_take_step(t, j - 1);
    if i < j - 1 {
        lemma_byte_len_take_strict(t, i, j - 1);
    }
}

/// Where the prefix of `t` that is exactly `n` bytes long ends, if there is one.
fn byte_boundary(t: &Vec<char>, n: u128) -> (r: Option<usize>)
    ensures
        r matches Some(k) ==> k <= t.len() && byte_len(t@.take(k as int)) == n,
        r is None ==> !is_byte_boundary(t@, n as nat),
{
    let mut acc: u128 = 0;
    let mut i: usize = 0;
    assert(t@.take(0) =~= Seq::<char>::empty());
    while i < t.len() && acc < n
        invariant
            i <= t.len(),
            acc == byte_len(t@.take(i as int)),
            acc <= 4 * i,
            forall|k: int| 0 <= k < i ==> byte_len(#[trigger] t@.take(k)) < n,
        decreases t.len() - i,
    {
        proof {
            lemma_byte_len_take_step(t@, i as int);
        }
        acc = acc + utf8_width_of(t[i]);
        i = i + 1;
    }
    if acc == n {
        Some(i)
    } else {
        assert forall|k: int| 0 <= k <= t.len() implies byte_len(#[trigger] t@.take(k)) != n by {
            if k > i {
                lemma_byte_len_take_strict(t@, i as int, k);
            }
        }
        None
    }
}

/// The text after the first `": "` of `v`, or all of `v`.
fn file_subject_chars(v: &Vec<char>) -> (r: Vec<char>)
    ensures
        r@ == file_subject(v@),
{
    let pat = chars_of(": ");
    proof {
        reveal_strlit(": ");
    }
    assert(pat@.len() == 2);
    match crate::text::find_from(v, &pat, 0) {
        Some(i) => {
            assert(i + 2 <= v.len());
            proof {
                lemma_after_subsystem_found(v@, i as int);
            }
            tail_chars(v, i + 2)
        },
        None => {
            proof {
                lemma_after_subsystem_absent(v@);
            }
            tail_chars(v, 0)
        },
    }
}

proof fn lemma_after_subsystem_found(s: Seq<char>, i: int)
    requires
        occurs_at(s, ": "@, i),
        forall|j: int| 0 <= j < i ==> !occurs_at(s, ": "@, j),
    ensures
        after_subsystem(s) == Some(s.skip(i + 2)),
    decreases i,
{
    reveal_strlit(": ");
    assert(s.subrange(i, i + 2)[0] == ':' && s.subrange(i, i + 2)[1] == ' ');
    if i > 0 {
        assert(!occurs_at(s, ": "@, 0));
        if s[0] == ':' && s[1] == ' ' {
            assert(s.subrange(0, 2) =~= ": "@);
        }
        assert forall|j: int| 0 <= j < i - 1 implies !occurs_at(s.drop_first(), ": "@, j) by {
            if occurs_at(s.drop_first(), ": "@, j) {
                assert(s.subrange(j + 1, j + 3) =~= s.drop_first().subrange(j, j + 2));
                assert(occurs_at(s, ": "@, j + 1));
            }
        }
        assert(s.drop_first().subrange(i - 1, i + 1) =~= s.subrange(i, i + 2));
        lemma_after_subsystem_found(s.drop_first(), i - 1);
        assert(s.drop_first().skip(i + 1) =~= s.skip(i + 2));
    }
}

proof fn lemma_after_subsystem_absent(s: Seq<char>)
    requires
        forall|j: int| 0 <= j ==> !occurs_at(s, ": "@, j),
    ensures
        after_subsystem(s) is None,
    decreases s.len(),
{
    reveal_strlit(": ");
    if s.len() >= 2 {
        assert(!occurs_at(s, ": "@, 0));
        if s[0] == ':' && s[1] == ' ' {
            assert(s.subrange(0, 2) =~= ": "@);
        }
        assert forall|j: int| 0 <= j implies !occurs_at(s.drop_first(), ": "@, j) by {
            if occurs_at(s.drop_first(), ": "@, j) {
                assert(s.subrange(j + 1, j + 3) =~= s.drop_first().subrange(j, j + 2));
                assert(occurs_at(s, ": "@, j + 1));
            }
        }
        lemma_after_subsystem_absent(s.drop_first());
    }
}

/// `v` without leading or trailing `-`.
fn trim_dashes_chars(v: &Vec<char>) -> (r: Vec<char>)
    ensures
        r@ == trim_dashes(v@),
{
    let mut i: usize = 0;
    assert(v@.skip(0) =~= v@);
    while i < v.len() && v[i] == '-'
        invariant
            i <= v.len(),
            trim_leading_dashes(v@) == trim_leading_dashes(v@.skip(i as int)),
        decreases v.len() - i,
    {
        assert(v@.skip(i as int).drop_first() =~= v@.skip(i + 1));
        i = i + 1;
    }
    let lead = tail_chars(v, i);
    let mut j = lead.len();
    assert(lead@.take(j as int) =~= lead@);
    while j > 0 && lead[j - 1] == '-'
        invariant
            j <= lead.len(),
            trim_trailing_dashes(lead@) == trim_trailing_dashes(lead@.take(j as int)),
        decreases j,
    {
        assert(lead@.take(j as int).drop_last() =~= lead@.take(j - 1));
        j = j - 1;
    }
    head_chars(&lead, j)
}

/// The stem of the patch file name, before it is cut to 50 bytes.
fn uncut_stem(message: &Option<String>) -> (r: Vec<char>)
    ensures
        r@ == trim_dashes(sanitized(file_subject(subject_of(opt_view(*message), "patch"@)))),
{
    let subject = subject_string(message, "patch");
    let named = file_subject_chars(&chars_of(subject.as_str()));
    let clean = fast_sanitize_string(string_of(&named).as_str());
    trim_dashes_chars(&chars_of(clean.as_str()))
}

/// The file name of a commit's patch: the commit subject after its
/// `subsystem: ` tag, sanitised, stripped of `-` at both ends and cut to 50
/// bytes, then `.patch`; numbered `NNNN-` in a series of more than one patch.
pub fn generate_patch_filename(commit: &CommitInfo, number: usize, total: usize) -> (r: String)
    requires
        file_stem(opt_view(commit.message)) is Some,
    ensures
        r@ == patch_file_name(file_stem(opt_view(commit.message))->Some_0, number as nat, total as nat),
{
    let t = uncut_stem(&commit.message);
    let len = byte_len_of(&t);
    let stem = if len > 50 {
        match byte_boundary(&t, 50) {
            Some(k) => {
                proof {
                    let c = choose|k: int| 0 <= k <= t@.len() && byte_len(#[trigger] t@.take(k)) == 50;
                    if c < k {
                        lemma_byte_len_take_strict(t@, c, k as int);
                    } else if k < c {
                        lemma_byte_len_take_strict(t@, k as int, c);
                    }
                }
                head_chars(&t, k)
            },
            None => t,
        }
    } else {
        t
    };
    let mut name = String::new();
    if total > 1 {
        crate::text::push_decimal_padded4(&mut name, number as u128);
        name.append("-");
    }
    push_chars(&mut name, &stem, 0, stem.len());
    assert(stem@.subrange(0, stem@.len() as int) =~= stem@);
    name.append(".patch");
    name
}

/// The name of the file a patch is written to: a given name (numbered
/// `NNNN-` in a series of more than one patch), else the name derived from
/// the commit subject. `None` exactly when the derived name would cut the
/// subject inside a character.
pub fn output_file_name(
    custom: &Option<String>,
    commit: &CommitInfo,
    number: usize,
    total: usize,
) -> (r: Option<String>)
    ensures
        custom matches Some(c) ==> r matches Some(n) && n@ == (if total > 1 {
            zero_padded(decimal(number as nat), 4) + "-"@ + c@
        } else {
            c@
        }),
        custom is None ==> match file_stem(opt_view(commit.message)) {
            Some(stem) => r matches Some(n) && n@ == patch_file_name(
                stem,
                number as nat,
                total as nat,
            ),
            None => r is None,
        },
{
    match custom {
        Some(c) => {
            let mut name = String::new();
            if total > 1 {
                crate::text::push_decimal_padded4(&mut name, number as u128);
                name.append("-");
            }
            name.append(c.as_str());
            Some(name)
        },
        None => {
            let t = uncut_stem(&commit.message);
            if byte_len_of(&t) > 50 {
                if byte_boundary(&t, 50).is_none() {
                    return None;
                }
            }
            Some(generate_patch_filename(commit, number, total))
        },
    }
}

} // verus!
