//! Laws of the patch and commit checks, stated by the lines of the text.

use vstd::prelude::*;
use crate::text::{contains, decimal, is_white_space, lines, starts_with};
use crate::validation::{
    commit_warnings, diff_content_warnings, patch_text_warnings, tab_warnings,
    trailing_space_warnings,
};

verus! {

/// `x` in `a` stays in `a + b` and in `b + a`.
proof fn lemma_seq_contains_concat(a: Seq<Seq<char>>, b: Seq<Seq<char>>, x: Seq<char>)
    requires
        a.contains(x),
    ensures
        (a + b).contains(x),
        (b + a).contains(x),
{
    let i = choose|i: int| 0 <= i < a.len() && a[i] == x;
    assert((a + b)[i] == x);
    assert((b + a)[b.len() + i] == x);
}

/// The trailing-space warnings of the lines `ls` hold one for line `n`
/// (counted from 0) when it ends in white space.
proof fn lemma_trailing_warning_for_line(ls: Seq<Seq<char>>, n: int)
    requires
        0 <= n < ls.len(),
        ls[n].len() > 0,
        is_white_space(ls[n].last()),
    ensures
        trailing_space_warnings(ls).contains("Line "@ + decimal((n + 1) as nat) + " has trailing whitespace"@),
    decreases ls.len(),
{
    let m = "Line "@ + decimal((n + 1) as nat) + " has trailing whitespace"@;
    let prev = trailing_space_warnings(ls.drop_last());
    if n == ls.len() - 1 {
        assert(trailing_space_warnings(ls) == prev.push(m));
        assert(prev.push(m)[prev.len() as int] == m);
    } else {
        assert(ls.drop_last()[n] == ls[n]);
        lemma_trailing_warning_for_line(ls.drop_last(), n);
        let j = choose|j: int| 0 <= j < prev.len() && prev[j] == m;
        if trailing_space_warnings(ls) != prev {
            assert(trailing_space_warnings(ls)[j] == m);
        }
    }
}

/// Law: with the trailing-white-space check on, every line of a patch text
/// whose last character is white space is reported as
/// `Line N has trailing whitespace` (N its number, counted from 1), whatever
/// the line begins with: diff lines (`+`, `-`, ` `, headers) included.
pub proof fn lemma_trailing_space_reported(
    check_line_length: bool,
    max_line_length: nat,
    content: Seq<char>,
    n: int,
)
    requires
        0 <= n < lines(content).len(),
        lines(content)[n].len() > 0,
        is_white_space(lines(content)[n].last()),
    ensures
        patch_text_warnings(check_line_length, max_line_length, true, content).contains(
            "Line "@ + decimal((n + 1) as nat) + " has trailing whitespace"@,
        ),
{
    let m = "Line "@ + decimal((n + 1) as nat) + " has trailing whitespace"@;
    let ws = patch_text_warnings(check_line_length, max_line_length, true, content);
    lemma_trailing_warning_for_line(lines(content), n);
    let t = trailing_space_warnings(lines(content));
    let j = choose|j: int| 0 <= j < t.len() && t[j] == m;
    let a = if check_line_length {
        crate::validation::long_line_warnings(lines(content), max_line_length)
    } else {
        seq![]
    };
    assert(ws[a.len() + j] == m);
}

/// The subject-format warning.
pub open spec fn subject_format_warning() -> Seq<char> {
    "Subject line should follow 'subsystem: description' format"@
}

/// Law: with the commit-message check on, the subject-format warning is given
/// exactly when the first line of the message holds no `:`; what the other
/// lines hold (a `Signed-off-by:` line, say) does not matter.
pub proof fn lemma_subject_format_first_line(m: Seq<char>)
    requires
        lines(m).len() > 0,
    ensures
        commit_warnings(true, Some(m)).contains(subject_format_warning()) <==> !contains(
            lines(m)[0],
            ":"@,
        ),
{
    let ls = lines(m);
    let w = commit_warnings(true, Some(m));
    let f = subject_format_warning();
    let a: Seq<Seq<char>> = if ls[0].len() > 72 {
        seq![crate::validation::long_subject_message(ls[0].len())]
    } else {
        seq![]
    };
    let b: Seq<Seq<char>> = if !contains(ls[0], ":"@) {
        seq![f]
    } else {
        seq![]
    };
    let c: Seq<Seq<char>> = if ls.len() > 1 && !crate::text::is_blank(ls[1]) {
        seq!["Commit message should have empty line after subject"@]
    } else {
        seq![]
    };
    assert(w == a + b + c);
    reveal_strlit("Subject line should follow 'subsystem: description' format");
    reveal_strlit("Subject line is ");
    reveal_strlit("Commit message should have empty line after subject");
    if !contains(ls[0], ":"@) {
        assert(w[a.len() as int] == f);
    } else {
        assert forall|i: int| 0 <= i < w.len() implies w[i] != f by {
            if i < a.len() {
                let long = crate::validation::long_subject_message(ls[0].len());
                assert(w[i] == long);
                assert(long[13] == 'i');
                assert(f[13] == 's');
            } else {
                assert(w[i] == "Commit message should have empty line after subject"@);
                assert(w[i][0] == 'C');
                assert(f[0] == 'S');
            }
        }
    }
}

/// The subject-length warning for a subject of `n` characters.
pub open spec fn subject_length_warning(n: nat) -> Seq<char> {
    "Subject line is "@ + decimal(n) + " characters (recommended: <= 72)"@
}

/// Law: with the commit-message check on, a first line of more than 72
/// characters (characters, not bytes) is reported with its length; a shorter
/// one gets no length warning of any length.
pub proof fn lemma_subject_length_first_line(m: Seq<char>)
    requires
        lines(m).len() > 0,
    ensures
        lines(m)[0].len() > 72 ==> commit_warnings(true, Some(m)).contains(
            subject_length_warning(lines(m)[0].len()),
        ),
        lines(m)[0].len() <= 72 ==> forall|n: nat|
            !#[trigger] commit_warnings(true, Some(m)).contains(subject_length_warning(n)),
{
    let ls = lines(m);
    let w = commit_warnings(true, Some(m));
    reveal_strlit("Subject line should follow 'subsystem: description' format");
    reveal_strlit("Subject line is ");
    reveal_strlit("Commit message should have empty line after subject");
    if ls[0].len() > 72 {
        assert(w[0] == subject_length_warning(ls[0].len()));
    } else {
        assert forall|n: nat| !#[trigger] w.contains(subject_length_warning(n)) by {
            let x = subject_length_warning(n);
            assert(x[13] == 'i');
            assert(x[0] == 'S');
            assert forall|i: int| 0 <= i < w.len() implies w[i] != x by {
                if w[i] == subject_format_warning() {
                    assert(w[i][13] == 's');
                } else {
                    assert(w[i] == "Commit message should have empty line after subject"@);
                    assert(w[i][0] == 'C');
                }
            }
        }
    }
}

/// The tab-indentation warning.
pub open spec fn tab_warning() -> Seq<char> {
    "C/Rust files should use tabs for indentation, not spaces"@
}

/// An added or removed line whose code begins with four spaces.
pub open spec fn four_space_change(line: Seq<char>) -> bool {
    &&& line.len() >= 5
    &&& (line[0] == '+' || line[0] == '-')
    &&& forall|k: int| 1 <= k < 5 ==> line[k] == ' '
}

/// A warning of the rest of the lines is a warning of them all.
proof fn lemma_tab_warning_from_rest(ls: Seq<Seq<char>>, in_c: bool)
    requires
        ls.len() > 0,
        tab_warnings(
            ls.drop_first(),
            if starts_with(ls[0], "diff --git"@) {
                crate::validation::names_c_or_rust_file(ls[0])
            } else {
                in_c
            },
        ).contains(tab_warning()),
    ensures
        tab_warnings(ls, in_c).contains(tab_warning()),
{
    let now_c = if starts_with(ls[0], "diff --git"@) {
        crate::validation::names_c_or_rust_file(ls[0])
    } else {
        in_c
    };
    let head: Seq<Seq<char>> = if now_c && crate::validation::space_indented_change(ls[0]) {
        seq![tab_warning()]
    } else {
        seq![]
    };
    assert(tab_warnings(ls, in_c) == head + tab_warnings(ls.drop_first(), now_c));
    lemma_seq_contains_concat(tab_warnings(ls.drop_first(), now_c), head, tab_warning());
}

/// Inside a C or Rust file, a four-space change at `j`, with no header
/// before it, is warned about.
proof fn lemma_tab_warning_in_file(ls: Seq<Seq<char>>, j: int)
    requires
        0 <= j < ls.len(),
        forall|k: int| 0 <= k < j ==> !starts_with(#[trigger] ls[k], "diff --git"@),
        four_space_change(ls[j]),
    ensures
        tab_warnings(ls, true).contains(tab_warning()),
    decreases j,
{
    reveal_strlit("diff --git");
    reveal_strlit("+");
    reveal_strlit("-");
    reveal_strlit("    ");
    reveal_strlit("\t");
    if j == 0 {
        let line = ls[0];
        if starts_with(line, "diff --git"@) {
            assert(line.subrange(0, 10)[0] == line[0]);
            assert("diff --git"@[0] == 'd');
        }
        if line[0] == '+' {
            assert(line.subrange(0, 1) =~= "+"@);
        } else {
            assert(line.subrange(0, 1) =~= "-"@);
        }
        assert(line.drop_first().subrange(0, 4) =~= "    "@);
        assert(line.drop_first().subrange(0, 1)[0] == ' ');
        assert(!starts_with(line.drop_first(), "\t"@));
        assert(crate::validation::space_indented_change(line));
        let rest = tab_warnings(ls.drop_first(), true);
        assert(tab_warnings(ls, true) == seq![tab_warning()] + rest);
        assert(tab_warnings(ls, true)[0] == tab_warning());
    } else {
        assert forall|k: int| 0 <= k < j - 1 implies !starts_with(
            #[trigger] ls.drop_first()[k],
            "diff --git"@,
        ) by {
            assert(ls.drop_first()[k] == ls[k + 1]);
        }
        assert(ls.drop_first()[j - 1] == ls[j]);
        assert(!starts_with(ls[0], "diff --git"@));
        lemma_tab_warning_in_file(ls.drop_first(), j - 1);
        lemma_tab_warning_from_rest(ls, true);
    }
}

/// A header naming a C or Rust file at `i`, then a four-space change at `j`
/// with no header between, is warned about.
proof fn lemma_tab_warning_after_header(ls: Seq<Seq<char>>, in_c: bool, i: int, j: int)
    requires
        0 <= i < j < ls.len(),
        starts_with(ls[i], "diff --git"@),
        contains(ls[i], ".c"@) || contains(ls[i], ".h"@) || contains(ls[i], ".rs"@),
        forall|k: int| i < k < j ==> !starts_with(#[trigger] ls[k], "diff --git"@),
        four_space_change(ls[j]),
    ensures
        tab_warnings(ls, in_c).contains(tab_warning()),
    decreases i,
{
    let rest = ls.drop_first();
    if i == 0 {
        assert(crate::validation::names_c_or_rust_file(ls[0]));
        assert forall|k: int| 0 <= k < j - 1 implies !starts_with(#[trigger] rest[k], "diff --git"@) by {
            assert(rest[k] == ls[k + 1]);
        }
        assert(rest[j - 1] == ls[j]);
        lemma_tab_warning_in_file(rest, j - 1);
        lemma_tab_warning_from_rest(ls, in_c);
    } else {
        let now_c = if starts_with(ls[0], "diff --git"@) {
            crate::validation::names_c_or_rust_file(ls[0])
        } else {
            in_c
        };
        assert forall|k: int| i - 1 < k < j - 1 implies !starts_with(#[trigger] rest[k], "diff --git"@) by {
            assert(rest[k] == ls[k + 1]);
        }
        assert(rest[i - 1] == ls[i]);
        assert(rest[j - 1] == ls[j]);
        lemma_tab_warning_after_header(rest, now_c, i - 1, j - 1);
        lemma_tab_warning_from_rest(ls, in_c);
    }
}

/// Law: with the tab-indentation check on, after a `diff --git` header line
/// that names a `.c`, `.h` or `.rs` file, an added or removed line whose code
/// begins with four spaces, with no other header between them, yields the
/// tab-indentation warning.
pub proof fn lemma_space_indented_change_warned(diff: Seq<char>, i: int, j: int)
    requires
        0 <= i < j < lines(diff).len(),
        starts_with(lines(diff)[i], "diff --git"@),
        contains(lines(diff)[i], ".c"@) || contains(lines(diff)[i], ".h"@) || contains(
            lines(diff)[i],
            ".rs"@,
        ),
        forall|k: int| i < k < j ==> !starts_with(#[trigger] lines(diff)[k], "diff --git"@),
        four_space_change(lines(diff)[j]),
    ensures
        diff_content_warnings(true, diff).contains(tab_warning()),
{
    lemma_tab_warning_after_header(lines(diff), false, i, j);
}

} // verus!
