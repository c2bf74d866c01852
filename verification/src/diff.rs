//! The lines of a diff, as the repository walk hands them over, and their
//! rendering as patch text.

use vstd::prelude::*;
use vstd::utf8::{decode_utf8, valid_utf8};

verus! {

/// One line of a diff, with the file delta it belongs to.
#[derive(Debug, Clone)]
pub struct DiffLine {
    /// Path of the old file, when it is text.
    pub old_path: Option<String>,
    /// Path of the new file, when it is text.
    pub new_path: Option<String>,
    /// git reports the file delta as binary.
    pub binary: bool,
    /// The line's origin marker: `+`, `-`, ` `, `F` (file header), `H` (hunk header), ...
    pub origin: char,
    /// The line's bytes, its line ending included.
    pub content: Vec<u8>,
}

/// The text of a line: its bytes decoded as UTF-8, or nothing when they are not UTF-8.
pub open spec fn content_text(bytes: Seq<u8>) -> Seq<char> {
    if valid_utf8(bytes) {
        decode_utf8(bytes)
    } else {
        seq![]
    }
}

/// How one diff line appears in a patch.
pub open spec fn rendered_line(origin: char, text: Seq<char>) -> Seq<char> {
    if origin == '+' {
        if text.len() == 0 {
            seq![]
        } else {
            seq!['+'] + text
        }
    } else if origin == '-' {
        if text.len() == 0 {
            seq![]
        } else {
            seq!['-'] + text
        }
    } else if origin == ' ' {
        seq![' '] + text
    } else {
        text
    }
}

/// The patch text of a sequence of diff lines.
pub open spec fn rendered_diff(ls: Seq<DiffLine>) -> Seq<char>
    decreases ls.len(),
{
    if ls.len() == 0 {
        seq![]
    } else {
        rendered_diff(ls.drop_last()) + rendered_line(
            ls.last().origin,
            content_text(ls.last().content@),
        )
    }
}

/// std's `str::from_utf8`.
/// Trusted: the contract claims that the bytes are accepted exactly when they
/// are valid UTF-8 (vstd's `valid_utf8`) and then decode as vstd's `decode_utf8` says.
#[verifier::external_body]
fn utf8_text(bytes: &[u8]) -> (r: Option<&str>)
    ensures
        r is Some <==> valid_utf8(bytes@),
        r matches Some(s) ==> s@ == decode_utf8(bytes@),
{
    std::str::from_utf8(bytes).ok()
}

/// The text of a diff line's bytes (empty when they are not UTF-8).
fn line_text(bytes: &Vec<u8>) -> (s: String)
    ensures
        s@ == content_text(bytes@),
{
    match utf8_text(bytes.as_slice()) {
        Some(t) => String::from_str(t),
        None => String::new(),
    }
}

/// Renders diff lines as patch text: added and removed lines carry their
/// marker (and are left out when empty), context lines a space, headers
/// stand as they are.
pub fn render_diff(ls: &Vec<DiffLine>) -> (out: String)
    ensures
        out@ == rendered_diff(ls@),
{
    let mut out = String::new();
    let mut i: usize = 0;
    while i < ls.len()
        invariant
            i <= ls.len(),
            out@ == rendered_diff(ls@.take(i as int)),
        decreases ls.len() - i,
    {
        assert(ls@.take(i + 1).drop_last() =~= ls@.take(i as int));
        let line = &ls[i];
        let text = line_text(&line.content);
        let empty = text.as_str().is_empty();
        let ghost before = out@;
        if line.origin == '+' {
            if !empty {
                out.append("+");
                out.append(text.as_str());
            }
        } else if line.origin == '-' {
            if !empty {
                out.append("-");
                out.append(text.as_str());
            }
        } else if line.origin == ' ' {
            out.append(" ");
            out.append(text.as_str());
        } else {
            out.append(text.as_str());
        }
        proof {
            reveal_strlit("+");
            reveal_strlit("-");
            reveal_strlit(" ");
        }
        assert(out@ =~= before + rendered_line(line.origin, text@));
        i = i + 1;
    }
    assert(ls@.take(ls.len() as int) =~= ls@);
    out
}

/// Law: rendering one more diff line appends exactly that line's part of the
/// patch to what came before. An added or removed line is its marker (`+` or
/// `-`) followed by its whole text, blank text included; it is left out only
/// when its text is empty. A context line is a space followed by its text;
/// any other line (a file or hunk header) is its text as it stands.
pub proof fn lemma_rendered_diff_step(ls: Seq<DiffLine>, l: DiffLine)
    ensures
        (l.origin == '+' || l.origin == '-') && content_text(l.content@).len() > 0 ==> rendered_diff(
            ls.push(l),
        ) == rendered_diff(ls) + seq![l.origin] + content_text(l.content@),
        (l.origin == '+' || l.origin == '-') && content_text(l.content@).len() == 0 ==> rendered_diff(
            ls.push(l),
        ) == rendered_diff(ls),
        l.origin == ' ' ==> rendered_diff(ls.push(l)) == rendered_diff(ls) + seq![' '] + content_text(
            l.content@,
        ),
        l.origin != '+' && l.origin != '-' && l.origin != ' ' ==> rendered_diff(ls.push(l))
            == rendered_diff(ls) + content_text(l.content@),
{
    assert(ls.push(l).drop_last() =~= ls);
    assert(ls.push(l).last() == l);
    let t = content_text(l.content@);
    assert(seq![l.origin] + t =~= seq![l.origin].add(t));
    assert(rendered_diff(ls) + (seq![l.origin] + t) =~= rendered_diff(ls) + seq![l.origin] + t);
    assert(rendered_diff(ls) + (seq![' '] + t) =~= rendered_diff(ls) + seq![' '] + t);
    assert(rendered_diff(ls) + seq![] =~= rendered_diff(ls));
}

/// Law: the rendered diff holds one marked line for every added or removed
/// line with non-empty text: the rendering of the lines `ls` contains, for
/// each such line, its marker followed by its text, at the place where the
/// lines before it end.
pub proof fn lemma_changed_line_kept(ls: Seq<DiffLine>, i: int)
    requires
        0 <= i < ls.len(),
        ls[i].origin == '+' || ls[i].origin == '-',
        content_text(ls[i].content@).len() > 0,
    ensures
        rendered_diff(ls.take(i + 1)) == rendered_diff(ls.take(i)) + seq![ls[i].origin]
            + content_text(ls[i].content@),
        rendered_diff(ls.take(i + 1)).is_prefix_of(rendered_diff(ls)),
{
    assert(ls.take(i).push(ls[i]) =~= ls.take(i + 1));
    lemma_rendered_diff_step(ls.take(i), ls[i]);
    lemma_rendered_prefix(ls, i + 1);
}

/// The rendering of the first `n` lines is a prefix of the whole rendering.
proof fn lemma_rendered_prefix(ls: Seq<DiffLine>, n: int)
    requires
        0 <= n <= ls.len(),
    ensures
        rendered_diff(ls.take(n)).is_prefix_of(rendered_diff(ls)),
    decreases ls.len() - n,
{
    if n == ls.len() {
        assert(ls.take(n) =~= ls);
    } else {
        lemma_rendered_prefix(ls, n + 1);
        assert(ls.take(n + 1).drop_last() =~= ls.take(n));
        let a = rendered_diff(ls.take(n));
        let b = rendered_diff(ls.take(n + 1));
        assert(b == a + rendered_line(ls[n].origin, content_text(ls[n].content@)));
        assert(a.is_prefix_of(b));
    }
}

} // verus!
