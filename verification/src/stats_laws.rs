//! Laws of the diff statistics: what the counts of `PatchStats::from_diff`
//! are, stated by the origin markers of the lines.

use vstd::prelude::*;
use crate::diff::DiffLine;
use crate::patch_stats::{counts_as, file_paths, line_path, path_count, stats_of, total_count, LineKind, PatchStats};

verus! {

/// Selects the diff lines whose origin marker is `c`.
pub open spec fn with_origin(c: char) -> spec_fn(DiffLine) -> bool {
    |l: DiffLine| l.origin == c
}

/// Selects the diff lines of file `p` whose origin marker is `c`.
pub open spec fn in_file_with_origin(p: Seq<char>, c: char) -> spec_fn(DiffLine) -> bool {
    |l: DiffLine| line_path(l) == p && l.origin == c
}

/// Counting the lines of a kind is counting the lines with the origin marker
/// `c`, when the kind is exactly that marker.
proof fn lemma_total_count_is_filter(ls: Seq<DiffLine>, kind: LineKind, c: char)
    requires
        forall|l: DiffLine| #[trigger] counts_as(l, kind) <==> l.origin == c,
    ensures
        total_count(ls, kind) == ls.filter(with_origin(c)).len(),
    decreases ls.len(),
{
    reveal(Seq::filter);
    if ls.len() > 0 {
        lemma_total_count_is_filter(ls.drop_last(), kind, c);
        assert(counts_as(ls.last(), kind) <==> ls.last().origin == c);
    }
}

/// The same, for the lines of one file.
proof fn lemma_path_count_is_filter(ls: Seq<DiffLine>, p: Seq<char>, kind: LineKind, c: char)
    requires
        forall|l: DiffLine| #[trigger] counts_as(l, kind) <==> l.origin == c,
    ensures
        path_count(ls, p, kind) == ls.filter(in_file_with_origin(p, c)).len(),
    decreases ls.len(),
{
    reveal(Seq::filter);
    if ls.len() > 0 {
        lemma_path_count_is_filter(ls.drop_last(), p, kind, c);
        assert(counts_as(ls.last(), kind) <==> ls.last().origin == c);
    }
}

/// Law: in the statistics of a diff, the insertions of a file are the number
/// of its lines with origin `+`, its deletions the number with origin `-`,
/// and its hunks the number of hunk headers (origin `H`); the totals are the
/// same counts over the whole diff. A line of any other origin, a context
/// line in particular, counts as none of them.
pub proof fn lemma_stats_count_origins(r: PatchStats, ls: Seq<DiffLine>)
    requires
        stats_of(r, ls),
    ensures
        r.total_insertions == ls.filter(with_origin('+')).len(),
        r.total_deletions == ls.filter(with_origin('-')).len(),
        r.total_hunks == ls.filter(with_origin('H')).len(),
        forall|k: int|
            #![trigger r.file_stats@[k]]
            0 <= k < r.file_stats@.len() ==> {
                &&& r.file_stats@[k].insertions == ls.filter(
                    in_file_with_origin(r.file_stats@[k].path@, '+'),
                ).len()
                &&& r.file_stats@[k].deletions == ls.filter(
                    in_file_with_origin(r.file_stats@[k].path@, '-'),
                ).len()
                &&& r.file_stats@[k].hunks == ls.filter(
                    in_file_with_origin(r.file_stats@[k].path@, 'H'),
                ).len()
            },
{
    assert forall|l: DiffLine| #[trigger] counts_as(l, LineKind::Insertion) <==> l.origin == '+' by {}
    assert forall|l: DiffLine| #[trigger] counts_as(l, LineKind::Deletion) <==> l.origin == '-' by {}
    assert forall|l: DiffLine| #[trigger] counts_as(l, LineKind::HunkHeader) <==> l.origin == 'H' by {}
    lemma_total_count_is_filter(ls, LineKind::Insertion, '+');
    lemma_total_count_is_filter(ls, LineKind::Deletion, '-');
    lemma_total_count_is_filter(ls, LineKind::HunkHeader, 'H');
    assert forall|k: int| 0 <= k < r.file_stats@.len() implies {
        &&& r.file_stats@[k].insertions == ls.filter(
            in_file_with_origin(r.file_stats@[k].path@, '+'),
        ).len()
        &&& r.file_stats@[k].deletions == ls.filter(
            in_file_with_origin(r.file_stats@[k].path@, '-'),
        ).len()
        &&& r.file_stats@[k].hunks == ls.filter(
            in_file_with_origin(r.file_stats@[k].path@, 'H'),
        ).len()
    } by {
        let p = r.file_stats@[k].path@;
        assert(file_paths(r.file_stats@)[k] == p);
        lemma_path_count_is_filter(ls, p, LineKind::Insertion, '+');
        lemma_path_count_is_filter(ls, p, LineKind::Deletion, '-');
        lemma_path_count_is_filter(ls, p, LineKind::HunkHeader, 'H');
    }
}

} // verus!
