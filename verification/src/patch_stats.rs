//! Per-file and overall statistics of a diff.

use vstd::prelude::*;
use crate::diff::DiffLine;
use crate::text::{decimal, push_decimal, string_views};

verus! {

broadcast use vstd::string::group_string_axioms;

/// Statistics of one file of a diff.
#[derive(Debug, Clone)]
pub struct FileStats {
    pub path: String,
    pub insertions: usize,
    pub deletions: usize,
    pub hunks: usize,
}

/// Statistics of a whole diff.
#[derive(Debug, Clone)]
pub struct PatchStats {
    pub total_files: usize,
    pub total_insertions: usize,
    pub total_deletions: usize,
    pub total_hunks: usize,
    pub file_stats: Vec<FileStats>,
    pub binary_files: Vec<String>,
}

/// What a diff line is counted as.
pub enum LineKind {
    /// An added line (origin `+`).
    Insertion,
    /// A removed line (origin `-`).
    Deletion,
    /// A hunk header (origin `H`): each one opens a hunk.
    HunkHeader,
}

/// Whether the line `l` counts as `kind`.
pub open spec fn counts_as(l: DiffLine, kind: LineKind) -> bool {
    match kind {
        LineKind::Insertion => l.origin == '+',
        LineKind::Deletion => l.origin == '-',
        LineKind::HunkHeader => l.origin == 'H',
    }
}

/// A path as text, `unknown` when there is none.
pub open spec fn path_or_unknown(o: Option<String>) -> Seq<char> {
    match o {
        Some(p) => p@,
        None => "unknown"@,
    }
}

/// The file a diff line is counted under: its path, or `old => new` for a rename.
pub open spec fn line_path(l: DiffLine) -> Seq<char> {
    let old = path_or_unknown(l.old_path);
    let new = path_or_unknown(l.new_path);
    if old == new {
        old
    } else {
        old + " => "@ + new
    }
}

/// The files of a diff, in the order they first appear.
pub open spec fn stat_paths(ls: Seq<DiffLine>) -> Seq<Seq<char>>
    decreases ls.len(),
{
    if ls.len() == 0 {
        seq![]
    } else {
        let prev = stat_paths(ls.drop_last());
        let p = line_path(ls.last());
        if prev.contains(p) {
            prev
        } else {
            prev.push(p)
        }
    }
}

/// The files that git reports as binary, once each, in the order they first appear.
pub open spec fn binary_paths(ls: Seq<DiffLine>) -> Seq<Seq<char>>
    decreases ls.len(),
{
    if ls.len() == 0 {
        seq![]
    } else {
        let prev = binary_paths(ls.drop_last());
        let l = ls.last();
        if !stat_paths(ls.drop_last()).contains(line_path(l)) && l.binary {
            prev.push(line_path(l))
        } else {
            prev
        }
    }
}

/// Number of lines of file `p` that count as `kind`.
pub open spec fn path_count(ls: Seq<DiffLine>, p: Seq<char>, kind: LineKind) -> nat
    decreases ls.len(),
{
    if ls.len() == 0 {
        0
    } else {
        path_count(ls.drop_last(), p, kind) + if line_path(ls.last()) == p && counts_as(
            ls.last(),
            kind,
        ) {
            1nat
        } else {
            0nat
        }
    }
}

/// Number of lines that count as `kind`.
pub open spec fn total_count(ls: Seq<DiffLine>, kind: LineKind) -> nat
    decreases ls.len(),
{
    if ls.len() == 0 {
        0
    } else {
        total_count(ls.drop_last(), kind) + if counts_as(ls.last(), kind) {
            1nat
        } else {
            0nat
        }
    }
}

/// The paths of a list of file statistics.
pub open spec fn file_paths(fs: Seq<FileStats>) -> Seq<Seq<char>> {
    fs.map_values(|f: FileStats| f.path@)
}

/// What `PatchStats::from_diff` computes for the lines `ls`.
pub open spec fn stats_of(r: PatchStats, ls: Seq<DiffLine>) -> bool {
    &&& file_paths(r.file_stats@) == stat_paths(ls)
    &&& forall|k: int|
        #![trigger r.file_stats@[k]]
        0 <= k < r.file_stats@.len() ==> {
            &&& r.file_stats@[k].insertions == path_count(ls, stat_paths(ls)[k], LineKind::Insertion)
            &&& r.file_stats@[k].deletions == path_count(ls, stat_paths(ls)[k], LineKind::Deletion)
            &&& r.file_stats@[k].hunks == path_count(ls, stat_paths(ls)[k], LineKind::HunkHeader)
        }
    &&& r.total_files == r.file_stats@.len()
    &&& r.total_insertions == total_count(ls, LineKind::Insertion)
    &&& r.total_deletions == total_count(ls, LineKind::Deletion)
    &&& r.total_hunks == total_count(ls, LineKind::HunkHeader)
    &&& string_views(r.binary_files@) == binary_paths(ls)
}

/// The path under which a diff line is counted.
fn line_path_string(l: &DiffLine) -> (s: String)
    ensures
        s@ == line_path(*l),
{
    let old = match &l.old_path {
        Some(p) => p.clone(),
        None => String::from_str("unknown"),
    };
    let new = match &l.new_path {
        Some(p) => p.clone(),
        None => String::from_str("unknown"),
    };
    if old == new {
        old
    } else {
        let mut s = old;
        s.append(" => ");
        s.append(new.as_str());
        s
    }
}

/// The index of `p` in `paths`, if it is there.
fn find_path(paths: &Vec<String>, p: &String) -> (r: Option<usize>)
    ensures
        r matches Some(k) ==> k < paths.len() && paths@[k as int]@ == p@,
        r is None ==> !string_views(paths@).contains(p@),
{
    let mut k: usize = 0;
    while k < paths.len()
        invariant
            k <= paths.len(),
            forall|j: int| 0 <= j < k ==> paths@[j]@ != p@,
        decreases paths.len() - k,
    {
        if paths[k] == *p {
            return Some(k);
        }
        k = k + 1;
    }
    assert forall|j: int| 0 <= j < paths.len() implies string_views(paths@)[j] != p@ by {}
    None
}

/// Law: every file of a diff is listed once.
pub proof fn lemma_stat_paths_distinct(ls: Seq<DiffLine>)
    ensures
        stat_paths(ls).no_duplicates(),
    decreases ls.len(),
{
    if ls.len() > 0 {
        lemma_stat_paths_distinct(ls.drop_last());
    }
}

/// Every line's file is among the files of the diff.
proof fn lemma_line_path_listed(ls: Seq<DiffLine>, i: int)
    requires
        0 <= i < ls.len(),
    ensures
        stat_paths(ls).contains(line_path(ls[i])),
    decreases ls.len(),
{
    let prev = stat_paths(ls.drop_last());
    if i < ls.len() - 1 {
        lemma_line_path_listed(ls.drop_last(), i);
        let j = choose|j: int| 0 <= j < prev.len() && prev[j] == line_path(ls[i]);
        if !prev.contains(line_path(ls.last())) {
            assert(stat_paths(ls)[j] == line_path(ls[i]));
        }
    } else {
        if !prev.contains(line_path(ls.last())) {
            assert(stat_paths(ls)[prev.len() as int] == line_path(ls[i]));
        }
    }
}

/// A file that is not among the files of the diff has no lines of any kind.
proof fn lemma_unlisted_path_count(ls: Seq<DiffLine>, p: Seq<char>, kind: LineKind)
    requires
        !stat_paths(ls).contains(p),
    ensures
        path_count(ls, p, kind) == 0,
    decreases ls.len(),
{
    if ls.len() > 0 {
        let prev = stat_paths(ls.drop_last());
        if prev.contains(p) {
            let j = choose|j: int| 0 <= j < prev.len() && prev[j] == p;
            if !prev.contains(line_path(ls.last())) {
                assert(stat_paths(ls)[j] == p);
            }
        }
        lemma_line_path_listed(ls, ls.len() - 1);
        lemma_unlisted_path_count(ls.drop_last(), p, kind);
    }
}

/// Sum, over the files `paths`, of their lines that count as `kind`.
pub open spec fn sum_path_counts(paths: Seq<Seq<char>>, ls: Seq<DiffLine>, kind: LineKind) -> nat
    decreases paths.len(),
{
    if paths.len() == 0 {
        0
    } else {
        sum_path_counts(paths.drop_last(), ls, kind) + path_count(ls, paths.last(), kind)
    }
}

/// The figure of kind `kind` recorded for one file.
pub open spec fn file_figure(f: FileStats, kind: LineKind) -> nat {
    match kind {
        LineKind::Insertion => f.insertions as nat,
        LineKind::Deletion => f.deletions as nat,
        LineKind::HunkHeader => f.hunks as nat,
    }
}

/// Sum of the figures of kind `kind` over the files `fs`.
pub open spec fn file_sum(fs: Seq<FileStats>, kind: LineKind) -> nat
    decreases fs.len(),
{
    if fs.len() == 0 {
        0
    } else {
        file_sum(fs.drop_last(), kind) + file_figure(fs.last(), kind)
    }
}

/// Adding one line to a diff adds it to the sum over distinct files when its
/// file is among them.
proof fn lemma_sum_step(paths: Seq<Seq<char>>, ls: Seq<DiffLine>, l: DiffLine, kind: LineKind)
    requires
        paths.no_duplicates(),
    ensures
        sum_path_counts(paths, ls.push(l), kind) == sum_path_counts(paths, ls, kind) + if paths.contains(
            line_path(l),
        ) && counts_as(l, kind) {
            1nat
        } else {
            0nat
        },
    decreases paths.len(),
{
    assert(ls.push(l).drop_last() =~= ls);
    if paths.len() > 0 {
        let q = paths.last();
        let rest = paths.drop_last();
        assert(rest.no_duplicates());
        lemma_sum_step(rest, ls, l, kind);
        if rest.contains(line_path(l)) {
            let j = choose|j: int| 0 <= j < rest.len() && rest[j] == line_path(l);
            assert(paths[j] == line_path(l));
            assert(q != line_path(l));
        }
        if paths.contains(line_path(l)) && !rest.contains(line_path(l)) {
            let j = choose|j: int| 0 <= j < paths.len() && paths[j] == line_path(l);
            if j < rest.len() {
                assert(rest[j] == line_path(l));
            }
        }
        if q == line_path(l) {
            assert(paths.contains(line_path(l)));
        }
    }
}

/// Law: the per-file counts of a diff add up to its totals.
pub proof fn lemma_file_counts_add_up(ls: Seq<DiffLine>, kind: LineKind)
    ensures
        sum_path_counts(stat_paths(ls), ls, kind) == total_count(ls, kind),
    decreases ls.len(),
{
    if ls.len() > 0 {
        let t = ls.drop_last();
        let l = ls.last();
        assert(t.push(l) =~= ls);
        lemma_file_counts_add_up(t, kind);
        lemma_stat_paths_distinct(t);
        lemma_sum_step(stat_paths(t), t, l, kind);
        if !stat_paths(t).contains(line_path(l)) {
            lemma_unlisted_path_count(t, line_path(l), kind);
            assert(stat_paths(ls).drop_last() =~= stat_paths(t));
        }
    }
}

/// Law: in the statistics of a diff, the figures of the files add up to the
/// totals, and no file is listed twice.
pub proof fn lemma_stats_totals(r: PatchStats, ls: Seq<DiffLine>)
    requires
        stats_of(r, ls),
    ensures
        file_sum(r.file_stats@, LineKind::Insertion) == r.total_insertions,
        file_sum(r.file_stats@, LineKind::Deletion) == r.total_deletions,
        file_sum(r.file_stats@, LineKind::HunkHeader) == r.total_hunks,
        file_paths(r.file_stats@).no_duplicates(),
{
    lemma_stat_paths_distinct(ls);
    lemma_file_counts_add_up(ls, LineKind::Insertion);
    lemma_file_counts_add_up(ls, LineKind::Deletion);
    lemma_file_counts_add_up(ls, LineKind::HunkHeader);
    lemma_file_sum_matches(r, ls, r.file_stats@.len() as int, LineKind::Insertion);
    lemma_file_sum_matches(r, ls, r.file_stats@.len() as int, LineKind::Deletion);
    lemma_file_sum_matches(r, ls, r.file_stats@.len() as int, LineKind::HunkHeader);
    assert(r.file_stats@.take(r.file_stats@.len() as int) =~= r.file_stats@);
    assert(stat_paths(ls).take(r.file_stats@.len() as int) =~= stat_paths(ls));
}

proof fn lemma_file_sum_matches(r: PatchStats, ls: Seq<DiffLine>, n: int, kind: LineKind)
    requires
        stats_of(r, ls),
        0 <= n <= r.file_stats@.len(),
    ensures
        file_sum(r.file_stats@.take(n), kind) == sum_path_counts(stat_paths(ls).take(n), ls, kind),
    decreases n,
{
    if n > 0 {
        lemma_file_sum_matches(r, ls, n - 1, kind);
        assert(r.file_stats@.take(n).drop_last() =~= r.file_stats@.take(n - 1));
        assert(stat_paths(ls).take(n).drop_last() =~= stat_paths(ls).take(n - 1));
        assert(file_paths(r.file_stats@)[n - 1] == r.file_stats@[n - 1].path@);
        let f = r.file_stats@[n - 1];
        assert(f.insertions == path_count(ls, stat_paths(ls)[n - 1], LineKind::Insertion));
    }
}

impl PatchStats {
    /// Statistics with nothing counted.
    pub fn new() -> (r: Self)
        ensures
            r.total_files == 0,
            r.total_insertions == 0,
            r.total_deletions == 0,
            r.total_hunks == 0,
            r.file_stats@.len() == 0,
            r.binary_files@.len() == 0,
    {
        PatchStats {
            total_files: 0,
            total_insertions: 0,
            total_deletions: 0,
            total_hunks: 0,
            file_stats: Vec::new(),
            binary_files: Vec::new(),
        }
    }

    /// Counts the lines of a diff per file and overall: added lines, removed
    /// lines and hunks (one per hunk header). Files are listed in the order
    /// they first appear; a file whose delta git reports as binary is also
    /// listed as binary.
    pub fn from_diff(diff: &Vec<DiffLine>) -> (r: Self)
        ensures
            stats_of(r, diff@),
    {
        let mut paths: Vec<String> = Vec::new();
        let mut ins: Vec<usize> = Vec::new();
        let mut dels: Vec<usize> = Vec::new();
        let mut hunks: Vec<usize> = Vec::new();
        let mut binary: Vec<String> = Vec::new();
        let mut total_ins: usize = 0;
        let mut total_dels: usize = 0;
        let mut total_hunks: usize = 0;
        let mut i: usize = 0;
        while i < diff.len()
            invariant
                i <= diff.len(),
                string_views(paths@) == stat_paths(diff@.take(i as int)),
                ins.len() == paths.len(),
                dels.len() == paths.len(),
                hunks.len() == paths.len(),
                forall|k: int|
                    0 <= k < paths.len() ==> {
                        &&& #[trigger] ins@[k] == path_count(
                            diff@.take(i as int),
                            paths@[k]@,
                            LineKind::Insertion,
                        )
                        &&& dels@[k] == path_count(
                            diff@.take(i as int),
                            paths@[k]@,
                            LineKind::Deletion,
                        )
                        &&& hunks@[k] == path_count(
                            diff@.take(i as int),
                            paths@[k]@,
                            LineKind::HunkHeader,
                        )
                        &&& ins@[k] <= i && dels@[k] <= i && hunks@[k] <= i
                    },
                total_ins == total_count(diff@.take(i as int), LineKind::Insertion),
                total_dels == total_count(diff@.take(i as int), LineKind::Deletion),
                total_hunks == total_count(diff@.take(i as int), LineKind::HunkHeader),
                total_ins <= i,
                total_dels <= i,
                total_hunks <= i,
                string_views(binary@) == binary_paths(diff@.take(i as int)),
            decreases diff.len() - i,
        {
            let ghost t = diff@.take(i as int);
            let ghost t1 = diff@.take(i + 1);
            assert(t1.drop_last() =~= t);
            let line = &diff[i];
            assert(t1.last() == *line);
            let path = line_path_string(line);
            let k = match find_path(&paths, &path) {
                Some(k) => {
                    assert(string_views(paths@)[k as int] == paths@[k as int]@);
                    assert(stat_paths(t).contains(path@));
                    k
                },
                None => {
                    proof {
                        lemma_unlisted_path_count(t, path@, LineKind::Insertion);
                        lemma_unlisted_path_count(t, path@, LineKind::Deletion);
                        lemma_unlisted_path_count(t, path@, LineKind::HunkHeader);
                    }
                    if line.binary {
                        let ghost prev = binary@;
                        binary.push(path.clone());
                        assert(string_views(binary@) =~= string_views(prev).push(path@));
                    }
                    let ghost prev_paths = paths@;
                    paths.push(path.clone());
                    assert(string_views(paths@) =~= string_views(prev_paths).push(path@));
                    ins.push(0);
                    dels.push(0);
                    hunks.push(0);
                    paths.len() - 1
                },
            };
            assert(paths@[k as int]@ == path@);
            assert(string_views(paths@) == stat_paths(t1));
            assert forall|j: int| 0 <= j < paths.len() implies {
                &&& #[trigger] ins@[j] == path_count(t, paths@[j]@, LineKind::Insertion)
                &&& dels@[j] == path_count(t, paths@[j]@, LineKind::Deletion)
                &&& hunks@[j] == path_count(t, paths@[j]@, LineKind::HunkHeader)
                &&& ins@[j] <= i && dels@[j] <= i && hunks@[j] <= i
            } by {}
            assert(ins@[k as int] <= i && dels@[k as int] <= i && hunks@[k as int] <= i);
            let ghost ins0 = ins@;
            let ghost dels0 = dels@;
            let ghost hunks0 = hunks@;
            proof {
                lemma_stat_paths_distinct(t1);
            }
            if line.origin == 'H' {
                hunks.set(k, hunks[k] + 1);
                total_hunks = total_hunks + 1;
            }
            if line.origin == '+' {
                ins.set(k, ins[k] + 1);
                total_ins = total_ins + 1;
            } else if line.origin == '-' {
                dels.set(k, dels[k] + 1);
                total_dels = total_dels + 1;
            }
            i = i + 1;
            assert forall|j: int| 0 <= j < paths.len() implies {
                &&& #[trigger] ins@[j] == path_count(t1, paths@[j]@, LineKind::Insertion)
                &&& dels@[j] == path_count(t1, paths@[j]@, LineKind::Deletion)
                &&& hunks@[j] == path_count(t1, paths@[j]@, LineKind::HunkHeader)
                &&& ins@[j] <= i && dels@[j] <= i && hunks@[j] <= i
            } by {
                assert(ins0[j] == path_count(t, paths@[j]@, LineKind::Insertion));
                assert(string_views(paths@)[j] == paths@[j]@);
                assert(string_views(paths@)[k as int] == paths@[k as int]@);
                if j != k {
                    assert(paths@[j]@ != path@);
                }
            }
        }
        assert(diff@.take(diff.len() as int) =~= diff@);
        let mut file_stats: Vec<FileStats> = Vec::new();
        let mut k: usize = 0;
        while k < paths.len()
            invariant
                k <= paths.len(),
                ins.len() == paths.len(),
                dels.len() == paths.len(),
                hunks.len() == paths.len(),
                file_stats.len() == k,
                forall|j: int|
                    #![trigger file_stats@[j]]
                    0 <= j < k ==> {
                        &&& file_stats@[j].path@ == paths@[j]@
                        &&& file_stats@[j].insertions == ins@[j]
                        &&& file_stats@[j].deletions == dels@[j]
                        &&& file_stats@[j].hunks == hunks@[j]
                    },
            decreases paths.len() - k,
        {
            file_stats.push(
                FileStats {
                    path: paths[k].clone(),
                    insertions: ins[k],
                    deletions: dels[k],
                    hunks: hunks[k],
                },
            );
            k = k + 1;
        }
        let r = PatchStats {
            total_files: file_stats.len(),
            total_insertions: total_ins,
            total_deletions: total_dels,
            total_hunks: total_hunks,
            file_stats,
            binary_files: binary,
        };
        assert(file_paths(r.file_stats@) =~= string_views(paths@));
        r
    }
}

/// The ` path | changes +insertions -deletions` line of one file.
pub open spec fn stat_line(f: FileStats) -> Seq<char> {
    " "@ + f.path@ + " | "@ + decimal((f.insertions + f.deletions) as nat) + " +"@ + decimal(
        f.insertions as nat,
    ) + " -"@ + decimal(f.deletions as nat) + "\n"@
}

/// The stat lines of the files, in order.
pub open spec fn stat_lines(fs: Seq<FileStats>) -> Seq<char>
    decreases fs.len(),
{
    if fs.len() == 0 {
        seq![]
    } else {
        stat_lines(fs.drop_last()) + stat_line(fs.last())
    }
}

/// The plural ending for a count.
pub open spec fn plural(n: nat) -> Seq<char> {
    if n == 1 {
        seq![]
    } else {
        "s"@
    }
}

/// The closing ` N files changed, ...` line.
pub open spec fn stat_summary_line(r: PatchStats) -> Seq<char> {
    " "@ + decimal(r.total_files as nat) + " file"@ + plural(r.total_files as nat) + " changed, "@
        + decimal(r.total_insertions as nat) + " insertion"@ + plural(r.total_insertions as nat)
        + "(+), "@ + decimal(r.total_deletions as nat) + " deletion"@ + plural(
        r.total_deletions as nat,
    ) + "(-)\n"@
}

/// The `--stat` style text of the statistics.
pub open spec fn stat_text(r: PatchStats) -> Seq<char> {
    stat_lines(r.file_stats@) + if r.file_stats@.len() > 0 {
        stat_summary_line(r)
    } else {
        seq![]
    }
}

/// The detail line of one file in the summary.
pub open spec fn detail_line(f: FileStats) -> Seq<char> {
    "    "@ + f.path@ + ": +"@ + decimal(f.insertions as nat) + " -"@ + decimal(
        f.deletions as nat,
    ) + " ("@ + decimal(f.hunks as nat) + " hunks)\n"@
}

/// The detail lines of the files, in order.
pub open spec fn detail_lines(fs: Seq<FileStats>) -> Seq<char>
    decreases fs.len(),
{
    if fs.len() == 0 {
        seq![]
    } else {
        detail_lines(fs.drop_last()) + detail_line(fs.last())
    }
}

/// The list of binary files in the summary.
pub open spec fn binary_lines(names: Seq<Seq<char>>) -> Seq<char>
    decreases names.len(),
{
    if names.len() == 0 {
        seq![]
    } else {
        binary_lines(names.drop_last()) + "    - "@ + names.last() + "\n"@
    }
}

/// The human-readable summary of the statistics.
pub open spec fn summary(r: PatchStats) -> Seq<char> {
    "\n📊 Patch Statistics:\n"@ + "  Files changed: "@ + decimal(r.total_files as nat) + "\n"@
        + "  Insertions:    +"@ + decimal(r.total_insertions as nat) + "\n"@
        + "  Deletions:     -"@ + decimal(r.total_deletions as nat) + "\n"@
        + "  Hunks:         "@ + decimal(r.total_hunks as nat) + "\n"@ + (if r.binary_files@.len()
        > 0 {
        "\n  Binary files:\n"@ + binary_lines(string_views(r.binary_files@))
    } else {
        seq![]
    }) + (if r.file_stats@.len() > 0 {
        "\n  File details:\n"@ + detail_lines(r.file_stats@)
    } else {
        seq![]
    })
}

/// Appends the stat line of one file.
fn push_stat_line(out: &mut String, f: &FileStats)
    requires
        f.insertions + f.deletions <= usize::MAX,
    ensures
        final(out)@ == old(out)@ + stat_line(*f),
{
    let changes = f.insertions + f.deletions;
    out.append(" ");
    out.append(f.path.as_str());
    out.append(" | ");
    push_decimal(out, changes as u128);
    out.append(" +");
    push_decimal(out, f.insertions as u128);
    out.append(" -");
    push_decimal(out, f.deletions as u128);
    out.append("\n");
    assert(out@ =~= old(out)@ + stat_line(*f));
}

/// Appends the plural ending for `n`.
fn push_plural(out: &mut String, n: usize)
    ensures
        final(out)@ == old(out)@ + plural(n as nat),
{
    if n != 1 {
        out.append("s");
    } else {
        assert(old(out)@ + plural(n as nat) =~= old(out)@);
    }
}

/// Appends the closing total line.
#[verifier::spinoff_prover]
#[verifier::rlimit(40)]
fn push_stat_summary_line(out: &mut String, r: &PatchStats)
    ensures
        final(out)@ == old(out)@ + stat_summary_line(*r),
{
    out.append(" ");
    push_decimal(out, r.total_files as u128);
    out.append(" file");
    push_plural(out, r.total_files);
    out.append(" changed, ");
    push_decimal(out, r.total_insertions as u128);
    out.append(" insertion");
    push_plural(out, r.total_insertions);
    out.append("(+), ");
    push_decimal(out, r.total_deletions as u128);
    out.append(" deletion");
    push_plural(out, r.total_deletions);
    out.append("(-)\n");
    assert(out@ =~= old(out)@ + stat_summary_line(*r));
}

impl PatchStats {
    /// The `--stat` style text: one line per file and a closing total line.
    pub fn format_stat_line(&self) -> (out: String)
        requires
            forall|k: int|
                0 <= k < self.file_stats@.len() ==> #[trigger] self.file_stats@[k].insertions
                    + self.file_stats@[k].deletions <= usize::MAX,
        ensures
            out@ == stat_text(*self),
    {
        let mut out = String::new();
        let mut i: usize = 0;
        while i < self.file_stats.len()
            invariant
                i <= self.file_stats.len(),
                forall|k: int|
                    0 <= k < self.file_stats@.len() ==> #[trigger] self.file_stats@[k].insertions
                        + self.file_stats@[k].deletions <= usize::MAX,
                out@ == stat_lines(self.file_stats@.take(i as int)),
            decreases self.file_stats.len() - i,
        {
            assert(self.file_stats@.take(i + 1).drop_last() =~= self.file_stats@.take(i as int));
            let f = &self.file_stats[i];
            push_stat_line(&mut out, f);
            i = i + 1;
        }
        assert(self.file_stats@.take(self.file_stats.len() as int) =~= self.file_stats@);
        if self.file_stats.len() > 0 {
            push_stat_summary_line(&mut out, self);
        }
        out
    }

    /// The human-readable summary: totals, binary files and per-file details.
    pub fn summary_text(&self) -> (out: String)
        ensures
            out@ == summary(*self),
    {
        let mut out = String::from_str("\n📊 Patch Statistics:\n");
        out.append("  Files changed: ");
        push_decimal(&mut out, self.total_files as u128);
        out.append("\n");
        out.append("  Insertions:    +");
        push_decimal(&mut out, self.total_insertions as u128);
        out.append("\n");
        out.append("  Deletions:     -");
        push_decimal(&mut out, self.total_deletions as u128);
        out.append("\n");
        out.append("  Hunks:         ");
        push_decimal(&mut out, self.total_hunks as u128);
        out.append("\n");
        let ghost head = out@;
        let mut bin = String::new();
        if self.binary_files.len() > 0 {
            bin.append("\n  Binary files:\n");
            let mut i: usize = 0;
            while i < self.binary_files.len()
                invariant
                    i <= self.binary_files.len(),
                    bin@ == "\n  Binary files:\n"@ + binary_lines(
                        string_views(self.binary_files@.take(i as int)),
                    ),
                decreases self.binary_files.len() - i,
            {
                assert(string_views(self.binary_files@.take(i + 1)).drop_last() =~= string_views(
                    self.binary_files@.take(i as int),
                ));
                bin.append("    - ");
                bin.append(self.binary_files[i].as_str());
                bin.append("\n");
                i = i + 1;
            }
            assert(self.binary_files@.take(self.binary_files.len() as int) =~= self.binary_files@);
        }
        let mut details = String::new();
        if self.file_stats.len() > 0 {
            details.append("\n  File details:\n");
            let mut i: usize = 0;
            while i < self.file_stats.len()
                invariant
                    i <= self.file_stats.len(),
                    details@ == "\n  File details:\n"@ + detail_lines(
                        self.file_stats@.take(i as int),
                    ),
                decreases self.file_stats.len() - i,
            {
                assert(self.file_stats@.take(i + 1).drop_last() =~= self.file_stats@.take(
                    i as int,
                ));
                let f = &self.file_stats[i];
                let ghost before = details@;
                details.append("    ");
                details.append(f.path.as_str());
                details.append(": +");
                push_decimal(&mut details, f.insertions as u128);
                details.append(" -");
                push_decimal(&mut details, f.deletions as u128);
                details.append(" (");
                push_decimal(&mut details, f.hunks as u128);
                details.append(" hunks)\n");
                assert(details@ =~= before + detail_line(*f));
                i = i + 1;
            }
            assert(self.file_stats@.take(self.file_stats.len() as int) =~= self.file_stats@);
        }
        out.append(bin.as_str());
        out.append(details.as_str());
        assert(out@ =~= summary(*self));
        out
    }
}

} // verus!
