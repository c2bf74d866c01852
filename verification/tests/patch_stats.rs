use shapshap::diff::DiffLine;
use shapshap::patch_stats::{FileStats, PatchStats};

fn line(old: Option<&str>, new: Option<&str>, origin: char, binary: bool) -> DiffLine {
    DiffLine {
        old_path: old.map(|s| s.to_string()),
        new_path: new.map(|s| s.to_string()),
        binary,
        origin,
        content: Vec::new(),
    }
}

#[test]
fn new_stats_are_empty() {
    let s = PatchStats::new();
    assert_eq!(s.total_files, 0);
    assert!(s.file_stats.is_empty() && s.binary_files.is_empty());
    assert_eq!(s.format_stat_line(), "");
}

#[test]
fn stats_from_diff_lines() {
    let lines = vec![
        line(Some("a.c"), Some("a.c"), 'F', false),
        line(Some("a.c"), Some("a.c"), 'H', false),
        line(Some("a.c"), Some("a.c"), '+', false),
        line(Some("a.c"), Some("a.c"), '+', false),
        line(Some("a.c"), Some("a.c"), '-', false),
        line(Some("a.c"), Some("a.c"), 'H', false),
        line(Some("a.c"), Some("a.c"), '-', false),
        line(Some("old.c"), Some("new.c"), 'F', true),
        line(Some("old.c"), Some("new.c"), 'B', true),
        line(Some("new.txt"), Some("new.txt"), 'F', false),
        line(Some("new.txt"), Some("new.txt"), 'H', false),
        line(Some("new.txt"), Some("new.txt"), '+', false),
        line(None, None, '+', false),
    ];
    let s = PatchStats::from_diff(&lines);
    assert_eq!(s.total_files, 4);
    assert_eq!(s.total_insertions, 4);
    assert_eq!(s.total_deletions, 2);
    assert_eq!(s.total_hunks, 3);
    let paths: Vec<&str> = s.file_stats.iter().map(|f| f.path.as_str()).collect();
    assert_eq!(paths, vec!["a.c", "old.c => new.c", "new.txt", "unknown"]);
    assert_eq!((s.file_stats[0].insertions, s.file_stats[0].deletions, s.file_stats[0].hunks), (2, 2, 2));
    assert_eq!((s.file_stats[1].insertions, s.file_stats[1].deletions, s.file_stats[1].hunks), (0, 0, 0));
    assert_eq!((s.file_stats[2].insertions, s.file_stats[2].deletions, s.file_stats[2].hunks), (1, 0, 1));
    assert_eq!(s.binary_files, vec!["old.c => new.c".to_string()]);
    let sum: usize = s.file_stats.iter().map(|f| f.insertions).sum();
    assert_eq!(sum, s.total_insertions);
    let hunk_sum: usize = s.file_stats.iter().map(|f| f.hunks).sum();
    assert_eq!(hunk_sum, s.total_hunks);
    assert_eq!(
        s.format_stat_line(),
        " a.c | 4 +2 -2\n old.c => new.c | 0 +0 -0\n new.txt | 1 +1 -0\n unknown | 1 +1 -0\n 4 files changed, 4 insertions(+), 2 deletions(-)\n"
    );
}

#[test]
fn one_hunk_with_one_added_line_counts_one_hunk() {
    let lines = vec![
        line(Some("f.txt"), Some("f.txt"), 'F', false),
        line(Some("f.txt"), Some("f.txt"), 'H', false),
        line(Some("f.txt"), Some("f.txt"), '+', false),
    ];
    let s = PatchStats::from_diff(&lines);
    assert_eq!(s.total_hunks, 1);
    assert_eq!(s.file_stats[0].hunks, 1);
    assert!(s.binary_files.is_empty());
}

#[test]
fn singular_stat_line_and_summary() {
    let s = PatchStats {
        total_files: 1,
        total_insertions: 1,
        total_deletions: 1,
        total_hunks: 2,
        file_stats: vec![FileStats { path: "x".to_string(), insertions: 1, deletions: 1, hunks: 2 }],
        binary_files: vec!["bin".to_string()],
    };
    assert_eq!(s.format_stat_line(), " x | 2 +1 -1\n 1 file changed, 1 insertion(+), 1 deletion(-)\n");
    assert_eq!(
        s.summary_text(),
        "\n📊 Patch Statistics:\n  Files changed: 1\n  Insertions:    +1\n  Deletions:     -1\n  Hunks:         2\n\n  Binary files:\n    - bin\n\n  File details:\n    x: +1 -1 (2 hunks)\n"
    );
}
