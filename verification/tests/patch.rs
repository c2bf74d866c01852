use shapshap::commit::CommitInfo;
use shapshap::diff::{render_diff, DiffLine};
use shapshap::patch::{
    build_prefix, compose_patch, cover_letter_text, generate_patch, generate_patch_filename,
    output_file_name, parse_range_spec, RangeError, RangeSpec,
};
use shapshap::validation::PatchValidator;

fn commit(message: Option<&str>) -> CommitInfo {
    CommitInfo {
        id: "abc123".to_string(),
        author_name: Some("Test".to_string()),
        author_email: Some("test@example.com".to_string()),
        time_seconds: 0,
        message: message.map(|m| m.to_string()),
    }
}

fn line(origin: char, content: &str) -> DiffLine {
    DiffLine {
        old_path: Some("test.txt".to_string()),
        new_path: Some("test.txt".to_string()),
        binary: false,
        origin,
        content: content.as_bytes().to_vec(),
    }
}

fn sample_diff() -> Vec<DiffLine> {
    vec![
        line('F', "diff --git a/test.txt b/test.txt\nindex 1234567..abcdefg 100644\n--- a/test.txt\n+++ b/test.txt\n"),
        line('H', "@@ -1 +1 @@\n"),
        line('-', "initial content\n"),
        line('+', "modified content\n"),
    ]
}

const SAMPLE_DIFF_TEXT: &str = "diff --git a/test.txt b/test.txt\nindex 1234567..abcdefg 100644\n--- a/test.txt\n+++ b/test.txt\n@@ -1 +1 @@\n-initial content\n+modified content\n";

#[test]
fn test_patch_generation() {
    let commit = commit(Some("test: modify file"));
    let patch = generate_patch(&commit, &sample_diff(), "PATCH", 1, 1, &None, &None, true);

    assert!(patch.contains("From:"));
    assert!(patch.contains("Subject:"));
    assert!(patch.contains("diff --git"));
    assert!(patch.contains("Signed-off-by:"));
}

#[test]
fn generated_patch_is_exact() {
    let c = commit(Some("test: modify file\n\nWhy it changes.\n\n\nMore.\r\n"));
    let patch = generate_patch(&c, &sample_diff(), "PATCH", 1, 1, &None, &None, true);
    let expected = format!(
        "From abc123 Mon Sep 17 00:00:00 2001\nFrom: Test <test@example.com>\nDate: Thu, 01 Jan 1970 00:00:00 +0000\nSubject: [PATCH] test: modify file\n\nWhy it changes.\nMore.\n---\n{}\nSigned-off-by: Test <test@example.com>\n",
        SAMPLE_DIFF_TEXT
    );
    assert_eq!(patch, expected);
}

#[test]
fn series_subject_and_overrides() {
    let c = CommitInfo { author_name: None, author_email: None, message: None, ..commit(None) };
    let patch = compose_patch(
        &c,
        "DATE",
        "DIFF",
        "RFC PATCH v2",
        2,
        5,
        &Some("Me".to_string()),
        &Some("me@x.org".to_string()),
        true,
    );
    assert_eq!(
        patch,
        "From abc123 Mon Sep 17 00:00:00 2001\nFrom: Unknown <unknown@example.com>\nDate: DATE\nSubject: [RFC PATCH v2 2/5] No subject\n\n---\nDIFF\nSigned-off-by: Me <me@x.org>\n"
    );
    let unsigned = compose_patch(&c, "D", "X", "PATCH", 1, 1, &None, &None, false);
    assert_eq!(
        unsigned,
        "From abc123 Mon Sep 17 00:00:00 2001\nFrom: Unknown <unknown@example.com>\nDate: D\nSubject: [PATCH] No subject\n\n---\nX\n"
    );
}

#[test]
fn generated_patch_passes_validation() {
    let c = commit(Some("net: fix leak"));
    let patch = generate_patch(&c, &sample_diff(), "PATCH", 1, 1, &None, &None, true);
    let result = PatchValidator::new().validate_patch_text(&patch);
    assert!(result.is_valid, "{:?}", result.errors);
}

#[test]
fn prefix_building() {
    assert_eq!(build_prefix("PATCH", false, None), "PATCH");
    assert_eq!(build_prefix("PATCH", true, None), "RFC PATCH");
    assert_eq!(build_prefix("PATCH", false, Some(2)), "PATCH v2");
    assert_eq!(build_prefix("net-next", true, Some(12)), "RFC PATCH v12");
}

#[test]
fn range_parsing() {
    assert_eq!(
        parse_range_spec("HEAD~3..HEAD"),
        Ok(RangeSpec::Between { from: "HEAD~3".to_string(), to: "HEAD".to_string() })
    );
    assert_eq!(parse_range_spec("abc123"), Ok(RangeSpec::Single("abc123".to_string())));
    assert_eq!(parse_range_spec("a..b..c"), Err(RangeError::InvalidFormat));
    assert_eq!(
        parse_range_spec("a...b"),
        Ok(RangeSpec::Between { from: "a".to_string(), to: ".b".to_string() })
    );
    assert_eq!(
        parse_range_spec(".."),
        Ok(RangeSpec::Between { from: String::new(), to: String::new() })
    );
}

#[test]
fn range_round_trip() {
    for (from, to) in [("v6.1", "v6.2"), ("HEAD~2", "HEAD"), ("", "main")] {
        assert_eq!(
            parse_range_spec(&format!("{}..{}", from, to)),
            Ok(RangeSpec::Between { from: from.to_string(), to: to.to_string() })
        );
    }
}

#[test]
fn file_names() {
    let c = commit(Some("drivers: Add new feature to driver X"));
    assert_eq!(generate_patch_filename(&c, 1, 1), "Add-new-feature-to-driver-X.patch");
    let c = commit(Some("drivers/char: Add initial support\n\nbody"));
    assert_eq!(generate_patch_filename(&c, 1, 3), "0001-Add-initial-support.patch");
    let c = commit(Some("--- odd subject ---"));
    assert_eq!(generate_patch_filename(&c, 12, 2), "0012-odd-subject.patch");
    let c = commit(None);
    assert_eq!(generate_patch_filename(&c, 1, 1), "patch.patch");
    let long = "x".repeat(60);
    let c = commit(Some(&long));
    assert_eq!(generate_patch_filename(&c, 1, 1), format!("{}.patch", "x".repeat(50)));
}

#[test]
fn file_names_with_a_cut_inside_a_character() {
    // 49 ASCII bytes, then a two-byte character across byte 50
    let subject = format!("{}é{}", "a".repeat(49), "b".repeat(10));
    let c = commit(Some(&subject));
    assert_eq!(output_file_name(&None, &c, 1, 1), None);
    let subject = format!("{}é{}", "a".repeat(48), "b".repeat(10));
    let c = commit(Some(&subject));
    assert_eq!(output_file_name(&None, &c, 1, 1), Some(format!("{}é.patch", "a".repeat(48))));
}

#[test]
fn output_names() {
    let c = commit(Some("x: y"));
    assert_eq!(output_file_name(&Some("patch.txt".to_string()), &c, 3, 4), Some("0003-patch.txt".to_string()));
    assert_eq!(output_file_name(&Some("patch.txt".to_string()), &c, 3, 1), Some("patch.txt".to_string()));
    assert_eq!(output_file_name(&None, &c, 3, 4), Some("0003-y.patch".to_string()));
}

#[test]
fn cover_letter() {
    let commits = vec![commit(Some("a: first\n\nbody")), commit(None), commit(Some(""))];
    assert_eq!(
        cover_letter_text("PATCH", 3, &commits),
        "Subject: [PATCH 0/3] Cover letter\n\nThis patch series includes the following changes:\n\n1. a: first\n2. No subject\n3. No subject\n\n---\n\n"
    );
}

#[test]
fn diff_rendering() {
    assert_eq!(render_diff(&sample_diff()), SAMPLE_DIFF_TEXT);
    let odd = vec![line('+', ""), line('-', ""), line(' ', "ctx\n"), line('=', "raw\n")];
    assert_eq!(render_diff(&odd), " ctx\nraw\n");
    let mut bad = line('+', "x");
    bad.content = vec![0xff, 0xfe];
    assert_eq!(render_diff(&vec![bad]), "");
}
