use shapshap::commit::CommitInfo;
use shapshap::config::{Config, ValidationConfig};
use shapshap::validation::{PatchValidator, ValidationResult};

const GOOD_PATCH: &str = r#"From abc123 Mon Sep 17 00:00:00 2001
From: Test <test@example.com>
Date: Mon, 01 Jan 2024 12:00:00 +0000
Subject: [PATCH] test: add feature

This is a test patch.

---
diff --git a/test.txt b/test.txt
index 1234567..abcdefg 100644
--- a/test.txt
+++ b/test.txt
@@ -1 +1,2 @@
 line1
+line2

Signed-off-by: Test <test@example.com>
"#;

fn commit_with(message: Option<&str>) -> CommitInfo {
    CommitInfo {
        id: "0123456789abcdef".to_string(),
        author_name: Some("Test".to_string()),
        author_email: Some("test@example.com".to_string()),
        time_seconds: 0,
        message: message.map(|m| m.to_string()),
    }
}

#[test]
fn test_validation() {
    let validator = PatchValidator::new();
    let result = validator.validate_patch_text(GOOD_PATCH);
    assert!(result.is_valid);
}

#[test]
fn good_patch_has_no_warnings() {
    let result = PatchValidator::new().validate_patch_text(GOOD_PATCH);
    assert!(result.errors.is_empty());
    assert!(result.warnings.is_empty());
}

#[test]
fn separator_warning_only_without_dashes_line_before_diff() {
    let v = PatchValidator::new().with_sign_off_requirement(false);
    let missing = "From: a\nSubject: b\n\ndiff --git a/x b/x\n--- a/x\n+++ b/x\n";
    assert_eq!(
        v.validate_patch_text(missing).warnings,
        vec!["Missing '---' separator before diff".to_string()]
    );
    let present = "From: a\nSubject: b\n---\ndiff --git a/x b/x\n--- a/x\n+++ b/x\n";
    assert!(v.validate_patch_text(present).warnings.is_empty());
    let crlf = "From: a\r\nSubject: b\r\n---\r\ndiff --git a/x b/x\r\n";
    let lax = PatchValidator::new().with_sign_off_requirement(false).with_trailing_whitespace_check(false);
    assert!(lax.validate_patch_text(crlf).warnings.is_empty());
    // without a `diff --git` header the diff starts at the first `---`, so no separator precedes it
    let marker_only = "From: a\nSubject: b\n--- a/x\n";
    let r = v.validate_patch_text(marker_only);
    assert!(r.is_valid);
    assert_eq!(r.warnings, vec!["Missing '---' separator before diff".to_string()]);
}

#[test]
fn missing_headers_and_diff_are_errors() {
    let result = PatchValidator::new().validate_patch_text("hello\n");
    assert!(!result.is_valid);
    assert_eq!(
        result.errors,
        vec![
            "Missing 'From:' header".to_string(),
            "Missing 'Subject:' header".to_string(),
            "Missing diff content".to_string(),
            "Missing Signed-off-by line".to_string(),
        ]
    );
    assert!(result.warnings.is_empty());
}

#[test]
fn malformed_sign_off_is_an_error() {
    let text = "From: a\nSubject: b\n---\nSigned-off-by: nobody\n";
    let result = PatchValidator::new().validate_patch_text(text);
    assert_eq!(result.errors, vec!["Invalid Signed-off-by format".to_string()]);
    // the same text, checked with a matching sign-off
    let checked = PatchValidator::new().check_patch_text(text, true);
    assert!(checked.errors.is_empty());
    // without the requirement nothing is reported
    let lax = PatchValidator::new().with_sign_off_requirement(false).validate_patch_text(text);
    assert!(lax.is_valid);
}

#[test]
fn sign_off_format_needs_name_and_address() {
    let v = PatchValidator::new();
    let ok = v.validate_patch_text("From: a\nSubject: b\n---\nSigned-off-by: A <a@b.c>\n");
    assert!(ok.is_valid);
    // the name may run over a line break
    let wrapped = v.validate_patch_text("From: a\nSubject: b\n---\nSigned-off-by:\nA\n<a@b.c>\n");
    assert!(wrapped.is_valid);
    let no_name = v.validate_patch_text("From: a\nSubject: b\n---\nSigned-off-by:<a@b.c>\n");
    assert_eq!(no_name.errors, vec!["Invalid Signed-off-by format".to_string()]);
    let empty_address = v.validate_patch_text("From: a\nSubject: b\n---\nSigned-off-by: A <>\n");
    assert_eq!(empty_address.errors, vec!["Invalid Signed-off-by format".to_string()]);
}

#[test]
fn long_lines_and_trailing_space_are_warned() {
    let long = "x".repeat(85);
    let text = format!("From: a\nSubject: b \n{}\n---\n+{}\n", long, long);
    let result = PatchValidator::new().with_sign_off_requirement(false).validate_patch_text(&text);
    assert!(result.is_valid);
    assert_eq!(
        result.warnings,
        vec![
            "Line 3 exceeds 80 characters (length: 85)".to_string(),
            "Line 2 has trailing whitespace".to_string(),
            "Missing '---' separator before diff".to_string(),
        ]
    );
    let relaxed = PatchValidator::new()
        .with_sign_off_requirement(false)
        .with_line_length_check(true, 100)
        .with_trailing_whitespace_check(false)
        .validate_patch_text(&text);
    assert_eq!(relaxed.warnings, vec!["Missing '---' separator before diff".to_string()]);
}

#[test]
fn line_length_counts_bytes() {
    // 41 two-byte characters: 82 bytes
    let text = format!("From: a\nSubject: b\n{}\n", "é".repeat(41));
    let result = PatchValidator::new().with_sign_off_requirement(false).validate_patch_text(&text);
    assert_eq!(result.warnings, vec!["Line 3 exceeds 80 characters (length: 82)".to_string()]);
}

#[test]
fn commit_message_checks() {
    let v = PatchValidator::new();
    let good = v.validate_commit(&commit_with(Some(
        "net: fix a leak\n\nBody.\n\nSigned-off-by: A <a@b.c>\n",
    )));
    assert!(good.is_valid);
    assert!(good.warnings.is_empty());

    let long_subject = "x".repeat(73);
    let bad = v.validate_commit(&commit_with(Some(&format!("{}\nno blank line", long_subject))));
    assert!(!bad.is_valid);
    assert_eq!(
        bad.errors,
        vec!["Missing Signed-off-by line (required for kernel patches)".to_string()]
    );
    assert_eq!(
        bad.warnings,
        vec![
            "Subject line is 73 characters (recommended: <= 72)".to_string(),
            "Subject line should follow 'subsystem: description' format".to_string(),
            "Commit message should have empty line after subject".to_string(),
        ]
    );

    // the subject length is counted in characters
    let accented = format!("net: {}\n\nSigned-off-by: A <a@b.c>\n", "é".repeat(40));
    assert!(v.validate_commit(&commit_with(Some(&accented))).warnings.is_empty());
    let long_accented = format!("net: {}\n\nSigned-off-by: A <a@b.c>\n", "é".repeat(68));
    assert_eq!(
        v.validate_commit(&commit_with(Some(&long_accented))).warnings,
        vec!["Subject line is 73 characters (recommended: <= 72)".to_string()]
    );

    let none = v.validate_commit(&commit_with(None));
    assert!(none.is_valid && none.warnings.is_empty());

    let off = PatchValidator::new()
        .with_commit_message_check(false)
        .with_sign_off_requirement(false)
        .validate_commit(&commit_with(Some("no colon")));
    assert!(off.is_valid && off.warnings.is_empty());
}

#[test]
fn tab_indentation_in_c_and_rust_diffs() {
    let diff = "diff --git a/x.c b/x.c\n+    spaced\n+\ttabbed\ndiff --git a/doc.txt b/doc.txt\n+    fine here\ndiff --git a/y.rs b/y.rs\n-    removed\n";
    let result = PatchValidator::new().validate_diff_content(diff);
    assert!(result.is_valid);
    assert_eq!(result.warnings.len(), 2);
    assert_eq!(result.warnings[0], "C/Rust files should use tabs for indentation, not spaces");
    let off = PatchValidator::new().with_tab_indentation_check(false).validate_diff_content(diff);
    assert!(off.warnings.is_empty());
}

#[test]
fn results_track_validity() {
    let mut r = ValidationResult::new();
    assert!(r.is_valid);
    r.add_warning("w".to_string());
    assert!(r.is_valid);
    r.add_error("e".to_string());
    assert!(!r.is_valid);
    assert_eq!(r.errors, vec!["e".to_string()]);
    assert_eq!(r.warnings, vec!["w".to_string()]);
}

#[test]
fn report_texts() {
    let ok = ValidationResult::new();
    assert_eq!(ok.report(), ("\x1b[32m✓ Validation passed\x1b[0m\n".to_string(), String::new()));
    let mut r = ValidationResult::new();
    r.add_error("bad".to_string());
    r.add_warning("meh".to_string());
    assert_eq!(
        r.report(),
        (
            "\x1b[33m⚠ Warnings:\x1b[0m\n\x1b[33m  - meh\x1b[0m\n".to_string(),
            "\x1b[31m✗ Validation errors:\x1b[0m\n\x1b[31m  - bad\x1b[0m\n".to_string()
        )
    );
    let mut only_errors = ValidationResult::new();
    only_errors.add_error("e1".to_string());
    only_errors.add_error("e2".to_string());
    assert_eq!(
        only_errors.report(),
        (
            String::new(),
            "\x1b[31m✗ Validation errors:\x1b[0m\n\x1b[31m  - e1\x1b[0m\n\x1b[31m  - e2\x1b[0m\n".to_string()
        )
    );
}

#[test]
fn default_validator_is_new() {
    let d = PatchValidator::default();
    let text = "From: a\nSubject: b\n";
    assert_eq!(
        d.validate_patch_text(text).errors,
        PatchValidator::new().validate_patch_text(text).errors
    );
}

#[test]
fn validator_from_config_settings() {
    let partial = ValidationConfig {
        check_line_length: None,
        max_line_length: Some(100),
        check_trailing_whitespace: Some(false),
        check_tab_indentation: None,
        require_sign_off: Some(false),
        check_commit_message_format: None,
    };
    let v = PatchValidator::from_config(&partial);
    let long = "x".repeat(90);
    let text = format!("From: a\nSubject: b \n{}\n", long);
    // 90 bytes are within the configured limit, trailing space is not checked,
    // no sign-off is required
    let r = v.validate_patch_text(&text);
    assert_eq!(r.errors, vec!["Missing diff content".to_string()]);
    assert!(r.warnings.is_empty());
    // the default configuration gives the default validator
    let d = PatchValidator::from_config(&Config::default().validation.unwrap());
    assert_eq!(
        d.validate_patch_text(&text).warnings,
        PatchValidator::new().validate_patch_text(&text).warnings
    );
}
