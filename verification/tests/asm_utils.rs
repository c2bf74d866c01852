use shapshap::asm_utils::{calculate_patch_checksum, fast_count_lines, fast_sanitize_string};

#[test]
fn test_checksum() {
    let data = b"test data";
    let checksum = calculate_patch_checksum(data);
    assert!(checksum > 0);
}

#[test]
fn test_line_count() {
    let data = b"line1\nline2\nline3";
    let count = fast_count_lines(data);
    assert_eq!(count, 2);
}

#[test]
fn test_asm_utils() {
    // Test string sanitization
    let input = "test/file-name.txt";
    let output = fast_sanitize_string(input);
    assert_eq!(output, "test/file-name.txt");

    // Test checksum
    let data = b"test data";
    let checksum = calculate_patch_checksum(data);
    assert!(checksum > 0);

    // Test line counting
    let data = b"line1\nline2\nline3";
    let count = fast_count_lines(data);
    assert_eq!(count, 2);
}

#[test]
fn checksum_is_the_byte_sum() {
    // 't'+'e'+'s'+'t'+' '+'d'+'a'+'t'+'a' = 116+101+115+116+32+100+97+116+97
    assert_eq!(calculate_patch_checksum(b"test data"), 890);
    assert_eq!(calculate_patch_checksum(b""), 0);
    assert_eq!(calculate_patch_checksum(&[255u8, 1]), 256);
}

#[test]
fn checksum_of_joined_text_is_the_wrapping_sum() {
    let a = b"From: Test <test@example.com>\n";
    let b = b"Subject: [PATCH] x\n";
    let mut joined = a.to_vec();
    joined.extend_from_slice(b);
    assert_eq!(
        calculate_patch_checksum(&joined),
        calculate_patch_checksum(a).wrapping_add(calculate_patch_checksum(b))
    );
}

#[test]
fn checksum_wraps_at_two_to_the_thirty_two() {
    // 16843010 bytes of 255 sum to 4294967550 = 2^32 + 254
    let data = vec![255u8; 16_843_010];
    assert_eq!(calculate_patch_checksum(&data), 254);
}

#[test]
fn line_count_edges() {
    assert_eq!(fast_count_lines(b""), 0);
    assert_eq!(fast_count_lines(b"\n"), 1);
    assert_eq!(fast_count_lines(b"no newline"), 0);
    assert_eq!(fast_count_lines(b"a\r\nb\r\n"), 2);
}

#[test]
fn line_count_of_joined_text_adds_up() {
    let a = b"one\ntwo\n";
    let b = b"three\nfour";
    let mut joined = a.to_vec();
    joined.extend_from_slice(b);
    assert_eq!(fast_count_lines(&joined), fast_count_lines(a) + fast_count_lines(b));
}

#[test]
fn sanitize_replaces_other_characters() {
    assert_eq!(fast_sanitize_string("drivers: Add x"), "drivers--Add-x");
    assert_eq!(fast_sanitize_string("a_b.c-d"), "a_b.c-d");
    assert_eq!(fast_sanitize_string("fix (foo) & bar!"), "fix--foo----bar-");
    // Unicode alphanumerics are kept, other symbols are not
    assert_eq!(fast_sanitize_string("naïve→x"), "naïve-x");
    assert_eq!(fast_sanitize_string(""), "");
}

#[test]
fn sanitize_is_idempotent() {
    for s in ["drivers/char: Add feature", "  weird ~ input ", "naïve→x", "a..b"] {
        let once = fast_sanitize_string(s);
        assert_eq!(fast_sanitize_string(&once), once);
        assert_eq!(once.chars().count(), s.chars().count());
    }
}
