use clawlet_core::hunk::{parse_hunk_header, Count, HunkHeader};
use clawlet_core::patch::{validate, validate_patch, PatchError};

#[test]
fn empty_patch_is_rejected() {
    assert_eq!(validate_patch(""), (false, "Patch is empty".to_string()));
}

#[test]
fn blank_patch_is_rejected_as_empty() {
    assert_eq!(validate_patch("  \n\t\r\n"), (false, "Patch is empty".to_string()));
    assert!(matches!(validate("\u{3000}\u{a0}"), Err(PatchError::EmptyPatch)));
}

#[test]
fn text_without_hunk_is_rejected() {
    let (ok, reason) = validate_patch("no markers here");
    assert!(!ok);
    assert!(reason.contains("hunk"));
    assert_eq!(
        reason,
        "Patch must contain at least one unified diff hunk (@@ ...)."
    );
}

#[test]
fn preamble_only_is_rejected() {
    let (ok, reason) = validate_patch("diff --git a/x b/x\nindex 123..456\n--- a/x\n+++ b/x\n");
    assert!(!ok);
    assert!(reason.contains("hunk"));
}

#[test]
fn consistent_hunk_is_accepted() {
    assert_eq!(
        validate_patch("@@ -1,2 +1,3 @@\n-line\n+line1\n+line2\n line3\n"),
        (true, "ok".to_string())
    );
}

#[test]
fn new_side_mismatch_is_named() {
    let (ok, reason) = validate_patch("@@ -1,1 +1,2 @@\n-line\n+line1\n");
    assert!(!ok);
    assert_eq!(reason, "New-side hunk line count mismatch: expected 2, got 1");
}

#[test]
fn old_side_mismatch_is_named() {
    let (ok, reason) = validate_patch("@@ -1,2 +1,1 @@\n-line\n+line1\n");
    assert!(!ok);
    assert_eq!(reason, "Old-side hunk line count mismatch: expected 2, got 1");
    assert!(matches!(
        validate("@@ -1,2 +1,1 @@\n-line\n+line1\n"),
        Err(PatchError::OldCountMismatch { expected: 2, seen: 1 })
    ));
}

#[test]
fn omitted_counts_mean_one_line() {
    assert_eq!(validate_patch("@@ -1 +1 @@\n-a\n+a\n"), (true, "ok".to_string()));
    let (ok, reason) = validate_patch("@@ -1 +1 @@\n-a\n-b\n+a\n");
    assert!(!ok);
    assert_eq!(reason, "Old-side hunk line count mismatch: expected 1, got 2");
}

#[test]
fn mismatch_is_found_when_next_hunk_starts() {
    let p = "@@ -1,2 +1,2 @@\n a\n@@ -5,1 +5,1 @@\n b\n";
    assert_eq!(
        validate_patch(p),
        (false, "Old-side hunk line count mismatch: expected 2, got 1".to_string())
    );
}

#[test]
fn several_hunks_with_headers_are_accepted() {
    let p = "diff --git a/f b/f\nindex 1..2 100644\n--- a/f\n+++ b/f\n@@ -1,2 +1,2 @@ fn main\n a\n-b\n+c\n@@ -10 +10,2 @@\n x\n+y\n\\ No newline at end of file\n";
    assert_eq!(validate_patch(p), (true, "ok".to_string()));
}

#[test]
fn crlf_lines_are_accepted() {
    assert_eq!(validate_patch("@@ -1 +1 @@\r\n-a\r\n+b\r\n"), (true, "ok".to_string()));
}

#[test]
fn last_line_without_newline_counts() {
    assert_eq!(validate_patch("@@ -1 +1 @@\n-a\n+b"), (true, "ok".to_string()));
}

#[test]
fn unsupported_line_is_named() {
    let (ok, reason) = validate_patch("@@ -1 +1 @@\n-a\nplain\n+b\n");
    assert!(!ok);
    assert_eq!(reason, "Unsupported patch line in hunk: plain");
}

#[test]
fn empty_line_in_hunk_is_unsupported() {
    let (ok, reason) = validate_patch("@@ -1 +1 @@\n-a\n\n+b\n");
    assert!(!ok);
    assert_eq!(reason, "Unsupported patch line in hunk: ");
}

#[test]
fn zero_count_is_checked() {
    assert_eq!(validate_patch("@@ -0,0 +1,1 @@\n+new\n"), (true, "ok".to_string()));
    let (ok, reason) = validate_patch("@@ -0,0 +1,1 @@\n-old\n+new\n");
    assert!(!ok);
    assert_eq!(reason, "Old-side hunk line count mismatch: expected 0, got 1");
}

#[test]
fn validation_is_repeatable() {
    let p = "@@ -1,2 +1,3 @@\n-line\n+line1\n+line2\n line3\n";
    assert_eq!(validate_patch(p), validate_patch(p));
    let q = "@@ -3 +3 @@\n-x\n";
    assert_eq!(validate_patch(q), validate_patch(q));
}

#[test]
fn header_is_parsed() {
    assert_eq!(
        parse_hunk_header("@@ -12,3 +14,5 @@ context"),
        Some(HunkHeader {
            old_start: Some(12),
            old_count: Count::Given(3),
            new_start: Some(14),
            new_count: Count::Given(5),
        })
    );
}

#[test]
fn header_with_omitted_counts() {
    let h = parse_hunk_header("@@ -1 +1 @@").unwrap();
    assert_eq!(h.old_count, Count::Omitted);
    assert_eq!(h.new_count, Count::Omitted);
    assert_eq!(h.old_count.lines(), 1);
    assert_eq!(h.new_count.lines(), 1);
}

#[test]
fn oversized_count_is_lenient() {
    let h = parse_hunk_header("@@ -1,99999999999999999999999 +1,0 @@").unwrap();
    assert_eq!(h.old_count, Count::Lenient);
    assert_eq!(h.old_count.lines(), 1);
    assert_eq!(h.new_count, Count::Given(0));
    assert_eq!(
        parse_hunk_header("@@ -99999999999999999999999 +1 @@").unwrap().old_start,
        None
    );
}

#[test]
fn malformed_headers_are_not_headers() {
    assert_eq!(parse_hunk_header("@@ -a +1 @@"), None);
    assert_eq!(parse_hunk_header("@@ -1, +1 @@"), None);
    assert_eq!(parse_hunk_header("@@ -1 +1 @"), None);
    assert_eq!(parse_hunk_header(" @@ -1 +1 @@"), None);
    assert_eq!(parse_hunk_header("@@ -1 +1"), None);
    assert_eq!(parse_hunk_header(""), None);
}
