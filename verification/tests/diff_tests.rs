use stager::ParsedDiff;
use stager::create_patch_from_hunk;
use stager::diff_failure_message;
use stager::format_untracked_diff;
use stager::get_hunk_index_from_line;
use stager::parse_diff_output;
use stager::render_diff_line;

#[test]
fn test_parse_diff_output() {
    let diff_output = r###"diff --git a/file.txt b/file.txt
index 1234567..abcdefg 100644
---
+++ b/file.txt
@@ -1,3 +1,4 @@
 line 1
-line 2
+line 2 modified
+line 3 new
 line 3
@@ -10,2 +11,2 @@
 line 10
-line 11 old
+line 11 new"###;

    let parsed_diff = parse_diff_output(diff_output);

    assert_eq!(
        parsed_diff.header,
        "diff --git a/file.txt b/file.txt\nindex 1234567..abcdefg 100644\n---
+++ b/file.txt"
    );
    assert_eq!(parsed_diff.hunks.len(), 2);
    assert_eq!(
        parsed_diff.hunks[0],
        "@@ -1,3 +1,4 @@\n line 1\n-line 2\n+line 2 modified\n+line 3 new\n line 3"
    );
    assert_eq!(
        parsed_diff.hunks[1],
        "@@ -10,2 +11,2 @@\n line 10\n-line 11 old\n+line 11 new"
    );
}

#[test]
fn test_create_patch_from_hunk() {
    let diff_output = r###"diff --git a/file.txt b/file.txt
index 1234567..abcdefg 100644
--- a/file.txt
+++ b/file.txt
@@ -1,3 +1,4 @@
 line 1
-line 2
+line 2 modified
+line 3 new
 line 3
@@ -10,2 +11,2 @@
 line 10
-line 11 old
+line 11 new"###;

    let parsed_diff = parse_diff_output(diff_output);

    // Test with the first hunk (index 0)
    let patch_hunk_0 = create_patch_from_hunk(&parsed_diff, 0).unwrap();
    let expected_patch_hunk_0 = r###"diff --git a/file.txt b/file.txt
index 1234567..abcdefg 100644
--- a/file.txt
+++ b/file.txt
@@ -1,3 +1,4 @@
 line 1
-line 2
+line 2 modified
+line 3 new
 line 3
"###;
    assert_eq!(patch_hunk_0, expected_patch_hunk_0);

    // Test with the second hunk (index 1)
    let patch_hunk_1 = create_patch_from_hunk(&parsed_diff, 1).unwrap();
    let expected_patch_hunk_1 = r###"diff --git a/file.txt b/file.txt
index 1234567..abcdefg 100644
--- a/file.txt
+++ b/file.txt
@@ -10,2 +11,2 @@
 line 10
-line 11 old
+line 11 new
"###;
    assert_eq!(patch_hunk_1, expected_patch_hunk_1);

    // Test with an out-of-bounds index
    let patch_out_of_bounds = create_patch_from_hunk(&parsed_diff, 2);
    assert!(patch_out_of_bounds.is_none());
}

#[test]
fn test_parse_diff_starting_with_marker() {
    let diff_output = "@@ -1,3 +1,4 @@\n line1\n-line2\n+line2 mod\n+line3\n line3\n@@ -10,2 +11,2 @@\n line10\n-line11 old\n+line11 new";
    let parsed = parse_diff_output(diff_output);
    assert_eq!(parsed.header, "");
    assert_eq!(parsed.hunks.len(), 2);
    assert_eq!(
        parsed.hunks[1],
        "@@ -10,2 +11,2 @@\n line10\n-line11 old\n+line11 new"
    );
}

#[test]
fn test_parse_diff_without_hunks() {
    let text = "just some text\nwith no markers";
    let parsed = parse_diff_output(text);
    assert_eq!(parsed.header, text);
    assert_eq!(parsed.hunks.len(), 0);
}

#[test]
fn test_parse_empty_diff() {
    let parsed = parse_diff_output("");
    assert_eq!(parsed.header, "");
    assert_eq!(parsed.hunks.len(), 0);
}

#[test]
fn test_header_same_after_hunks_are_appended() {
    let header_only = "diff --git a/x b/x\n--- a/x\n+++ b/x";
    let one_hunk = "diff --git a/x b/x\n--- a/x\n+++ b/x\n@@ -1 +1 @@\n-a\n+b";
    let two_hunks = "diff --git a/x b/x\n--- a/x\n+++ b/x\n@@ -1 +1 @@\n-a\n+b\n@@ -5 +5 @@\n-c\n+d";
    let h0 = parse_diff_output(header_only);
    let h1 = parse_diff_output(one_hunk);
    let h2 = parse_diff_output(two_hunks);
    assert_eq!(h0.header, h1.header);
    assert_eq!(h1.header, h2.header);
    assert_eq!(h0.hunks.len(), 0);
    assert_eq!(h1.hunks.len(), 1);
    assert_eq!(h2.hunks.len(), 2);
}

#[test]
fn test_patch_body_is_header_plus_hunk() {
    let parsed = ParsedDiff {
        header: String::from("h1\nh2"),
        hunks: vec![String::from("@@ -1 +1 @@\n-a\n+b")],
    };
    let patch = create_patch_from_hunk(&parsed, 0).unwrap();
    assert_eq!(patch, "h1\nh2\n@@ -1 +1 @@\n-a\n+b\n");
    assert!(create_patch_from_hunk(&parsed, 1).is_none());
}

#[test]
fn test_isolated_patch_reparses_cleanly() {
    // The patch for one hunk is self-sufficient: parsed on its own it
    // shows the shared header and exactly that hunk.
    let text = "h1\nh2\n@@ -1 +1 @@\n-a\n+b\n@@ -5 +5 @@\n-c\n+d";
    let parsed = parse_diff_output(text);
    assert_eq!(parsed.hunks.len(), 2);
    for j in 0..parsed.hunks.len() {
        let patch = create_patch_from_hunk(&parsed, j).unwrap();
        let reparsed = parse_diff_output(&patch);
        assert_eq!(reparsed.header, parsed.header);
        assert_eq!(reparsed.hunks.len(), 1);
        assert_eq!(reparsed.hunks[0], parsed.hunks[j]);
    }
}

#[test]
fn test_get_hunk_index_from_line() {
    // Rendered lines: 0..=3 header, 4..=9 hunk 0, 10..=13 hunk 1.
    let diff_output = "diff --git a/f b/f\nindex 1..2 100644\n--- a/f\n+++ b/f\n@@ -1,3 +1,4 @@\n l1\n-l2\n+l2m\n+l3\n l3\n@@ -10,2 +11,2 @@\n l10\n-l11\n+l11n";
    let parsed = parse_diff_output(diff_output);
    assert_eq!(parsed.hunks.len(), 2);
    assert_eq!(get_hunk_index_from_line(&parsed, 0), None);
    assert_eq!(get_hunk_index_from_line(&parsed, 3), None);
    assert_eq!(get_hunk_index_from_line(&parsed, 4), Some(0));
    assert_eq!(get_hunk_index_from_line(&parsed, 9), Some(0));
    assert_eq!(get_hunk_index_from_line(&parsed, 10), Some(1));
    assert_eq!(get_hunk_index_from_line(&parsed, 13), Some(1));
    assert_eq!(get_hunk_index_from_line(&parsed, 14), None);
}

#[test]
fn test_render_diff_line() {
    assert_eq!(render_diff_line('+', "added\n"), "+added\n");
    assert_eq!(render_diff_line('-', "gone\n"), "-gone\n");
    assert_eq!(render_diff_line('=', "eof"), "=eof");
    assert_eq!(render_diff_line('H', "diff --git a/f b/f\n"), "diff --git a/f b/f\n");
    assert_eq!(render_diff_line('F', "meta\n"), "meta\n");
    assert_eq!(render_diff_line('B', "bin\n"), "bin\n");
    assert_eq!(render_diff_line(' ', "context\n"), " context\n");
    assert_eq!(render_diff_line('x', "odd\n"), " odd\n");
}

#[test]
fn test_format_untracked_diff() {
    assert_eq!(format_untracked_diff("one\ntwo\n"), "+one\n+two");
    assert_eq!(format_untracked_diff("single"), "+single");
    assert_eq!(format_untracked_diff(""), "");
    assert_eq!(format_untracked_diff("a\n\nb"), "+a\n+\n+b");
}

#[test]
fn test_diff_failure_message() {
    assert_eq!(
        diff_failure_message("no such path"),
        "Failed to generate diff: no such path"
    );
}
