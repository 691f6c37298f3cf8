use stager::Action;
use stager::App;
use stager::FileType;
use stager::FocusArea;
use stager::Key;
use stager::StatusFiles;
use stager::handle_key_event;
use stager::parse_diff_output;

fn status(staged: &[&str], not_staged: &[&str], untracked: &[&str]) -> StatusFiles {
    StatusFiles {
        staged: staged.iter().map(|s| s.to_string()).collect(),
        not_staged: not_staged.iter().map(|s| s.to_string()).collect(),
        untracked: untracked.iter().map(|s| s.to_string()).collect(),
    }
}

#[test]
fn test_commit_input() {
    let mut app = App::new();
    app.focus = FocusArea::Commit;

    // Type a message
    handle_key_event(&mut app, Key::Char('t'), 10);
    handle_key_event(&mut app, Key::Char('e'), 10);
    handle_key_event(&mut app, Key::Char('s'), 10);
    handle_key_event(&mut app, Key::Char('t'), 10);
    assert_eq!(app.commit_message, "test");

    // Backspace
    handle_key_event(&mut app, Key::Backspace, 10);
    assert_eq!(app.commit_message, "tes");

    // Every character belongs to the message here, 'q' included.
    handle_key_event(&mut app, Key::Char('q'), 10);
    assert_eq!(app.commit_message, "tesq");
    assert!(!app.should_quit);

    // Quit is its own input.
    handle_key_event(&mut app, Key::Quit, 10);
    assert!(app.should_quit)
}

#[test]
fn test_quit_keys_per_pane() {
    // In the file list and the diff pane, where characters have no
    // editing role, 'q' quits; the dedicated quit input quits anywhere.
    let mut app = App::new();
    assert!(matches!(app.focus, FocusArea::Files));
    handle_key_event(&mut app, Key::Char('q'), 10);
    assert!(app.should_quit);

    let mut app = App::new();
    app.focus = FocusArea::Diff;
    handle_key_event(&mut app, Key::Char('q'), 10);
    assert!(app.should_quit);

    let mut app = App::new();
    app.focus = FocusArea::Diff;
    handle_key_event(&mut app, Key::Quit, 10);
    assert!(app.should_quit);

    // In the commit pane a 'q' is text, never a command.
    let mut app = App::new();
    app.focus = FocusArea::Commit;
    handle_key_event(&mut app, Key::Char('q'), 10);
    assert!(!app.should_quit);
    assert_eq!(app.commit_message, "q");
}

#[test]
fn test_focus_movement() {
    let mut app = App::new();
    app.update_status(status(&[], &[], &["new_file.txt"]));

    // Initial state: Files focus
    assert!(matches!(app.focus, FocusArea::Files));
    assert!(matches!(app.selected_file_type, FileType::Staged));
    assert_eq!(app.selected_file_index, 0);

    // Press Up at index 0 of the staged section -> focus moves to Commit
    handle_key_event(&mut app, Key::Up, 10);
    assert!(matches!(app.focus, FocusArea::Commit));

    // Press Down -> focus moves back to Files
    handle_key_event(&mut app, Key::Down, 10);
    assert!(matches!(app.focus, FocusArea::Files));
    assert!(matches!(app.selected_file_type, FileType::Staged));
    assert_eq!(app.selected_file_index, 0);
}

#[test]
fn test_file_navigation_does_not_switch_focus() {
    let mut app = App::new();
    app.update_status(status(&["file1.txt", "file2.txt"], &[], &[]));

    assert_eq!(app.status.total_files(), 2);
    app.selected_file_type = FileType::Staged;
    app.selected_file_index = 1; // Start at the second file

    // Press Up, should not change focus
    handle_key_event(&mut app, Key::Up, 10);
    assert!(matches!(app.focus, FocusArea::Files));
    assert_eq!(app.selected_file_index, 0);
}

#[test]
fn test_commit_decision_requires_message() {
    let mut app = App::new();
    app.focus = FocusArea::Commit;
    let action = handle_key_event(&mut app, Key::Enter, 10);
    assert!(matches!(action, Action::Nothing));

    handle_key_event(&mut app, Key::Char('m'), 10);
    let action = handle_key_event(&mut app, Key::Enter, 10);
    match action {
        Action::Commit(message) => assert_eq!(message, "m"),
        _ => panic!("expected a commit request"),
    }
    // The buffer is only cleared once the commit is known to have succeeded.
    assert_eq!(app.commit_message, "m");
    app.clear_commit_message();
    assert_eq!(app.commit_message, "");
}

#[test]
fn test_navigation_ring_returns_to_start() {
    // Move down once per listed file: the selection comes back around.
    let mut app = App::new();
    app.update_status(status(&["a", "b"], &["c", "d", "e"], &["f"]));
    app.selected_file_type = FileType::NotStaged;
    app.selected_file_index = 1;

    let total = app.status.total_files();
    assert_eq!(total, 6);
    for _ in 0..total {
        app.select_next();
    }
    assert!(matches!(app.selected_file_type, FileType::NotStaged));
    assert_eq!(app.selected_file_index, 1);
}

#[test]
fn test_navigation_skips_empty_sections() {
    let mut app = App::new();
    app.update_status(status(&["a"], &[], &["b", "c"]));
    assert!(matches!(app.selected_file_type, FileType::Staged));

    app.select_next();
    assert!(matches!(app.selected_file_type, FileType::Untracked));
    assert_eq!(app.selected_file_index, 0);

    app.select_next();
    assert_eq!(app.selected_file_index, 1);

    app.select_next(); // wraps back to the staged section
    assert!(matches!(app.selected_file_type, FileType::Staged));
    assert_eq!(app.selected_file_index, 0);

    app.select_previous(); // and back again
    assert!(matches!(app.selected_file_type, FileType::Untracked));
    assert_eq!(app.selected_file_index, 1);
}

#[test]
fn test_update_status_clamps_selection() {
    let mut app = App::new();
    app.update_status(status(&["a", "b", "c"], &[], &[]));
    app.selected_file_index = 2;

    // The section shrank past the selection: pulled to the last entry.
    app.update_status(status(&["a", "b"], &[], &[]));
    assert_eq!(app.selected_file_index, 1);

    // The section emptied: selection resets to zero.
    app.update_status(status(&[], &[], &[]));
    assert_eq!(app.selected_file_index, 0);
}

#[test]
fn test_toggle_selection_decisions() {
    let mut app = App::new();
    app.update_status(status(&["s.txt"], &["n.txt"], &["u.txt"]));

    app.selected_file_type = FileType::Staged;
    app.selected_file_index = 0;
    let req = app.toggle_selection().unwrap();
    assert_eq!(req.path, "s.txt");
    assert!(req.unstage);

    app.selected_file_type = FileType::NotStaged;
    let req = app.toggle_selection().unwrap();
    assert_eq!(req.path, "n.txt");
    assert!(!req.unstage);

    app.selected_file_type = FileType::Untracked;
    let req = app.toggle_selection().unwrap();
    assert_eq!(req.path, "u.txt");
    assert!(!req.unstage);

    // Nothing selected: nothing to do.
    app.update_status(status(&[], &[], &[]));
    app.selected_file_type = FileType::Staged;
    assert!(app.toggle_selection().is_none());
}

#[test]
fn test_update_diff_parses_and_resets_cursor() {
    let mut app = App::new();
    app.diff_selected_line = 7;
    app.diff_scroll = 3;
    let text = "header\n@@ -1 +1 @@\n-a\n+b";
    app.update_diff(Some(Ok(text.to_string())));
    assert_eq!(app.diff, text);
    assert_eq!(app.diff_selected_line, 0);
    assert_eq!(app.diff_scroll, 0);
    let parsed = app.parsed_diff.as_ref().unwrap();
    assert_eq!(parsed.header, "header");
    assert_eq!(parsed.hunks.len(), 1);

    app.update_diff(Some(Err("boom".to_string())));
    assert_eq!(app.diff, "Failed to generate diff: boom");
    assert!(app.parsed_diff.is_none());

    app.update_diff(None);
    assert_eq!(app.diff, "");
    assert!(app.parsed_diff.is_none());
}

#[test]
fn test_diff_cursor_moves_and_scrolls() {
    let mut app = App::new();
    app.focus = FocusArea::Diff;
    app.update_diff(Some(Ok("l0\nl1\nl2\nl3".to_string())));

    // Window of two lines: moving past its bottom edge scrolls.
    handle_key_event(&mut app, Key::Down, 2);
    assert_eq!(app.diff_selected_line, 1);
    assert_eq!(app.diff_scroll, 0);
    handle_key_event(&mut app, Key::Down, 2);
    assert_eq!(app.diff_selected_line, 2);
    assert_eq!(app.diff_scroll, 1);
    handle_key_event(&mut app, Key::Down, 2);
    assert_eq!(app.diff_selected_line, 3);
    assert_eq!(app.diff_scroll, 2);

    // The cursor stops at the last line.
    handle_key_event(&mut app, Key::Down, 2);
    assert_eq!(app.diff_selected_line, 3);

    // Moving back up above the window scrolls the other way.
    handle_key_event(&mut app, Key::Up, 2);
    handle_key_event(&mut app, Key::Up, 2);
    assert_eq!(app.diff_selected_line, 1);
    assert_eq!(app.diff_scroll, 1);
    handle_key_event(&mut app, Key::Up, 2);
    assert_eq!(app.diff_selected_line, 0);
    assert_eq!(app.diff_scroll, 0);
    handle_key_event(&mut app, Key::Up, 2);
    assert_eq!(app.diff_selected_line, 0);
}

#[test]
fn test_enter_in_diff_view_builds_reverse_patch_for_staged_file() {
    let mut app = App::new();
    app.update_status(status(&["test.txt"], &[], &[]));
    app.focus = FocusArea::Diff;
    let diff_text = "diff --git a/test.txt b/test.txt\n--- a/test.txt\n+++ b/test.txt\n@@ -1,3 +1,3 @@\n-line 1\n+line 1 modified\n line 2\n line 3";
    app.update_diff(Some(Ok(diff_text.to_string())));
    app.diff_selected_line = 5; // a line inside the hunk

    let action = handle_key_event(&mut app, Key::Enter, 10);
    match action {
        Action::ApplyPatch(request) => {
            assert!(request.reverse);
            assert_eq!(
                request.patch,
                "diff --git a/test.txt b/test.txt\n--- a/test.txt\n+++ b/test.txt\n@@ -1,3 +1,3 @@\n-line 1\n+line 1 modified\n line 2\n line 3\n"
            );
        }
        _ => panic!("expected a patch request"),
    }
}

#[test]
fn test_enter_in_diff_view_on_header_does_nothing() {
    let mut app = App::new();
    app.update_status(status(&[], &["f"], &[]));
    app.focus = FocusArea::Diff;
    app.update_diff(Some(Ok("header line\n@@ -1 +1 @@\n-a\n+b".to_string())));
    app.diff_selected_line = 0; // still in the header
    let action = handle_key_event(&mut app, Key::Enter, 10);
    assert!(matches!(action, Action::Nothing));
}

#[test]
fn test_apply_hunk_adjusts_for_scroll() {
    let mut app = App::new();
    app.update_status(status(&[], &["f"], &[]));
    app.selected_file_type = FileType::NotStaged;
    // Rendered lines: 0 header, 1..=3 hunk 0, 4..=6 hunk 1.
    let text = "h\n@@ -1 +1 @@\n-a\n+b\n@@ -5 +5 @@\n-c\n+d";
    app.update_diff(Some(Ok(text.to_string())));
    app.diff_selected_line = 6;
    app.diff_scroll = 2;
    // The cursor line adjusted for scroll is 4: the second hunk.
    let request = app.apply_hunk().unwrap();
    assert!(!request.reverse);
    assert_eq!(request.patch, "h\n@@ -5 +5 @@\n-c\n+d\n");
}

#[test]
fn test_selected_file_follows_selection() {
    let mut app = App::new();
    app.update_status(status(&["a"], &["b"], &[]));
    app.selected_file_type = FileType::NotStaged;
    app.selected_file_index = 0;
    let (path, section) = app.get_selected_file().unwrap();
    assert_eq!(path, "b");
    assert!(matches!(section, FileType::NotStaged));

    app.selected_file_type = FileType::Untracked;
    assert!(app.get_selected_file().is_none());
}

#[test]
fn test_parse_after_update_diff_matches_direct_parse() {
    let text = "x\n@@ -1 +1 @@\n-a\n+b";
    let direct = parse_diff_output(text);
    let mut app = App::new();
    app.update_diff(Some(Ok(text.to_string())));
    let via_app = app.parsed_diff.as_ref().unwrap();
    assert_eq!(direct.header, via_app.header);
    assert_eq!(direct.hunks, via_app.hunks);
}
