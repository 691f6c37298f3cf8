//! The input state machine: what one key does, given where the focus
//! is.
//!
//! In the commit pane keys edit the message buffer and confirm commits;
//! in the file list they move the selection, toggle staging and hand
//! focus around; in the diff pane they move the cursor, keep it inside
//! the visible window, and stage or unstage the hunk under it.  Every
//! repository effect is returned as an [`Action`] for the caller to
//! perform.

use vstd::prelude::*;

use crate::app::App;
use crate::app::FocusArea;
use crate::app::PatchRequest;
use crate::app::StageRequest;
use crate::diff::hunk_covers_line;
use crate::diff::patch_text;
use crate::select::spec_select_next;
use crate::select::spec_select_previous;
use crate::status::FileType;
use crate::text::line_count;

verus! {

/// One input event, already decoded from whatever the terminal sent.
///
/// Quitting is its own input: while the commit pane has focus every
/// character belongs to the message buffer, so no character can double
/// as the quit command there.
#[derive(Clone, Copy, PartialEq, Eq, Structural, Debug)]
pub enum Key {
    Char(char),
    Backspace,
    Enter,
    Up,
    Down,
    Left,
    Right,
    Quit,
}

/// What the caller must do to the repository after a key was handled —
/// the state machine itself never touches the backend.
pub enum Action {
    /// No repository work.
    Nothing,
    /// The selection moved: render the diff for the now-selected file.
    RefreshDiff,
    /// Stage or unstage one whole file, then rescan the status.
    Toggle(StageRequest),
    /// Write a commit with this message; on success clear the buffer
    /// and rescan.
    Commit(String),
    /// Apply one isolated hunk to the index, then rescan.
    ApplyPatch(PatchRequest),
}

/// What a key does while the commit pane has focus: every character —
/// without exception — extends the message, backspace shortens it,
/// confirm asks for a commit of a non-empty message, moving down hands
/// focus to the file list, and only the dedicated quit input quits.
pub open spec fn spec_commit_keys(o: App, f: App, key: Key, action: Action) -> bool {
    match key {
        Key::Char(c) => {
            &&& f == (App { commit_message: f.commit_message, ..o })
            &&& f.commit_message@ == o.commit_message@.push(c)
            &&& action is Nothing
        },
        Key::Quit => f == (App { should_quit: true, ..o }) && action is Nothing,
        Key::Backspace => {
            &&& f == (App { commit_message: f.commit_message, ..o })
            &&& (o.commit_message@.len() == 0 ==> f.commit_message@ == o.commit_message@)
            &&& (o.commit_message@.len() > 0 ==> f.commit_message@
                == o.commit_message@.drop_last())
            &&& action is Nothing
        },
        Key::Enter => {
            &&& f == o
            &&& (if o.commit_message@.len() > 0 {
                action matches Action::Commit(m) && m@ == o.commit_message@
            } else {
                action is Nothing
            })
        },
        Key::Down => f == (App { focus: FocusArea::Files, ..o }) && action is Nothing,
        _ => f == o && action is Nothing,
    }
}

/// What a key does while the file list has focus: up and down walk the
/// selection ring — except that up at the very top of the staged
/// section hands focus to the commit pane —, confirm toggles the
/// selected file between staged and not, moving right focuses the diff
/// pane, and the quit input or `'q'` quits (characters have no editing
/// role here).
pub open spec fn spec_files_keys(o: App, f: App, key: Key, action: Action) -> bool {
    match key {
        Key::Char(c) => {
            if c == 'q' {
                f == (App { should_quit: true, ..o }) && action is Nothing
            } else {
                f == o && action is Nothing
            }
        },
        Key::Quit => f == (App { should_quit: true, ..o }) && action is Nothing,
        Key::Down => {
            &&& f == (App {
                selected_file_type: f.selected_file_type,
                selected_file_index: f.selected_file_index,
                ..o
            })
            &&& f.spec_selection() == spec_select_next(
                o.status.staged@.len(),
                o.status.not_staged@.len(),
                o.status.untracked@.len(),
                o.spec_selection(),
            )
            &&& action is RefreshDiff
        },
        Key::Up => {
            if o.selected_file_index == 0 && o.selected_file_type is Staged {
                f == (App { focus: FocusArea::Commit, ..o }) && action is Nothing
            } else {
                &&& f == (App {
                    selected_file_type: f.selected_file_type,
                    selected_file_index: f.selected_file_index,
                    ..o
                })
                &&& f.spec_selection() == spec_select_previous(
                    o.status.staged@.len(),
                    o.status.not_staged@.len(),
                    o.status.untracked@.len(),
                    o.spec_selection(),
                )
                &&& action is RefreshDiff
            }
        },
        Key::Enter => {
            &&& f == o
            &&& (if o.selected_file_index < o.status.spec_section_len(o.selected_file_type) {
                action matches Action::Toggle(req) && req.path@ == o.status.spec_section(
                    o.selected_file_type,
                )[o.selected_file_index as int]@ && req.unstage == (o.selected_file_type
                    is Staged)
            } else {
                action is Nothing
            })
        },
        Key::Right => f == (App { focus: FocusArea::Diff, ..o }) && action is Nothing,
        _ => f == o && action is Nothing,
    }
}

/// The diff cursor after one "move down": one line further, stopped at
/// the last line.
pub open spec fn spec_cursor_down(o: App) -> int {
    if o.diff_selected_line + 1 < line_count(o.diff@) {
        o.diff_selected_line + 1
    } else {
        line_count(o.diff@) - 1
    }
}

/// What a key does while the diff pane has focus: up and down move the
/// cursor one rendered line, nudging the scroll offset whenever the
/// cursor would leave the window of `height` lines; confirm asks to
/// apply the hunk under the cursor — in reverse for a staged file,
/// forward otherwise —; moving left returns focus to the file list;
/// and the quit input or `'q'` quits (characters have no editing role
/// here).
pub open spec fn spec_diff_keys(o: App, f: App, key: Key, height: u16, action: Action) -> bool {
    match key {
        Key::Char(c) => {
            if c == 'q' {
                f == (App { should_quit: true, ..o }) && action is Nothing
            } else {
                f == o && action is Nothing
            }
        },
        Key::Quit => f == (App { should_quit: true, ..o }) && action is Nothing,
        Key::Left => f == (App { focus: FocusArea::Files, ..o }) && action is Nothing,
        Key::Down => {
            &&& (if line_count(o.diff@) > 0 {
                &&& f == (App {
                    diff_selected_line: f.diff_selected_line,
                    diff_scroll: f.diff_scroll,
                    ..o
                })
                &&& f.diff_selected_line == spec_cursor_down(o)
                &&& f.diff_scroll == (if spec_cursor_down(o) >= o.diff_scroll + height {
                    if o.diff_scroll == u16::MAX {
                        u16::MAX
                    } else {
                        (o.diff_scroll + 1) as u16
                    }
                } else {
                    o.diff_scroll
                })
            } else {
                f == o
            })
            &&& action is Nothing
        },
        Key::Up => {
            &&& (if o.diff_selected_line > 0 {
                &&& f == (App {
                    diff_selected_line: f.diff_selected_line,
                    diff_scroll: f.diff_scroll,
                    ..o
                })
                &&& f.diff_selected_line == o.diff_selected_line - 1
                &&& f.diff_scroll == (if o.diff_selected_line - 1 < o.diff_scroll {
                    (o.diff_scroll - 1) as u16
                } else {
                    o.diff_scroll
                })
            } else {
                f == o
            })
            &&& action is Nothing
        },
        Key::Enter => {
            &&& f == o
            &&& (match o.parsed_diff {
                Option::None => action is Nothing,
                Option::Some(pd) => {
                    &&& (action is ApplyPatch <==> exists|j: int|
                        0 <= j < pd.hunks@.len() && hunk_covers_line(
                            pd,
                            j,
                            o.spec_adjusted_diff_line(),
                        ))
                    &&& (action matches Action::ApplyPatch(req) ==> req.reverse == (
                    o.selected_file_type is Staged) && exists|j: int|
                        #![auto]
                        0 <= j < pd.hunks@.len() && hunk_covers_line(
                            pd,
                            j,
                            o.spec_adjusted_diff_line(),
                        ) && req.patch@ == patch_text(pd.header@, pd.hunks@[j]@))
                },
            })
        },
        _ => f == o && action is Nothing,
    }
}

/// Feeds one key to the state machine, given the height of the diff
/// window, and returns the repository work it asks for.
pub fn handle_key_event(app: &mut App, key: Key, diff_view_height: u16) -> (action: Action)
    requires
        old(app).wf(),
    ensures
        final(app).wf(),
        old(app).focus is Commit ==> spec_commit_keys(*old(app), *final(app), key, action),
        old(app).focus is Files ==> spec_files_keys(*old(app), *final(app), key, action),
        old(app).focus is Diff ==> spec_diff_keys(
            *old(app),
            *final(app),
            key,
            diff_view_height,
            action,
        ),
{
    match app.focus {
        FocusArea::Commit => {
            match key {
                Key::Char(c) => {
                    crate::text::string_push(&mut app.commit_message, c);
                    Action::Nothing
                },
                Key::Quit => {
                    app.should_quit = true;
                    Action::Nothing
                },
                Key::Backspace => {
                    crate::text::string_pop(&mut app.commit_message);
                    Action::Nothing
                },
                Key::Enter => {
                    match app.commit() {
                        Some(message) => Action::Commit(message),
                        None => Action::Nothing,
                    }
                },
                Key::Down => {
                    app.focus = FocusArea::Files;
                    Action::Nothing
                },
                _ => Action::Nothing,
            }
        },
        FocusArea::Files => {
            match key {
                Key::Char(c) => {
                    if c == 'q' {
                        app.should_quit = true;
                    }
                    Action::Nothing
                },
                Key::Quit => {
                    app.should_quit = true;
                    Action::Nothing
                },
                Key::Down => {
                    app.select_next();
                    Action::RefreshDiff
                },
                Key::Up => {
                    let at_top = app.selected_file_index == 0 && match app.selected_file_type {
                        FileType::Staged => true,
                        FileType::NotStaged => false,
                        FileType::Untracked => false,
                    };
                    if at_top {
                        app.focus = FocusArea::Commit;
                        Action::Nothing
                    } else {
                        app.select_previous();
                        Action::RefreshDiff
                    }
                },
                Key::Enter => {
                    match app.toggle_selection() {
                        Some(request) => Action::Toggle(request),
                        None => Action::Nothing,
                    }
                },
                Key::Right => {
                    app.focus = FocusArea::Diff;
                    Action::Nothing
                },
                _ => Action::Nothing,
            }
        },
        FocusArea::Diff => {
            match key {
                Key::Char(c) => {
                    if c == 'q' {
                        app.should_quit = true;
                    }
                    Action::Nothing
                },
                Key::Quit => {
                    app.should_quit = true;
                    Action::Nothing
                },
                Key::Left => {
                    app.focus = FocusArea::Files;
                    Action::Nothing
                },
                Key::Down => {
                    let diff_lines = crate::text::line_count_str(app.diff.as_str());
                    if diff_lines > 0 {
                        if app.diff_selected_line + 1 < diff_lines {
                            app.diff_selected_line = app.diff_selected_line + 1;
                        } else {
                            app.diff_selected_line = diff_lines - 1;
                        }
                        if app.diff_selected_line >= app.diff_scroll as usize
                            + diff_view_height as usize {
                            app.diff_scroll = app.diff_scroll.saturating_add(1);
                        }
                    }
                    Action::Nothing
                },
                Key::Up => {
                    if app.diff_selected_line > 0 {
                        app.diff_selected_line = app.diff_selected_line - 1;
                        if app.diff_selected_line < app.diff_scroll as usize {
                            app.diff_scroll = app.diff_scroll.saturating_sub(1);
                        }
                    }
                    Action::Nothing
                },
                Key::Enter => {
                    match app.apply_hunk() {
                        Some(request) => Action::ApplyPatch(request),
                        None => Action::Nothing,
                    }
                },
                _ => Action::Nothing,
            }
        },
    }
}

} // verus!
