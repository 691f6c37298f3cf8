//! The application state: the status lists, the selection, the focus,
//! the commit-message buffer and the rendered diff.
//!
//! Everything here is a pure state machine.  Where the flow needs the
//! repository backend — a status scan, diff text for one
//! path, staging a file, applying a patch, writing a commit — a method
//! either consumes the backend's answer as a plain value, or returns a
//! request describing the one backend call to make; the surrounding
//! event loop performs it and feeds the result back in.

use vstd::prelude::*;

use crate::diff::ParsedDiff;
use crate::diff::create_patch_from_hunk;
use crate::diff::get_hunk_index_from_line;
use crate::diff::hunk_covers_line;
use crate::diff::is_parse_of;
use crate::diff::parse_diff_output;
use crate::diff::patch_text;
use crate::format::diff_failure_message;
use crate::select::clamped_index;
use crate::select::spec_select_next;
use crate::select::spec_select_previous;
use crate::status::FileType;
use crate::status::StatusFiles;
use crate::text::line_count;

verus! {

/// Which pane input events act on.
pub enum FocusArea {
    Commit,
    Files,
    Diff,
}

/// A request to stage or unstage one whole file in the index.
pub struct StageRequest {
    pub path: String,
    pub unstage: bool,
}

/// A request to apply one isolated hunk to the index, forward to stage
/// it or in reverse to unstage it.
pub struct PatchRequest {
    pub patch: String,
    pub reverse: bool,
}

/// The whole state the user interface works on.
pub struct App {
    pub status: StatusFiles,
    pub selected_file_type: FileType,
    pub selected_file_index: usize,
    pub should_quit: bool,
    pub commit_message: String,
    pub focus: FocusArea,
    pub diff: String,
    pub parsed_diff: Option<ParsedDiff>,
    pub diff_scroll: u16,
    pub diff_selected_line: usize,
}

impl App {
    /// The selection points at an existing entry, or sits at zero; the
    /// diff cursor sits on an existing rendered line, or at zero.
    pub open spec fn wf(&self) -> bool {
        &&& (self.selected_file_index < self.status.spec_section_len(self.selected_file_type)
            || self.selected_file_index == 0)
        &&& (self.diff_selected_line < line_count(self.diff@) || self.diff_selected_line == 0)
    }

    /// The selection as the selection ring sees it.
    pub open spec fn spec_selection(&self) -> (FileType, nat) {
        (self.selected_file_type, self.selected_file_index as nat)
    }

    /// The diff cursor as a line of the parsed diff: the cursor position
    /// less the scroll offset, never below zero.
    pub open spec fn spec_adjusted_diff_line(&self) -> int {
        if self.diff_selected_line >= self.diff_scroll as int {
            self.diff_selected_line - self.diff_scroll as int
        } else {
            0
        }
    }

    /// A fresh application: empty lists, selection at the start of the
    /// staged section, focus on the file list, nothing quit, typed or
    /// rendered yet.  A status scan and a diff render follow before
    /// anything is shown.
    pub fn new() -> (app: App)
        ensures
            app.status.staged@.len() == 0,
            app.status.not_staged@.len() == 0,
            app.status.untracked@.len() == 0,
            app.selected_file_type is Staged,
            app.selected_file_index == 0,
            !app.should_quit,
            app.commit_message@.len() == 0,
            app.focus is Files,
            app.diff@.len() == 0,
            app.parsed_diff is None,
            app.diff_scroll == 0,
            app.diff_selected_line == 0,
            app.wf(),
    {
        App {
            status: StatusFiles::default(),
            selected_file_type: FileType::Staged,
            selected_file_index: 0,
            should_quit: false,
            commit_message: String::new(),
            focus: FocusArea::Files,
            diff: String::new(),
            parsed_diff: None,
            diff_scroll: 0,
            diff_selected_line: 0,
        }
    }

    /// Replaces the status lists with a fresh scan and pulls the
    /// selection index back into bounds: to the last entry when the
    /// section shrank past it, to zero when the section emptied.
    pub fn update_status(&mut self, status: StatusFiles)
        requires
            old(self).wf(),
        ensures
            *final(self) == (App { status, selected_file_index: final(self).selected_file_index, ..*old(self) }),
            final(self).selected_file_index as nat == clamped_index(
                status.spec_section_len(old(self).selected_file_type),
                old(self).selected_file_index as nat,
            ),
            final(self).wf(),
    {
        self.status = status;
        let current_section_len = match self.selected_file_type {
            FileType::Staged => self.status.staged.len(),
            FileType::NotStaged => self.status.not_staged.len(),
            FileType::Untracked => self.status.untracked.len(),
        };
        if current_section_len == 0 {
            self.selected_file_index = 0;
        } else if self.selected_file_index >= current_section_len {
            self.selected_file_index = current_section_len - 1;
        }
    }

    /// The path the selection points at, with its section — or nothing
    /// when the selected section is empty.
    pub fn get_selected_file(&self) -> (r: Option<(String, FileType)>)
        ensures
            r is Some <==> self.selected_file_index < self.status.spec_section_len(
                self.selected_file_type,
            ),
            r matches Some(pair) ==> pair.1 == self.selected_file_type && pair.0@
                == self.status.spec_section(self.selected_file_type)[self.selected_file_index as int]@,
    {
        match self.selected_file_type {
            FileType::Staged => {
                if self.selected_file_index < self.status.staged.len() {
                    Some((self.status.staged[self.selected_file_index].clone(), FileType::Staged))
                } else {
                    None
                }
            },
            FileType::NotStaged => {
                if self.selected_file_index < self.status.not_staged.len() {
                    Some(
                        (
                            self.status.not_staged[self.selected_file_index].clone(),
                            FileType::NotStaged,
                        ),
                    )
                } else {
                    None
                }
            },
            FileType::Untracked => {
                if self.selected_file_index < self.status.untracked.len() {
                    Some(
                        (
                            self.status.untracked[self.selected_file_index].clone(),
                            FileType::Untracked,
                        ),
                    )
                } else {
                    None
                }
            },
        }
    }

    /// Replaces the rendered diff with what the backend produced for
    /// the selected path: the diff text itself, parsed into hunks; a
    /// placeholder message when the render failed; or nothing when no
    /// path is selected.  The cursor and scroll start back at the top.
    pub fn update_diff(&mut self, fetched: Option<Result<String, String>>)
        ensures
            *final(self) == (App {
                diff: final(self).diff,
                parsed_diff: final(self).parsed_diff,
                diff_scroll: 0u16,
                diff_selected_line: 0usize,
                ..*old(self)
            }),
            match fetched {
                Some(Ok(text)) => final(self).diff@ == text@ && (final(self).parsed_diff
                    matches Some(pd) && is_parse_of(pd, text@)),
                Some(Err(e)) => final(self).diff@ == "Failed to generate diff: "@ + e@
                    && final(self).parsed_diff is None,
                None => final(self).diff@.len() == 0 && final(self).parsed_diff is None,
            },
            old(self).wf() ==> final(self).wf(),
    {
        match fetched {
            Some(fetch_result) => {
                match fetch_result {
                    Ok(text) => {
                        let parsed = parse_diff_output(text.as_str());
                        self.parsed_diff = Some(parsed);
                        self.diff = text;
                    },
                    Err(e) => {
                        self.parsed_diff = None;
                        self.diff = diff_failure_message(e.as_str());
                    },
                }
            },
            None => {
                self.parsed_diff = None;
                self.diff = String::new();
            },
        }
        self.diff_scroll = 0;
        self.diff_selected_line = 0;
    }

    /// Moves the selection one step down the ring of non-empty
    /// sections.
    pub fn select_next(&mut self)
        requires
            old(self).wf(),
        ensures
            *final(self) == (App {
                selected_file_type: final(self).selected_file_type,
                selected_file_index: final(self).selected_file_index,
                ..*old(self)
            }),
            final(self).spec_selection() == spec_select_next(
                old(self).status.staged@.len(),
                old(self).status.not_staged@.len(),
                old(self).status.untracked@.len(),
                old(self).spec_selection(),
            ),
            final(self).wf(),
    {
        let staged_len = self.status.staged.len();
        let not_staged_len = self.status.not_staged.len();
        let untracked_len = self.status.untracked.len();
        match self.selected_file_type {
            FileType::Staged => {
                if self.selected_file_index + 1 < staged_len {
                    self.selected_file_index = self.selected_file_index + 1;
                } else if not_staged_len > 0 {
                    self.selected_file_type = FileType::NotStaged;
                    self.selected_file_index = 0;
                } else if untracked_len > 0 {
                    self.selected_file_type = FileType::Untracked;
                    self.selected_file_index = 0;
                } else {
                    self.selected_file_index = 0;
                }
            },
            FileType::NotStaged => {
                if self.selected_file_index + 1 < not_staged_len {
                    self.selected_file_index = self.selected_file_index + 1;
                } else if untracked_len > 0 {
                    self.selected_file_type = FileType::Untracked;
                    self.selected_file_index = 0;
                } else if staged_len > 0 {
                    self.selected_file_type = FileType::Staged;
                    self.selected_file_index = 0;
                } else {
                    self.selected_file_index = 0;
                }
            },
            FileType::Untracked => {
                if self.selected_file_index + 1 < untracked_len {
                    self.selected_file_index = self.selected_file_index + 1;
                } else if staged_len > 0 {
                    self.selected_file_type = FileType::Staged;
                    self.selected_file_index = 0;
                } else if not_staged_len > 0 {
                    self.selected_file_type = FileType::NotStaged;
                    self.selected_file_index = 0;
                } else {
                    self.selected_file_index = 0;
                }
            },
        }
    }

    /// Moves the selection one step up the ring of non-empty sections.
    pub fn select_previous(&mut self)
        requires
            old(self).wf(),
        ensures
            *final(self) == (App {
                selected_file_type: final(self).selected_file_type,
                selected_file_index: final(self).selected_file_index,
                ..*old(self)
            }),
            final(self).spec_selection() == spec_select_previous(
                old(self).status.staged@.len(),
                old(self).status.not_staged@.len(),
                old(self).status.untracked@.len(),
                old(self).spec_selection(),
            ),
            final(self).wf(),
    {
        let staged_len = self.status.staged.len();
        let not_staged_len = self.status.not_staged.len();
        let untracked_len = self.status.untracked.len();
        match self.selected_file_type {
            FileType::Staged => {
                if self.selected_file_index > 0 {
                    self.selected_file_index = self.selected_file_index - 1;
                } else if untracked_len > 0 {
                    self.selected_file_type = FileType::Untracked;
                    self.selected_file_index = untracked_len - 1;
                } else if not_staged_len > 0 {
                    self.selected_file_type = FileType::NotStaged;
                    self.selected_file_index = not_staged_len - 1;
                } else {
                    self.selected_file_index = 0;
                }
            },
            FileType::NotStaged => {
                if self.selected_file_index > 0 {
                    self.selected_file_index = self.selected_file_index - 1;
                } else if staged_len > 0 {
                    self.selected_file_type = FileType::Staged;
                    self.selected_file_index = staged_len - 1;
                } else if untracked_len > 0 {
                    self.selected_file_type = FileType::Untracked;
                    self.selected_file_index = untracked_len - 1;
                } else {
                    self.selected_file_index = 0;
                }
            },
            FileType::Untracked => {
                if self.selected_file_index > 0 {
                    self.selected_file_index = self.selected_file_index - 1;
                } else if not_staged_len > 0 {
                    self.selected_file_type = FileType::NotStaged;
                    self.selected_file_index = not_staged_len - 1;
                } else if staged_len > 0 {
                    self.selected_file_type = FileType::Staged;
                    self.selected_file_index = staged_len - 1;
                } else {
                    self.selected_file_index = 0;
                }
            },
        }
    }

    /// Decides what "select" does to the selected file: a staged file
    /// is to be unstaged, a not-staged or untracked one staged.  With
    /// nothing selected there is nothing to do.
    pub fn toggle_selection(&self) -> (r: Option<StageRequest>)
        ensures
            r is Some <==> self.selected_file_index < self.status.spec_section_len(
                self.selected_file_type,
            ),
            r matches Some(req) ==> req.path@ == self.status.spec_section(
                self.selected_file_type,
            )[self.selected_file_index as int]@ && req.unstage == (self.selected_file_type
                is Staged),
    {
        match self.get_selected_file() {
            Some((path, file_type)) => {
                let unstage = match file_type {
                    FileType::Staged => true,
                    FileType::NotStaged => false,
                    FileType::Untracked => false,
                };
                Some(StageRequest { path, unstage })
            },
            None => None,
        }
    }

    /// Decides what "confirm" does in the commit pane: a non-empty
    /// message is to be committed; an empty one does nothing.
    pub fn commit(&self) -> (r: Option<String>)
        ensures
            r is Some <==> self.commit_message@.len() > 0,
            r matches Some(m) ==> m@ == self.commit_message@,
    {
        if self.commit_message.as_str().is_empty() {
            None
        } else {
            Some(self.commit_message.clone())
        }
    }

    /// A commit was written: the message buffer empties so the next
    /// message starts fresh.  On failure this is never called and the
    /// buffer keeps its text.
    pub fn clear_commit_message(&mut self)
        ensures
            *final(self) == (App { commit_message: final(self).commit_message, ..*old(self) }),
            final(self).commit_message@.len() == 0,
    {
        self.commit_message = String::new();
    }

    /// Decides what "select" does in the diff pane: isolate the hunk
    /// under the cursor (the selected line, adjusted for scroll) into a
    /// standalone patch, to be applied in reverse when the selected
    /// file is staged and forward otherwise.  With no parsed diff, or
    /// with the cursor outside every hunk, there is nothing to do.
    pub fn apply_hunk(&self) -> (r: Option<PatchRequest>)
        ensures
            self.parsed_diff is None ==> r is None,
            self.parsed_diff matches Some(pd) ==> ((r is Some <==> exists|j: int|
                0 <= j < pd.hunks@.len() && hunk_covers_line(
                    pd,
                    j,
                    self.spec_adjusted_diff_line(),
                )) && (r matches Some(req) ==> req.reverse == (self.selected_file_type is Staged)
                && exists|j: int|
                #![auto]
                0 <= j < pd.hunks@.len() && hunk_covers_line(pd, j, self.spec_adjusted_diff_line())
                    && req.patch@ == patch_text(pd.header@, pd.hunks@[j]@))),
    {
        match &self.parsed_diff {
            Some(parsed) => {
                let scroll = self.diff_scroll as usize;
                let adjusted = if self.diff_selected_line >= scroll {
                    self.diff_selected_line - scroll
                } else {
                    0
                };
                match get_hunk_index_from_line(parsed, adjusted) {
                    Some(hunk_index) => {
                        proof {
                            assert(hunk_index < parsed.hunks@.len());
                            assert(hunk_covers_line(
                                *parsed,
                                hunk_index as int,
                                self.spec_adjusted_diff_line(),
                            ));
                        }
                        match create_patch_from_hunk(parsed, hunk_index) {
                            Some(patch) => {
                                let reverse = match self.selected_file_type {
                                    FileType::Staged => true,
                                    FileType::NotStaged => false,
                                    FileType::Untracked => false,
                                };
                                Some(PatchRequest { patch, reverse })
                            },
                            None => None,
                        }
                    },
                    None => None,
                }
            },
            None => None,
        }
    }
}

} // verus!
