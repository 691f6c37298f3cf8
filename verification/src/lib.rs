//! Core engine of an interactive staging tool for a version-controlled
//! working tree: classifying paths as staged, not staged or untracked,
//! parsing unified-diff text into a header and hunks, isolating one
//! hunk into a standalone patch, and the selection and focus state
//! machine that decides what each input event does.
//!
//! The repository backend and the terminal are collaborators that the
//! surrounding application drives; everything here works on plain
//! values: the backend's answers come in as arguments and the calls to
//! make go out as [`event::Action`] values.

pub mod app;
pub mod diff;
pub mod event;
pub mod format;
pub mod select;
pub mod status;
pub mod text;

pub use app::App;
pub use app::FocusArea;
pub use app::PatchRequest;
pub use app::StageRequest;
pub use diff::ParsedDiff;
pub use diff::create_patch_from_hunk;
pub use diff::get_hunk_index_from_line;
pub use diff::parse_diff_output;
pub use event::Action;
pub use event::Key;
pub use event::handle_key_event;
pub use format::diff_failure_message;
pub use format::format_untracked_diff;
pub use format::render_diff_line;
pub use status::FileType;
pub use status::StatusEntry;
pub use status::StatusFiles;
pub use status::classify_status;
