//! Change detection and line-diff computation for a live view of a git
//! working tree: hunk grouping with a size cap, side-by-side alignment,
//! debounced and filtered file-change notifications, and the bounded history
//! of displayed diffs.

// Data carried from the diff computer to the display.
pub mod types;
pub mod text;

// Diff computer and blob accessor.
pub mod line_diff;
pub mod repo;
pub mod git_engine;

// Side-by-side alignment.
pub mod diff_view;

// Change detector.
pub mod watcher;

// Event coordinator and the view state around it.
pub mod coordinator;
pub mod app_state;
pub mod keys;
pub mod layout_helpers;
pub mod render_helpers;

// Configuration, viewer choice, review bookkeeping.
pub mod config;
pub mod diff_viewer;
pub mod review_state;
