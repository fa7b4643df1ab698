use gwatch::app_state::AppState;
use gwatch::coordinator::{worth_displaying, App};
use gwatch::types::{DiffHunk, DiffKind, DiffLine, DiffMode, DiffStats, DisplayedEvent, FileDiff};

fn test_app() -> App {
    App::new(300)
}

fn event(name: &str, diff: FileDiff) -> DisplayedEvent {
    DisplayedEvent {
        file_path: format!("/test/{name}"),
        relative_path: name.to_string(),
        timestamp: 0,
        diff,
    }
}

fn line(old: Option<usize>, new: Option<usize>, kind: DiffKind, text: &str) -> DiffLine {
    DiffLine { old_line_number: old, new_line_number: new, kind, content: text.to_string() }
}

#[test]
fn test_app_hunk_navigation() {
    let mut app = test_app();
    let diff = FileDiff {
        hunks: vec![
            DiffHunk { old_start: 1, old_count: 3, new_start: 1, new_count: 4, lines: vec![] },
            DiffHunk { old_start: 10, old_count: 2, new_start: 11, new_count: 3, lines: vec![] },
            DiffHunk { old_start: 20, old_count: 1, new_start: 22, new_count: 2, lines: vec![] },
        ],
        ..Default::default()
    };
    app.events.insert(0, event("file.rs", diff));

    assert_eq!(app.get_current_hunk_count(), 3);
    assert_eq!(app.hunk_state.focused_hunk, 0);

    app.next_hunk();
    assert_eq!(app.hunk_state.focused_hunk, 1);

    app.toggle_current_hunk_collapsed();
    assert!(app.hunk_state.is_collapsed(1));
}

#[test]
fn app_test_diff_mode_default() {
    let app = test_app();
    assert_eq!(app.diff_mode, DiffMode::All);
}

#[test]
fn test_cycle_diff_mode() {
    let mut app = test_app();
    assert_eq!(app.diff_mode, DiffMode::All);
    app.cycle_diff_mode();
    assert_eq!(app.diff_mode, DiffMode::Unstaged);
    app.cycle_diff_mode();
    assert_eq!(app.diff_mode, DiffMode::Staged);
    app.cycle_diff_mode();
    assert_eq!(app.diff_mode, DiffMode::All);
}

#[test]
fn test_add_event_respects_max_events() {
    let mut app = test_app();
    app.max_events = 3;
    for i in 0..5 {
        app.add_event(event(&format!("file{i}.rs"), FileDiff::default()), 1000);
    }
    assert_eq!(app.events.len(), 3);
    assert_eq!(app.events[0].relative_path, "file4.rs");
    assert_eq!(app.events[2].relative_path, "file2.rs");
}

#[test]
fn test_add_event_triggers_flash() {
    let mut app = test_app();
    app.add_event(event("file.rs", FileDiff::default()), 1000);
    assert!(app.is_flashing(1000));
    assert!(app.is_flashing(2499));
}

#[test]
fn test_flash_expires() {
    let mut app = test_app();
    app.flash_until = Some(1000);
    assert!(!app.is_flashing(2000));
}

#[test]
fn test_scroll_bounds() {
    let mut app = test_app();
    app.diff_scroll_up(100);
    assert_eq!(app.diff_scroll_offset, 0);
}

#[test]
fn test_get_current_event_empty() {
    let app = test_app();
    assert!(app.get_current_event().is_none());
}

#[test]
fn test_get_first_changed_line_empty() {
    let app = test_app();
    assert!(app.get_first_changed_line().is_none());
}

#[test]
fn test_open_and_close_overlay() {
    let mut app = test_app();
    app.open_help();
    assert_eq!(app.state, AppState::HelpPanel);
    app.close_overlay();
    assert_eq!(app.state, AppState::Running);
}

#[test]
fn test_clear_history() {
    let mut app = test_app();
    app.events.insert(0, event("file.rs", FileDiff::default()));
    app.clear_history();
    assert!(app.events.is_empty());
}

#[test]
fn new_event_scrolls_near_its_first_change() {
    let mut app = test_app();
    let mut lines: Vec<DiffLine> = (1..=5).map(|i| line(Some(i), Some(i), DiffKind::Context, "same")).collect();
    lines.push(line(Some(6), None, DiffKind::Deleted, "old"));
    lines.push(line(None, Some(6), DiffKind::Added, "new"));
    let diff = FileDiff {
        hunks: vec![DiffHunk { old_start: 1, old_count: 6, new_start: 1, new_count: 6, lines }],
        stats: DiffStats { added_count: 1, deleted_count: 1 },
        ..Default::default()
    };
    app.add_event(event("f.txt", diff), 0);
    assert_eq!(app.diff_scroll_offset, 3);
    assert_eq!(app.get_current_diff_line_count(), 6);
    assert_eq!(app.get_first_changed_line(), Some(1));
}

#[test]
fn paused_history_keeps_its_place() {
    let mut app = test_app();
    app.add_event(event("a", FileDiff::default()), 0);
    app.add_event(event("b", FileDiff::default()), 0);
    app.scroll_up();
    assert_eq!(app.scroll_offset, 1);
    app.toggle_pause();
    assert!(app.is_paused());
    app.add_event(event("c", FileDiff::default()), 0);
    assert_eq!(app.scroll_offset, 1);
    app.toggle_pause();
    assert_eq!(app.scroll_offset, 0);
    assert_eq!(app.state, AppState::Running);
}

#[test]
fn scrolling_stays_in_bounds() {
    let mut app = test_app();
    app.diff_scroll_down(10, 5);
    assert_eq!(app.diff_scroll_offset, 4);
    app.diff_scroll_down(1, 0);
    assert_eq!(app.diff_scroll_offset, 0);
    app.diff_scroll_right();
    app.diff_scroll_right();
    app.diff_scroll_left();
    assert_eq!(app.diff_horizontal_offset, 10);
    app.scroll_down();
    assert_eq!(app.scroll_offset, 0);
}

#[test]
fn focusing_a_hunk_scrolls_past_the_ones_above() {
    let mut app = test_app();
    let hunk = |n: usize| DiffHunk {
        old_start: 1,
        old_count: n,
        new_start: 1,
        new_count: n,
        lines: (0..n).map(|i| line(Some(i + 1), Some(i + 1), DiffKind::Context, "x")).collect(),
    };
    app.events.insert(0, event("f", FileDiff { hunks: vec![hunk(4), hunk(7), hunk(2)], ..Default::default() }));
    app.next_hunk();
    assert_eq!(app.diff_scroll_offset, 4);
    app.toggle_current_hunk_collapsed();
    app.next_hunk();
    assert_eq!(app.diff_scroll_offset, 5);
    app.prev_hunk();
    assert_eq!(app.hunk_state.focused_hunk, 1);
}

#[test]
fn no_op_diffs_are_not_displayed() {
    assert!(!worth_displaying(&FileDiff::default()));
    let added = FileDiff { stats: DiffStats { added_count: 1, deleted_count: 0 }, ..Default::default() };
    let new_file = FileDiff { is_new_file: true, ..Default::default() };
    let truncated = FileDiff { is_truncated: true, ..Default::default() };
    let deleted_only_flag = FileDiff { is_deleted: true, ..Default::default() };
    assert!(worth_displaying(&added));
    assert!(worth_displaying(&new_file));
    assert!(worth_displaying(&truncated));
    assert!(!worth_displaying(&deleted_only_flag));
}

#[test]
fn paused_history_only_fills_when_empty() {
    let mut app = test_app();
    app.toggle_pause();
    assert!(app.accepts_changes());
    let shown = app.on_diff(event("a", FileDiff { is_new_file: true, ..Default::default() }), 0);
    assert!(shown);
    assert!(!app.accepts_changes());
    app.toggle_pause();
    assert!(app.accepts_changes());
}

#[test]
fn no_op_diff_leaves_history_alone() {
    let mut app = test_app();
    assert!(!app.on_diff(event("a", FileDiff::default()), 0));
    assert!(app.events.is_empty());
    assert!(app.flash_until.is_none());
}
