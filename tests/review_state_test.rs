use gwatch::review_state::{ReviewEntry, ReviewState};

#[test]
fn test_review_state_new() {
    let state = ReviewState::new();
    assert_eq!(state.reviewed_count(), 0);
    assert!(state.entries().is_empty());
}

#[test]
fn test_mark_reviewed() {
    let mut state = ReviewState::new();
    let path = "/test/file.rs".to_string();

    assert!(!state.is_reviewed(&path));
    state.mark_reviewed(&path, 10);
    assert!(state.is_reviewed(&path));
}

#[test]
fn test_unmark_reviewed() {
    let mut state = ReviewState::new();
    let path = "/test/file.rs".to_string();

    state.mark_reviewed(&path, 10);
    assert!(state.is_reviewed(&path));

    state.unmark_reviewed(&path);
    assert!(!state.is_reviewed(&path));
}

#[test]
fn test_clear_all() {
    let mut state = ReviewState::new();
    state.mark_reviewed(&"/test/file1.rs".to_string(), 1);
    state.mark_reviewed(&"/test/file2.rs".to_string(), 2);

    assert_eq!(state.reviewed_count(), 2);
    state.clear_all();
    assert_eq!(state.reviewed_count(), 0);
}

#[test]
fn test_toggle_reviewed() {
    let mut state = ReviewState::new();
    let path = "/test/file.rs".to_string();
    state.toggle_reviewed(&path, 5);
    assert!(state.is_reviewed(&path));
    state.toggle_reviewed(&path, 6);
    assert!(!state.is_reviewed(&path));
}

#[test]
fn marking_twice_keeps_one_entry_with_the_later_time() {
    let mut state = ReviewState::new();
    let path = "/a".to_string();
    state.mark_reviewed(&path, 1);
    state.mark_reviewed(&path, 7);
    assert_eq!(state.reviewed_count(), 1);
    assert_eq!(state.entries()[0].reviewed_at, 7);
}

#[test]
fn loading_entries_merges_duplicates() {
    let entries = vec![
        ReviewEntry { path: "/a".to_string(), reviewed_at: 1 },
        ReviewEntry { path: "/b".to_string(), reviewed_at: 2 },
        ReviewEntry { path: "/a".to_string(), reviewed_at: 3 },
    ];
    let state = ReviewState::from_entries(entries);
    assert_eq!(state.reviewed_count(), 2);
    assert!(state.is_reviewed(&"/b".to_string()));
    assert_eq!(state.entries()[0].reviewed_at, 3);
}

#[test]
fn test_state_path_contains_gwatch() {
    let path = ReviewState::state_path();
    assert!(path.contains("gwatch"));
    assert!(path.ends_with("review_state.json"));
}
