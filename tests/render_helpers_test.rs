use gwatch::render_helpers::{calculate_display_line_count, get_line_style_info};
use gwatch::types::{DiffHunk, DiffKind, DiffLine};
use std::collections::HashSet;

#[test]
fn test_line_style_deleted() {
    let info = get_line_style_info(Some(&DiffKind::Deleted), false);
    assert_eq!(info.prefix, "-");
    assert!(info.is_change);
    assert!(!info.invert_on_flash);
}

#[test]
fn test_line_style_deleted_flashing() {
    let info = get_line_style_info(Some(&DiffKind::Deleted), true);
    assert!(info.invert_on_flash);
}

#[test]
fn test_line_style_added() {
    let info = get_line_style_info(Some(&DiffKind::Added), false);
    assert_eq!(info.prefix, "+");
    assert!(info.is_change);
}

#[test]
fn test_line_style_context() {
    let info = get_line_style_info(Some(&DiffKind::Context), false);
    assert_eq!(info.prefix, " ");
    assert!(!info.is_change);
}

#[test]
fn test_line_style_none() {
    let info = get_line_style_info(None, false);
    assert_eq!(info.prefix, " ");
    assert!(!info.is_change);
}

#[test]
fn test_calculate_display_empty() {
    let count = calculate_display_line_count(&[], &HashSet::new(), false);
    assert_eq!(count, 0);
}

#[test]
fn test_calculate_display_one_hunk() {
    let hunks = vec![DiffHunk {
        old_start: 1,
        old_count: 3,
        new_start: 1,
        new_count: 3,
        lines: vec![
            DiffLine { old_line_number: Some(1), new_line_number: Some(1), kind: DiffKind::Context, content: "a".to_string() },
            DiffLine { old_line_number: Some(2), new_line_number: None, kind: DiffKind::Deleted, content: "b".to_string() },
            DiffLine { old_line_number: None, new_line_number: Some(2), kind: DiffKind::Added, content: "c".to_string() },
        ],
    }];

    let count = calculate_display_line_count(&hunks, &HashSet::new(), false);
    assert_eq!(count, 4);
}

#[test]
fn test_calculate_display_collapsed_hunk() {
    let hunks = vec![DiffHunk {
        old_start: 1,
        old_count: 3,
        new_start: 1,
        new_count: 3,
        lines: vec![DiffLine { old_line_number: Some(1), new_line_number: Some(1), kind: DiffKind::Context, content: "a".to_string() }],
    }];

    let mut collapsed = HashSet::new();
    collapsed.insert(0);

    let count = calculate_display_line_count(&hunks, &collapsed, false);
    assert_eq!(count, 2);
}

#[test]
fn test_calculate_display_collapse_context() {
    let hunks = vec![DiffHunk {
        old_start: 1,
        old_count: 3,
        new_start: 1,
        new_count: 3,
        lines: vec![
            DiffLine { old_line_number: Some(1), new_line_number: Some(1), kind: DiffKind::Context, content: "a".to_string() },
            DiffLine { old_line_number: Some(2), new_line_number: None, kind: DiffKind::Deleted, content: "b".to_string() },
        ],
    }];

    let count = calculate_display_line_count(&hunks, &HashSet::new(), true);
    assert_eq!(count, 2);
}
