use gwatch::diff_view::{build_side_by_side_lines, truncate_with_offset};
use gwatch::types::{DiffKind, DiffLine};

fn make_context_line(old: usize, new: usize, content: &str) -> DiffLine {
    DiffLine {
        old_line_number: Some(old),
        new_line_number: Some(new),
        kind: DiffKind::Context,
        content: content.to_string(),
    }
}

fn make_added_line(new: usize, content: &str) -> DiffLine {
    DiffLine {
        old_line_number: None,
        new_line_number: Some(new),
        kind: DiffKind::Added,
        content: content.to_string(),
    }
}

fn make_deleted_line(old: usize, content: &str) -> DiffLine {
    DiffLine {
        old_line_number: Some(old),
        new_line_number: None,
        kind: DiffKind::Deleted,
        content: content.to_string(),
    }
}

#[test]
fn test_context_lines() {
    let lines = vec![
        make_context_line(1, 1, "line 1"),
        make_context_line(2, 2, "line 2"),
    ];

    let result = build_side_by_side_lines(&lines);

    assert_eq!(result.len(), 2);
    assert_eq!(result[0].left_num, Some(1));
    assert_eq!(result[0].right_num, Some(1));
    assert_eq!(result[0].left_content, "line 1");
    assert_eq!(result[0].right_content, "line 1");
}

#[test]
fn test_added_lines() {
    let lines = vec![make_added_line(1, "new line")];

    let result = build_side_by_side_lines(&lines);

    assert_eq!(result.len(), 1);
    assert_eq!(result[0].left_num, None);
    assert_eq!(result[0].right_num, Some(1));
    assert_eq!(result[0].left_content, "");
    assert_eq!(result[0].right_content, "new line");
}

#[test]
fn test_deleted_lines() {
    let lines = vec![make_deleted_line(1, "old line")];

    let result = build_side_by_side_lines(&lines);

    assert_eq!(result.len(), 1);
    assert_eq!(result[0].left_num, Some(1));
    assert_eq!(result[0].right_num, None);
    assert_eq!(result[0].left_content, "old line");
    assert_eq!(result[0].right_content, "");
}

#[test]
fn test_modification_pairs_deleted_then_added() {
    let lines = vec![make_deleted_line(1, "old"), make_added_line(1, "new")];

    let result = build_side_by_side_lines(&lines);

    assert_eq!(result.len(), 1);
    assert_eq!(result[0].left_content, "old");
    assert_eq!(result[0].right_content, "new");
}

#[test]
fn test_unbalanced_deletions() {
    let lines = vec![
        make_deleted_line(1, "old1"),
        make_deleted_line(2, "old2"),
        make_added_line(1, "new1"),
    ];

    let result = build_side_by_side_lines(&lines);

    assert_eq!(result.len(), 2);
    assert_eq!(result[0].left_content, "old1");
    assert_eq!(result[0].right_content, "new1");
    assert_eq!(result[1].left_content, "old2");
    assert_eq!(result[1].right_content, "");
}

#[test]
fn test_truncate_with_offset_basic() {
    let s = "Hello, World!";
    assert_eq!(truncate_with_offset(s, 0, 5), "Hello");
    assert_eq!(truncate_with_offset(s, 7, 5), "World");
}

#[test]
fn test_truncate_with_offset_past_end() {
    let s = "Short";
    assert_eq!(truncate_with_offset(s, 10, 5), "");
}

#[test]
fn test_truncate_with_offset_partial() {
    let s = "Hello";
    assert_eq!(truncate_with_offset(s, 3, 10), "lo");
}

#[test]
fn test_empty_diff_lines() {
    let result = build_side_by_side_lines(&[]);
    assert!(result.is_empty());
}

#[test]
fn test_unbalanced_additions() {
    let lines = vec![
        make_deleted_line(1, "old"),
        make_added_line(1, "new1"),
        make_added_line(2, "new2"),
        make_added_line(3, "new3"),
    ];

    let result = build_side_by_side_lines(&lines);

    assert_eq!(result.len(), 3);
    assert_eq!(result[0].left_content, "old");
    assert_eq!(result[0].right_content, "new1");
    assert_eq!(result[1].left_content, "");
    assert_eq!(result[1].right_content, "new2");
}

#[test]
fn test_truncate_unicode() {
    let s = "Hello 世界!";
    assert_eq!(truncate_with_offset(s, 0, 6), "Hello ");
    assert_eq!(truncate_with_offset(s, 6, 2), "世界");
}

#[test]
fn test_truncate_empty_string() {
    assert_eq!(truncate_with_offset("", 0, 10), "");
    assert_eq!(truncate_with_offset("", 5, 10), "");
}

#[test]
fn test_mixed_context_and_changes() {
    let lines = vec![
        make_context_line(1, 1, "context before"),
        make_deleted_line(2, "removed"),
        make_added_line(2, "added"),
        make_context_line(3, 3, "context after"),
    ];

    let result = build_side_by_side_lines(&lines);

    assert_eq!(result.len(), 3);
    assert_eq!(result[0].left_kind, Some(DiffKind::Context));
    assert_eq!(result[1].left_kind, Some(DiffKind::Deleted));
    assert_eq!(result[1].right_kind, Some(DiffKind::Added));
    assert_eq!(result[2].left_kind, Some(DiffKind::Context));
}

#[test]
fn all_context_rows_mirror_each_line() {
    let lines: Vec<DiffLine> = (1..=4).map(|i| make_context_line(i, i + 10, &format!("c{i}"))).collect();
    let result = build_side_by_side_lines(&lines);
    assert_eq!(result.len(), 4);
    for (i, row) in result.iter().enumerate() {
        assert_eq!(row.left_num, Some(i + 1));
        assert_eq!(row.right_num, Some(i + 11));
        assert_eq!(row.left_content, row.right_content);
        assert_eq!(row.left_content, format!("c{}", i + 1));
    }
}

#[test]
fn replacement_block_keeps_every_line_in_order() {
    let lines = vec![
        make_deleted_line(1, "d1"),
        make_deleted_line(2, "d2"),
        make_deleted_line(3, "d3"),
        make_added_line(1, "a1"),
        make_added_line(2, "a2"),
        make_context_line(4, 3, "ctx"),
    ];
    let result = build_side_by_side_lines(&lines);
    assert_eq!(result.len(), 4);
    let left: Vec<&str> = result[..3].iter().filter(|r| r.left_kind.is_some()).map(|r| r.left_content.as_str()).collect();
    let right: Vec<&str> = result[..3].iter().filter(|r| r.right_kind.is_some()).map(|r| r.right_content.as_str()).collect();
    assert_eq!(left, vec!["d1", "d2", "d3"]);
    assert_eq!(right, vec!["a1", "a2"]);
    assert_eq!(result[2].right_kind, None);
    assert_eq!(result[2].right_num, None);
    assert_eq!(result[3].left_kind, Some(DiffKind::Context));
}

#[test]
fn added_run_after_context_has_empty_left() {
    let lines = vec![make_context_line(1, 1, "x"), make_added_line(2, "y"), make_added_line(3, "z")];
    let result = build_side_by_side_lines(&lines);
    assert_eq!(result.len(), 3);
    assert_eq!(result[1].left_kind, None);
    assert_eq!(result[2].right_content, "z");
}
