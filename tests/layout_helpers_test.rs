use gwatch::layout_helpers::{format_diff_stats, format_event_index, format_hunk_info, get_file_indicator};

#[test]
fn test_format_event_index() {
    assert_eq!(format_event_index(0, 5), " [1/5]");
    assert_eq!(format_event_index(4, 5), " [5/5]");
}

#[test]
fn test_format_diff_stats() {
    assert_eq!(format_diff_stats(10, 5), "+10 / -5 lines");
    assert_eq!(format_diff_stats(0, 0), "+0 / -0 lines");
}

#[test]
fn test_file_indicator_new() {
    assert_eq!(get_file_indicator(true, false, false, false, None), " (new file)");
}

#[test]
fn test_file_indicator_deleted() {
    assert_eq!(get_file_indicator(false, true, false, false, None), " (deleted)");
}

#[test]
fn test_file_indicator_binary() {
    assert_eq!(get_file_indicator(false, false, true, false, None), " [binary]");
}

#[test]
fn test_file_indicator_truncated_with_reason() {
    assert_eq!(get_file_indicator(false, false, false, true, Some("too large")), " [too large]");
}

#[test]
fn test_file_indicator_truncated_no_reason() {
    assert_eq!(get_file_indicator(false, false, false, true, None), " [truncated]");
}

#[test]
fn test_file_indicator_normal() {
    assert_eq!(get_file_indicator(false, false, false, false, None), "");
}

#[test]
fn test_format_hunk_info() {
    assert_eq!(format_hunk_info(0, 3), "Hunk 1/3");
    assert_eq!(format_hunk_info(2, 3), "Hunk 3/3");
}

#[test]
fn large_numbers_are_written_in_full() {
    assert_eq!(format_diff_stats(1234567, 90), "+1234567 / -90 lines");
    assert_eq!(format_event_index(299, 300), " [300/300]");
}
