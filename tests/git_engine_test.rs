use gwatch::git_engine::{
    blob_text_of, check_repo_path, content_needed, diff_snapshots, diff_staged, diff_strings, diff_working, finalize_diff,
    strip_root, EngineError, GitEngine, WorkingFile,
};
use gwatch::types::{DiffKind, DiffMode, FileDiff};
use std::path::Path;

fn numbered(n: usize) -> String {
    (1..=n).map(|i| format!("line {i}\n")).collect()
}

fn present(text: &str) -> WorkingFile {
    WorkingFile::Present { size: text.len() as u64, bytes: Some(text.as_bytes().to_vec()) }
}

#[test]
fn one_line_rewrite_is_a_deletion_then_an_addition() {
    let diff = diff_strings("x\n", "y\n");
    assert_eq!(diff.hunks.len(), 1);
    assert_eq!(diff.stats.added_count, 1);
    assert_eq!(diff.stats.deleted_count, 1);
    let lines = &diff.hunks[0].lines;
    assert_eq!(lines.len(), 2);
    assert_eq!(lines[0].kind, DiffKind::Deleted);
    assert_eq!(lines[0].content, "x");
    assert_eq!(lines[0].old_line_number, Some(1));
    assert_eq!(lines[0].new_line_number, None);
    assert_eq!(lines[1].kind, DiffKind::Added);
    assert_eq!(lines[1].content, "y");
    assert_eq!(lines[1].new_line_number, Some(1));
}

#[test]
fn equal_texts_give_no_hunks() {
    for text in ["", "a\n", "a\nb\nc", &numbered(300)] {
        let diff = diff_strings(text, text);
        assert!(diff.hunks.is_empty());
        assert_eq!(diff.stats.added_count, 0);
        assert_eq!(diff.stats.deleted_count, 0);
    }
}

#[test]
fn absent_old_text_makes_a_new_file() {
    let diff = diff_snapshots(None, "a\nb\nc");
    assert!(diff.is_new_file);
    assert_eq!(diff.stats.added_count, 3);
    assert_eq!(diff.stats.deleted_count, 0);
    assert_eq!(diff.hunks.len(), 1);
    assert_eq!(diff.hunks[0].lines[2].content, "c");
}

#[test]
fn hunk_keeps_three_lines_of_context() {
    let old = numbered(20);
    let new = old.replace("line 10\n", "MODIFIED\n");
    let diff = diff_strings(&old, &new);
    assert_eq!(diff.hunks.len(), 1);
    let hunk = &diff.hunks[0];
    assert_eq!(hunk.lines.len(), 8);
    assert_eq!(hunk.old_start, 7);
    assert_eq!(hunk.new_start, 7);
    assert_eq!(hunk.old_count, 7);
    assert_eq!(hunk.new_count, 7);
    assert_eq!(hunk.lines[0].kind, DiffKind::Context);
    assert_eq!(hunk.lines[0].content, "line 7");
    assert_eq!(hunk.lines[3].kind, DiffKind::Deleted);
    assert_eq!(hunk.lines[4].kind, DiffKind::Added);
    assert_eq!(hunk.lines[4].content, "MODIFIED");
}

#[test]
fn distant_changes_make_separate_hunks() {
    let old = numbered(40);
    let new = old.replace("line 5\n", "five\n").replace("line 35\n", "thirty-five\n");
    let diff = diff_strings(&old, &new);
    assert_eq!(diff.hunks.len(), 2);
    assert_eq!(diff.stats.added_count, 2);
    assert_eq!(diff.stats.deleted_count, 2);
    assert_eq!(diff.hunks[1].old_start, 32);
}

#[test]
fn missing_final_newline_counts_as_a_change() {
    let diff = diff_strings("a\nb\n", "a\nb");
    assert_eq!(diff.stats.deleted_count, 1);
    assert_eq!(diff.stats.added_count, 1);
}

#[test]
fn long_diffs_are_cut_to_two_hunks() {
    let text = numbered(6000);
    let diff = diff_working(None, &present(&text));
    assert!(diff.is_new_file);
    assert!(diff.is_truncated);
    assert_eq!(diff.hunks.len(), 2);
    assert_eq!(diff.hunks[0].lines.len(), 100);
    assert_eq!(diff.hunks[1].lines.len(), 100);
    assert_eq!(diff.omitted_lines, 5800);
    assert_eq!(diff.truncation_reason.as_deref(), Some("5800 lines omitted"));
    assert_eq!(diff.stats.added_count, 6000);
    assert_eq!(diff.hunks[1].new_start, 5901);
    assert_eq!(diff.hunks[1].new_count, 100);
    assert_eq!(diff.hunks[0].lines[0].content, "line 1");
    assert_eq!(diff.hunks[1].lines[99].content, "line 6000");
}

#[test]
fn diffs_at_the_cap_are_kept_whole() {
    let diff = finalize_diff(diff_strings("", &numbered(5000)), 10, false);
    assert!(!diff.is_truncated);
    assert_eq!(diff.hunks[0].lines.len(), 5000);
    assert!(diff.truncation_reason.is_none());
}

#[test]
fn large_working_file_gets_a_size_note() {
    let old = format!("{}\n", "y".repeat(1_153_434));
    let new = format!("{}\n", "x".repeat(1_153_434));
    let diff = diff_working(Some(&old), &present(&new));
    assert!(!diff.is_truncated);
    assert_eq!(diff.truncation_reason.as_deref(), Some("Large file (1.1 MB)"));
    assert_eq!(diff.stats.added_count, 1);
}

#[test]
fn oversized_working_file_is_skipped() {
    let size = 10 * 1024 * 1024;
    assert!(!content_needed(size));
    assert!(content_needed(size - 1));
    let diff = diff_working(Some("a\n"), &WorkingFile::Present { size, bytes: None });
    assert!(diff.is_truncated);
    assert!(diff.hunks.is_empty());
    assert_eq!(diff.truncation_reason.as_deref(), Some("File too large (10.0 MB) - skipped"));
}

#[test]
fn missing_or_unreadable_working_file_is_deleted() {
    let gone = diff_working(Some("a\n"), &WorkingFile::Missing);
    assert!(gone.is_deleted);
    assert!(gone.hunks.is_empty());
    let unreadable = diff_working(Some("a\n"), &WorkingFile::Present { size: 2, bytes: None });
    assert!(unreadable.is_deleted);
}

#[test]
fn zero_byte_makes_a_binary_file() {
    let diff = diff_working(Some("a\n"), &WorkingFile::Present { size: 4, bytes: Some(vec![0, 1, 2, 3]) });
    assert!(diff.is_binary);
    assert!(!diff.is_deleted);
    assert!(diff.hunks.is_empty());
    assert_eq!(diff.stats.added_count, 0);
}

#[test]
fn invalid_utf8_is_decoded_lossily() {
    let diff = diff_working(None, &WorkingFile::Present { size: 3, bytes: Some(vec![b'a', 0xff, b'\n']) });
    assert_eq!(diff.hunks[0].lines[0].content, "a\u{fffd}");
}

#[test]
fn staged_cases() {
    let both = diff_staged(Some("a\n"), Some("b\n"));
    assert_eq!(both.stats.added_count, 1);
    assert_eq!(both.stats.deleted_count, 1);
    let added = diff_staged(None, Some("b\n"));
    assert!(added.is_new_file);
    let removed = diff_staged(Some("a\n"), None);
    assert!(removed.is_deleted);
    let neither = diff_staged(None, None);
    assert!(neither.hunks.is_empty());
    assert!(!neither.is_new_file && !neither.is_deleted);
    let same = diff_staged(Some("content"), Some("content"));
    assert!(same.hunks.is_empty());
}

#[test]
fn paths_relative_to_the_root() {
    assert_eq!(strip_root("/repo/", "/repo/src/lib.rs"), "src/lib.rs");
    assert_eq!(strip_root("/repo", "/repo/test.txt"), "test.txt");
    assert_eq!(strip_root("/repo", "/repo"), "");
    assert_eq!(strip_root("/repo", "/repository/x"), "/repository/x");
    assert_eq!(strip_root("/repo", "/other/x"), "/other/x");
}

#[test]
fn repo_paths_git_accepts() {
    assert!(check_repo_path("a.txt"));
    assert!(check_repo_path(".gitignore"));
    assert!(!check_repo_path(""));
    assert!(!check_repo_path("/abs"));
    assert!(!check_repo_path("./a"));
    assert!(!check_repo_path("../a"));
    assert!(!check_repo_path("a\0b"));
}

fn repo_with(files: &[(&str, &str)]) -> (tempfile::TempDir, GitEngine) {
    let dir = tempfile::TempDir::new().unwrap();
    let repo = git2::Repository::init(dir.path()).unwrap();
    if !files.is_empty() {
        let mut builder = repo.treebuilder(None).unwrap();
        for (name, content) in files {
            let oid = repo.blob(content.as_bytes()).unwrap();
            builder.insert(name, oid, 0o100644).unwrap();
        }
        let tree_id = builder.write().unwrap();
        let tree = repo.find_tree(tree_id).unwrap();
        let sig = git2::Signature::now("test", "test@example.com").unwrap();
        repo.commit(Some("HEAD"), &sig, &sig, "initial", &tree, &[]).unwrap();
    }
    let engine = GitEngine::new(dir.path().to_str().unwrap()).unwrap();
    (dir, engine)
}

#[test]
fn committed_file_rewritten_on_disk() {
    let (_dir, engine) = repo_with(&[("a.txt", "x\n")]);
    let diff = engine.compute(DiffMode::All, "a.txt", &present("y\n"));
    assert_eq!(diff.hunks.len(), 1);
    assert_eq!(diff.stats.added_count, 1);
    assert_eq!(diff.stats.deleted_count, 1);
    assert_eq!(diff.hunks[0].lines[0].kind, DiffKind::Deleted);
    assert_eq!(diff.hunks[0].lines[0].content, "x");
    assert_eq!(diff.hunks[0].lines[1].kind, DiffKind::Added);
    assert_eq!(diff.hunks[0].lines[1].content, "y");
}

#[test]
fn untracked_file_is_new() {
    let (_dir, engine) = repo_with(&[("a.txt", "x\n")]);
    let diff = engine.compute_diff("b.txt", &present("hello\n"));
    assert!(diff.is_new_file);
    assert_eq!(diff.stats.added_count, 1);
    assert_eq!(diff.stats.deleted_count, 0);
}

#[test]
fn tracked_file_removed_from_disk() {
    let (_dir, engine) = repo_with(&[("a.txt", "x\n")]);
    let diff = engine.compute_diff("a.txt", &WorkingFile::Missing);
    assert!(diff.is_deleted);
    assert!(diff.hunks.is_empty());
}

#[test]
fn tracked_binary_file_modified() {
    let (_dir, engine) = repo_with(&[("image.png", "\0\u{1}\u{2}\u{3}\u{4}\u{5}")]);
    let bytes = vec![0, 1, 2, 3, 4, 5, 6, 7];
    let diff = engine.compute_diff("image.png", &WorkingFile::Present { size: 8, bytes: Some(bytes) });
    assert!(diff.is_binary);
    assert!(diff.hunks.is_empty());
    assert_eq!(diff.stats.added_count, 0);
    assert_eq!(diff.stats.deleted_count, 0);
}

#[test]
fn head_lookup_and_empty_repository() {
    let (_dir, engine) = repo_with(&[("a.txt", "x\n"), ("empty.txt", "")]);
    assert_eq!(engine.get_head_content("a.txt").as_deref(), Some("x\n"));
    assert_eq!(engine.get_head_content("nope.txt"), None);
    let diff = engine.compute_diff("empty.txt", &present("content"));
    assert!(!diff.is_new_file);
    assert_eq!(diff.stats.added_count, 1);
    let (_dir2, fresh) = repo_with(&[]);
    assert_eq!(fresh.get_head_content("a.txt"), None);
    assert!(fresh.compute_diff("a.txt", &present("a\n")).is_new_file);
}

#[test]
fn index_without_entry_falls_back_to_head() {
    let (_dir, engine) = repo_with(&[("a.txt", "x\n")]);
    assert_eq!(engine.get_index_content("a.txt"), None);
    let unstaged = engine.compute_unstaged_diff("a.txt", &present("x\ny\n"));
    assert_eq!(unstaged.stats.added_count, 1);
    assert_eq!(unstaged.stats.deleted_count, 0);
    let staged = engine.compute_staged_diff("a.txt");
    assert!(staged.is_deleted);
}

#[test]
fn engine_paths_and_errors() {
    let (dir, engine) = repo_with(&[]);
    let root = engine.repo_root().to_string();
    assert!(Path::new(&root).is_absolute());
    let nested = format!("{}/src/lib.rs", dir.path().to_str().unwrap());
    assert_eq!(engine.relative_path(&nested), "src/lib.rs");
    assert_eq!(
        EngineError::RepositoryNotFound.message(),
        "Current directory is not a Git repository. gwatch requires Git."
    );
}

#[test]
fn default_diff_is_empty() {
    let d = FileDiff::default();
    assert!(d.hunks.is_empty());
}

#[test]
fn engine_errors() {
    let missing = GitEngine::new("/nonexistent/gwatch/path").err();
    assert_eq!(missing, Some(EngineError::RepositoryNotFound));
    let bare_dir = tempfile::TempDir::new().unwrap();
    git2::Repository::init_bare(bare_dir.path()).unwrap();
    let bare = GitEngine::new(bare_dir.path().to_str().unwrap()).err();
    assert_eq!(bare, Some(EngineError::NoWorkingDirectory));
    assert_eq!(EngineError::NoWorkingDirectory.message(), "Repository has no working directory");
}

#[test]
fn blob_text_skips_binary_and_decodes_lossily() {
    assert_eq!(blob_text_of(true, b"abc"), None);
    assert_eq!(blob_text_of(false, b"abc").as_deref(), Some("abc"));
    assert_eq!(blob_text_of(false, &[b'a', 0xff]).as_deref(), Some("a\u{fffd}"));
}

#[test]
fn index_lookup_refuses_paths_git_rejects() {
    let (_dir, engine) = repo_with(&[("a.txt", "x\n")]);
    assert_eq!(engine.get_index_content("./a.txt"), None);
    assert_eq!(engine.get_index_content(""), None);
}

#[test]
fn equal_texts_give_the_empty_diff() {
    let d = diff_strings("same\n", "same\n");
    assert!(!d.is_truncated && !d.is_new_file);
    assert_eq!(d.omitted_lines, 0);
    let empty_new = diff_snapshots(None, "");
    assert!(empty_new.is_new_file);
    assert_eq!(empty_new.stats.added_count, 0);
}
