use gwatch::watcher::{check_gitignore_safe, Arrival, ChangeDetector, ChangeKind, Debouncer, Expiry, IgnoreRules};
use ignore::gitignore::GitignoreBuilder;

fn rules() -> IgnoreRules {
    IgnoreRules::new("/repo".to_string(), None, vec!["*.log".to_string(), "node_modules".to_string()])
}

#[test]
fn burst_of_five_settles_once() {
    let mut d = Debouncer::new(50);
    let p = "/repo/a.txt".to_string();
    assert_eq!(d.on_event(&p, 0), Arrival::Scheduled);
    for t in [10, 20, 30, 40] {
        assert_eq!(d.on_event(&p, t), Arrival::Coalesced);
    }
    assert_eq!(d.on_timer(&p, 50), Expiry::Rearm(40));
    assert_eq!(d.on_timer(&p, 90), Expiry::Emit);
    assert!(!d.is_pending(&p));
    assert_eq!(d.on_timer(&p, 140), Expiry::Stale);
}

#[test]
fn single_event_settles_after_the_window() {
    let mut d = Debouncer::new(50);
    let p = "/repo/b.txt".to_string();
    assert_eq!(d.on_event(&p, 100), Arrival::Scheduled);
    assert_eq!(d.on_timer(&p, 149), Expiry::Rearm(1));
    assert_eq!(d.on_timer(&p, 150), Expiry::Emit);
    assert_eq!(d.on_event(&p, 200), Arrival::Scheduled);
}

#[test]
fn paths_are_debounced_apart() {
    let mut d = Debouncer::new(50);
    let a = "/repo/a".to_string();
    let b = "/repo/b".to_string();
    assert_eq!(d.on_event(&a, 0), Arrival::Scheduled);
    assert_eq!(d.on_event(&b, 5), Arrival::Scheduled);
    assert_eq!(d.on_timer(&a, 50), Expiry::Emit);
    assert!(d.is_pending(&b));
    assert_eq!(d.on_timer(&b, 55), Expiry::Emit);
}

#[test]
fn git_dir_and_globs_are_ignored() {
    let r = rules();
    assert!(r.is_ignored("/repo/.git/index"));
    assert!(r.is_ignored("/repo/.git"));
    assert!(r.is_ignored("/repo/debug.log"));
    assert!(r.is_ignored("/repo/node_modules"));
    assert!(!r.is_ignored("/repo/.gitignore"));
    assert!(!r.is_ignored("/repo/src/main.rs"));
}

#[test]
fn gitignore_rules_apply() {
    let mut builder = GitignoreBuilder::new("/repo");
    builder.add_line(None, "*.tmp").unwrap();
    builder.add_line(None, "out/").unwrap();
    let gi = builder.build().unwrap();
    let r = IgnoreRules::new("/repo".to_string(), Some(gi), vec![]);
    assert!(r.is_ignored("/repo/x.tmp"));
    assert!(r.is_ignored("/repo/out/a.txt"));
    assert!(!r.is_ignored("/repo/x.txt"));
}

#[test]
fn ignored_paths_never_settle() {
    let mut det = ChangeDetector::new(rules(), 50);
    let git = "/repo/.git/index".to_string();
    let log = "/repo/build.log".to_string();
    for t in 0..5 {
        assert_eq!(det.notify(ChangeKind::Modify, &git, true, t), Arrival::Ignored);
        assert_eq!(det.notify(ChangeKind::Modify, &log, true, t), Arrival::Ignored);
    }
    assert_eq!(det.on_timer(&git, 1000), Expiry::Stale);
    assert_eq!(det.on_timer(&log, 1000), Expiry::Stale);
}

#[test]
fn only_created_or_modified_files_count() {
    let mut det = ChangeDetector::new(rules(), 50);
    let p = "/repo/src/main.rs".to_string();
    assert_eq!(det.notify(ChangeKind::Remove, &p, true, 0), Arrival::Ignored);
    assert_eq!(det.notify(ChangeKind::Other, &p, true, 0), Arrival::Ignored);
    assert_eq!(det.notify(ChangeKind::Modify, &p, false, 0), Arrival::Ignored);
    assert_eq!(det.notify(ChangeKind::Create, &p, true, 0), Arrival::Scheduled);
    assert_eq!(det.notify(ChangeKind::Modify, &p, true, 20), Arrival::Coalesced);
    assert_eq!(det.on_timer(&p, 50), Expiry::Rearm(20));
    assert_eq!(det.on_timer(&p, 70), Expiry::Emit);
}

#[test]
fn renames_and_metadata_changes_do_not_count() {
    let mut det = ChangeDetector::new(rules(), 50);
    let p = "/repo/src/main.rs".to_string();
    assert_eq!(det.notify(ChangeKind::Rename, &p, true, 0), Arrival::Ignored);
    assert_eq!(det.notify(ChangeKind::Metadata, &p, true, 0), Arrival::Ignored);
    assert_eq!(det.on_timer(&p, 100), Expiry::Stale);
}

#[test]
fn gitignore_answer_decides() {
    let mut det = ChangeDetector::new(rules(), 50);
    let p = "/repo/src/main.rs".to_string();
    assert!(!det.gitignore_answer(&p));
    assert_eq!(det.on_notification(ChangeKind::Modify, &p, true, true, 0), Arrival::Ignored);
    assert_eq!(det.on_notification(ChangeKind::Modify, &p, true, false, 0), Arrival::Scheduled);
}

#[test]
fn gitignored_path_never_settles() {
    let mut builder = GitignoreBuilder::new("/repo");
    builder.add_line(None, "*.tmp").unwrap();
    let r = IgnoreRules::new("/repo".to_string(), Some(builder.build().unwrap()), vec![]);
    let mut det = ChangeDetector::new(r, 50);
    let p = "/repo/a.tmp".to_string();
    assert!(det.gitignore_answer(&p));
    assert_eq!(det.notify(ChangeKind::Modify, &p, true, 0), Arrival::Ignored);
    assert_eq!(det.on_timer(&p, 100), Expiry::Stale);
}

#[test]
fn paths_the_gitignore_matcher_cannot_take() {
    assert!(check_gitignore_safe("a/b.txt"));
    assert!(check_gitignore_safe("./a"));
    assert!(!check_gitignore_safe(".//x"));
    assert!(!check_gitignore_safe("/abs"));
    let mut builder = GitignoreBuilder::new("/repo");
    builder.add_line(None, "x").unwrap();
    let r = IgnoreRules::new("/repo".to_string(), Some(builder.build().unwrap()), vec![]);
    assert!(!r.gitignore_says("/repo/.//x"));
    assert!(!r.gitignore_says(".//x"));
    assert!(r.gitignore_says("/repo/x"));
}
