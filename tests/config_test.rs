use gwatch::config::{join_path, Config, DiffViewerConfig, DiffViewerType};

#[test]
fn test_diff_viewer_config_default() {
    let config = Config::default();
    assert_eq!(config.diff_viewer.viewer, DiffViewerType::Auto);
    assert!(config.diff_viewer.pager.is_none());
}

#[test]
fn test_diff_viewer_type_from_str() {
    assert_eq!(DiffViewerType::from_str("delta"), DiffViewerType::Delta);
    assert_eq!(DiffViewerType::from_str("difftastic"), DiffViewerType::Difftastic);
    assert_eq!(DiffViewerType::from_str("internal"), DiffViewerType::Internal);
    assert_eq!(DiffViewerType::from_str("auto"), DiffViewerType::Auto);
    assert_eq!(DiffViewerType::from_str("unknown"), DiffViewerType::Auto);
}

#[test]
fn test_config_default_values() {
    let config = Config::default();
    assert_eq!(config.theme.name, "nord");
    assert_eq!(config.watcher.debounce_ms, 50);
    assert_eq!(config.watcher.max_events_buffer, 300);
    assert_eq!(config.display.context_lines, 3);
    assert!(config.display.show_line_numbers);
}

#[test]
fn test_diff_viewer_config_delta_args() {
    let config = DiffViewerConfig::default();
    assert_eq!(config.delta_args, vec!["--side-by-side".to_string()]);
}

#[test]
fn test_diff_viewer_type_difft_alias() {
    assert_eq!(DiffViewerType::parse_from_str("difft"), DiffViewerType::Difftastic);
}

#[test]
fn test_diff_viewer_type_builtin_alias() {
    assert_eq!(DiffViewerType::parse_from_str("builtin"), DiffViewerType::Internal);
}

#[test]
fn viewer_names_ignore_case() {
    assert_eq!(DiffViewerType::from_str("DELTA"), DiffViewerType::Delta);
    assert_eq!(DiffViewerType::from_str("Difft"), DiffViewerType::Difftastic);
    assert_eq!(DiffViewerType::from_str("BuiltIn"), DiffViewerType::Internal);
    assert_eq!(DiffViewerType::from_lowercase("Delta"), DiffViewerType::Auto);
}

#[test]
fn default_editor_can_be_given() {
    let config = Config::default_with_editor(Some("nano".to_string()));
    assert_eq!(config.editor.command, "nano");
    assert_eq!(Config::default().editor.command, "vim");
    assert_eq!(config.watcher.ignore_patterns, vec!["node_modules", "dist", "build", "*.log", "target"]);
}

#[test]
fn test_config_dir_exists() {
    let dir = Config::config_dir();
    assert!(dir.contains("gwatch"));
}

#[test]
fn test_config_path_is_json() {
    let path = Config::config_path();
    assert!(path.ends_with("config.json"));
}

#[test]
fn paths_join_with_one_separator() {
    assert_eq!(join_path("/home/u/.config", "gwatch"), "/home/u/.config/gwatch");
    assert_eq!(join_path("/home/u/.config/", "gwatch"), "/home/u/.config/gwatch");
    assert_eq!(join_path(".", "gwatch"), "./gwatch");
}
