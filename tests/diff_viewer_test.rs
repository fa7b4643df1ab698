use gwatch::config::{DiffViewerConfig, DiffViewerType};
use gwatch::diff_viewer::{detect_available_viewer, get_viewer_display_name, resolve_viewer, ViewerAvailability};

const NOTHING: ViewerAvailability = ViewerAvailability { delta: false, difftastic: false };

#[test]
fn test_detect_viewer_internal_fallback() {
    let result = detect_available_viewer(NOTHING);
    assert!(matches!(result, DiffViewerType::Delta | DiffViewerType::Difftastic | DiffViewerType::Internal));
    assert_eq!(result, DiffViewerType::Internal);
}

#[test]
fn test_resolve_viewer() {
    let config = DiffViewerConfig::default();
    let resolved = resolve_viewer(&config, NOTHING);
    assert!(matches!(resolved, DiffViewerType::Delta | DiffViewerType::Difftastic | DiffViewerType::Internal));
}

#[test]
fn test_resolve_viewer_explicit_internal() {
    let config = DiffViewerConfig { viewer: DiffViewerType::Internal, ..Default::default() };
    assert_eq!(resolve_viewer(&config, NOTHING), DiffViewerType::Internal);
    let both = ViewerAvailability { delta: true, difftastic: true };
    assert_eq!(resolve_viewer(&config, both), DiffViewerType::Internal);
}

#[test]
fn test_get_viewer_display_name() {
    assert_eq!(get_viewer_display_name(&DiffViewerType::Delta), "delta");
    assert_eq!(get_viewer_display_name(&DiffViewerType::Difftastic), "difftastic");
    assert_eq!(get_viewer_display_name(&DiffViewerType::Internal), "Internal");
    assert_eq!(get_viewer_display_name(&DiffViewerType::Auto), "Auto");
}

#[test]
fn detection_prefers_delta_then_difftastic() {
    let only_difft = ViewerAvailability { delta: false, difftastic: true };
    let both = ViewerAvailability { delta: true, difftastic: true };
    assert_eq!(detect_available_viewer(only_difft), DiffViewerType::Difftastic);
    assert_eq!(detect_available_viewer(both), DiffViewerType::Delta);
}

#[test]
fn explicit_viewer_falls_back_when_missing() {
    let delta = DiffViewerConfig { viewer: DiffViewerType::Delta, ..Default::default() };
    let difft = DiffViewerConfig { viewer: DiffViewerType::Difftastic, ..Default::default() };
    let only_difft = ViewerAvailability { delta: false, difftastic: true };
    assert_eq!(resolve_viewer(&delta, only_difft), DiffViewerType::Internal);
    assert_eq!(resolve_viewer(&difft, only_difft), DiffViewerType::Difftastic);
    assert_eq!(resolve_viewer(&difft, NOTHING), DiffViewerType::Internal);
}
