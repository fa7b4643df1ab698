//! Choice of the external diff viewer, from what is installed.
use vstd::prelude::*;
use crate::config::{DiffViewerConfig, DiffViewerType};

verus! {

/// Which viewer commands were found on this machine.
#[derive(Debug, Clone, Copy, PartialEq, Eq, Structural)]
pub struct ViewerAvailability {
    pub delta: bool,
    pub difftastic: bool,
}

/// The viewer auto-detection picks: delta, else difftastic, else the
/// built-in one.
pub open spec fn detected(avail: ViewerAvailability) -> DiffViewerType {
    if avail.delta {
        DiffViewerType::Delta
    } else if avail.difftastic {
        DiffViewerType::Difftastic
    } else {
        DiffViewerType::Internal
    }
}

/// The viewer auto-detection picks (see `detected`).
pub fn detect_available_viewer(avail: ViewerAvailability) -> (r: DiffViewerType)
    ensures
        r == detected(avail),
{
    if avail.delta {
        DiffViewerType::Delta
    } else if avail.difftastic {
        DiffViewerType::Difftastic
    } else {
        DiffViewerType::Internal
    }
}

/// The viewer used for a configured choice: an explicit viewer that is not
/// installed falls back to the built-in one.
pub open spec fn resolved(choice: DiffViewerType, avail: ViewerAvailability) -> DiffViewerType {
    match choice {
        DiffViewerType::Auto => detected(avail),
        DiffViewerType::Delta => if avail.delta { DiffViewerType::Delta } else { DiffViewerType::Internal },
        DiffViewerType::Difftastic => if avail.difftastic { DiffViewerType::Difftastic } else { DiffViewerType::Internal },
        DiffViewerType::Internal => DiffViewerType::Internal,
    }
}

/// The viewer used for the configuration (see `resolved`).
pub fn resolve_viewer(config: &DiffViewerConfig, avail: ViewerAvailability) -> (r: DiffViewerType)
    ensures
        r == resolved(config.viewer, avail),
        r != DiffViewerType::Auto,
{
    match config.viewer {
        DiffViewerType::Auto => detect_available_viewer(avail),
        DiffViewerType::Delta => if avail.delta { DiffViewerType::Delta } else { DiffViewerType::Internal },
        DiffViewerType::Difftastic => if avail.difftastic { DiffViewerType::Difftastic } else { DiffViewerType::Internal },
        DiffViewerType::Internal => DiffViewerType::Internal,
    }
}

/// The name shown for a viewer.
pub open spec fn viewer_name(v: DiffViewerType) -> Seq<char> {
    match v {
        DiffViewerType::Auto => "Auto"@,
        DiffViewerType::Delta => "delta"@,
        DiffViewerType::Difftastic => "difftastic"@,
        DiffViewerType::Internal => "Internal"@,
    }
}

/// The name shown for a viewer.
pub fn get_viewer_display_name(viewer: &DiffViewerType) -> (r: &'static str)
    ensures
        r@ == viewer_name(*viewer),
{
    match viewer {
        DiffViewerType::Auto => "Auto",
        DiffViewerType::Delta => "delta",
        DiffViewerType::Difftastic => "difftastic",
        DiffViewerType::Internal => "Internal",
    }
}

} // verus!
