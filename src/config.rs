//! Configuration snapshots handed to the components.
use vstd::prelude::*;
use crate::text::{chars_of, lower_of, lowercase, owned, push_str, same_text, string_from_chars};

verus! {

/// Which external diff viewer to use.
#[derive(Debug, Clone, Copy, PartialEq, Eq, Structural)]
pub enum DiffViewerType {
    /// Detect an available viewer.
    Auto,
    Delta,
    Difftastic,
    /// The built-in viewer only.
    Internal,
}

impl Default for DiffViewerType {
    fn default() -> (r: DiffViewerType)
        ensures
            r == DiffViewerType::Auto,
    {
        DiffViewerType::Auto
    }
}

/// The viewer a lower-cased name stands for.
pub open spec fn viewer_type_of(lower: Seq<char>) -> DiffViewerType {
    if lower == "delta"@ {
        DiffViewerType::Delta
    } else if lower == "difftastic"@ || lower == "difft"@ {
        DiffViewerType::Difftastic
    } else if lower == "internal"@ || lower == "builtin"@ {
        DiffViewerType::Internal
    } else {
        DiffViewerType::Auto
    }
}

impl DiffViewerType {
    /// The viewer a lower-cased name stands for (see `viewer_type_of`).
    pub fn from_lowercase(lower: &str) -> (r: DiffViewerType)
        ensures
            r == viewer_type_of(lower@),
    {
        if same_text(lower, "delta") {
            DiffViewerType::Delta
        } else if same_text(lower, "difftastic") || same_text(lower, "difft") {
            DiffViewerType::Difftastic
        } else if same_text(lower, "internal") || same_text(lower, "builtin") {
            DiffViewerType::Internal
        } else {
            DiffViewerType::Auto
        }
    }

    /// The viewer a name stands for, case-insensitively; `Auto` for an
    /// unknown name.
    pub fn from_str(s: &str) -> (r: DiffViewerType)
        ensures
            r == viewer_type_of(lower_of(s@)),
    {
        let lower = lowercase(s);
        DiffViewerType::from_lowercase(lower.as_str())
    }

    /// The same as `from_str`.
    pub fn parse_from_str(s: &str) -> (r: DiffViewerType)
        ensures
            r == viewer_type_of(lower_of(s@)),
    {
        DiffViewerType::from_str(s)
    }
}

/// The theme chosen, and custom colours if any.
#[derive(Debug, Clone)]
pub struct ThemeConfig {
    pub name: String,
    pub custom: Option<CustomColors>,
}

/// Colours given by the user, as colour strings.
#[derive(Debug, Clone)]
pub struct CustomColors {
    pub added_line: String,
    pub deleted_line: String,
    pub context_line: String,
    pub line_number: String,
    pub border: String,
    pub text: String,
    pub background: String,
}

/// The external diff viewer and its arguments.
#[derive(Debug, Clone)]
pub struct DiffViewerConfig {
    pub viewer: DiffViewerType,
    pub pager: Option<String>,
    pub delta_args: Vec<String>,
    pub difftastic_args: Vec<String>,
}

impl Default for DiffViewerConfig {
    fn default() -> (r: DiffViewerConfig)
        ensures
            r.viewer == DiffViewerType::Auto,
            r.pager is None,
            r.delta_args@.len() == 1 && r.delta_args@[0]@ == "--side-by-side"@,
            r.difftastic_args@.len() == 0,
    {
        let mut delta_args: Vec<String> = Vec::new();
        delta_args.push(owned("--side-by-side"));
        DiffViewerConfig { viewer: DiffViewerType::Auto, pager: None, delta_args, difftastic_args: Vec::new() }
    }
}

/// The editor command and its argument templates (`{line}`, `{file}`).
#[derive(Debug, Clone)]
pub struct EditorConfig {
    pub command: String,
    pub args: Vec<String>,
}

/// The change detector's settings.
#[derive(Debug, Clone)]
pub struct WatcherConfig {
    pub debounce_ms: u64,
    pub max_events_buffer: usize,
    pub ignore_patterns: Vec<String>,
}

/// Display settings.
#[derive(Debug, Clone)]
pub struct DisplayConfig {
    pub context_lines: usize,
    pub truncate_long_lines: bool,
    pub max_line_length: usize,
    pub show_line_numbers: bool,
    pub show_file_path: bool,
    pub use_nerd_font_icons: bool,
}

/// Key names bound to actions.
#[derive(Debug, Clone)]
pub struct KeybindingConfig {
    pub pause_resume: String,
    pub scroll_up: String,
    pub scroll_down: String,
    pub open_editor: String,
    pub theme_selector: String,
    pub settings: String,
    pub clear_history: String,
    pub quit: String,
    pub help: String,
}

/// The whole configuration.
#[derive(Debug, Clone)]
pub struct Config {
    pub theme: ThemeConfig,
    pub editor: EditorConfig,
    pub watcher: WatcherConfig,
    pub display: DisplayConfig,
    pub keybindings: KeybindingConfig,
    pub diff_viewer: DiffViewerConfig,
}

impl Config {
    /// The default configuration, with the given editor command (`vim` when
    /// none is given).
    pub fn default_with_editor(editor: Option<String>) -> (r: Config)
        ensures
            r.theme.name@ == "nord"@,
            r.theme.custom is None,
            editor is Some ==> r.editor.command@ == editor->0@,
            editor is None ==> r.editor.command@ == "vim"@,
            r.watcher.debounce_ms == 50,
            r.watcher.max_events_buffer == 300,
            r.watcher.ignore_patterns@.len() == 5,
            r.display.context_lines == 3,
            !r.display.truncate_long_lines,
            r.display.max_line_length == 120,
            r.display.show_line_numbers,
            r.display.show_file_path,
            r.display.use_nerd_font_icons,
            r.diff_viewer.viewer == DiffViewerType::Auto,
            r.diff_viewer.pager is None,
    {
        let command = match editor {
            Some(e) => e,
            None => owned("vim"),
        };
        let mut args: Vec<String> = Vec::new();
        args.push(owned("+{line}"));
        args.push(owned("{file}"));
        let mut ignore_patterns: Vec<String> = Vec::new();
        ignore_patterns.push(owned("node_modules"));
        ignore_patterns.push(owned("dist"));
        ignore_patterns.push(owned("build"));
        ignore_patterns.push(owned("*.log"));
        ignore_patterns.push(owned("target"));
        Config {
            theme: ThemeConfig { name: owned("nord"), custom: None },
            editor: EditorConfig { command, args },
            watcher: WatcherConfig { debounce_ms: 50, max_events_buffer: 300, ignore_patterns },
            display: DisplayConfig {
                context_lines: 3,
                truncate_long_lines: false,
                max_line_length: 120,
                show_line_numbers: true,
                show_file_path: true,
                use_nerd_font_icons: true,
            },
            keybindings: KeybindingConfig {
                pause_resume: owned("space"),
                scroll_up: owned("up"),
                scroll_down: owned("down"),
                open_editor: owned("enter"),
                theme_selector: owned("t"),
                settings: owned("s"),
                clear_history: owned("c"),
                quit: owned("q"),
                help: owned("?"),
            },
            diff_viewer: DiffViewerConfig::default(),
        }
    }
}

impl Default for Config {
    fn default() -> (r: Config)
        ensures
            r.theme.name@ == "nord"@,
            r.editor.command@ == "vim"@,
            r.watcher.debounce_ms == 50,
            r.watcher.max_events_buffer == 300,
            r.display.context_lines == 3,
            r.display.show_line_numbers,
            r.diff_viewer.viewer == DiffViewerType::Auto,
            r.diff_viewer.pager is None,
    {
        Config::default_with_editor(None)
    }
}

/// Relies on `dirs::config_dir`: the user's configuration directory, where
/// the platform has one (it depends on the environment).
#[verifier::external_body]
fn user_config_dir() -> (r: Option<String>) {
    dirs::config_dir().map(|p| p.to_string_lossy().into_owned())
}

/// `dir` joined with the relative name `name`.
pub open spec fn joined(dir: Seq<char>, name: Seq<char>) -> Seq<char> {
    if dir.len() > 0 && dir.last() == '/' { dir + name } else { dir + "/"@ + name }
}

/// Joins a directory and a relative name with one separator.
pub fn join_path(dir: &str, name: &str) -> (r: String)
    ensures
        r@ == joined(dir@, name@),
{
    let mut out = chars_of(dir);
    let n = out.len();
    if !(n > 0 && out[n - 1] == '/') {
        push_str(&mut out, "/");
    }
    push_str(&mut out, name);
    string_from_chars(out.as_slice())
}

/// The directory of this program's files inside a configuration directory
/// (`.` when there is none).
pub open spec fn app_dir_in(base: Option<Seq<char>>) -> Seq<char> {
    match base {
        Some(b) => joined(b, "gwatch"@),
        None => joined("."@, "gwatch"@),
    }
}

impl Config {
    /// The directory holding this program's files, for whatever the platform
    /// gave as the user's configuration directory.
    pub fn config_dir() -> (r: String)
        ensures
            exists|base: Option<Seq<char>>| r@ == app_dir_in(base),
    {
        match user_config_dir() {
            Some(b) => {
                let r = join_path(b.as_str(), "gwatch");
                assert(r@ == app_dir_in(Some(b@)));
                r
            },
            None => {
                let r = join_path(".", "gwatch");
                assert(r@ == app_dir_in(None));
                r
            },
        }
    }

    /// The configuration file.
    pub fn config_path() -> (r: String)
        ensures
            exists|base: Option<Seq<char>>| r@ == joined(app_dir_in(base), "config.json"@),
    {
        let dir = Config::config_dir();
        join_path(dir.as_str(), "config.json")
    }
}

} // verus!
