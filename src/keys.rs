//! Key dispatch: what a key press does to the view, and which outside work
//! (an editor, a viewer, saving) it asks for.
use vstd::prelude::*;
use crate::app_state::AppState;
use crate::coordinator::App;
use crate::types::next_mode;

verus! {

/// A key press.
#[derive(Debug, Clone, Copy, PartialEq, Eq, Structural)]
pub enum Key {
    Char(char),
    Esc,
    Up,
    Down,
    PageUp,
    PageDown,
    Left,
    Right,
    Enter,
    Other,
}

/// Work a key asks for that happens outside the view.
#[derive(Debug, Clone, Copy, PartialEq, Eq, Structural)]
pub enum KeyAction {
    Nothing,
    OpenEditor,
    OpenDiffViewer,
    OpenThemeSelector,
    OpenSettings,
    ToggleReviewed,
    ClearAllReviewed,
    /// Apply the theme at this index of the theme list.
    SelectTheme(usize),
    /// A key for the settings editor.
    SettingsInput(Key),
}

/// The outside work a key asks for in the main view.
pub open spec fn main_action(key: Key) -> KeyAction {
    match key {
        Key::Enter => KeyAction::OpenEditor,
        Key::Char('d') => KeyAction::OpenDiffViewer,
        Key::Char('t') => KeyAction::OpenThemeSelector,
        Key::Char('s') => KeyAction::OpenSettings,
        Key::Char('r') => KeyAction::ToggleReviewed,
        Key::Char('R') => KeyAction::ClearAllReviewed,
        _ => KeyAction::Nothing,
    }
}

/// A key in the main view: quit, pause, scrolling, event and hunk
/// navigation, collapsing, clearing, mode cycling, help, and opening the
/// theme selector or the settings editor act on the view; the outside work
/// is returned (see `main_action`).
pub fn handle_main_key(app: &mut App, key: Key) -> (a: KeyAction)
    ensures
        a == main_action(key),
        (key == Key::Char('q') || key == Key::Esc) ==> final(app).should_quit,
        key == Key::Char(' ') && old(app).state == AppState::Running ==> final(app).state == AppState::Paused,
        key == Key::Char(' ') && old(app).state == AppState::Paused ==> final(app).state == AppState::Running,
        key == Key::Char('m') ==> final(app).diff_mode == next_mode(old(app).diff_mode),
        key == Key::Char('c') ==> final(app).events@.len() == 0,
        key == Key::Char('?') ==> final(app).state == AppState::HelpPanel,
        key == Key::Char('t') ==> final(app).state == AppState::ThemeSelector,
        key == Key::Char('s') ==> final(app).state == AppState::SettingsEditor,
        key == Key::Char('Z') ==> final(app).hunk_state.collapse_context == !old(app).hunk_state.collapse_context,
        key == Key::Char('p') && old(app).events@.len() > 0 && old(app).scroll_offset < old(app).events@.len() - 1
            ==> final(app).scroll_offset == old(app).scroll_offset + 1,
        key == Key::Char('n') && old(app).scroll_offset > 0 ==> final(app).scroll_offset == old(app).scroll_offset - 1,
        final(app).events@.len() <= old(app).events@.len(),
        key != Key::Char('c') ==> final(app).events == old(app).events,
{
    match key {
        Key::Char('q') | Key::Esc => {
            app.should_quit = true;
        },
        Key::Char(' ') => {
            app.toggle_pause();
        },
        Key::Up | Key::Char('k') => {
            app.diff_scroll_up(1);
        },
        Key::Down | Key::Char('j') => {
            let max = app.get_current_diff_line_count();
            app.diff_scroll_down(1, max);
        },
        Key::PageUp => {
            app.diff_scroll_up(10);
        },
        Key::PageDown => {
            let max = app.get_current_diff_line_count();
            app.diff_scroll_down(10, max);
        },
        Key::Left | Key::Char('h') => {
            app.diff_scroll_left();
        },
        Key::Right | Key::Char('l') => {
            app.diff_scroll_right();
        },
        Key::Char('p') => {
            app.scroll_up();
        },
        Key::Char('n') => {
            app.scroll_down();
        },
        Key::Char(']') => {
            app.next_hunk();
        },
        Key::Char('[') => {
            app.prev_hunk();
        },
        Key::Char('z') => {
            app.toggle_current_hunk_collapsed();
        },
        Key::Char('Z') => {
            app.toggle_context_collapsed();
        },
        Key::Char('c') => {
            app.clear_history();
        },
        Key::Char('m') => {
            app.cycle_diff_mode();
        },
        Key::Char('?') => {
            app.open_help();
        },
        Key::Char('t') => {
            app.state = AppState::ThemeSelector;
            return KeyAction::OpenThemeSelector;
        },
        Key::Char('s') => {
            app.state = AppState::SettingsEditor;
            return KeyAction::OpenSettings;
        },
        Key::Enter => {
            return KeyAction::OpenEditor;
        },
        Key::Char('d') => {
            return KeyAction::OpenDiffViewer;
        },
        Key::Char('r') => {
            return KeyAction::ToggleReviewed;
        },
        Key::Char('R') => {
            return KeyAction::ClearAllReviewed;
        },
        _ => {},
    }
    KeyAction::Nothing
}

/// Moves the theme selection up one, wrapping to the last of `count`.
pub fn theme_index_up(index: usize, count: usize) -> (r: usize)
    requires
        count > 0,
    ensures
        index > 0 ==> r == index - 1,
        index == 0 ==> r == count - 1,
{
    if index > 0 { index - 1 } else { count - 1 }
}

/// Moves the theme selection down one, wrapping to the first of `count`.
pub fn theme_index_down(index: usize, count: usize) -> (r: usize)
    requires
        count > 0,
    ensures
        r == (index as int + 1) % (count as int),
{
    let r = index % count;
    proof {
        let c = count as int;
        if c > 1 {
            vstd::arithmetic::div_mod::lemma_small_mod(1, c as nat);
            vstd::arithmetic::div_mod::lemma_add_mod_noop(index as int, 1, c);
        } else {
            assert((index as int + 1) % 1 == 0);
            assert((r as int + 1) % 1 == 0);
        }
    }
    (r + 1) % count
}

/// A key while the theme selector is open, over a list of `theme_count`
/// themes: close, move the selection, or pick the selected theme.
pub fn handle_theme_selector_key(app: &mut App, key: Key, theme_count: usize) -> (a: KeyAction)
    requires
        theme_count > 0,
    ensures
        (key == Key::Esc || key == Key::Char('q') || key == Key::Char('t')) ==> a == KeyAction::Nothing
            && final(app).state == (if old(app).state == AppState::Paused { AppState::Paused } else { AppState::Running }),
        (key == Key::Up || key == Key::Char('k')) ==> final(app).selected_theme_index == (if old(app).selected_theme_index > 0 {
            old(app).selected_theme_index - 1
        } else {
            theme_count - 1
        }),
        (key == Key::Down || key == Key::Char('j')) ==> final(app).selected_theme_index == (old(app).selected_theme_index as int + 1)
            % (theme_count as int),
        key == Key::Enter ==> a == KeyAction::SelectTheme(old(app).selected_theme_index)
            && final(app).state == (if old(app).state == AppState::Paused { AppState::Paused } else { AppState::Running }),
        final(app).events == old(app).events,
{
    match key {
        Key::Esc | Key::Char('q') | Key::Char('t') => {
            app.close_overlay();
            KeyAction::Nothing
        },
        Key::Up | Key::Char('k') => {
            app.selected_theme_index = theme_index_up(app.selected_theme_index, theme_count);
            KeyAction::Nothing
        },
        Key::Down | Key::Char('j') => {
            app.selected_theme_index = theme_index_down(app.selected_theme_index, theme_count);
            KeyAction::Nothing
        },
        Key::Enter => {
            let picked = app.selected_theme_index;
            app.close_overlay();
            KeyAction::SelectTheme(picked)
        },
        _ => KeyAction::Nothing,
    }
}

/// Dispatches a key by what is on screen: the help panel closes on any key,
/// the settings editor closes on Esc and hands other keys on, the theme
/// selector and the main view as above.
pub fn handle_key_event(app: &mut App, key: Key, theme_count: usize) -> (a: KeyAction)
    requires
        theme_count > 0,
    ensures
        old(app).state == AppState::HelpPanel ==> final(app).state == AppState::Running && a == KeyAction::Nothing,
        old(app).state == AppState::SettingsEditor && key == Key::Esc ==> final(app).state == AppState::Running,
        old(app).state == AppState::SettingsEditor && key != Key::Esc ==> a == KeyAction::SettingsInput(key),
        (old(app).state == AppState::Running || old(app).state == AppState::Paused) ==> a == main_action(key),
{
    match app.state {
        AppState::ThemeSelector => handle_theme_selector_key(app, key, theme_count),
        AppState::HelpPanel => {
            app.close_overlay();
            KeyAction::Nothing
        },
        AppState::SettingsEditor => {
            if key == Key::Esc {
                app.close_overlay();
                KeyAction::Nothing
            } else {
                KeyAction::SettingsInput(key)
            }
        },
        _ => handle_main_key(app, key),
    }
}

} // verus!
