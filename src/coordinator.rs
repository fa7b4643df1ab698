//! The event coordinator: which diffs are shown, the bounded
//! most-recent-first history, and navigation through it.
use vstd::prelude::*;
use crate::app_state::{AppState, HunkViewState, SettingsEditorState};
use crate::diff_view::{RowView, align, build_side_by_side_lines, rows_view};
use crate::git_engine::flatten_lines;
use crate::types::{DiffHunk, DiffKind, DisplayedEvent, FileDiff, FileDiffView, HunkView, all_lines, hunks_view, next_mode, DiffMode};

verus! {

broadcast use vstd::std_specs::hash::group_hash_axioms;

/// How long a new event flashes, in milliseconds.
pub const FLASH_MS: u64 = 1500;

/// A diff is shown when it changes lines, adds a file or was truncated.
pub open spec fn worth_showing(d: FileDiffView) -> bool {
    d.stats.added_count > 0 || d.stats.deleted_count > 0 || d.is_new_file || d.is_truncated
}

/// Whether a computed diff is shown (see `worth_showing`); others are
/// dropped as no-ops.
pub fn worth_displaying(diff: &FileDiff) -> (r: bool)
    ensures
        r == worth_showing(diff@),
{
    diff.stats.added_count > 0 || diff.stats.deleted_count > 0 || diff.is_new_file || diff.is_truncated
}

/// A row that shows a change.
pub open spec fn is_change_row(r: RowView) -> bool {
    r.left_kind == Some(DiffKind::Deleted) || r.right_kind == Some(DiffKind::Added)
}

/// The first change row at or after `k`, as an index; the number of rows
/// if there is none.
pub open spec fn first_change_from(rows: Seq<RowView>, k: int) -> int
    decreases rows.len() - k,
{
    if k >= rows.len() {
        rows.len() as int
    } else if is_change_row(rows[k]) {
        k
    } else {
        first_change_from(rows, k + 1)
    }
}

/// Where to scroll for a new diff: two rows above its first change row in
/// the side-by-side view, or the top when there is no change.
pub open spec fn first_change_offset(d: FileDiffView) -> int {
    let rows = align(all_lines(d.hunks));
    let i = first_change_from(rows, 0);
    if i >= rows.len() { 0 } else if i >= 2 { i - 2 } else { 0 }
}

/// Computes `first_change_offset`.
pub fn find_first_change_offset(diff: &FileDiff) -> (r: usize)
    ensures
        r == first_change_offset(diff@),
{
    let all = flatten_lines(&diff.hunks);
    let rows = build_side_by_side_lines(all.as_slice());
    let ghost rv = rows_view(rows@);
    let mut k: usize = 0;
    while k < rows.len()
        invariant
            k <= rows@.len(),
            rv == rows_view(rows@),
            rv == align(all_lines(diff@.hunks)),
            first_change_from(rv, 0) == first_change_from(rv, k as int),
        decreases rows@.len() - k,
    {
        assert(rv[k as int] == rows@[k as int]@);
        let is_change = match rows[k].left_kind {
            Some(DiffKind::Deleted) => true,
            _ => match rows[k].right_kind {
                Some(DiffKind::Added) => true,
                _ => false,
            },
        };
        if is_change {
            return if k >= 2 { k - 2 } else { 0 };
        }
        k = k + 1;
    }
    0
}

/// Rows above hunk `k` when hunks are laid out one after another, a
/// collapsed hunk taking one row; capped to `usize`.
pub open spec fn hunk_offset(hunks: Seq<HunkView>, collapsed: Set<usize>, k: int) -> nat
    decreases k,
{
    if k <= 0 {
        0
    } else {
        let rows: nat = if collapsed.contains((k - 1) as usize) { 1 } else { hunks[k - 1].lines.len() };
        let total = hunk_offset(hunks, collapsed, k - 1) + rows;
        if total > usize::MAX { usize::MAX as nat } else { total }
    }
}

/// The displayed history and the view over it.
pub struct App {
    /// Displayed events, most recent first.
    pub events: Vec<DisplayedEvent>,
    pub state: AppState,
    /// Index of the event shown.
    pub scroll_offset: usize,
    pub diff_scroll_offset: usize,
    pub diff_horizontal_offset: usize,
    pub hunk_state: HunkViewState,
    pub diff_mode: DiffMode,
    /// Capacity of the history.
    pub max_events: usize,
    pub should_quit: bool,
    pub settings_editor: SettingsEditorState,
    /// Until when (milliseconds) the newest event flashes.
    pub flash_until: Option<u64>,
    /// The theme highlighted in the theme selector.
    pub selected_theme_index: usize,
}

impl App {
    /// An empty history of the given capacity, running, in mode All.
    pub fn new(max_events: usize) -> (r: App)
        ensures
            r.events@.len() == 0,
            r.state == AppState::Running,
            r.max_events == max_events,
            r.diff_mode == DiffMode::All,
            r.scroll_offset == 0,
            r.flash_until is None,
            !r.should_quit,
    {
        App {
            events: Vec::new(),
            state: AppState::Running,
            scroll_offset: 0,
            diff_scroll_offset: 0,
            diff_horizontal_offset: 0,
            hunk_state: HunkViewState::default(),
            diff_mode: DiffMode::All,
            max_events,
            should_quit: false,
            settings_editor: SettingsEditorState::default(),
            flash_until: None,
            selected_theme_index: 0,
        }
    }

    pub fn is_paused(&self) -> (r: bool)
        ensures
            r == (self.state == AppState::Paused),
    {
        self.state == AppState::Paused
    }

    /// Running and paused swap; resuming goes back to the newest event.
    pub fn toggle_pause(&mut self)
        ensures
            old(self).state == AppState::Running ==> final(self).state == AppState::Paused,
            old(self).state == AppState::Paused ==> final(self).state == AppState::Running && final(self).scroll_offset == 0,
            old(self).state != AppState::Running && old(self).state != AppState::Paused ==> final(self).state == old(self).state,
            old(self).state != AppState::Paused ==> final(self).scroll_offset == old(self).scroll_offset,
            final(self).events == old(self).events,
    {
        match self.state {
            AppState::Running => {
                self.state = AppState::Paused;
            },
            AppState::Paused => {
                self.scroll_offset = 0;
                self.state = AppState::Running;
            },
            _ => {},
        }
    }

    pub fn cycle_diff_mode(&mut self)
        ensures
            final(self).diff_mode == next_mode(old(self).diff_mode),
            final(self).events == old(self).events,
    {
        self.diff_mode = self.diff_mode.next();
    }

    /// The event shown, if any.
    pub fn get_current_event(&self) -> (r: Option<&DisplayedEvent>)
        ensures
            self.scroll_offset < self.events@.len() ==> r == Some(&self.events@[self.scroll_offset as int]),
            self.scroll_offset >= self.events@.len() ==> r is None,
    {
        if self.scroll_offset < self.events.len() {
            Some(&self.events[self.scroll_offset])
        } else {
            None
        }
    }

    /// Hunks of the event shown (0 with none).
    pub fn get_current_hunk_count(&self) -> (r: usize)
        ensures
            self.scroll_offset < self.events@.len() ==> r == self.events@[self.scroll_offset as int].diff.hunks@.len(),
            self.scroll_offset >= self.events@.len() ==> r == 0,
    {
        match self.get_current_event() {
            Some(e) => e.diff.hunks.len(),
            None => 0,
        }
    }

    fn scroll_to_focused_hunk(&mut self)
        ensures
            final(self).events == old(self).events,
            final(self).scroll_offset == old(self).scroll_offset,
            final(self).hunk_state.focused_hunk == old(self).hunk_state.focused_hunk,
            final(self).hunk_state.collapsed_hunks@ == old(self).hunk_state.collapsed_hunks@,
            final(self).hunk_state.collapse_context == old(self).hunk_state.collapse_context,
            old(self).scroll_offset < old(self).events@.len()
                && old(self).hunk_state.focused_hunk < old(self).events@[old(self).scroll_offset as int].diff.hunks@.len()
                ==> final(self).diff_scroll_offset == hunk_offset(
                    hunks_view(old(self).events@[old(self).scroll_offset as int].diff.hunks@),
                    old(self).hunk_state.collapsed_hunks@,
                    old(self).hunk_state.focused_hunk as int,
                ),
            !(old(self).scroll_offset < old(self).events@.len()
                && old(self).hunk_state.focused_hunk < old(self).events@[old(self).scroll_offset as int].diff.hunks@.len())
                ==> final(self).diff_scroll_offset == old(self).diff_scroll_offset,
    {
        if self.scroll_offset >= self.events.len() {
            return;
        }
        let focused = self.hunk_state.focused_hunk;
        let hunks: &Vec<DiffHunk> = &self.events[self.scroll_offset].diff.hunks;
        if focused >= hunks.len() {
            return;
        }
        let ghost hv = hunks_view(hunks@);
        let mut offset: usize = 0;
        let mut i: usize = 0;
        while i < focused
            invariant
                i <= focused < hunks@.len(),
                hv == hunks_view(hunks@),
                offset == hunk_offset(hv, self.hunk_state.collapsed_hunks@, i as int),
            decreases focused - i,
        {
            let rows = if self.hunk_state.is_collapsed(i) { 1 } else { hunks[i].lines.len() };
            offset = offset.saturating_add(rows);
            i = i + 1;
        }
        self.diff_scroll_offset = offset;
    }

    /// Focus the next hunk of the event shown and scroll to it.
    pub fn next_hunk(&mut self)
        ensures
            final(self).events == old(self).events,
            old(self).scroll_offset < old(self).events@.len() && old(self).events@[old(self).scroll_offset as int].diff.hunks@.len() > 0
                ==> final(self).hunk_state.focused_hunk == (old(self).hunk_state.focused_hunk + 1)
                % (old(self).events@[old(self).scroll_offset as int].diff.hunks@.len() as int),
    {
        let count = self.get_current_hunk_count();
        self.hunk_state.focus_next(count);
        self.scroll_to_focused_hunk();
    }

    /// Focus the previous hunk of the event shown and scroll to it.
    pub fn prev_hunk(&mut self)
        ensures
            final(self).events == old(self).events,
    {
        let count = self.get_current_hunk_count();
        self.hunk_state.focus_prev(count);
        self.scroll_to_focused_hunk();
    }

    pub fn toggle_current_hunk_collapsed(&mut self)
        ensures
            old(self).hunk_state.collapsed_hunks@.contains(old(self).hunk_state.focused_hunk)
                ==> final(self).hunk_state.collapsed_hunks@ == old(self).hunk_state.collapsed_hunks@.remove(old(self).hunk_state.focused_hunk),
            !old(self).hunk_state.collapsed_hunks@.contains(old(self).hunk_state.focused_hunk)
                ==> final(self).hunk_state.collapsed_hunks@ == old(self).hunk_state.collapsed_hunks@.insert(old(self).hunk_state.focused_hunk),
            final(self).events == old(self).events,
    {
        let f = self.hunk_state.focused_hunk;
        self.hunk_state.toggle_collapsed(f);
    }

    pub fn toggle_context_collapsed(&mut self)
        ensures
            final(self).hunk_state.collapse_context == !old(self).hunk_state.collapse_context,
            final(self).events == old(self).events,
    {
        self.hunk_state.toggle_collapse_context();
    }

    /// Adds a new event at the front of the history, evicting the oldest at
    /// capacity; it flashes from `now_ms`, and unless paused the view moves
    /// to its first change.
    pub fn add_event(&mut self, event: DisplayedEvent, now_ms: u64)
        ensures
            old(self).events@.len() < old(self).max_events ==> final(self).events@ == seq![event] + old(self).events@,
            old(self).events@.len() >= old(self).max_events && old(self).events@.len() > 0
                ==> final(self).events@ == seq![event] + old(self).events@.drop_last(),
            old(self).events@.len() <= old(self).max_events && old(self).max_events > 0
                ==> final(self).events@.len() <= old(self).max_events,
            final(self).max_events == old(self).max_events,
            final(self).flash_until == Some(if now_ms <= u64::MAX - FLASH_MS { (now_ms + FLASH_MS) as u64 } else { u64::MAX }),
            old(self).state != AppState::Paused ==> final(self).scroll_offset == 0
                && final(self).diff_scroll_offset == first_change_offset(event.diff@)
                && final(self).diff_horizontal_offset == 0 && final(self).hunk_state.focused_hunk == 0,
            old(self).state == AppState::Paused ==> final(self).scroll_offset == old(self).scroll_offset,
            final(self).state == old(self).state,
    {
        if self.events.len() >= self.max_events && self.events.len() > 0 {
            self.events.pop();
        }
        let first_change = find_first_change_offset(&event.diff);
        self.events.insert(0, event);
        self.flash_until = Some(now_ms.saturating_add(FLASH_MS));
        if !self.is_paused() {
            self.scroll_offset = 0;
            self.diff_scroll_offset = first_change;
            self.diff_horizontal_offset = 0;
            self.hunk_state.reset();
        }
        assert(self.events@ =~= seq![event] + if old(self).events@.len() >= old(self).max_events && old(self).events@.len() > 0 {
            old(self).events@.drop_last()
        } else {
            old(self).events@
        });
    }

    /// Whether the newest event still flashes at `now_ms`.
    pub fn is_flashing(&self, now_ms: u64) -> (r: bool)
        ensures
            r == (self.flash_until is Some && now_ms < self.flash_until->0),
    {
        match self.flash_until {
            Some(t) => now_ms < t,
            None => false,
        }
    }

    /// Shows the next older event, if any.
    pub fn scroll_up(&mut self)
        ensures
            old(self).events@.len() > 0 && old(self).scroll_offset < old(self).events@.len() - 1
                ==> final(self).scroll_offset == old(self).scroll_offset + 1 && final(self).diff_scroll_offset == 0
                && final(self).diff_horizontal_offset == 0,
            !(old(self).events@.len() > 0 && old(self).scroll_offset < old(self).events@.len() - 1)
                ==> final(self).scroll_offset == old(self).scroll_offset,
            final(self).events == old(self).events,
    {
        if self.scroll_offset < self.events.len().saturating_sub(1) {
            self.scroll_offset = self.scroll_offset + 1;
            self.diff_scroll_offset = 0;
            self.diff_horizontal_offset = 0;
        }
    }

    /// Shows the next newer event, if any.
    pub fn scroll_down(&mut self)
        ensures
            old(self).scroll_offset > 0 ==> final(self).scroll_offset == old(self).scroll_offset - 1
                && final(self).diff_scroll_offset == 0 && final(self).diff_horizontal_offset == 0,
            old(self).scroll_offset == 0 ==> final(self).scroll_offset == 0,
            final(self).events == old(self).events,
    {
        if self.scroll_offset > 0 {
            self.scroll_offset = self.scroll_offset - 1;
            self.diff_scroll_offset = 0;
            self.diff_horizontal_offset = 0;
        }
    }

    pub fn diff_scroll_up(&mut self, lines: usize)
        ensures
            final(self).diff_scroll_offset == if old(self).diff_scroll_offset >= lines { old(self).diff_scroll_offset - lines } else { 0 },
            final(self).events == old(self).events,
    {
        self.diff_scroll_offset = self.diff_scroll_offset.saturating_sub(lines);
    }

    /// Scrolls down by `lines`, never past the last of `max_lines` rows.
    pub fn diff_scroll_down(&mut self, lines: usize, max_lines: usize)
        ensures
            max_lines == 0 ==> final(self).diff_scroll_offset == 0,
            max_lines > 0 ==> final(self).diff_scroll_offset == vstd::math::min(
                vstd::math::min(old(self).diff_scroll_offset + lines, usize::MAX as int),
                max_lines - 1,
            ),
            final(self).events == old(self).events,
    {
        if max_lines == 0 {
            self.diff_scroll_offset = 0;
            return;
        }
        let new_offset = self.diff_scroll_offset.saturating_add(lines);
        let last = max_lines - 1;
        self.diff_scroll_offset = if new_offset < last { new_offset } else { last };
    }

    pub fn diff_scroll_left(&mut self)
        ensures
            final(self).diff_horizontal_offset == if old(self).diff_horizontal_offset >= 10 { old(self).diff_horizontal_offset - 10 } else { 0 },
            final(self).events == old(self).events,
    {
        self.diff_horizontal_offset = self.diff_horizontal_offset.saturating_sub(10);
    }

    pub fn diff_scroll_right(&mut self)
        ensures
            final(self).diff_horizontal_offset == vstd::math::min(old(self).diff_horizontal_offset + 10, usize::MAX as int),
            final(self).events == old(self).events,
    {
        self.diff_horizontal_offset = self.diff_horizontal_offset.saturating_add(10);
    }

    /// Empties the history.
    pub fn clear_history(&mut self)
        ensures
            final(self).events@.len() == 0,
            final(self).scroll_offset == 0,
    {
        self.events.clear();
        self.scroll_offset = 0;
    }

    /// Leaves an overlay.
    pub fn close_overlay(&mut self)
        ensures
            old(self).state == AppState::Paused ==> final(self).state == AppState::Paused,
            old(self).state != AppState::Paused ==> final(self).state == AppState::Running,
            final(self).events == old(self).events,
            final(self).scroll_offset == old(self).scroll_offset,
    {
        self.state = if self.is_paused() { AppState::Paused } else { AppState::Running };
    }

    pub fn open_help(&mut self)
        ensures
            final(self).state == AppState::HelpPanel,
            final(self).events == old(self).events,
            final(self).scroll_offset == old(self).scroll_offset,
    {
        self.state = AppState::HelpPanel;
    }

    /// The first line number of the event shown: its first line's new
    /// number, else its old number.
    pub fn get_first_changed_line(&self) -> (r: Option<usize>)
        ensures
            r is Some ==> self.scroll_offset < self.events@.len(),
            self.scroll_offset < self.events@.len() ==> ({
                let hs = hunks_view(self.events@[self.scroll_offset as int].diff.hunks@);
                if hs.len() > 0 && hs[0].lines.len() > 0 {
                    r == if hs[0].lines[0].new is Some { hs[0].lines[0].new } else { hs[0].lines[0].old }
                } else {
                    r is None
                }
            }),
    {
        match self.get_current_event() {
            None => None,
            Some(event) => {
                if event.diff.hunks.len() > 0 && event.diff.hunks[0].lines.len() > 0 {
                    let line = &event.diff.hunks[0].lines[0];
                    assert(line@ == hunks_view(event.diff.hunks@)[0].lines[0]);
                    match line.new_line_number {
                        Some(n) => Some(n),
                        None => line.old_line_number,
                    }
                } else {
                    None
                }
            },
        }
    }

    /// Rows of the side-by-side view of the event shown (0 with none).
    pub fn get_current_diff_line_count(&self) -> (r: usize)
        ensures
            self.scroll_offset < self.events@.len() ==> r == align(all_lines(self.events@[self.scroll_offset as int].diff@.hunks)).len(),
            self.scroll_offset >= self.events@.len() ==> r == 0,
    {
        match self.get_current_event() {
            None => 0,
            Some(event) => {
                let all = flatten_lines(&event.diff.hunks);
                let rows = build_side_by_side_lines(all.as_slice());
                rows.len()
            },
        }
    }

    /// Whether a settled change is diffed now: always while running, and
    /// while paused only to fill an empty history.
    pub fn accepts_changes(&self) -> (r: bool)
        ensures
            r == (self.state != AppState::Paused || self.events@.len() == 0),
    {
        !self.is_paused() || self.events.len() == 0
    }

    /// Takes a computed diff: one worth showing is added to the history (see
    /// `add_event`), any other is dropped and nothing changes.
    pub fn on_diff(&mut self, event: DisplayedEvent, now_ms: u64) -> (shown: bool)
        ensures
            shown == worth_showing(event.diff@),
            !shown ==> final(self).events == old(self).events && final(self).scroll_offset == old(self).scroll_offset,
            shown && old(self).events@.len() < old(self).max_events ==> final(self).events@ == seq![event] + old(self).events@,
            shown && old(self).events@.len() >= old(self).max_events && old(self).events@.len() > 0
                ==> final(self).events@ == seq![event] + old(self).events@.drop_last(),
            final(self).max_events == old(self).max_events,
    {
        if !worth_displaying(&event.diff) {
            return false;
        }
        self.add_event(event, now_ms);
        true
    }
}

} // verus!
