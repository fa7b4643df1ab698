//! View state of the event display: overlays, hunk focus and collapsing,
//! and the settings editor's cursor.
use vstd::prelude::*;
use std::collections::HashSet;
use vstd::string::StringSliceAdditionalSpecFns;

verus! {

broadcast use vstd::std_specs::hash::group_hash_axioms;

/// What the display is showing.
#[derive(Debug, Clone, Copy, PartialEq, Eq, Structural)]
pub enum AppState {
    Running,
    Paused,
    ThemeSelector,
    HelpPanel,
    SettingsEditor,
}

/// Which hunk has focus, which hunks are collapsed, and whether context
/// lines are hidden.
#[derive(Debug)]
pub struct HunkViewState {
    pub focused_hunk: usize,
    pub collapsed_hunks: HashSet<usize>,
    pub collapse_context: bool,
}

impl Default for HunkViewState {
    fn default() -> (r: HunkViewState)
        ensures
            r.focused_hunk == 0,
            r.collapsed_hunks@ == Set::<usize>::empty(),
            !r.collapse_context,
    {
        HunkViewState { focused_hunk: 0, collapsed_hunks: HashSet::new(), collapse_context: false }
    }
}

impl HunkViewState {
    pub fn is_collapsed(&self, hunk_index: usize) -> (r: bool)
        ensures
            r == self.collapsed_hunks@.contains(hunk_index),
    {
        self.collapsed_hunks.contains(&hunk_index)
    }

    /// Collapses the hunk if it is expanded, and the other way round.
    pub fn toggle_collapsed(&mut self, hunk_index: usize)
        ensures
            old(self).collapsed_hunks@.contains(hunk_index) ==> final(self).collapsed_hunks@ == old(self).collapsed_hunks@.remove(hunk_index),
            !old(self).collapsed_hunks@.contains(hunk_index) ==> final(self).collapsed_hunks@ == old(self).collapsed_hunks@.insert(hunk_index),
            final(self).focused_hunk == old(self).focused_hunk,
            final(self).collapse_context == old(self).collapse_context,
    {
        if self.collapsed_hunks.contains(&hunk_index) {
            self.collapsed_hunks.remove(&hunk_index);
        } else {
            self.collapsed_hunks.insert(hunk_index);
        }
    }

    /// Moves focus to the next hunk, wrapping; nothing with no hunks.
    pub fn focus_next(&mut self, total_hunks: usize)
        ensures
            total_hunks == 0 ==> final(self).focused_hunk == old(self).focused_hunk,
            total_hunks > 0 ==> final(self).focused_hunk == (old(self).focused_hunk + 1) % (total_hunks as int),
            final(self).collapsed_hunks@ == old(self).collapsed_hunks@,
            final(self).collapse_context == old(self).collapse_context,
    {
        if total_hunks == 0 {
            return;
        }
        let f = self.focused_hunk;
        let r = f % total_hunks;
        proof {
            let t = total_hunks as int;
            if t > 1 {
                vstd::arithmetic::div_mod::lemma_small_mod(1, t as nat);
                vstd::arithmetic::div_mod::lemma_add_mod_noop(f as int, 1, t);
            } else {
                assert((f as int + 1) % 1 == 0);
                assert((r as int + 1) % 1 == 0);
            }
        }
        self.focused_hunk = (r + 1) % total_hunks;
    }

    /// Moves focus to the previous hunk, wrapping; nothing with no hunks.
    pub fn focus_prev(&mut self, total_hunks: usize)
        ensures
            total_hunks == 0 ==> final(self).focused_hunk == old(self).focused_hunk,
            total_hunks > 0 && old(self).focused_hunk == 0 ==> final(self).focused_hunk == total_hunks - 1,
            total_hunks > 0 && old(self).focused_hunk > 0 ==> final(self).focused_hunk == old(self).focused_hunk - 1,
            final(self).collapsed_hunks@ == old(self).collapsed_hunks@,
            final(self).collapse_context == old(self).collapse_context,
    {
        if total_hunks == 0 {
            return;
        }
        if self.focused_hunk == 0 {
            self.focused_hunk = total_hunks - 1;
        } else {
            self.focused_hunk = self.focused_hunk - 1;
        }
    }

    pub fn toggle_collapse_context(&mut self)
        ensures
            final(self).collapse_context == !old(self).collapse_context,
            final(self).focused_hunk == old(self).focused_hunk,
            final(self).collapsed_hunks@ == old(self).collapsed_hunks@,
    {
        self.collapse_context = !self.collapse_context;
    }

    /// Focus on the first hunk, none collapsed; the context setting stays.
    pub fn reset(&mut self)
        ensures
            final(self).focused_hunk == 0,
            final(self).collapsed_hunks@ == Set::<usize>::empty(),
            final(self).collapse_context == old(self).collapse_context,
    {
        self.focused_hunk = 0;
        self.collapsed_hunks.clear();
    }
}

/// The settings editor: the text, the cursor, and the last error.
#[derive(Debug, Clone)]
pub struct SettingsEditorState {
    pub content: String,
    pub cursor_line: usize,
    pub cursor_col: usize,
    pub error_message: Option<String>,
}

impl Default for SettingsEditorState {
    fn default() -> (r: SettingsEditorState)
        ensures
            r.content@.len() == 0,
            r.cursor_line == 0,
            r.cursor_col == 0,
            r.error_message is None,
    {
        SettingsEditorState { content: String::new(), cursor_line: 0, cursor_col: 0, error_message: None }
    }
}

/// Index of the first '\n' byte at or after `i`, or the length.
pub open spec fn next_newline(b: Seq<u8>, i: int) -> int
    decreases b.len() - i,
{
    if i >= b.len() {
        b.len() as int
    } else if b[i] == 10u8 {
        i
    } else {
        next_newline(b, i + 1)
    }
}

/// Length of the line `b[start..end]` without a final '\r'.
pub open spec fn stripped_len(b: Seq<u8>, start: int, end: int) -> int {
    if end > start && b[end - 1] == 13u8 { end - start - 1 } else { end - start }
}

/// The byte offset of (`line`, `col`) as `str::lines` sees the text from
/// byte `start` on, where `line` counts from the line at `start` and `pos`
/// is the offset reached so far: the column is capped to the line's length;
/// past the last line it is the text's length.
pub open spec fn cursor_from(b: Seq<u8>, start: int, line: int, col: int, pos: int) -> int
    decreases b.len() - start,
{
    if start >= b.len() || start < 0 {
        b.len() as int
    } else {
        let end = next_newline(b, start);
        let len = stripped_len(b, start, end);
        if line == 0 {
            pos + if col < len { col } else { len }
        } else if end >= b.len() {
            b.len() as int
        } else {
            proof {
                lemma_next_newline(b, start);
            }
            cursor_from(b, end + 1, line - 1, col, pos + len + 1)
        }
    }
}

pub proof fn lemma_next_newline(b: Seq<u8>, i: int)
    requires
        0 <= i,
    ensures
        i <= next_newline(b, i) || i > b.len(),
        next_newline(b, i) <= b.len() || i > b.len(),
        next_newline(b, i) < b.len() ==> b[next_newline(b, i)] == 10u8,
        forall|k: int| i <= k < next_newline(b, i) ==> b[k] != 10u8,
    decreases b.len() - i,
{
    if i < b.len() && b[i] != 10u8 {
        lemma_next_newline(b, i + 1);
    }
}

/// The byte offset in `content` of character column `col` of line `line`,
/// lines as `str::lines` splits them; the length of `content` past its last
/// line.
pub fn get_cursor_position(content: &str, line: usize, col: usize) -> (r: usize)
    ensures
        r == cursor_from(content.spec_bytes(), 0, line as int, col as int, 0),
{
    let b = content.as_bytes();
    let n = b.len();
    let ghost bs = b@;
    let mut start: usize = 0;
    let mut pos: usize = 0;
    let mut remaining = line;
    while start < n
        invariant
            n == bs.len(),
            bs == b@,
            bs == content.spec_bytes(),
            start <= n,
            pos <= start,
            cursor_from(bs, 0, line as int, col as int, 0) == cursor_from(bs, start as int, remaining as int, col as int, pos as int),
        decreases n - start,
    {
        let mut end = start;
        while end < n && b[end] != 10
            invariant
                start <= end <= n,
                n == bs.len(),
                bs == b@,
                forall|k: int| start <= k < end ==> bs[k] != 10u8,
            decreases n - end,
        {
            end = end + 1;
        }
        proof {
            lemma_next_newline(bs, start as int);
            if next_newline(bs, start as int) != end as int {
                if end < n {
                    assert(bs[end as int] == 10u8);
                    assert(next_newline(bs, start as int) <= end);
                } else {
                    assert(next_newline(bs, start as int) < n);
                }
            }
        }
        let len = if end > start && b[end - 1] == 13 { end - start - 1 } else { end - start };
        if remaining == 0 {
            let c = if col < len { col } else { len };
            return pos + c;
        }
        if end >= n {
            return n;
        }
        remaining = remaining - 1;
        pos = pos + len + 1;
        start = end + 1;
    }
    n
}

} // verus!
