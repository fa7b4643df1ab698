//! Data carried from the diff computer to the display: diffs, hunks, lines.
use vstd::prelude::*;

verus! {

/// How one line of a diff relates the two snapshots.
#[derive(Debug, Clone, Copy, PartialEq, Eq, Structural)]
pub enum DiffKind {
    Added,
    Deleted,
    Context,
}

/// One line of a hunk, its trailing newline removed.
#[derive(Debug, Clone)]
pub struct DiffLine {
    pub old_line_number: Option<usize>,
    pub new_line_number: Option<usize>,
    pub kind: DiffKind,
    pub content: String,
}

/// The mathematical value of a `DiffLine`.
pub struct LineView {
    pub old: Option<usize>,
    pub new: Option<usize>,
    pub kind: DiffKind,
    pub content: Seq<char>,
}

impl View for DiffLine {
    type V = LineView;

    open spec fn view(&self) -> LineView {
        LineView {
            old: self.old_line_number,
            new: self.new_line_number,
            kind: self.kind,
            content: self.content@,
        }
    }
}

impl LineView {
    /// Added lines have only a new number, deleted lines only an old one,
    /// context lines both.
    pub open spec fn numbers_match_kind(self) -> bool {
        match self.kind {
            DiffKind::Added => self.old is None && self.new is Some,
            DiffKind::Deleted => self.old is Some && self.new is None,
            DiffKind::Context => self.old is Some && self.new is Some,
        }
    }
}

impl DiffLine {
    /// A copy of the line with the same value.
    pub fn duplicate(&self) -> (r: DiffLine)
        ensures
            r@ == self@,
    {
        DiffLine {
            old_line_number: self.old_line_number,
            new_line_number: self.new_line_number,
            kind: self.kind,
            content: self.content.clone(),
        }
    }
}

/// The values of a sequence of lines.
pub open spec fn lines_view(lines: Seq<DiffLine>) -> Seq<LineView> {
    lines.map_values(|l: DiffLine| l@)
}

/// Number of lines that carry an old line number.
pub open spec fn count_old(lines: Seq<LineView>) -> nat
    decreases lines.len(),
{
    if lines.len() == 0 {
        0
    } else {
        count_old(lines.drop_last()) + if lines.last().old is Some { 1nat } else { 0nat }
    }
}

/// Number of lines that carry a new line number.
pub open spec fn count_new(lines: Seq<LineView>) -> nat
    decreases lines.len(),
{
    if lines.len() == 0 {
        0
    } else {
        count_new(lines.drop_last()) + if lines.last().new is Some { 1nat } else { 0nat }
    }
}

/// Number of lines of the given kind.
pub open spec fn count_kind(lines: Seq<LineView>, k: DiffKind) -> nat
    decreases lines.len(),
{
    if lines.len() == 0 {
        0
    } else {
        count_kind(lines.drop_last(), k) + if lines.last().kind == k { 1nat } else { 0nat }
    }
}

/// A contiguous region of change, with git-hunk-header numbers (1-based).
#[derive(Debug, Clone)]
pub struct DiffHunk {
    pub old_start: usize,
    pub old_count: usize,
    pub new_start: usize,
    pub new_count: usize,
    pub lines: Vec<DiffLine>,
}

/// The mathematical value of a `DiffHunk`.
pub struct HunkView {
    pub old_start: usize,
    pub old_count: usize,
    pub new_start: usize,
    pub new_count: usize,
    pub lines: Seq<LineView>,
}

impl View for DiffHunk {
    type V = HunkView;

    open spec fn view(&self) -> HunkView {
        HunkView {
            old_start: self.old_start,
            old_count: self.old_count,
            new_start: self.new_start,
            new_count: self.new_count,
            lines: lines_view(self.lines@),
        }
    }
}

impl HunkView {
    /// The counts agree with the lines held.
    pub open spec fn counts_agree(self) -> bool {
        &&& self.old_count == count_old(self.lines)
        &&& self.new_count == count_new(self.lines)
    }

    /// The counts agree with the lines, whose numbers agree with their kinds.
    pub open spec fn well_formed(self) -> bool {
        self.counts_agree() && lines_well_formed(self.lines)
    }
}

/// Every line's numbers agree with its kind.
pub open spec fn lines_well_formed(lines: Seq<LineView>) -> bool {
    forall|i: int| 0 <= i < lines.len() ==> #[trigger] lines[i].numbers_match_kind()
}

/// Joining well-formed lines keeps them well formed.
pub proof fn lemma_concat_well_formed(a: Seq<LineView>, b: Seq<LineView>)
    requires
        lines_well_formed(a),
        lines_well_formed(b),
    ensures
        lines_well_formed(a + b),
{
    assert forall|i: int| 0 <= i < (a + b).len() implies #[trigger] (a + b)[i].numbers_match_kind() by {
        if i < a.len() {
            assert((a + b)[i] == a[i]);
        } else {
            assert((a + b)[i] == b[i - a.len()]);
        }
    }
}

impl Default for DiffHunk {
    fn default() -> (r: DiffHunk)
        ensures
            r@.old_start == 0,
            r@.old_count == 0,
            r@.new_start == 0,
            r@.new_count == 0,
            r@.lines.len() == 0,
    {
        DiffHunk { old_start: 0, old_count: 0, new_start: 0, new_count: 0, lines: Vec::new() }
    }
}

/// The values of a sequence of hunks.
pub open spec fn hunks_view(hunks: Seq<DiffHunk>) -> Seq<HunkView> {
    hunks.map_values(|h: DiffHunk| h@)
}

/// All lines of the hunks, in order.
pub open spec fn all_lines(hunks: Seq<HunkView>) -> Seq<LineView>
    decreases hunks.len(),
{
    if hunks.len() == 0 {
        Seq::empty()
    } else {
        all_lines(hunks.drop_last()) + hunks.last().lines
    }
}

/// Counts of added and deleted lines.
#[derive(Debug, Clone, Copy, PartialEq, Eq, Structural)]
pub struct DiffStats {
    pub added_count: usize,
    pub deleted_count: usize,
}

impl Default for DiffStats {
    fn default() -> (r: DiffStats)
        ensures
            r.added_count == 0,
            r.deleted_count == 0,
    {
        DiffStats { added_count: 0, deleted_count: 0 }
    }
}

/// The result of one diff computation.
#[derive(Debug, Clone)]
pub struct FileDiff {
    pub hunks: Vec<DiffHunk>,
    pub stats: DiffStats,
    pub is_new_file: bool,
    pub is_deleted: bool,
    pub is_binary: bool,
    pub is_truncated: bool,
    pub omitted_lines: usize,
    pub truncation_reason: Option<String>,
}

/// The mathematical value of a `FileDiff`.
pub struct FileDiffView {
    pub hunks: Seq<HunkView>,
    pub stats: DiffStats,
    pub is_new_file: bool,
    pub is_deleted: bool,
    pub is_binary: bool,
    pub is_truncated: bool,
    pub omitted_lines: usize,
    pub truncation_reason: Option<Seq<char>>,
}

/// The value of an optional string.
pub open spec fn opt_text(s: Option<String>) -> Option<Seq<char>> {
    match s {
        Some(t) => Some(t@),
        None => None,
    }
}

impl View for FileDiff {
    type V = FileDiffView;

    open spec fn view(&self) -> FileDiffView {
        FileDiffView {
            hunks: hunks_view(self.hunks@),
            stats: self.stats,
            is_new_file: self.is_new_file,
            is_deleted: self.is_deleted,
            is_binary: self.is_binary,
            is_truncated: self.is_truncated,
            omitted_lines: self.omitted_lines,
            truncation_reason: opt_text(self.truncation_reason),
        }
    }
}

/// A diff with no hunks, no counts and no flags.
pub open spec fn empty_diff() -> FileDiffView {
    FileDiffView {
        hunks: Seq::empty(),
        stats: DiffStats { added_count: 0, deleted_count: 0 },
        is_new_file: false,
        is_deleted: false,
        is_binary: false,
        is_truncated: false,
        omitted_lines: 0,
        truncation_reason: None,
    }
}

impl FileDiffView {
    /// At most one of binary and deleted; neither of them carries hunks.
    pub open spec fn flags_consistent(self) -> bool {
        &&& !(self.is_binary && self.is_deleted)
        &&& (self.is_binary || self.is_deleted) ==> self.hunks.len() == 0
    }

    /// Consistent flags, and well-formed hunks.
    pub open spec fn well_formed(self) -> bool {
        &&& self.flags_consistent()
        &&& forall|i: int| 0 <= i < self.hunks.len() ==> #[trigger] self.hunks[i].well_formed()
    }
}

/// The lines of well-formed hunks are well formed.
pub proof fn lemma_all_lines_well_formed(hunks: Seq<HunkView>)
    requires
        forall|i: int| 0 <= i < hunks.len() ==> #[trigger] hunks[i].well_formed(),
    ensures
        lines_well_formed(all_lines(hunks)),
    decreases hunks.len(),
{
    if hunks.len() > 0 {
        let p = hunks.drop_last();
        assert forall|i: int| 0 <= i < p.len() implies #[trigger] p[i].well_formed() by {
            assert(p[i] == hunks[i]);
        }
        lemma_all_lines_well_formed(p);
        assert(hunks.last().well_formed());
        lemma_concat_well_formed(all_lines(p), hunks.last().lines);
    }
}

impl Default for FileDiff {
    fn default() -> (r: FileDiff)
        ensures
            r@ == empty_diff(),
    {
        let r = FileDiff {
            hunks: Vec::new(),
            stats: DiffStats { added_count: 0, deleted_count: 0 },
            is_new_file: false,
            is_deleted: false,
            is_binary: false,
            is_truncated: false,
            omitted_lines: 0,
            truncation_reason: None,
        };
        assert(r@.hunks =~= Seq::<HunkView>::empty());
        r
    }
}

/// Which two snapshots a diff compares.
#[derive(Debug, Clone, Copy, PartialEq, Eq, Structural)]
pub enum DiffMode {
    /// Working tree against HEAD.
    All,
    /// Working tree against the index.
    Unstaged,
    /// Index against HEAD.
    Staged,
}

impl Default for DiffMode {
    fn default() -> (r: DiffMode)
        ensures
            r == DiffMode::All,
    {
        DiffMode::All
    }
}

/// The mode that follows `m` in the cycle All, Unstaged, Staged.
pub open spec fn next_mode(m: DiffMode) -> DiffMode {
    match m {
        DiffMode::All => DiffMode::Unstaged,
        DiffMode::Unstaged => DiffMode::Staged,
        DiffMode::Staged => DiffMode::All,
    }
}

/// The label shown for a mode.
pub open spec fn mode_label(m: DiffMode) -> Seq<char> {
    match m {
        DiffMode::All => "All Changes"@,
        DiffMode::Unstaged => "Unstaged"@,
        DiffMode::Staged => "Staged"@,
    }
}

impl DiffMode {
    pub fn next(self) -> (r: DiffMode)
        ensures
            r == next_mode(self),
    {
        match self {
            DiffMode::All => DiffMode::Unstaged,
            DiffMode::Unstaged => DiffMode::Staged,
            DiffMode::Staged => DiffMode::All,
        }
    }

    pub fn label(&self) -> (r: &'static str)
        ensures
            r@ == mode_label(*self),
    {
        match self {
            DiffMode::All => "All Changes",
            DiffMode::Unstaged => "Unstaged",
            DiffMode::Staged => "Staged",
        }
    }
}

/// A settled change of one file: its absolute path and when it was seen
/// (milliseconds on the detector's clock).
#[derive(Debug, Clone)]
pub struct FileChangeEvent {
    pub path: String,
    pub timestamp: u64,
}

/// A diff bound to the file it belongs to, kept in the history.
/// `timestamp` is milliseconds since the Unix epoch.
#[derive(Debug, Clone)]
pub struct DisplayedEvent {
    pub file_path: String,
    pub relative_path: String,
    pub timestamp: i64,
    pub diff: FileDiff,
}

} // verus!
