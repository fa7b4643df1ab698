//! Counting display rows of a diff and styling its lines.
use vstd::prelude::*;
use std::collections::HashSet;
use crate::types::{DiffHunk, DiffKind, HunkView, LineView, hunks_view, lines_view};

verus! {

broadcast use vstd::std_specs::hash::group_hash_axioms;

/// Number of lines that are not context lines.
pub open spec fn non_context(lines: Seq<LineView>) -> nat
    decreases lines.len(),
{
    if lines.len() == 0 {
        0
    } else {
        non_context(lines.drop_last()) + if lines.last().kind != DiffKind::Context { 1nat } else { 0nat }
    }
}

/// Rows the hunks take: a header each, then one summary row for a collapsed
/// hunk, or its lines (only the changed ones when context is collapsed).
pub open spec fn display_rows(hunks: Seq<HunkView>, collapsed: Set<usize>, collapse_context: bool) -> nat
    decreases hunks.len(),
{
    if hunks.len() == 0 {
        0
    } else {
        let idx = (hunks.len() - 1) as usize;
        let h = hunks.last();
        display_rows(hunks.drop_last(), collapsed, collapse_context) + 1 + if collapsed.contains(idx) {
            1nat
        } else if collapse_context {
            non_context(h.lines)
        } else {
            h.lines.len()
        }
    }
}

proof fn lemma_display_rows_prefix(hunks: Seq<HunkView>, collapsed: Set<usize>, cc: bool, k: int)
    requires
        0 <= k <= hunks.len(),
    ensures
        display_rows(hunks.take(k), collapsed, cc) <= display_rows(hunks, collapsed, cc),
    decreases hunks.len() - k,
{
    if k < hunks.len() {
        assert(hunks.take(k + 1).drop_last() =~= hunks.take(k));
        lemma_display_rows_prefix(hunks, collapsed, cc, k + 1);
    } else {
        assert(hunks.take(k) =~= hunks);
    }
}

fn count_non_context(lines: &Vec<crate::types::DiffLine>) -> (r: usize)
    ensures
        r == non_context(lines_view(lines@)),
{
    let ghost v = lines_view(lines@);
    let mut c: usize = 0;
    let mut k: usize = 0;
    while k < lines.len()
        invariant
            k <= lines@.len(),
            v == lines_view(lines@),
            c == non_context(v.take(k as int)),
            c <= k,
        decreases lines@.len() - k,
    {
        assert(v.take(k + 1).drop_last() =~= v.take(k as int));
        if lines[k].kind != DiffKind::Context {
            c = c + 1;
        }
        k = k + 1;
    }
    assert(v.take(k as int) =~= v);
    c
}

/// Counts the rows the hunks take (see `display_rows`).
pub fn calculate_display_line_count(hunks: &[DiffHunk], collapsed_hunks: &HashSet<usize>, collapse_context: bool) -> (r: usize)
    requires
        display_rows(hunks_view(hunks@), collapsed_hunks@, collapse_context) <= usize::MAX,
    ensures
        r == display_rows(hunks_view(hunks@), collapsed_hunks@, collapse_context),
{
    let ghost hv = hunks_view(hunks@);
    let mut count: usize = 0;
    let mut idx: usize = 0;
    while idx < hunks.len()
        invariant
            idx <= hunks@.len(),
            hv == hunks_view(hunks@),
            display_rows(hv, collapsed_hunks@, collapse_context) <= usize::MAX,
            count == display_rows(hv.take(idx as int), collapsed_hunks@, collapse_context),
        decreases hunks@.len() - idx,
    {
        proof {
            lemma_display_rows_prefix(hv, collapsed_hunks@, collapse_context, idx + 1);
            assert(hv.take(idx + 1).drop_last() =~= hv.take(idx as int));
            assert(hv.take(idx + 1).last() == hv[idx as int]);
        }
        let extra = if collapsed_hunks.contains(&idx) {
            1
        } else if collapse_context {
            count_non_context(&hunks[idx].lines)
        } else {
            hunks[idx].lines.len()
        };
        count = count + 1 + extra;
        idx = idx + 1;
    }
    assert(hv.take(idx as int) =~= hv);
    count
}

/// How a line of a kind is drawn.
#[derive(Debug, Clone, PartialEq)]
pub struct LineStyleInfo {
    pub is_change: bool,
    pub prefix: &'static str,
    pub invert_on_flash: bool,
}

/// Changed lines carry "-" or "+" and invert while flashing; context and
/// empty sides carry " ".
pub fn get_line_style_info(kind: Option<&DiffKind>, is_flashing: bool) -> (r: LineStyleInfo)
    ensures
        r.is_change == (kind is Some && *kind->0 != DiffKind::Context),
        r.invert_on_flash == (r.is_change && is_flashing),
        kind is Some && *kind->0 == DiffKind::Deleted ==> r.prefix@ == "-"@,
        kind is Some && *kind->0 == DiffKind::Added ==> r.prefix@ == "+"@,
        (kind is None || *kind->0 == DiffKind::Context) ==> r.prefix@ == " "@,
{
    match kind {
        Some(DiffKind::Deleted) => LineStyleInfo { is_change: true, prefix: "-", invert_on_flash: is_flashing },
        Some(DiffKind::Added) => LineStyleInfo { is_change: true, prefix: "+", invert_on_flash: is_flashing },
        Some(DiffKind::Context) => LineStyleInfo { is_change: false, prefix: " ", invert_on_flash: false },
        None => LineStyleInfo { is_change: false, prefix: " ", invert_on_flash: false },
    }
}

} // verus!
