//! The diff computer: hunks and counts from two text snapshots, the
//! large-diff truncation policy, and the choice of snapshots per mode.
use vstd::prelude::*;
use crate::types::{
    DiffHunk, DiffKind, DiffLine, DiffStats, FileDiff, FileDiffView, HunkView, LineView,
    all_lines, count_kind, count_new, count_old, hunks_view, lemma_all_lines_well_formed,
    lemma_concat_well_formed, lines_view, lines_well_formed,
};
use crate::line_diff::{
    LineOp, OpTag, added_lines, context_lines, deleted_lines, group_lines, grouped_line_ops,
    groups_fit, groups_view, lemma_line_tokens_len, lemma_tokens_nonempty, line_text, line_tokens, op_lines, op_fits,
    op_precedes, similar_grouped_ops, split_line_tokens, strip_newline, tokens_view,
};
use crate::repo::{
    blob_content, blob_is_binary, discover, find_blob, head, index_entry_id, is_repo_path,
    open_index, peel_to_tree, reload_index, tree_entry_id, tree_get_path, workdir,
};
use crate::types::DiffMode;
use git2::Repository;
use crate::text::{chars_of, decimal, decode_lossy, has_zero_byte, lossy_text, push_decimal, push_str, string_from_chars};

verus! {

/// Equal lines kept around each change.
pub const DIFF_CONTEXT_LINES: usize = 3;

/// Above this many diff lines a diff is truncated.
pub const MAX_DIFF_LINES: usize = 5000;

/// Lines kept at each end of a truncated diff.
pub const TRUNCATE_KEEP_LINES: usize = 100;

/// Working-tree files of at least this size get a size note.
pub const LARGE_FILE_WARN_SIZE: u64 = 1024 * 1024;

/// Working-tree files of at least this size are not diffed.
pub const LARGE_FILE_SKIP_SIZE: u64 = 10 * 1024 * 1024;

/// The old number of the first line, or 1.
pub open spec fn first_old_or_one(lines: Seq<LineView>) -> usize {
    if lines.len() > 0 && lines[0].old is Some { lines[0].old->0 } else { 1 }
}

/// The new number of the first line, or 1.
pub open spec fn first_new_or_one(lines: Seq<LineView>) -> usize {
    if lines.len() > 0 && lines[0].new is Some { lines[0].new->0 } else { 1 }
}

/// The hunk holding `lines`, its header taken from its first line.
pub open spec fn hunk_of(lines: Seq<LineView>) -> HunkView {
    HunkView {
        old_start: first_old_or_one(lines),
        old_count: count_old(lines) as usize,
        new_start: first_new_or_one(lines),
        new_count: count_new(lines) as usize,
        lines,
    }
}

/// One hunk per group of operations that stands for at least one line.
pub open spec fn hunks_of(groups: Seq<Seq<LineOp>>, ot: Seq<Seq<char>>, nt: Seq<Seq<char>>) -> Seq<HunkView>
    decreases groups.len(),
{
    if groups.len() == 0 {
        Seq::empty()
    } else {
        let ls = group_lines(groups.last(), ot, nt);
        hunks_of(groups.drop_last(), ot, nt) + if ls.len() > 0 {
            seq![hunk_of(ls)]
        } else {
            Seq::<HunkView>::empty()
        }
    }
}

/// The lines of all groups, in order.
pub open spec fn lines_of_groups(groups: Seq<Seq<LineOp>>, ot: Seq<Seq<char>>, nt: Seq<Seq<char>>) -> Seq<LineView>
    decreases groups.len(),
{
    if groups.len() == 0 {
        Seq::empty()
    } else {
        lines_of_groups(groups.drop_last(), ot, nt) + group_lines(groups.last(), ot, nt)
    }
}

/// The diff that grouped operations over the given tokens stand for.
pub open spec fn diff_of_ops(groups: Seq<Seq<LineOp>>, ot: Seq<Seq<char>>, nt: Seq<Seq<char>>) -> FileDiffView {
    let all = lines_of_groups(groups, ot, nt);
    FileDiffView {
        hunks: hunks_of(groups, ot, nt),
        stats: DiffStats {
            added_count: count_kind(all, DiffKind::Added) as usize,
            deleted_count: count_kind(all, DiffKind::Deleted) as usize,
        },
        is_new_file: false,
        is_deleted: false,
        is_binary: false,
        is_truncated: false,
        omitted_lines: 0,
        truncation_reason: None,
    }
}

/// A count of lines never exceeds their number.
pub proof fn lemma_count_kind_bound(lines: Seq<LineView>, k: DiffKind)
    ensures
        count_kind(lines, k) <= lines.len(),
    decreases lines.len(),
{
    if lines.len() > 0 {
        lemma_count_kind_bound(lines.drop_last(), k);
    }
}

/// Appends one line, keeping the running counts over `prefix` and the lines.
fn push_line(
    lines: &mut Vec<DiffLine>,
    line: DiffLine,
    Ghost(prefix): Ghost<Seq<LineView>>,
    total: &mut usize,
    added: &mut usize,
    deleted: &mut usize,
)
    requires
        *old(total) < usize::MAX,
        *old(total) == prefix.len() + old(lines)@.len(),
        *old(added) == count_kind(prefix + lines_view(old(lines)@), DiffKind::Added),
        *old(deleted) == count_kind(prefix + lines_view(old(lines)@), DiffKind::Deleted),
    ensures
        lines_view(final(lines)@) == lines_view(old(lines)@).push(line@),
        *final(total) == *old(total) + 1,
        *final(total) == prefix.len() + final(lines)@.len(),
        *final(added) == count_kind(prefix + lines_view(final(lines)@), DiffKind::Added),
        *final(deleted) == count_kind(prefix + lines_view(final(lines)@), DiffKind::Deleted),
{
    let ghost before = prefix + lines_view(lines@);
    proof {
        lemma_count_kind_bound(before, DiffKind::Added);
        lemma_count_kind_bound(before, DiffKind::Deleted);
    }
    let kind = line.kind;
    let ghost lv = line@;
    lines.push(line);
    assert(lines_view(lines@) =~= lines_view(old(lines)@).push(lv));
    let ghost after = prefix + lines_view(lines@);
    assert(after =~= before.push(lv));
    assert(after.drop_last() =~= before);
    *total = *total + 1;
    if kind == DiffKind::Added {
        *added = *added + 1;
    } else if kind == DiffKind::Deleted {
        *deleted = *deleted + 1;
    }
}

/// Appends the deleted lines of old tokens `a..b`.
fn push_deleted(
    ot: &Vec<Vec<char>>,
    a: usize,
    b: usize,
    lines: &mut Vec<DiffLine>,
    Ghost(prefix): Ghost<Seq<LineView>>,
    total: &mut usize,
    added: &mut usize,
    deleted: &mut usize,
)
    requires
        a <= b <= ot@.len(),
        *old(total) + (b - a) <= usize::MAX,
        *old(total) == prefix.len() + old(lines)@.len(),
        *old(added) == count_kind(prefix + lines_view(old(lines)@), DiffKind::Added),
        *old(deleted) == count_kind(prefix + lines_view(old(lines)@), DiffKind::Deleted),
    ensures
        lines_view(final(lines)@) == lines_view(old(lines)@) + deleted_lines(tokens_view(ot@), a as int, b as int),
        *final(total) == *old(total) + (b - a),
        *final(total) == prefix.len() + final(lines)@.len(),
        *final(added) == count_kind(prefix + lines_view(final(lines)@), DiffKind::Added),
        *final(deleted) == count_kind(prefix + lines_view(final(lines)@), DiffKind::Deleted),
{
    let ghost start = lines_view(lines@);
    let ghost want = deleted_lines(tokens_view(ot@), a as int, b as int);
    let mut k = a;
    while k < b
        invariant
            a <= k <= b <= ot@.len(),
            *old(total) + (b - a) <= usize::MAX,
            want == deleted_lines(tokens_view(ot@), a as int, b as int),
            lines_view(lines@) == start + want.take(k - a),
            *total == *old(total) + (k - a),
            *total == prefix.len() + lines@.len(),
            *added == count_kind(prefix + lines_view(lines@), DiffKind::Added),
            *deleted == count_kind(prefix + lines_view(lines@), DiffKind::Deleted),
        decreases b - k,
    {
        let line = DiffLine {
            old_line_number: Some(k + 1),
            new_line_number: None,
            kind: DiffKind::Deleted,
            content: line_text(&ot[k]),
        };
        assert(line@ == want[k - a]);
        push_line(lines, line, Ghost(prefix), total, added, deleted);
        assert(want.take(k + 1 - a) =~= want.take(k - a).push(want[k - a]));
        k = k + 1;
    }
    assert(want.take(b - a) =~= want);
}

/// Appends the added lines of new tokens `a..b`.
fn push_added(
    nt: &Vec<Vec<char>>,
    a: usize,
    b: usize,
    lines: &mut Vec<DiffLine>,
    Ghost(prefix): Ghost<Seq<LineView>>,
    total: &mut usize,
    added: &mut usize,
    deleted: &mut usize,
)
    requires
        a <= b <= nt@.len(),
        *old(total) + (b - a) <= usize::MAX,
        *old(total) == prefix.len() + old(lines)@.len(),
        *old(added) == count_kind(prefix + lines_view(old(lines)@), DiffKind::Added),
        *old(deleted) == count_kind(prefix + lines_view(old(lines)@), DiffKind::Deleted),
    ensures
        lines_view(final(lines)@) == lines_view(old(lines)@) + added_lines(tokens_view(nt@), a as int, b as int),
        *final(total) == *old(total) + (b - a),
        *final(total) == prefix.len() + final(lines)@.len(),
        *final(added) == count_kind(prefix + lines_view(final(lines)@), DiffKind::Added),
        *final(deleted) == count_kind(prefix + lines_view(final(lines)@), DiffKind::Deleted),
{
    let ghost start = lines_view(lines@);
    let ghost want = added_lines(tokens_view(nt@), a as int, b as int);
    let mut k = a;
    while k < b
        invariant
            a <= k <= b <= nt@.len(),
            *old(total) + (b - a) <= usize::MAX,
            want == added_lines(tokens_view(nt@), a as int, b as int),
            lines_view(lines@) == start + want.take(k - a),
            *total == *old(total) + (k - a),
            *total == prefix.len() + lines@.len(),
            *added == count_kind(prefix + lines_view(lines@), DiffKind::Added),
            *deleted == count_kind(prefix + lines_view(lines@), DiffKind::Deleted),
        decreases b - k,
    {
        let line = DiffLine {
            old_line_number: None,
            new_line_number: Some(k + 1),
            kind: DiffKind::Added,
            content: line_text(&nt[k]),
        };
        assert(line@ == want[k - a]);
        push_line(lines, line, Ghost(prefix), total, added, deleted);
        assert(want.take(k + 1 - a) =~= want.take(k - a).push(want[k - a]));
        k = k + 1;
    }
    assert(want.take(b - a) =~= want);
}

/// Appends the context lines of an equal run: old tokens `a..b` against new
/// tokens from `c`.
fn push_context(
    ot: &Vec<Vec<char>>,
    a: usize,
    b: usize,
    c: usize,
    n_new: usize,
    lines: &mut Vec<DiffLine>,
    Ghost(prefix): Ghost<Seq<LineView>>,
    total: &mut usize,
    added: &mut usize,
    deleted: &mut usize,
)
    requires
        a <= b <= ot@.len(),
        c + (b - a) <= n_new,
        *old(total) + (b - a) <= usize::MAX,
        *old(total) == prefix.len() + old(lines)@.len(),
        *old(added) == count_kind(prefix + lines_view(old(lines)@), DiffKind::Added),
        *old(deleted) == count_kind(prefix + lines_view(old(lines)@), DiffKind::Deleted),
    ensures
        lines_view(final(lines)@) == lines_view(old(lines)@) + context_lines(tokens_view(ot@), a as int, b as int, c as int),
        *final(total) == *old(total) + (b - a),
        *final(total) == prefix.len() + final(lines)@.len(),
        *final(added) == count_kind(prefix + lines_view(final(lines)@), DiffKind::Added),
        *final(deleted) == count_kind(prefix + lines_view(final(lines)@), DiffKind::Deleted),
{
    let ghost start = lines_view(lines@);
    let ghost want = context_lines(tokens_view(ot@), a as int, b as int, c as int);
    let mut k = a;
    while k < b
        invariant
            a <= k <= b <= ot@.len(),
            c + (b - a) <= n_new,
            *old(total) + (b - a) <= usize::MAX,
            want == context_lines(tokens_view(ot@), a as int, b as int, c as int),
            lines_view(lines@) == start + want.take(k - a),
            *total == *old(total) + (k - a),
            *total == prefix.len() + lines@.len(),
            *added == count_kind(prefix + lines_view(lines@), DiffKind::Added),
            *deleted == count_kind(prefix + lines_view(lines@), DiffKind::Deleted),
        decreases b - k,
    {
        let line = DiffLine {
            old_line_number: Some(k + 1),
            new_line_number: Some(c + (k - a) + 1),
            kind: DiffKind::Context,
            content: line_text(&ot[k]),
        };
        assert(line@ == want[k - a]);
        push_line(lines, line, Ghost(prefix), total, added, deleted);
        assert(want.take(k + 1 - a) =~= want.take(k - a).push(want[k - a]));
        k = k + 1;
    }
    assert(want.take(b - a) =~= want);
}

/// Appends the lines one operation stands for.
fn push_op(
    op: LineOp,
    ot: &Vec<Vec<char>>,
    nt: &Vec<Vec<char>>,
    lines: &mut Vec<DiffLine>,
    Ghost(prefix): Ghost<Seq<LineView>>,
    total: &mut usize,
    added: &mut usize,
    deleted: &mut usize,
)
    requires
        op_fits(op, ot@.len(), nt@.len()),
        *old(total) + (op.old_end - op.old_start) + (op.new_end - op.new_start) <= usize::MAX,
        *old(total) == prefix.len() + old(lines)@.len(),
        *old(added) == count_kind(prefix + lines_view(old(lines)@), DiffKind::Added),
        *old(deleted) == count_kind(prefix + lines_view(old(lines)@), DiffKind::Deleted),
    ensures
        lines_view(final(lines)@) == lines_view(old(lines)@) + op_lines(op, tokens_view(ot@), tokens_view(nt@)),
        *final(total) <= *old(total) + (op.old_end - op.old_start) + (op.new_end - op.new_start),
        *final(total) == prefix.len() + final(lines)@.len(),
        *final(added) == count_kind(prefix + lines_view(final(lines)@), DiffKind::Added),
        *final(deleted) == count_kind(prefix + lines_view(final(lines)@), DiffKind::Deleted),
{
    match op.tag {
        OpTag::Equal => {
            push_context(ot, op.old_start, op.old_end, op.new_start, nt.len(), lines, Ghost(prefix), total, added, deleted);
        },
        OpTag::Delete => {
            push_deleted(ot, op.old_start, op.old_end, lines, Ghost(prefix), total, added, deleted);
        },
        OpTag::Insert => {
            push_added(nt, op.new_start, op.new_end, lines, Ghost(prefix), total, added, deleted);
        },
        OpTag::Replace => {
            let ghost start = lines_view(lines@);
            push_deleted(ot, op.old_start, op.old_end, lines, Ghost(prefix), total, added, deleted);
            push_added(nt, op.new_start, op.new_end, lines, Ghost(prefix), total, added, deleted);
            assert(lines_view(lines@) =~= start + op_lines(op, tokens_view(ot@), tokens_view(nt@)));
        },
    }
}

/// Counts the lines that carry an old number.
fn count_with_old(lines: &Vec<DiffLine>) -> (r: usize)
    ensures
        r == count_old(lines_view(lines@)),
{
    let ghost v = lines_view(lines@);
    let mut c: usize = 0;
    let mut k: usize = 0;
    while k < lines.len()
        invariant
            k <= lines@.len(),
            v == lines_view(lines@),
            c == count_old(v.take(k as int)),
            c <= k,
        decreases lines@.len() - k,
    {
        assert(v.take(k + 1).drop_last() =~= v.take(k as int));
        if lines[k].old_line_number.is_some() {
            c = c + 1;
        }
        k = k + 1;
    }
    assert(v.take(k as int) =~= v);
    c
}

/// Counts the lines that carry a new number.
fn count_with_new(lines: &Vec<DiffLine>) -> (r: usize)
    ensures
        r == count_new(lines_view(lines@)),
{
    let ghost v = lines_view(lines@);
    let mut c: usize = 0;
    let mut k: usize = 0;
    while k < lines.len()
        invariant
            k <= lines@.len(),
            v == lines_view(lines@),
            c == count_new(v.take(k as int)),
            c <= k,
        decreases lines@.len() - k,
    {
        assert(v.take(k + 1).drop_last() =~= v.take(k as int));
        if lines[k].new_line_number.is_some() {
            c = c + 1;
        }
        k = k + 1;
    }
    assert(v.take(k as int) =~= v);
    c
}

/// The lines an operation stands for are well formed.
pub proof fn lemma_op_lines_well_formed(op: LineOp, ot: Seq<Seq<char>>, nt: Seq<Seq<char>>)
    ensures
        lines_well_formed(op_lines(op, ot, nt)),
{
    let d = deleted_lines(ot, op.old_start as int, op.old_end as int);
    let a = added_lines(nt, op.new_start as int, op.new_end as int);
    assert(lines_well_formed(d));
    assert(lines_well_formed(a));
    assert(lines_well_formed(context_lines(ot, op.old_start as int, op.old_end as int, op.new_start as int)));
    lemma_concat_well_formed(d, a);
}

/// The lines of a group are well formed.
pub proof fn lemma_group_lines_well_formed(g: Seq<LineOp>, ot: Seq<Seq<char>>, nt: Seq<Seq<char>>)
    ensures
        lines_well_formed(group_lines(g, ot, nt)),
    decreases g.len(),
{
    if g.len() > 0 {
        lemma_group_lines_well_formed(g.drop_last(), ot, nt);
        lemma_op_lines_well_formed(g.last(), ot, nt);
        lemma_concat_well_formed(group_lines(g.drop_last(), ot, nt), op_lines(g.last(), ot, nt));
    }
}

/// The hunk holding `lines`.
fn make_hunk(lines: Vec<DiffLine>) -> (h: DiffHunk)
    ensures
        h@ == hunk_of(lines_view(lines@)),
        h@.counts_agree(),
        lines_well_formed(lines_view(lines@)) ==> h@.well_formed(),
{
    let old_count = count_with_old(&lines);
    let new_count = count_with_new(&lines);
    let (old_start, new_start) = if lines.len() > 0 {
        let os = match lines[0].old_line_number { Some(n) => n, None => 1 };
        let ns = match lines[0].new_line_number { Some(n) => n, None => 1 };
        (os, ns)
    } else {
        (1, 1)
    };
    DiffHunk { old_start, old_count, new_start, new_count, lines }
}

/// Builds hunks and counts from grouped operations over the given tokens.
pub fn hunks_from_ops(ot: &Vec<Vec<char>>, nt: &Vec<Vec<char>>, groups: &Vec<Vec<LineOp>>) -> (r: FileDiff)
    requires
        groups_fit(groups_view(groups@), ot@.len(), nt@.len()),
        ot@.len() + nt@.len() <= usize::MAX,
    ensures
        r@ == diff_of_ops(groups_view(groups@), tokens_view(ot@), tokens_view(nt@)),
        all_lines(r@.hunks) == lines_of_groups(groups_view(groups@), tokens_view(ot@), tokens_view(nt@)),
        all_lines(r@.hunks).len() <= ot@.len() + nt@.len(),
        r@.well_formed(),
{
    let ghost gv = groups_view(groups@);
    let ghost otv = tokens_view(ot@);
    let ghost ntv = tokens_view(nt@);
    let mut hunks: Vec<DiffHunk> = Vec::new();
    let mut total: usize = 0;
    let mut added: usize = 0;
    let mut deleted: usize = 0;
    let ghost mut prev_old: int = 0;
    let ghost mut prev_new: int = 0;
    let mut g: usize = 0;
    assert(gv.take(0) =~= Seq::<Seq<LineOp>>::empty());
    assert(hunks_view(hunks@) =~= Seq::<HunkView>::empty());
    while g < groups.len()
        invariant
            g <= groups@.len(),
            gv == groups_view(groups@),
            otv == tokens_view(ot@),
            ntv == tokens_view(nt@),
            groups_fit(gv, ot@.len(), nt@.len()),
            ot@.len() + nt@.len() <= usize::MAX,
            hunks_view(hunks@) == hunks_of(gv.take(g as int), otv, ntv),
            forall|j: int| 0 <= j < hunks@.len() ==> #[trigger] hunks_view(hunks@)[j].well_formed(),
            all_lines(hunks_view(hunks@)) == lines_of_groups(gv.take(g as int), otv, ntv),
            total == lines_of_groups(gv.take(g as int), otv, ntv).len(),
            added == count_kind(lines_of_groups(gv.take(g as int), otv, ntv), DiffKind::Added),
            deleted == count_kind(lines_of_groups(gv.take(g as int), otv, ntv), DiffKind::Deleted),
            total <= prev_old + prev_new,
            g == 0 ==> prev_old == 0 && prev_new == 0,
            g > 0 ==> prev_old == gv[g - 1].last().old_end && prev_new == gv[g - 1].last().new_end,
        decreases groups@.len() - g,
    {
        let group = &groups[g];
        let ghost gg = gv[g as int];
        assert(gg == group@);
        assert(gg.len() > 0);
        let ghost prefix = lines_of_groups(gv.take(g as int), otv, ntv);
        let mut hunk_lines: Vec<DiffLine> = Vec::new();
        let mut i: usize = 0;
        assert(gg.take(0) =~= Seq::<LineOp>::empty());
        assert(prefix + lines_view(hunk_lines@) =~= prefix);
        while i < group.len()
            invariant
                g < groups@.len(),
                i <= group@.len(),
                gg == group@,
                gg == gv[g as int],
                gv == groups_view(groups@),
                otv == tokens_view(ot@),
                ntv == tokens_view(nt@),
                groups_fit(gv, ot@.len(), nt@.len()),
                ot@.len() + nt@.len() <= usize::MAX,
                prefix == lines_of_groups(gv.take(g as int), otv, ntv),
                lines_view(hunk_lines@) == group_lines(gg.take(i as int), otv, ntv),
                total == prefix.len() + hunk_lines@.len(),
                added == count_kind(prefix + lines_view(hunk_lines@), DiffKind::Added),
                deleted == count_kind(prefix + lines_view(hunk_lines@), DiffKind::Deleted),
                total <= prev_old + prev_new,
                i == 0 && g == 0 ==> prev_old == 0 && prev_new == 0,
                i == 0 && g > 0 ==> prev_old == gv[g - 1].last().old_end && prev_new == gv[g - 1].last().new_end,
                i > 0 ==> prev_old == gg[i - 1].old_end && prev_new == gg[i - 1].new_end,
            decreases group@.len() - i,
        {
            let op = group[i];
            assert(op == gg[i as int]);
            assert(op_fits(op, ot@.len(), nt@.len()));
            proof {
                if i > 0 {
                    assert(op_precedes(gg[i - 1], gg[i as int]));
                } else if g > 0 {
                    assert(gv[g - 1].len() > 0);
                    assert(op_precedes(gv[g - 1].last(), gv[g as int][0]));
                }
            }
            push_op(op, ot, nt, &mut hunk_lines, Ghost(prefix), &mut total, &mut added, &mut deleted);
            proof {
                assert(gg.take(i + 1).drop_last() =~= gg.take(i as int));
                prev_old = op.old_end as int;
                prev_new = op.new_end as int;
            }
            i = i + 1;
        }
        assert(gg.take(i as int) =~= gg);
        let ghost ls = lines_view(hunk_lines@);
        let ghost before_hunks = hunks_view(hunks@);
        assert(gv.take(g + 1).drop_last() =~= gv.take(g as int));
        assert(gv.take(g + 1).last() == gg);
        if hunk_lines.len() > 0 {
            proof {
                lemma_group_lines_well_formed(gg, otv, ntv);
            }
            let h = make_hunk(hunk_lines);
            hunks.push(h);
            assert(hunks_view(hunks@) =~= before_hunks.push(h@));
            assert(hunks_view(hunks@).drop_last() =~= before_hunks);
            assert(before_hunks + seq![hunk_of(ls)] =~= before_hunks.push(h@));
        } else {
            assert(before_hunks + Seq::<HunkView>::empty() =~= before_hunks);
            assert(ls =~= Seq::<LineView>::empty());
            assert(prefix + ls =~= prefix);
        }
        g = g + 1;
    }
    assert(gv.take(g as int) =~= gv);
    proof {
        lemma_count_kind_bound(lines_of_groups(gv, otv, ntv), DiffKind::Added);
        lemma_count_kind_bound(lines_of_groups(gv, otv, ntv), DiffKind::Deleted);
        if g > 0 {
            assert(gv[g - 1].len() > 0);
            assert(op_fits(gv[g - 1].last(), ot@.len(), nt@.len()));
        }
    }
    let r = FileDiff {
        hunks,
        stats: DiffStats { added_count: added, deleted_count: deleted },
        is_new_file: false,
        is_deleted: false,
        is_binary: false,
        is_truncated: false,
        omitted_lines: 0,
        truncation_reason: None,
    };
    r
}

/// Lines all of one kind are counted whole under that kind and not at all
/// under another.
pub proof fn lemma_count_uniform(s: Seq<LineView>, k: DiffKind, other: DiffKind)
    requires
        forall|i: int| 0 <= i < s.len() ==> #[trigger] s[i].kind == k,
    ensures
        count_kind(s, k) == s.len(),
        k != other ==> count_kind(s, other) == 0,
    decreases s.len(),
{
    if s.len() > 0 {
        let p = s.drop_last();
        assert forall|i: int| 0 <= i < p.len() implies #[trigger] p[i].kind == k by {
            assert(p[i] == s[i]);
        }
        lemma_count_uniform(p, k, other);
    }
}

/// A line's numbers lie inside the token lists, and its text is the token
/// at its number without the final newline: the new token for an added
/// line, the old one otherwise.
pub open spec fn line_from_tokens(l: LineView, ot: Seq<Seq<char>>, nt: Seq<Seq<char>>) -> bool {
    &&& (l.old is Some ==> 1 <= l.old->0 <= ot.len())
    &&& (l.new is Some ==> 1 <= l.new->0 <= nt.len())
    &&& (l.kind == DiffKind::Added ==> l.new is Some && l.content == strip_newline(nt[l.new->0 - 1]))
    &&& (l.kind != DiffKind::Added ==> l.old is Some && l.content == strip_newline(ot[l.old->0 - 1]))
}

/// Every line comes from the token lists (see `line_from_tokens`).
pub open spec fn lines_from_tokens(lines: Seq<LineView>, ot: Seq<Seq<char>>, nt: Seq<Seq<char>>) -> bool {
    forall|i: int| 0 <= i < lines.len() ==> line_from_tokens(#[trigger] lines[i], ot, nt)
}

proof fn lemma_concat_from_tokens(a: Seq<LineView>, b: Seq<LineView>, ot: Seq<Seq<char>>, nt: Seq<Seq<char>>)
    requires
        lines_from_tokens(a, ot, nt),
        lines_from_tokens(b, ot, nt),
    ensures
        lines_from_tokens(a + b, ot, nt),
{
    assert forall|i: int| 0 <= i < (a + b).len() implies line_from_tokens(#[trigger] (a + b)[i], ot, nt) by {
        if i < a.len() {
            assert((a + b)[i] == a[i]);
        } else {
            assert((a + b)[i] == b[i - a.len()]);
        }
    }
}

/// The lines of an operation that fits come from the token lists.
pub proof fn lemma_op_lines_from_tokens(op: LineOp, ot: Seq<Seq<char>>, nt: Seq<Seq<char>>)
    requires
        op_fits(op, ot.len(), nt.len()),
    ensures
        lines_from_tokens(op_lines(op, ot, nt), ot, nt),
{
    let d = deleted_lines(ot, op.old_start as int, op.old_end as int);
    let a = added_lines(nt, op.new_start as int, op.new_end as int);
    let c = context_lines(ot, op.old_start as int, op.old_end as int, op.new_start as int);
    assert(lines_from_tokens(d, ot, nt));
    assert(lines_from_tokens(a, ot, nt));
    if op.tag == OpTag::Equal {
        assert(lines_from_tokens(c, ot, nt));
    }
    lemma_concat_from_tokens(d, a, ot, nt);
}

/// The lines of all groups of fitting operations come from the token lists.
pub proof fn lemma_groups_from_tokens(groups: Seq<Seq<LineOp>>, ot: Seq<Seq<char>>, nt: Seq<Seq<char>>)
    requires
        forall|g: int, i: int|
            0 <= g < groups.len() && 0 <= i < groups[g].len() ==> op_fits(#[trigger] groups[g][i], ot.len(), nt.len()),
    ensures
        lines_from_tokens(lines_of_groups(groups, ot, nt), ot, nt),
    decreases groups.len(),
{
    if groups.len() > 0 {
        let p = groups.drop_last();
        assert forall|g: int, i: int| 0 <= g < p.len() && 0 <= i < p[g].len() implies op_fits(#[trigger] p[g][i], ot.len(), nt.len()) by {
            assert(p[g] == groups[g]);
        }
        lemma_groups_from_tokens(p, ot, nt);
        let last = groups.last();
        assert forall|i: int| 0 <= i < last.len() implies op_fits(#[trigger] last[i], ot.len(), nt.len()) by {
            assert(last[i] == groups[groups.len() - 1][i]);
        }
        lemma_group_from_tokens(last, ot, nt);
        lemma_concat_from_tokens(lines_of_groups(p, ot, nt), group_lines(last, ot, nt), ot, nt);
    }
}

proof fn lemma_group_from_tokens(g: Seq<LineOp>, ot: Seq<Seq<char>>, nt: Seq<Seq<char>>)
    requires
        forall|i: int| 0 <= i < g.len() ==> op_fits(#[trigger] g[i], ot.len(), nt.len()),
    ensures
        lines_from_tokens(group_lines(g, ot, nt), ot, nt),
    decreases g.len(),
{
    if g.len() > 0 {
        let p = g.drop_last();
        assert forall|i: int| 0 <= i < p.len() implies op_fits(#[trigger] p[i], ot.len(), nt.len()) by {
            assert(p[i] == g[i]);
        }
        lemma_group_from_tokens(p, ot, nt);
        assert(op_fits(g.last(), ot.len(), nt.len()));
        lemma_op_lines_from_tokens(g.last(), ot, nt);
        lemma_concat_from_tokens(group_lines(p, ot, nt), op_lines(g.last(), ot, nt), ot, nt);
    }
}

/// A diff too large to hold: no hunks, marked truncated.
pub open spec fn oversized_diff() -> FileDiffView {
    FileDiffView {
        hunks: Seq::empty(),
        stats: DiffStats { added_count: 0, deleted_count: 0 },
        is_new_file: false,
        is_deleted: false,
        is_binary: false,
        is_truncated: true,
        omitted_lines: 0,
        truncation_reason: Some("diff too large"@),
    }
}

/// The line diff of two texts, with three lines of context around changes.
pub open spec fn text_diff(old: Seq<char>, new: Seq<char>) -> FileDiffView {
    if old == new {
        crate::types::empty_diff()
    } else if line_tokens(old).len() + line_tokens(new).len() <= usize::MAX {
        diff_of_ops(grouped_line_ops(old, new, DIFF_CONTEXT_LINES as nat), line_tokens(old), line_tokens(new))
    } else {
        oversized_diff()
    }
}

/// Computes the line diff of two texts: similar's grouped operations with
/// three lines of context, expanded into numbered lines and hunks.
pub fn diff_strings(old: &str, new: &str) -> (r: FileDiff)
    ensures
        r@ == text_diff(old@, new@),
        r@.well_formed(),
        all_lines(r@.hunks).len() <= line_tokens(old@).len() + line_tokens(new@).len(),
        lines_from_tokens(all_lines(r@.hunks), line_tokens(old@), line_tokens(new@)),
        !r@.is_new_file && !r@.is_deleted && !r@.is_binary,
        old@ == new@ ==> r@ == crate::types::empty_diff(),
        line_tokens(old@) == line_tokens(new@) ==> (r@.hunks.len() == 0 && r@.stats.added_count == 0
            && r@.stats.deleted_count == 0),
        old@.len() == 0 ==> (r@.stats.added_count == line_tokens(new@).len() && r@.stats.deleted_count == 0
            && r@.hunks.len() == (if new@.len() > 0 { 1int } else { 0int })),
{
    if crate::text::same_text(old, new) {
        let r = FileDiff::default();
        proof {
            assert(all_lines(r@.hunks) =~= Seq::<LineView>::empty());
            assert(line_tokens(old@) == line_tokens(new@));
            if old@.len() == 0 {
                assert(line_tokens(old@) =~= Seq::<Seq<char>>::empty());
            }
        }
        return r;
    }
    let ot = split_line_tokens(old);
    let nt = split_line_tokens(new);
    if ot.len() > usize::MAX - nt.len() {
        let mut reason: Vec<char> = Vec::new();
        push_str(&mut reason, "diff too large");
        let r = FileDiff {
            hunks: Vec::new(),
            stats: DiffStats { added_count: 0, deleted_count: 0 },
            is_new_file: false,
            is_deleted: false,
            is_binary: false,
            is_truncated: true,
            omitted_lines: 0,
            truncation_reason: Some(string_from_chars(reason.as_slice())),
        };
        assert(r@.hunks =~= Seq::<HunkView>::empty());
        assert(reason@ =~= "diff too large"@);
        proof {
            if old@.len() == 0 {
                assert(line_tokens(old@) =~= Seq::<Seq<char>>::empty());
            }
        }
        return r;
    }
    let groups = similar_grouped_ops(old, new, DIFF_CONTEXT_LINES);
    let r = hunks_from_ops(&ot, &nt, &groups);
    proof {
        let gv = groups_view(groups@);
        let otv = line_tokens(old@);
        let ntv = line_tokens(new@);
        lemma_groups_from_tokens(gv, otv, ntv);
        if otv == ntv {
            assert(gv =~= Seq::<Seq<LineOp>>::empty());
            assert(lines_of_groups(gv, otv, ntv) =~= Seq::<LineView>::empty());
        }
        if old@.len() == 0 && new@.len() > 0 {
            assert(otv =~= Seq::<Seq<char>>::empty());
            lemma_tokens_nonempty(new@);
            let op = LineOp { tag: OpTag::Insert, old_start: 0, old_end: 0, new_start: 0, new_end: ntv.len() as usize };
            let g = seq![op];
            assert(gv == seq![g]);
            assert(gv.drop_last() =~= Seq::<Seq<LineOp>>::empty());
            assert(g.drop_last() =~= Seq::<LineOp>::empty());
            assert(group_lines(g, otv, ntv) =~= op_lines(op, otv, ntv));
            assert(lines_of_groups(gv, otv, ntv) =~= op_lines(op, otv, ntv));
            let al = added_lines(ntv, 0, ntv.len() as int);
            assert(op_lines(op, otv, ntv) == al);
            lemma_count_uniform(al, DiffKind::Added, DiffKind::Deleted);
            assert(al.len() > 0);
            assert(gv.last() == g);
            assert(hunks_of(gv.drop_last(), otv, ntv) =~= Seq::<HunkView>::empty());
            assert(group_lines(gv.last(), otv, ntv) == al);
            assert(hunks_of(gv, otv, ntv) =~= seq![hunk_of(al)]);
        }
    }
    r
}

/// The number of lines kept at each end of a truncated diff of `n` lines.
pub open spec fn keep_count(n: nat) -> nat {
    if n < TRUNCATE_KEEP_LINES { n } else { TRUNCATE_KEEP_LINES as nat }
}

/// The number of lines a truncation of `total` lines leaves out.
pub open spec fn omitted_count(total: nat) -> nat {
    if total >= 2 * TRUNCATE_KEEP_LINES { (total - 2 * TRUNCATE_KEEP_LINES) as nat } else { 0 }
}

/// The reason given for a truncation.
pub open spec fn omitted_reason(omitted: nat) -> Seq<char> {
    decimal(omitted) + " lines omitted"@
}

/// The diff cut down to two hunks: the first kept lines (numbered from the
/// first hunk's header) and the last kept lines.
pub open spec fn truncated_view(d: FileDiffView, total: nat) -> FileDiffView {
    let all = all_lines(d.hunks);
    let keep = keep_count(all.len());
    let first = all.take(keep as int);
    let last = all.skip(all.len() - keep);
    let first_hunk = HunkView {
        old_start: if d.hunks.len() > 0 { d.hunks[0].old_start } else { 1 },
        old_count: count_old(first) as usize,
        new_start: if d.hunks.len() > 0 { d.hunks[0].new_start } else { 1 },
        new_count: count_new(first) as usize,
        lines: first,
    };
    let last_hunk = HunkView {
        old_start: first_old_or_one(last),
        old_count: count_old(last) as usize,
        new_start: first_new_or_one(last),
        new_count: count_new(last) as usize,
        lines: last,
    };
    FileDiffView {
        hunks: seq![first_hunk, last_hunk],
        is_truncated: true,
        omitted_lines: omitted_count(total) as usize,
        truncation_reason: Some(omitted_reason(omitted_count(total))),
        ..d
    }
}

/// Copies of `v[a..b]`.
fn copy_lines(v: &Vec<DiffLine>, a: usize, b: usize) -> (r: Vec<DiffLine>)
    requires
        a <= b <= v@.len(),
    ensures
        lines_view(r@) == lines_view(v@).subrange(a as int, b as int),
{
    let mut r: Vec<DiffLine> = Vec::new();
    let mut k = a;
    while k < b
        invariant
            a <= k <= b <= v@.len(),
            lines_view(r@) == lines_view(v@).subrange(a as int, k as int),
        decreases b - k,
    {
        let l = v[k].duplicate();
        let ghost before = lines_view(r@);
        r.push(l);
        assert(lines_view(r@) =~= before.push(l@));
        assert(lines_view(r@) =~= lines_view(v@).subrange(a as int, k + 1));
        k = k + 1;
    }
    r
}

/// All lines of the hunks, copied in order.
pub fn flatten_lines(hunks: &Vec<DiffHunk>) -> (r: Vec<DiffLine>)
    ensures
        lines_view(r@) == all_lines(hunks_view(hunks@)),
{
    let ghost hv = hunks_view(hunks@);
    let mut r: Vec<DiffLine> = Vec::new();
    let mut h: usize = 0;
    assert(hv.take(0) =~= Seq::<HunkView>::empty());
    assert(lines_view(r@) =~= Seq::<LineView>::empty());
    while h < hunks.len()
        invariant
            h <= hunks@.len(),
            hv == hunks_view(hunks@),
            lines_view(r@) == all_lines(hv.take(h as int)),
        decreases hunks@.len() - h,
    {
        let lines = &hunks[h].lines;
        assert(lines_view(lines@) == hv[h as int].lines);
        let ghost start = lines_view(r@);
        let mut k: usize = 0;
        while k < lines.len()
            invariant
                k <= lines@.len(),
                lines_view(r@) == start + lines_view(lines@).take(k as int),
            decreases lines@.len() - k,
        {
            let l = lines[k].duplicate();
            let ghost before = lines_view(r@);
            r.push(l);
            assert(lines_view(r@) =~= before.push(l@));
            assert(lines_view(r@) =~= start + lines_view(lines@).take(k + 1));
            k = k + 1;
        }
        assert(lines_view(lines@).take(k as int) =~= lines_view(lines@));
        assert(hv.take(h + 1).drop_last() =~= hv.take(h as int));
        h = h + 1;
    }
    assert(hv.take(h as int) =~= hv);
    r
}

/// Cuts a large diff down to its first and last lines (see `truncated_view`).
pub fn truncate_diff(diff: FileDiff, total_lines: usize) -> (r: FileDiff)
    requires
        total_lines == all_lines(diff@.hunks).len(),
    ensures
        r@ == truncated_view(diff@, total_lines as nat),
        diff@.well_formed() && total_lines > 0 ==> r@.well_formed(),
{
    let all = flatten_lines(&diff.hunks);
    let n = all.len();
    let keep = if n < TRUNCATE_KEEP_LINES { n } else { TRUNCATE_KEEP_LINES };
    let omitted = if total_lines >= 2 * TRUNCATE_KEEP_LINES { total_lines - 2 * TRUNCATE_KEEP_LINES } else { 0 };
    let first_lines = copy_lines(&all, 0, keep);
    let last_lines = copy_lines(&all, n - keep, n);
    let ghost av = lines_view(all@);
    assert(av.subrange(0, keep as int) =~= av.take(keep as int));
    assert(av.subrange(n - keep, n as int) =~= av.skip(n - keep));
    proof {
        if diff@.well_formed() {
            lemma_all_lines_well_formed(diff@.hunks);
            assert(lines_well_formed(lines_view(first_lines@))) by {
                assert forall|i: int| 0 <= i < lines_view(first_lines@).len() implies #[trigger] lines_view(first_lines@)[i].numbers_match_kind() by {
                    assert(lines_view(first_lines@)[i] == av[i]);
                }
            }
            assert(lines_well_formed(lines_view(last_lines@))) by {
                assert forall|i: int| 0 <= i < lines_view(last_lines@).len() implies #[trigger] lines_view(last_lines@)[i].numbers_match_kind() by {
                    assert(lines_view(last_lines@)[i] == av[n - keep + i]);
                }
            }
        }
    }
    let (old_start, new_start) = if diff.hunks.len() > 0 {
        (diff.hunks[0].old_start, diff.hunks[0].new_start)
    } else {
        (1, 1)
    };
    let first_hunk = make_hunk(first_lines);
    let first_hunk = DiffHunk { old_start, new_start, ..first_hunk };
    let last_hunk = make_hunk(last_lines);
    let mut reason: Vec<char> = Vec::new();
    push_decimal(&mut reason, omitted as u64);
    push_str(&mut reason, " lines omitted");
    let mut hunks: Vec<DiffHunk> = Vec::new();
    hunks.push(first_hunk);
    hunks.push(last_hunk);
    let r = FileDiff {
        hunks,
        stats: diff.stats,
        is_new_file: diff.is_new_file,
        is_deleted: diff.is_deleted,
        is_binary: diff.is_binary,
        is_truncated: true,
        omitted_lines: omitted,
        truncation_reason: Some(string_from_chars(reason.as_slice())),
    };
    assert(r@.hunks =~= truncated_view(diff@, total_lines as nat).hunks);
    proof {
        if diff@.well_formed() && total_lines > 0 {
            if diff@.hunks.len() == 0 {
                assert(all_lines(diff@.hunks) =~= Seq::<LineView>::empty());
            }
            assert(r@.hunks[0] == first_hunk@);
            assert(r@.hunks[1] == last_hunk@);
        }
    }
    r
}

/// A prefix of the hunks holds no more lines than all of them.
pub proof fn lemma_all_lines_prefix(s: Seq<HunkView>, h: int)
    requires
        0 <= h <= s.len(),
    ensures
        all_lines(s.take(h)).len() <= all_lines(s).len(),
    decreases s.len() - h,
{
    if h < s.len() {
        assert(s.take(h + 1).drop_last() =~= s.take(h));
        lemma_all_lines_prefix(s, h + 1);
    } else {
        assert(s.take(h) =~= s);
    }
}

/// Tenths of a MiB in `size` bytes, rounded half up.
pub open spec fn mib_tenths(size: u64) -> nat {
    ((size as nat) * 10 + 524288) / 1048576
}

/// `size` in MiB with one decimal.
pub open spec fn mib_text(size: u64) -> Seq<char> {
    decimal(mib_tenths(size) / 10) + "."@ + decimal(mib_tenths(size) % 10)
}

/// The note on a diffed file of at least the warning size.
pub open spec fn large_file_reason(size: u64) -> Seq<char> {
    "Large file ("@ + mib_text(size) + " MB)"@
}

/// The note on a file too large to diff.
pub open spec fn skipped_reason(size: u64) -> Seq<char> {
    "File too large ("@ + mib_text(size) + " MB) - skipped"@
}

fn push_mib(out: &mut Vec<char>, size: u64)
    ensures
        final(out)@ == old(out)@ + mib_text(size),
{
    let tenths: u128 = ((size as u128) * 10 + 524288) / 1048576;
    assert(tenths == mib_tenths(size));
    assert(tenths / 10 <= u64::MAX) by (nonlinear_arith)
        requires tenths == ((size as nat) * 10 + 524288) / 1048576, size <= u64::MAX;
    push_decimal(out, (tenths / 10) as u64);
    push_str(out, ".");
    push_decimal(out, (tenths % 10) as u64);
    assert(final(out)@ =~= old(out)@ + mib_text(size));
}

/// The diff with the truncation policy applied: over the line cap it is cut
/// down; otherwise a large working file gets a size note.
pub open spec fn finalized(d: FileDiffView, file_size: u64, warn_large_file: bool) -> FileDiffView {
    let total = all_lines(d.hunks).len();
    if total > MAX_DIFF_LINES {
        truncated_view(d, total)
    } else if warn_large_file {
        FileDiffView { truncation_reason: Some(large_file_reason(file_size)), ..d }
    } else {
        d
    }
}

/// Applies the truncation policy (see `finalized`).
pub fn finalize_diff(diff: FileDiff, file_size: u64, warn_large_file: bool) -> (r: FileDiff)
    requires
        all_lines(diff@.hunks).len() <= usize::MAX,
    ensures
        r@ == finalized(diff@, file_size, warn_large_file),
        diff@.well_formed() ==> r@.well_formed(),
        all_lines(diff@.hunks).len() > MAX_DIFF_LINES ==> (r@.hunks.len() == 2
            && r@.hunks[0].lines.len() <= TRUNCATE_KEEP_LINES
            && r@.hunks[1].lines.len() <= TRUNCATE_KEEP_LINES && r@.is_truncated
            && r@.omitted_lines == all_lines(diff@.hunks).len() - 2 * TRUNCATE_KEEP_LINES
            && r@.truncation_reason == Some(omitted_reason((all_lines(diff@.hunks).len() - 2 * TRUNCATE_KEEP_LINES) as nat))),
        r@.stats == diff@.stats,
        r@.is_new_file == diff@.is_new_file,
        r@.is_deleted == diff@.is_deleted,
        r@.is_binary == diff@.is_binary,
{
    let ghost hv = diff@.hunks;
    let mut total: usize = 0;
    let mut h: usize = 0;
    while h < diff.hunks.len()
        invariant
            h <= diff.hunks@.len(),
            hv == diff@.hunks,
            hv.len() == diff.hunks@.len(),
            all_lines(hv).len() <= usize::MAX,
            total == all_lines(hv.take(h as int)).len(),
        decreases diff.hunks@.len() - h,
    {
        proof {
            assert(hv.take(h + 1).drop_last() =~= hv.take(h as int));
            lemma_all_lines_prefix(hv, h + 1);
        }
        total = total + diff.hunks[h].lines.len();
        h = h + 1;
    }
    assert(hv.take(h as int) =~= hv);
    if total > MAX_DIFF_LINES {
        truncate_diff(diff, total)
    } else if warn_large_file {
        let mut reason: Vec<char> = Vec::new();
        push_str(&mut reason, "Large file (");
        push_mib(&mut reason, file_size);
        push_str(&mut reason, " MB)");
        assert(reason@ =~= large_file_reason(file_size));
        FileDiff { truncation_reason: Some(string_from_chars(reason.as_slice())), ..diff }
    } else {
        diff
    }
}

/// What was found of a file in the working tree.
pub enum WorkingFile {
    /// The file is not there, or could not be read.
    Missing,
    /// The file's size, and its bytes unless they were not needed
    /// (`content_needed`) or could not be read.
    Present { size: u64, bytes: Option<Vec<u8>> },
}

/// Whether the bytes of a working file of this size take part in a diff.
pub fn content_needed(size: u64) -> (r: bool)
    ensures
        r == (size < LARGE_FILE_SKIP_SIZE),
{
    size < LARGE_FILE_SKIP_SIZE
}

/// The diff of a file that is gone.
pub open spec fn deleted_diff() -> FileDiffView {
    FileDiffView { is_deleted: true, ..crate::types::empty_diff() }
}

/// The diff of a binary file.
pub open spec fn binary_diff() -> FileDiffView {
    FileDiffView { is_binary: true, ..crate::types::empty_diff() }
}

/// The diff of a file too large to diff.
pub open spec fn skipped_diff(size: u64) -> FileDiffView {
    FileDiffView { is_truncated: true, truncation_reason: Some(skipped_reason(size)), ..crate::types::empty_diff() }
}

/// The diff of two snapshots: an absent old snapshot makes a new file,
/// diffed against the empty text.
pub open spec fn snapshot_diff(old: Option<Seq<char>>, new: Seq<char>) -> FileDiffView {
    match old {
        Some(o) => text_diff(o, new),
        None => FileDiffView { is_new_file: true, ..text_diff(Seq::empty(), new) },
    }
}

/// The value of an optional string slice.
pub open spec fn opt_str(s: Option<&str>) -> Option<Seq<char>> {
    match s {
        Some(t) => Some(t@),
        None => None,
    }
}

/// Diffs two snapshots (see `snapshot_diff`).
pub fn diff_snapshots(old: Option<&str>, new: &str) -> (r: FileDiff)
    ensures
        r@ == snapshot_diff(opt_str(old), new@),
        r@.well_formed(),
        all_lines(r@.hunks).len() <= usize::MAX,
        r@.is_new_file == (old is None),
        !r@.is_deleted && !r@.is_binary,
        old is None ==> (r@.stats.added_count == line_tokens(new@).len() && r@.stats.deleted_count == 0),
        old is Some && old->0@ == new@ ==> (r@.hunks.len() == 0 && r@.stats.added_count == 0
            && r@.stats.deleted_count == 0),
{
    match old {
        Some(o) => {
            let d = diff_strings(o, new);
            proof {
                lemma_line_tokens_len(o@);
                lemma_line_tokens_len(new@);
            }
            d
        },
        None => {
            let empty = String::new();
            let d = diff_strings(empty.as_str(), new);
            proof {
                lemma_line_tokens_len(empty@);
                lemma_line_tokens_len(new@);
            }
            FileDiff { is_new_file: true, ..d }
        },
    }
}

/// The diff of a working-tree file against an old snapshot: a missing or
/// unreadable file is deleted, one of at least the skip size is skipped, one
/// with a zero byte is binary, and the rest is decoded and diffed, with the
/// truncation policy applied.
pub open spec fn working_diff(old: Option<Seq<char>>, working: WorkingFile) -> FileDiffView {
    match working {
        WorkingFile::Missing => deleted_diff(),
        WorkingFile::Present { size, bytes } => {
            if size >= LARGE_FILE_SKIP_SIZE {
                skipped_diff(size)
            } else {
                match bytes {
                    None => deleted_diff(),
                    Some(b) => {
                        if exists|i: int| 0 <= i < b@.len() && b@[i] == 0u8 {
                            binary_diff()
                        } else {
                            finalized(snapshot_diff(old, lossy_text(b@)), size, size >= LARGE_FILE_WARN_SIZE)
                        }
                    },
                }
            }
        },
    }
}

fn flagged_diff(deleted: bool, binary: bool) -> (r: FileDiff)
    ensures
        r@ == (FileDiffView { is_deleted: deleted, is_binary: binary, ..crate::types::empty_diff() }),
{
    let d = FileDiff::default();
    FileDiff { is_deleted: deleted, is_binary: binary, ..d }
}

/// The text of a working-tree file that is diffed: present, below the skip
/// size, read, and free of zero bytes.
pub open spec fn readable_text(working: WorkingFile) -> Option<Seq<char>> {
    match working {
        WorkingFile::Present { size, bytes: Some(b) } => {
            if size < LARGE_FILE_SKIP_SIZE && !(exists|i: int| 0 <= i < b@.len() && b@[i] == 0u8) {
                Some(lossy_text(b@))
            } else {
                None
            }
        },
        _ => None,
    }
}

/// Diffs a working-tree file against an old snapshot (see `working_diff`).
pub fn diff_working(old: Option<&str>, working: &WorkingFile) -> (r: FileDiff)
    ensures
        r@ == working_diff(opt_str(old), *working),
        r@.well_formed(),
        r@.is_new_file == (old is None && readable_text(*working) is Some),
        old is None && readable_text(*working) is Some ==> (r@.stats.added_count == line_tokens(
            readable_text(*working)->0,
        ).len() && r@.stats.deleted_count == 0 && !r@.is_deleted && !r@.is_binary),
{
    match working {
        WorkingFile::Missing => flagged_diff(true, false),
        WorkingFile::Present { size, bytes } => {
            if *size >= LARGE_FILE_SKIP_SIZE {
                let mut reason: Vec<char> = Vec::new();
                push_str(&mut reason, "File too large (");
                push_mib(&mut reason, *size);
                push_str(&mut reason, " MB) - skipped");
                assert(reason@ =~= skipped_reason(*size));
                let d = FileDiff::default();
                FileDiff { is_truncated: true, truncation_reason: Some(string_from_chars(reason.as_slice())), ..d }
            } else {
                match bytes {
                    None => flagged_diff(true, false),
                    Some(b) => {
                        if has_zero_byte(b.as_slice()) {
                            flagged_diff(false, true)
                        } else {
                            let text = decode_lossy(b.as_slice());
                            let d = diff_snapshots(old, text.as_str());
                            finalize_diff(d, *size, *size >= LARGE_FILE_WARN_SIZE)
                        }
                    },
                }
            }
        },
    }
}

/// The diff of the index against HEAD: both present are diffed, only the
/// index makes a new file, only HEAD a deletion, neither an empty diff.
pub open spec fn staged_diff(head: Option<Seq<char>>, index: Option<Seq<char>>) -> FileDiffView {
    match (head, index) {
        (Some(h), Some(i)) => finalized(text_diff(h, i), 0, false),
        (None, Some(i)) => finalized(snapshot_diff(None, i), 0, false),
        (Some(_), None) => deleted_diff(),
        (None, None) => crate::types::empty_diff(),
    }
}

/// Diffs the index against HEAD (see `staged_diff`).
pub fn diff_staged(head: Option<&str>, index: Option<&str>) -> (r: FileDiff)
    ensures
        r@ == staged_diff(opt_str(head), opt_str(index)),
        r@.well_formed(),
        r@.is_new_file == (head is None && index is Some),
        head is None && index is Some ==> (r@.stats.added_count == line_tokens(index->0@).len()
            && r@.stats.deleted_count == 0 && !r@.is_deleted && !r@.is_binary),
{
    match index {
        Some(i) => {
            let d = diff_snapshots(head, i);
            finalize_diff(d, 0, false)
        },
        None => {
            if head.is_some() {
                flagged_diff(true, false)
            } else {
                FileDiff::default()
            }
        },
    }
}

/// Why a repository could not be opened.
#[derive(Debug, Clone, Copy, PartialEq, Eq, Structural)]
pub enum EngineError {
    /// No repository holds the given path.
    RepositoryNotFound,
    /// The repository is bare.
    NoWorkingDirectory,
}

impl EngineError {
    /// A message for the user.
    pub fn message(&self) -> (r: &'static str)
        ensures
            *self == EngineError::RepositoryNotFound ==> r@ == "Current directory is not a Git repository. gwatch requires Git."@,
            *self == EngineError::NoWorkingDirectory ==> r@ == "Repository has no working directory"@,
    {
        match self {
            EngineError::RepositoryNotFound => "Current directory is not a Git repository. gwatch requires Git.",
            EngineError::NoWorkingDirectory => "Repository has no working directory",
        }
    }
}

/// Whether `p` is a path git accepts as repository-relative.
pub fn check_repo_path(p: &str) -> (r: bool)
    ensures
        r == is_repo_path(p@),
{
    let cs = chars_of(p);
    let n = cs.len();
    if n == 0 || cs[0] == '/' {
        return false;
    }
    if n == 1 && cs[0] == '.' {
        return false;
    }
    if n >= 2 && cs[0] == '.' && cs[1] == '/' {
        return false;
    }
    if n == 2 && cs[0] == '.' && cs[1] == '.' {
        return false;
    }
    if n >= 3 && cs[0] == '.' && cs[1] == '.' && cs[2] == '/' {
        return false;
    }
    let mut k: usize = 0;
    while k < n
        invariant
            k <= n,
            n == cs@.len(),
            cs@ == p@,
            forall|i: int| 0 <= i < k ==> cs@[i] != '\0',
        decreases n - k,
    {
        if cs[k] == '\0' {
            assert(p@[k as int] == '\0');
            return false;
        }
        k = k + 1;
    }
    true
}

/// The root without one trailing '/'.
pub open spec fn root_base(root: Seq<char>) -> Seq<char> {
    if root.len() > 1 && root.last() == '/' { root.drop_last() } else { root }
}

/// `path` relative to `root` where it lies under it, else `path` itself.
pub open spec fn relative_to(root: Seq<char>, path: Seq<char>) -> Seq<char> {
    let base = root_base(root);
    if path == base {
        Seq::empty()
    } else if path.len() > base.len() && path.take(base.len() as int) == base && path[base.len() as int] == '/' {
        path.skip(base.len() as int + 1)
    } else {
        path
    }
}

/// Computes `relative_to`.
pub fn strip_root(root: &str, path: &str) -> (r: String)
    ensures
        r@ == relative_to(root@, path@),
{
    let rc = chars_of(root);
    let pc = chars_of(path);
    let bl = if rc.len() > 1 && rc[rc.len() - 1] == '/' { rc.len() - 1 } else { rc.len() };
    let ghost base = root_base(rc@);
    assert(base =~= rc@.take(bl as int));
    if pc.len() < bl {
        assert(pc@ != base);
        return crate::text::string_from_chars(pc.as_slice());
    }
    let mut k: usize = 0;
    while k < bl
        invariant
            k <= bl <= rc@.len(),
            bl <= pc@.len(),
            base == rc@.take(bl as int),
            rc@ == root@,
            pc@ == path@,
            forall|i: int| 0 <= i < k ==> pc@[i] == rc@[i],
        decreases bl - k,
    {
        if pc[k] != rc[k] {
            proof {
                assert(base.len() == bl);
                assert(base[k as int] == rc@[k as int]);
                assert(pc@.take(bl as int)[k as int] == pc@[k as int]);
                assert(pc@.take(bl as int) != base);
                if pc@ == base {
                    assert(pc@[k as int] == base[k as int]);
                }
            }
            return crate::text::string_from_chars(pc.as_slice());
        }
        k = k + 1;
    }
    assert(pc@.take(bl as int) =~= base);
    if pc.len() == bl {
        assert(pc@ =~= base);
        return String::new();
    }
    if pc[bl] == '/' {
        let rest = crate::line_diff::copy_range(&pc, bl + 1, pc.len());
        assert(rest@ =~= pc@.skip(bl + 1));
        crate::text::string_from_chars(rest.as_slice())
    } else {
        crate::text::string_from_chars(pc.as_slice())
    }
}

/// The text of a blob: none for one git calls binary, else its bytes
/// decoded with replacement of invalid sequences.
pub fn blob_text_of(is_binary: bool, content: &[u8]) -> (r: Option<String>)
    ensures
        is_binary ==> r is None,
        !is_binary ==> r is Some && r->0@ == lossy_text(content@),
{
    if is_binary {
        None
    } else {
        Some(decode_lossy(content))
    }
}

/// The blob accessor and diff computer of one repository.
pub struct GitEngine {
    repo: Repository,
    repo_root: String,
}

/// Text that some bytes decode to.
pub open spec fn decoded(t: Seq<char>) -> bool {
    exists|b: Seq<u8>| t == lossy_text(b)
}

impl GitEngine {
    /// Opens the repository that holds `path`.
    pub fn new(path: &str) -> (r: Result<GitEngine, EngineError>) {
        match discover(path) {
            None => Err(EngineError::RepositoryNotFound),
            Some(repo) => match workdir(&repo) {
                None => Err(EngineError::NoWorkingDirectory),
                Some(root) => Ok(GitEngine { repo, repo_root: root }),
            },
        }
    }

    /// The working directory of the repository.
    pub fn repo_root(&self) -> (r: &str)
        ensures
            r@ == self.root(),
    {
        self.repo_root.as_str()
    }

    /// The spec value of the working directory.
    pub closed spec fn root(&self) -> Seq<char> {
        self.repo_root@
    }

    /// `path` relative to the working directory, where it lies under it.
    pub fn relative_path(&self, path: &str) -> (r: String)
        ensures
            r@ == relative_to(self.root(), path@),
    {
        strip_root(self.repo_root.as_str(), path)
    }

    fn blob_text(&self, id: git2::Oid) -> (r: Option<String>)
        ensures
            r is Some ==> decoded(r->0@),
    {
        match find_blob(&self.repo, id) {
            None => None,
            Some(blob) => {
                let binary = blob_is_binary(&blob);
                let bytes = blob_content(&blob);
                blob_text_of(binary, bytes.as_slice())
            },
        }
    }

    /// The text at `relative_path` in HEAD's tree; `None` where there is no
    /// commit, no such path, the blob is missing or git calls it binary.
    pub fn get_head_content(&self, relative_path: &str) -> (r: Option<String>)
        ensures
            r is Some ==> decoded(r->0@),
    {
        let reference = match head(&self.repo) {
            None => { return None; },
            Some(h) => h,
        };
        let tree = match peel_to_tree(&reference) {
            None => { return None; },
            Some(t) => t,
        };
        let entry = match tree_get_path(&tree, relative_path) {
            None => { return None; },
            Some(e) => e,
        };
        self.blob_text(tree_entry_id(&entry))
    }

    /// The staged text at `relative_path`; `None` where the index cannot be
    /// read, holds no such path, or git calls the blob binary.
    pub fn get_index_content(&self, relative_path: &str) -> (r: Option<String>)
        ensures
            r is Some ==> decoded(r->0@),
            !is_repo_path(relative_path@) ==> r is None,
    {
        if !check_repo_path(relative_path) {
            return None;
        }
        let mut index = match open_index(&self.repo) {
            None => { return None; },
            Some(i) => i,
        };
        if !reload_index(&mut index) {
            return None;
        }
        match index_entry_id(&index, relative_path) {
            None => None,
            Some(id) => self.blob_text(id),
        }
    }

    /// Working tree against HEAD, for whatever text HEAD gave.
    pub fn compute_diff(&self, relative_path: &str, working: &WorkingFile) -> (r: FileDiff)
        ensures
            exists|h: Option<Seq<char>>| r@ == working_diff(h, *working),
            r@.well_formed(),
            r@.is_new_file ==> (readable_text(*working) is Some && r@.stats.added_count == line_tokens(
                readable_text(*working)->0,
            ).len() && r@.stats.deleted_count == 0),
    {
        let head_text = self.get_head_content(relative_path);
        let old: Option<&str> = match &head_text {
            Some(t) => Some(t.as_str()),
            None => None,
        };
        diff_working(old, working)
    }

    /// Working tree against the index, or against HEAD where the index has no
    /// entry.
    pub fn compute_unstaged_diff(&self, relative_path: &str, working: &WorkingFile) -> (r: FileDiff)
        ensures
            exists|o: Option<Seq<char>>| r@ == working_diff(o, *working),
            r@.well_formed(),
            r@.is_new_file ==> (readable_text(*working) is Some && r@.stats.added_count == line_tokens(
                readable_text(*working)->0,
            ).len() && r@.stats.deleted_count == 0),
    {
        let index_text = self.get_index_content(relative_path);
        let old_text = match index_text {
            Some(t) => Some(t),
            None => self.get_head_content(relative_path),
        };
        let old: Option<&str> = match &old_text {
            Some(t) => Some(t.as_str()),
            None => None,
        };
        diff_working(old, working)
    }

    /// The index against HEAD.
    pub fn compute_staged_diff(&self, relative_path: &str) -> (r: FileDiff)
        ensures
            exists|h: Option<Seq<char>>, i: Option<Seq<char>>| r@ == staged_diff(h, i)
                && (r@.is_new_file ==> h is None && i is Some && r@.stats.added_count == line_tokens(i->0).len()
                && r@.stats.deleted_count == 0),
            r@.well_formed(),
    {
        let index_text = self.get_index_content(relative_path);
        let head_text = self.get_head_content(relative_path);
        let h: Option<&str> = match &head_text {
            Some(t) => Some(t.as_str()),
            None => None,
        };
        let i: Option<&str> = match &index_text {
            Some(t) => Some(t.as_str()),
            None => None,
        };
        diff_staged(h, i)
    }

    /// The diff the mode selects.
    pub fn compute(&self, mode: DiffMode, relative_path: &str, working: &WorkingFile) -> (r: FileDiff)
        ensures
            r@.well_formed(),
            mode != DiffMode::Staged ==> exists|o: Option<Seq<char>>| r@ == working_diff(o, *working),
            mode == DiffMode::Staged ==> exists|h: Option<Seq<char>>, i: Option<Seq<char>>| r@ == staged_diff(h, i),
            mode != DiffMode::Staged && r@.is_new_file ==> (readable_text(*working) is Some
                && r@.stats.added_count == line_tokens(readable_text(*working)->0).len() && r@.stats.deleted_count == 0),
    {
        match mode {
            DiffMode::All => self.compute_diff(relative_path, working),
            DiffMode::Unstaged => self.compute_unstaged_diff(relative_path, working),
            DiffMode::Staged => self.compute_staged_diff(relative_path),
        }
    }
}

} // verus!
