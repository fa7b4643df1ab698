//! Side-by-side alignment of a flat diff-line sequence.
use vstd::prelude::*;
use crate::types::{DiffKind, DiffLine, LineView, lines_view};
use crate::text::{chars_of, string_from_chars};

verus! {

/// One row of the side-by-side view; an empty side has no number, no kind
/// and empty content.
#[derive(Debug, Clone)]
pub struct SideBySideLine {
    pub left_num: Option<usize>,
    pub left_content: String,
    pub left_kind: Option<DiffKind>,
    pub right_num: Option<usize>,
    pub right_content: String,
    pub right_kind: Option<DiffKind>,
}

/// The mathematical value of a `SideBySideLine`.
pub struct RowView {
    pub left_num: Option<usize>,
    pub left_content: Seq<char>,
    pub left_kind: Option<DiffKind>,
    pub right_num: Option<usize>,
    pub right_content: Seq<char>,
    pub right_kind: Option<DiffKind>,
}

impl View for SideBySideLine {
    type V = RowView;

    open spec fn view(&self) -> RowView {
        RowView {
            left_num: self.left_num,
            left_content: self.left_content@,
            left_kind: self.left_kind,
            right_num: self.right_num,
            right_content: self.right_content@,
            right_kind: self.right_kind,
        }
    }
}

/// The values of a sequence of rows.
pub open spec fn rows_view(rows: Seq<SideBySideLine>) -> Seq<RowView> {
    rows.map_values(|r: SideBySideLine| r@)
}

/// The row of a context line: the same line on both sides.
pub open spec fn context_row(l: LineView) -> RowView {
    RowView {
        left_num: l.old,
        left_content: l.content,
        left_kind: Some(DiffKind::Context),
        right_num: l.new,
        right_content: l.content,
        right_kind: Some(DiffKind::Context),
    }
}

/// The row of an added line with nothing on the left.
pub open spec fn added_row(l: LineView) -> RowView {
    RowView {
        left_num: None,
        left_content: Seq::empty(),
        left_kind: None,
        right_num: l.new,
        right_content: l.content,
        right_kind: Some(DiffKind::Added),
    }
}

/// Row `j` of a replacement block pairing deletions with additions.
pub open spec fn paired_row(dels: Seq<LineView>, adds: Seq<LineView>, j: int) -> RowView {
    RowView {
        left_num: if j < dels.len() { dels[j].old } else { None },
        left_content: if j < dels.len() { dels[j].content } else { Seq::empty() },
        left_kind: if j < dels.len() { Some(DiffKind::Deleted) } else { None },
        right_num: if j < adds.len() { adds[j].new } else { None },
        right_content: if j < adds.len() { adds[j].content } else { Seq::empty() },
        right_kind: if j < adds.len() { Some(DiffKind::Added) } else { None },
    }
}

pub open spec fn max_len(a: nat, b: nat) -> nat {
    if a >= b { a } else { b }
}

/// The rows of a replacement block: `max(d, a)` rows, row `j` pairing the
/// `j`-th deletion with the `j`-th addition.
pub open spec fn paired_rows(dels: Seq<LineView>, adds: Seq<LineView>) -> Seq<RowView> {
    Seq::new(max_len(dels.len(), adds.len()), |j: int| paired_row(dels, adds, j))
}

/// Length of the run of lines of kind `k` at the start of `s`.
pub open spec fn run_len(s: Seq<LineView>, k: DiffKind) -> nat
    decreases s.len(),
{
    if s.len() > 0 && s[0].kind == k {
        1 + run_len(s.skip(1), k)
    } else {
        0
    }
}

/// The side-by-side rows of a flat line sequence: a context line gives one
/// paired row, an added line with no deletions before it a right-only row,
/// and a run of deletions with the run of additions after it a replacement
/// block.
pub open spec fn align(lines: Seq<LineView>) -> Seq<RowView>
    decreases lines.len(),
{
    if lines.len() == 0 {
        Seq::empty()
    } else if lines[0].kind == DiffKind::Context {
        seq![context_row(lines[0])] + align(lines.skip(1))
    } else if lines[0].kind == DiffKind::Added {
        seq![added_row(lines[0])] + align(lines.skip(1))
    } else {
        let d = run_len(lines, DiffKind::Deleted);
        let rest = lines.skip(d as int);
        let a = run_len(rest, DiffKind::Added);
        proof {
            lemma_run_len_bound(lines, DiffKind::Deleted);
            lemma_run_len_bound(rest, DiffKind::Added);
        }
        paired_rows(lines.take(d as int), rest.take(a as int)) + align(rest.skip(a as int))
    }
}

/// A run that ends at `n` has length `n`.
proof fn lemma_run_len(s: Seq<LineView>, k: DiffKind, n: int)
    requires
        0 <= n <= s.len(),
        forall|t: int| 0 <= t < n ==> #[trigger] s[t].kind == k,
        n == s.len() || s[n].kind != k,
    ensures
        run_len(s, k) == n,
    decreases n,
{
    if n > 0 {
        assert(s.skip(1).len() == s.len() - 1);
        assert forall|t: int| 0 <= t < n - 1 implies #[trigger] s.skip(1)[t].kind == k by {
            assert(s.skip(1)[t] == s[t + 1]);
        }
        if n < s.len() {
            assert(s.skip(1)[n - 1] == s[n]);
        }
        lemma_run_len(s.skip(1), k, n - 1);
    }
}

/// A run is never longer than the sequence.
pub proof fn lemma_run_len_bound(s: Seq<LineView>, k: DiffKind)
    ensures
        run_len(s, k) <= s.len(),
    decreases s.len(),
{
    if s.len() > 0 && s[0].kind == k {
        lemma_run_len_bound(s.skip(1), k);
    }
}

fn row_of_context(line: &DiffLine) -> (r: SideBySideLine)
    requires
        line.kind == DiffKind::Context,
    ensures
        r@ == context_row(line@),
{
    SideBySideLine {
        left_num: line.old_line_number,
        left_content: line.content.clone(),
        left_kind: Some(DiffKind::Context),
        right_num: line.new_line_number,
        right_content: line.content.clone(),
        right_kind: Some(DiffKind::Context),
    }
}

fn row_of_added(line: &DiffLine) -> (r: SideBySideLine)
    ensures
        r@ == added_row(line@),
{
    SideBySideLine {
        left_num: None,
        left_content: String::new(),
        left_kind: None,
        right_num: line.new_line_number,
        right_content: line.content.clone(),
        right_kind: Some(DiffKind::Added),
    }
}

/// Row `j` of the block whose deletions are `lines[ds..de]` and additions
/// `lines[de..ae]`.
fn row_of_block(lines: &[DiffLine], ds: usize, de: usize, ae: usize, j: usize) -> (r: SideBySideLine)
    requires
        ds <= de <= ae <= lines@.len(),
    ensures
        r@ == paired_row(
            lines_view(lines@).subrange(ds as int, de as int),
            lines_view(lines@).subrange(de as int, ae as int),
            j as int,
        ),
{
    let ghost v = lines_view(lines@);
    let d = de - ds;
    let a = ae - de;
    let (left_num, left_content, left_kind) = if j < d {
        (lines[ds + j].old_line_number, lines[ds + j].content.clone(), Some(DiffKind::Deleted))
    } else {
        (None, String::new(), None)
    };
    let (right_num, right_content, right_kind) = if j < a {
        (lines[de + j].new_line_number, lines[de + j].content.clone(), Some(DiffKind::Added))
    } else {
        (None, String::new(), None)
    };
    let r = SideBySideLine { left_num, left_content, left_kind, right_num, right_content, right_kind };
    proof {
        if j < d {
            assert(v.subrange(ds as int, de as int)[j as int] == v[ds + j]);
        }
        if j < a {
            assert(v.subrange(de as int, ae as int)[j as int] == v[de + j]);
        }
    }
    r
}

/// Appends the rows of the block whose deletions are `lines[ds..de]` and
/// additions `lines[de..ae]`.
fn push_block(lines: &[DiffLine], ds: usize, de: usize, ae: usize, result: &mut Vec<SideBySideLine>)
    requires
        ds <= de <= ae <= lines@.len(),
    ensures
        rows_view(final(result)@) == rows_view(old(result)@) + paired_rows(
            lines_view(lines@).subrange(ds as int, de as int),
            lines_view(lines@).subrange(de as int, ae as int),
        ),
{
    let ghost dels = lines_view(lines@).subrange(ds as int, de as int);
    let ghost adds = lines_view(lines@).subrange(de as int, ae as int);
    let ghost start = rows_view(result@);
    let d = de - ds;
    let a = ae - de;
    let m = if d >= a { d } else { a };
    let mut j: usize = 0;
    while j < m
        invariant
            j <= m,
            m == max_len(dels.len(), adds.len()),
            ds <= de <= ae <= lines@.len(),
            dels == lines_view(lines@).subrange(ds as int, de as int),
            adds == lines_view(lines@).subrange(de as int, ae as int),
            rows_view(result@) == start + paired_rows(dels, adds).take(j as int),
        decreases m - j,
    {
        let row = row_of_block(lines, ds, de, ae, j);
        let ghost before = rows_view(result@);
        result.push(row);
        assert(rows_view(result@) =~= before.push(row@));
        assert(paired_rows(dels, adds).take(j + 1) =~= paired_rows(dels, adds).take(j as int).push(row@));
        j = j + 1;
    }
    assert(paired_rows(dels, adds).take(m as int) =~= paired_rows(dels, adds));
}

/// Pairs deleted and added lines into side-by-side rows (see `align`).
pub fn build_side_by_side_lines(diff_lines: &[DiffLine]) -> (result: Vec<SideBySideLine>)
    ensures
        rows_view(result@) == align(lines_view(diff_lines@)),
{
    let ghost v = lines_view(diff_lines@);
    let mut result: Vec<SideBySideLine> = Vec::new();
    let mut i: usize = 0;
    let n = diff_lines.len();
    assert(v.skip(0) =~= v);
    assert(rows_view(result@) =~= Seq::<RowView>::empty());
    while i < n
        invariant
            n == diff_lines@.len(),
            v == lines_view(diff_lines@),
            v.len() == n,
            i <= n,
            align(v) == rows_view(result@) + align(v.skip(i as int)),
        decreases n - i,
    {
        let ghost s = v.skip(i as int);
        let ghost before = rows_view(result@);
        assert(s[0] == v[i as int]);
        let kind = diff_lines[i].kind;
        if kind == DiffKind::Context {
            let row = row_of_context(&diff_lines[i]);
            result.push(row);
            assert(s.skip(1) =~= v.skip(i + 1));
            assert(rows_view(result@) =~= before + seq![row@]);
            assert(align(s) == seq![row@] + align(v.skip(i + 1)));
            assert(before + (seq![row@] + align(v.skip(i + 1))) =~= (before + seq![row@]) + align(v.skip(i + 1)));
            i = i + 1;
        } else if kind == DiffKind::Added {
            let row = row_of_added(&diff_lines[i]);
            result.push(row);
            assert(s.skip(1) =~= v.skip(i + 1));
            assert(rows_view(result@) =~= before + seq![row@]);
            assert(align(s) == seq![row@] + align(v.skip(i + 1)));
            assert(before + (seq![row@] + align(v.skip(i + 1))) =~= (before + seq![row@]) + align(v.skip(i + 1)));
            i = i + 1;
        } else {
            let ds = i;
            while i < n && diff_lines[i].kind == DiffKind::Deleted
                invariant
                    ds <= i <= n,
                    n == diff_lines@.len(),
                    forall|t: int| ds <= t < i ==> #[trigger] diff_lines@[t].kind == DiffKind::Deleted,
                decreases n - i,
            {
                i = i + 1;
            }
            let de = i;
            while i < n && diff_lines[i].kind == DiffKind::Added
                invariant
                    de <= i <= n,
                    n == diff_lines@.len(),
                    forall|t: int| de <= t < i ==> #[trigger] diff_lines@[t].kind == DiffKind::Added,
                decreases n - i,
            {
                i = i + 1;
            }
            let ae = i;
            proof {
                let d = (de - ds) as int;
                assert forall|t: int| 0 <= t < d implies #[trigger] s[t].kind == DiffKind::Deleted by {
                    assert(s[t] == v[ds + t]);
                }
                if de < n {
                    assert(s[d] == v[de as int]);
                }
                lemma_run_len(s, DiffKind::Deleted, d);
                let rest = s.skip(d);
                assert(rest =~= v.skip(de as int));
                let a = (ae - de) as int;
                assert forall|t: int| 0 <= t < a implies #[trigger] rest[t].kind == DiffKind::Added by {
                    assert(rest[t] == v[de + t]);
                }
                if ae < n {
                    assert(rest[a] == v[ae as int]);
                }
                lemma_run_len(rest, DiffKind::Added, a);
                assert(s.take(d) =~= v.subrange(ds as int, de as int));
                assert(rest.take(a) =~= v.subrange(de as int, ae as int));
                assert(rest.skip(a) =~= v.skip(ae as int));
            }
            push_block(diff_lines, ds, de, ae, &mut result);
            assert(before + (paired_rows(v.subrange(ds as int, de as int), v.subrange(de as int, ae as int)) + align(v.skip(ae as int)))
                =~= (before + paired_rows(v.subrange(ds as int, de as int), v.subrange(de as int, ae as int))) + align(v.skip(ae as int)));
        }
    }
    assert(v.skip(n as int) =~= Seq::<LineView>::empty());
    assert(rows_view(result@) + Seq::<RowView>::empty() =~= rows_view(result@));
    result
}

/// The contents of the rows that have a left side, in order.
pub open spec fn left_texts(rows: Seq<RowView>) -> Seq<Seq<char>>
    decreases rows.len(),
{
    if rows.len() == 0 {
        Seq::empty()
    } else if rows.last().left_kind is Some {
        left_texts(rows.drop_last()).push(rows.last().left_content)
    } else {
        left_texts(rows.drop_last())
    }
}

/// The contents of the rows that have a right side, in order.
pub open spec fn right_texts(rows: Seq<RowView>) -> Seq<Seq<char>>
    decreases rows.len(),
{
    if rows.len() == 0 {
        Seq::empty()
    } else if rows.last().right_kind is Some {
        right_texts(rows.drop_last()).push(rows.last().right_content)
    } else {
        right_texts(rows.drop_last())
    }
}

/// The contents of a sequence of lines.
pub open spec fn texts(lines: Seq<LineView>) -> Seq<Seq<char>> {
    lines.map_values(|l: LineView| l.content)
}

/// Aligning only context lines gives one row per line, with the line's
/// numbers and the same content on both sides.
pub proof fn lemma_align_all_context(lines: Seq<LineView>)
    requires
        forall|i: int| 0 <= i < lines.len() ==> #[trigger] lines[i].kind == DiffKind::Context,
    ensures
        align(lines).len() == lines.len(),
        forall|i: int| 0 <= i < lines.len() ==> {
            &&& #[trigger] align(lines)[i] == context_row(lines[i])
            &&& align(lines)[i].left_content == align(lines)[i].right_content
            &&& align(lines)[i].left_num == lines[i].old
            &&& align(lines)[i].right_num == lines[i].new
        },
    decreases lines.len(),
{
    if lines.len() > 0 {
        let tail = lines.skip(1);
        assert forall|i: int| 0 <= i < tail.len() implies #[trigger] tail[i].kind == DiffKind::Context by {
            assert(tail[i] == lines[i + 1]);
        }
        lemma_align_all_context(tail);
        assert forall|i: int| 0 <= i < lines.len() implies #[trigger] align(lines)[i] == context_row(lines[i]) by {
            if i > 0 {
                assert(tail[i - 1] == lines[i]);
            }
        }
    }
}

proof fn lemma_left_texts_prefix(dels: Seq<LineView>, adds: Seq<LineView>, k: int)
    requires
        0 <= k <= max_len(dels.len(), adds.len()),
    ensures
        left_texts(paired_rows(dels, adds).take(k)) == texts(dels.take(if k <= dels.len() { k } else { dels.len() as int })),
        right_texts(paired_rows(dels, adds).take(k)) == texts(adds.take(if k <= adds.len() { k } else { adds.len() as int })),
    decreases k,
{
    let rows = paired_rows(dels, adds);
    if k == 0 {
        assert(rows.take(0) =~= Seq::<RowView>::empty());
        assert(texts(dels.take(0)) =~= Seq::<Seq<char>>::empty());
        assert(texts(adds.take(0)) =~= Seq::<Seq<char>>::empty());
    } else {
        lemma_left_texts_prefix(dels, adds, k - 1);
        assert(rows.take(k).drop_last() =~= rows.take(k - 1));
        assert(rows.take(k).last() == paired_row(dels, adds, k - 1));
        if k <= dels.len() {
            assert(texts(dels.take(k)) =~= texts(dels.take(k - 1)).push(dels[k - 1].content));
        } else {
            assert(dels.take(if k - 1 <= dels.len() { k - 1 } else { dels.len() as int }) =~= dels.take(dels.len() as int));
        }
        if k <= adds.len() {
            assert(texts(adds.take(k)) =~= texts(adds.take(k - 1)).push(adds[k - 1].content));
        } else {
            assert(adds.take(if k - 1 <= adds.len() { k - 1 } else { adds.len() as int }) =~= adds.take(adds.len() as int));
        }
    }
}

/// A run of `d` deleted lines followed by a run of `a` added lines (both
/// runs maximal) gives exactly `max(d, a)` rows; their left
/// sides hold the deleted lines in order and their right sides the added
/// lines in order, after which the rest is aligned on its own.
pub proof fn lemma_align_replacement_block(dels: Seq<LineView>, adds: Seq<LineView>, rest: Seq<LineView>)
    requires
        dels.len() > 0,
        forall|i: int| 0 <= i < dels.len() ==> #[trigger] dels[i].kind == DiffKind::Deleted,
        forall|i: int| 0 <= i < adds.len() ==> #[trigger] adds[i].kind == DiffKind::Added,
        rest.len() > 0 ==> rest[0].kind != DiffKind::Added,
        rest.len() > 0 && adds.len() == 0 ==> rest[0].kind != DiffKind::Deleted,
    ensures
        align(dels + adds + rest) == paired_rows(dels, adds) + align(rest),
        paired_rows(dels, adds).len() == max_len(dels.len(), adds.len()),
        left_texts(paired_rows(dels, adds)) == texts(dels),
        right_texts(paired_rows(dels, adds)) == texts(adds),
{
    let lines = dels + adds + rest;
    let d = dels.len() as int;
    let a = adds.len() as int;
    assert(lines[0] == dels[0]);
    assert forall|t: int| 0 <= t < d implies #[trigger] lines[t].kind == DiffKind::Deleted by {
        assert(lines[t] == dels[t]);
    }
    if a > 0 {
        assert(lines[d] == adds[0]);
    } else if rest.len() > 0 {
        assert(lines[d] == rest[0]);
    }
    lemma_run_len(lines, DiffKind::Deleted, d);
    let after = lines.skip(d);
    assert(after =~= adds + rest);
    assert forall|t: int| 0 <= t < a implies #[trigger] after[t].kind == DiffKind::Added by {
        assert(after[t] == adds[t]);
    }
    if rest.len() > 0 {
        assert(after[a] == rest[0]);
    }
    lemma_run_len(after, DiffKind::Added, a);
    assert(lines.take(d) =~= dels);
    assert(after.take(a) =~= adds);
    assert(after.skip(a) =~= rest);
    let m = max_len(dels.len(), adds.len()) as int;
    lemma_left_texts_prefix(dels, adds, m);
    assert(paired_rows(dels, adds).take(m) =~= paired_rows(dels, adds));
    assert(dels.take(d) =~= dels);
    assert(adds.take(a) =~= adds);
}

/// The characters of `s` from `offset` on, at most `max_len` of them.
pub open spec fn window(s: Seq<char>, offset: nat, max_len: nat) -> Seq<char> {
    if offset >= s.len() {
        Seq::empty()
    } else if offset + max_len >= s.len() {
        s.skip(offset as int)
    } else {
        s.subrange(offset as int, (offset + max_len) as int)
    }
}

/// At most `max_len` characters of `s` starting at character `offset`.
pub fn truncate_with_offset(s: &str, offset: usize, max_len: usize) -> (r: String)
    ensures
        r@ == window(s@, offset as nat, max_len as nat),
{
    let chars = chars_of(s);
    let len = chars.len();
    if offset >= len {
        return String::new();
    }
    let end = if max_len >= len - offset { len } else { offset + max_len };
    let mut out: Vec<char> = Vec::new();
    let mut k: usize = offset;
    while k < end
        invariant
            offset <= k <= end <= len,
            len == chars@.len(),
            out@ == chars@.subrange(offset as int, k as int),
        decreases end - k,
    {
        out.push(chars[k]);
        k = k + 1;
        assert(out@ =~= chars@.subrange(offset as int, k as int));
    }
    assert(chars@.skip(offset as int) =~= chars@.subrange(offset as int, len as int));
    string_from_chars(out.as_slice())
}

} // verus!
