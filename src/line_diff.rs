//! Line tokens of a text and the grouped line-diff operations between two
//! texts, as computed by the `similar` crate.
use vstd::prelude::*;
use similar::DiffTag;
use crate::types::{DiffKind, LineView};

verus! {

/// The tokens a text is compared by: each line with its terminator
/// ("\r\n", a lone '\r' or '\n'), and a last unterminated line if any.
pub open spec fn line_tokens(s: Seq<char>) -> Seq<Seq<char>> {
    tokens_from(s, 0, 0)
}

/// The tokens of `s` whose current line started at `start`, scanning at `i`.
pub open spec fn tokens_from(s: Seq<char>, start: int, i: int) -> Seq<Seq<char>>
    decreases s.len() - i,
{
    if i >= s.len() {
        if start < s.len() {
            seq![s.subrange(start, s.len() as int)]
        } else {
            Seq::empty()
        }
    } else if s[i] == '\r' && i + 1 < s.len() && s[i + 1] == '\n' {
        seq![s.subrange(start, i + 2)] + tokens_from(s, i + 2, i + 2)
    } else if s[i] == '\r' || s[i] == '\n' {
        seq![s.subrange(start, i + 1)] + tokens_from(s, i + 1, i + 1)
    } else {
        tokens_from(s, start, i + 1)
    }
}

/// A text has no more tokens than characters.
pub proof fn lemma_line_tokens_len(s: Seq<char>)
    ensures
        line_tokens(s).len() <= s.len(),
{
    lemma_tokens_from_len(s, 0, 0);
}

proof fn lemma_tokens_from_len(s: Seq<char>, start: int, i: int)
    requires
        0 <= start <= i,
    ensures
        tokens_from(s, start, i).len() <= if start <= s.len() { s.len() - start } else { 0 },
    decreases s.len() - i,
{
    if i >= s.len() {
    } else if s[i] == '\r' && i + 1 < s.len() && s[i + 1] == '\n' {
        lemma_tokens_from_len(s, i + 2, i + 2);
    } else if s[i] == '\r' || s[i] == '\n' {
        lemma_tokens_from_len(s, i + 1, i + 1);
    } else {
        lemma_tokens_from_len(s, start, i + 1);
    }
}

/// A non-empty text has at least one token.
pub proof fn lemma_tokens_nonempty(s: Seq<char>)
    requires
        s.len() > 0,
    ensures
        line_tokens(s).len() > 0,
{
    lemma_tokens_from_nonempty(s, 0, 0);
}

proof fn lemma_tokens_from_nonempty(s: Seq<char>, start: int, i: int)
    requires
        0 <= start <= i,
        start < s.len(),
    ensures
        tokens_from(s, start, i).len() > 0,
    decreases s.len() - i,
{
    if i < s.len() && !(s[i] == '\r' || s[i] == '\n') {
        lemma_tokens_from_nonempty(s, start, i + 1);
    }
}

/// The values of a vector of character vectors.
pub open spec fn tokens_view(toks: Seq<Vec<char>>) -> Seq<Seq<char>> {
    toks.map_values(|t: Vec<char>| t@)
}

/// A copy of `cs[a..b]`.
pub fn copy_range(cs: &Vec<char>, a: usize, b: usize) -> (r: Vec<char>)
    requires
        a <= b <= cs@.len(),
    ensures
        r@ == cs@.subrange(a as int, b as int),
{
    let mut r: Vec<char> = Vec::new();
    let mut k = a;
    while k < b
        invariant
            a <= k <= b <= cs@.len(),
            r@ == cs@.subrange(a as int, k as int),
        decreases b - k,
    {
        r.push(cs[k]);
        k = k + 1;
        assert(r@ =~= cs@.subrange(a as int, k as int));
    }
    r
}

/// Splits a text into its line tokens.
pub fn split_line_tokens(text: &str) -> (r: Vec<Vec<char>>)
    ensures
        tokens_view(r@) == line_tokens(text@),
{
    let cs = crate::text::chars_of(text);
    let ghost s = cs@;
    let len = cs.len();
    let mut toks: Vec<Vec<char>> = Vec::new();
    let mut start: usize = 0;
    let mut i: usize = 0;
    assert(tokens_view(toks@) =~= Seq::<Seq<char>>::empty());
    while i < len
        invariant
            s == cs@,
            s == text@,
            len == s.len(),
            start <= i <= len,
            line_tokens(s) == tokens_view(toks@) + tokens_from(s, start as int, i as int),
        decreases len - i,
    {
        let ghost before = tokens_view(toks@);
        if cs[i] == '\r' && i + 1 < len && cs[i + 1] == '\n' {
            let t = copy_range(&cs, start, i + 2);
            toks.push(t);
            assert(tokens_view(toks@) =~= before.push(t@));
            assert(before + (seq![t@] + tokens_from(s, i + 2, i + 2)) =~= before.push(t@) + tokens_from(s, i + 2, i + 2));
            i = i + 2;
            start = i;
        } else if cs[i] == '\r' || cs[i] == '\n' {
            let t = copy_range(&cs, start, i + 1);
            toks.push(t);
            assert(tokens_view(toks@) =~= before.push(t@));
            assert(before + (seq![t@] + tokens_from(s, i + 1, i + 1)) =~= before.push(t@) + tokens_from(s, i + 1, i + 1));
            i = i + 1;
            start = i;
        } else {
            i = i + 1;
        }
    }
    if start < len {
        let ghost before = tokens_view(toks@);
        let t = copy_range(&cs, start, len);
        toks.push(t);
        assert(tokens_view(toks@) =~= before.push(t@));
        assert(before + seq![t@] =~= before.push(t@));
    } else {
        assert(tokens_view(toks@) + Seq::<Seq<char>>::empty() =~= tokens_view(toks@));
    }
    toks
}

/// A token without its final '\n'.
pub open spec fn strip_newline(t: Seq<char>) -> Seq<char> {
    if t.len() > 0 && t.last() == '\n' {
        t.drop_last()
    } else {
        t
    }
}

/// The text of a line: its token without the final '\n'.
pub fn line_text(tok: &Vec<char>) -> (r: String)
    ensures
        r@ == strip_newline(tok@),
{
    let n = tok.len();
    let keep = if n > 0 && tok[n - 1] == '\n' { n - 1 } else { n };
    let cs = copy_range(tok, 0, keep);
    assert(tok@.subrange(0, n as int) =~= tok@);
    assert(tok@.subrange(0, keep as int) =~= strip_newline(tok@));
    crate::text::string_from_chars(cs.as_slice())
}

/// The kind of a diff operation.
#[derive(Debug, Clone, Copy, PartialEq, Eq, Structural)]
pub enum OpTag {
    Equal,
    Delete,
    Insert,
    Replace,
}

/// One diff operation over token indices: `old_start..old_end` of the old
/// tokens against `new_start..new_end` of the new ones.
#[derive(Debug, Clone, Copy, PartialEq, Eq, Structural)]
pub struct LineOp {
    pub tag: OpTag,
    pub old_start: usize,
    pub old_end: usize,
    pub new_start: usize,
    pub new_end: usize,
}

/// The values of grouped operations.
pub open spec fn groups_view(groups: Seq<Vec<LineOp>>) -> Seq<Seq<LineOp>> {
    groups.map_values(|g: Vec<LineOp>| g@)
}

/// The operations that similar's line diff of `old` and `new` gives, grouped
/// into clusters of changes with `context` equal lines around each.
pub uninterp spec fn grouped_line_ops(old: Seq<char>, new: Seq<char>, context: nat) -> Seq<Seq<LineOp>>;

/// The operation's ranges lie within the token counts and agree with its tag.
pub open spec fn op_fits(op: LineOp, n_old: nat, n_new: nat) -> bool {
    &&& op.old_start <= op.old_end <= n_old
    &&& op.new_start <= op.new_end <= n_new
    &&& op.tag == OpTag::Equal ==> op.old_end - op.old_start == op.new_end - op.new_start
    &&& op.tag == OpTag::Delete ==> op.new_start == op.new_end
    &&& op.tag == OpTag::Insert ==> op.old_start == op.old_end
}

/// `p` ends, on both sides, where or before `q` starts.
pub open spec fn op_precedes(p: LineOp, q: LineOp) -> bool {
    p.old_end <= q.old_start && p.new_end <= q.new_start
}

/// Every operation fits, and the operations, read group by group, advance
/// through both token sequences without overlap.
pub open spec fn groups_fit(groups: Seq<Seq<LineOp>>, n_old: nat, n_new: nat) -> bool {
    &&& forall|g: int, i: int|
        0 <= g < groups.len() && 0 <= i < groups[g].len() ==> op_fits(#[trigger] groups[g][i], n_old, n_new)
    &&& forall|g: int, i: int|
        0 <= g < groups.len() && 0 <= i < groups[g].len() - 1 ==> op_precedes(
            #[trigger] groups[g][i],
            groups[g][i + 1],
        )
    &&& forall|g: int|
        0 <= g < groups.len() - 1 && groups[g].len() > 0 && groups[g + 1].len() > 0 ==> op_precedes(
            #[trigger] groups[g].last(),
            groups[g + 1][0],
        )
    &&& forall|g: int| 0 <= g < groups.len() ==> #[trigger] groups[g].len() > 0
}

/// Relies on similar's `TextDiff::from_lines` and `TextDiff::grouped_ops`
/// (Myers, no deadline): operations over the line tokens that stay in range,
/// come in order without overlap, form non-empty groups, vanish when both
/// texts have the same tokens (the common prefix is taken whole and a group
/// of one equal run is dropped), and are one insertion of everything when the
/// old text has no tokens and the new one has some. `group_diff_ops`
/// computes `2 * context` unchecked, hence the bound.
#[verifier::external_body]
pub(crate) fn similar_grouped_ops(old: &str, new: &str, context: usize) -> (r: Vec<Vec<LineOp>>)
    requires
        context <= usize::MAX / 2,
    ensures
        groups_view(r@) == grouped_line_ops(old@, new@, context as nat),
        groups_fit(groups_view(r@), line_tokens(old@).len(), line_tokens(new@).len()),
        line_tokens(old@) == line_tokens(new@) ==> r@.len() == 0,
        line_tokens(old@).len() == 0 && line_tokens(new@).len() > 0 ==> groups_view(r@) == seq![
            seq![LineOp { tag: OpTag::Insert, old_start: 0, old_end: 0, new_start: 0, new_end: line_tokens(new@).len() as usize }],
        ],
{
    let diff = similar::TextDiff::from_lines(old, new);
    diff.grouped_ops(context).iter().map(|g| g.iter().map(|op| {
        let (tag, o, n) = op.as_tag_tuple();
        let tag = match tag {
            DiffTag::Equal => OpTag::Equal,
            DiffTag::Delete => OpTag::Delete,
            DiffTag::Insert => OpTag::Insert,
            DiffTag::Replace => OpTag::Replace,
        };
        LineOp { tag, old_start: o.start, old_end: o.end, new_start: n.start, new_end: n.end }
    }).collect()).collect()
}

/// The deleted lines of old tokens `a..b` (1-based numbers).
pub open spec fn deleted_lines(ot: Seq<Seq<char>>, a: int, b: int) -> Seq<LineView> {
    Seq::new((b - a) as nat, |i: int| LineView { old: Some((a + i + 1) as usize), new: None, kind: DiffKind::Deleted, content: strip_newline(ot[a + i]) })
}

/// The added lines of new tokens `a..b` (1-based numbers).
pub open spec fn added_lines(nt: Seq<Seq<char>>, a: int, b: int) -> Seq<LineView> {
    Seq::new((b - a) as nat, |i: int| LineView { old: None, new: Some((a + i + 1) as usize), kind: DiffKind::Added, content: strip_newline(nt[a + i]) })
}

/// The context lines of an equal run starting at old token `a` and new token
/// `c`, with the old side's text.
pub open spec fn context_lines(ot: Seq<Seq<char>>, a: int, b: int, c: int) -> Seq<LineView> {
    Seq::new((b - a) as nat, |i: int| LineView { old: Some((a + i + 1) as usize), new: Some((c + i + 1) as usize), kind: DiffKind::Context, content: strip_newline(ot[a + i]) })
}

/// The lines one operation stands for: context lines for an equal run,
/// deletions, additions, or the deletions then the additions of a
/// replacement.
pub open spec fn op_lines(op: LineOp, ot: Seq<Seq<char>>, nt: Seq<Seq<char>>) -> Seq<LineView> {
    match op.tag {
        OpTag::Equal => context_lines(ot, op.old_start as int, op.old_end as int, op.new_start as int),
        OpTag::Delete => deleted_lines(ot, op.old_start as int, op.old_end as int),
        OpTag::Insert => added_lines(nt, op.new_start as int, op.new_end as int),
        OpTag::Replace => deleted_lines(ot, op.old_start as int, op.old_end as int) + added_lines(
            nt,
            op.new_start as int,
            op.new_end as int,
        ),
    }
}

/// The lines of a group of operations, in order.
pub open spec fn group_lines(g: Seq<LineOp>, ot: Seq<Seq<char>>, nt: Seq<Seq<char>>) -> Seq<LineView>
    decreases g.len(),
{
    if g.len() == 0 {
        Seq::empty()
    } else {
        group_lines(g.drop_last(), ot, nt) + op_lines(g.last(), ot, nt)
    }
}

} // verus!
