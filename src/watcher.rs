//! The change detector: which file notifications count, and the per-path
//! debounce that turns a burst of them into one settled change.
use vstd::prelude::*;
use ignore::gitignore::Gitignore;
use crate::git_engine::{relative_to, strip_root};
use crate::text::chars_of;

verus! {

#[verifier::external_type_specification]
#[verifier::external_body]
pub struct ExGitignore(Gitignore);

/// What glob's `Pattern::new(pattern)` followed by `matches(text)` answers
/// (false where the pattern does not compile).
pub uninterp spec fn glob_match(pattern: Seq<char>, text: Seq<char>) -> bool;

/// Relies on `glob::Pattern::new` and `glob::Pattern::matches`: whether the
/// text matches the pattern; a pattern that does not compile matches nothing.
/// The answer depends on the two strings alone.
#[verifier::external_body]
fn glob_matches(pattern: &str, text: &str) -> (r: bool)
    ensures
        r == glob_match(pattern@, text@),
{
    match glob::Pattern::new(pattern) {
        Ok(p) => p.matches(text),
        Err(_) => false,
    }
}

/// A relative path the gitignore matcher takes without panicking: it does
/// not start with '/' and holds no "//". The matcher strips a leading "./",
/// then a prefix equal to its root followed by one '/', and asserts that no
/// root is left; without "//" no '/' can be left in front.
pub open spec fn gitignore_safe(p: Seq<char>) -> bool {
    &&& (p.len() == 0 || p[0] != '/')
    &&& forall|i: int| 0 <= i < p.len() - 1 ==> !(#[trigger] p[i] == '/' && p[i + 1] == '/')
}

/// Relies on `ignore::gitignore::Gitignore::matched_path_or_any_parents` and
/// `Match::is_ignore`: whether the rules loaded from `.gitignore` ignore the
/// path or one of its parents. The function panics where the path, stripped
/// as `gitignore_safe` describes, still has a root.
#[verifier::external_body]
fn gitignore_ignores(gi: &Gitignore, relative: &str) -> (r: bool)
    requires
        gitignore_safe(relative@),
{
    gi.matched_path_or_any_parents(relative, false).is_ignore()
}

/// The kind of a file-system notification.
#[derive(Debug, Clone, Copy, PartialEq, Eq, Structural)]
pub enum ChangeKind {
    Create,
    /// The content changed.
    Modify,
    /// The file was renamed.
    Rename,
    /// Only metadata (permissions, times) changed.
    Metadata,
    Remove,
    Other,
}

/// A relative path that is `.git` or lies under it.
pub open spec fn in_git_dir(rel: Seq<char>) -> bool {
    &&& rel.len() >= 4
    &&& rel[0] == '.' && rel[1] == 'g' && rel[2] == 'i' && rel[3] == 't'
    &&& (rel.len() == 4 || rel[4] == '/')
}

/// Some pattern matches the text.
pub open spec fn any_glob_match(patterns: Seq<Seq<char>>, text: Seq<char>) -> bool {
    exists|i: int| 0 <= i < patterns.len() && glob_match(#[trigger] patterns[i], text)
}

/// The values of a vector of strings.
pub open spec fn strings_view(v: Seq<String>) -> Seq<Seq<char>> {
    v.map_values(|s: String| s@)
}

/// Decides whether a path is ignored, from the answers of the checks: under
/// the `.git` directory, ignored by `.gitignore`, matched by each configured
/// glob.
pub fn ignore_verdict(under_git_dir: bool, gitignored: bool, glob_hits: &Vec<bool>) -> (r: bool)
    ensures
        r == (under_git_dir || gitignored || exists|i: int| 0 <= i < glob_hits@.len() && glob_hits@[i]),
{
    if under_git_dir || gitignored {
        return true;
    }
    let mut k: usize = 0;
    while k < glob_hits.len()
        invariant
            k <= glob_hits@.len(),
            forall|i: int| 0 <= i < k ==> !glob_hits@[i],
        decreases glob_hits@.len() - k,
    {
        if glob_hits[k] {
            return true;
        }
        k = k + 1;
    }
    false
}

/// Whether the relative path is `.git` or under it.
pub fn is_in_git_dir(rel: &str) -> (r: bool)
    ensures
        r == in_git_dir(rel@),
{
    let cs = chars_of(rel);
    cs.len() >= 4 && cs[0] == '.' && cs[1] == 'g' && cs[2] == 'i' && cs[3] == 't' && (cs.len() == 4 || cs[4] == '/')
}

/// Which paths of a working tree are not watched: the `.git` directory,
/// what `.gitignore` (loaded once) ignores, and what a configured glob
/// matches (relative to the root).
pub struct IgnoreRules {
    root: String,
    gitignore: Option<Gitignore>,
    patterns: Vec<String>,
}

impl IgnoreRules {
    /// The rules of the working tree at `root`.
    pub fn new(root: String, gitignore: Option<Gitignore>, patterns: Vec<String>) -> (r: IgnoreRules)
        ensures
            r.root_view() == root@,
            r.patterns_view() == strings_view(patterns@),
    {
        IgnoreRules { root, gitignore, patterns }
    }

    pub closed spec fn root_view(&self) -> Seq<char> {
        self.root@
    }

    pub closed spec fn patterns_view(&self) -> Seq<Seq<char>> {
        strings_view(self.patterns@)
    }

    pub closed spec fn has_gitignore(&self) -> bool {
        self.gitignore is Some
    }

    /// Whether the rules read from `.gitignore` ignore `path` (relative to
    /// the root); false without such rules, and for a relative path the
    /// matcher cannot take.
    pub fn gitignore_says(&self, path: &str) -> (r: bool)
        ensures
            !self.has_gitignore() ==> !r,
            !gitignore_safe(relative_to(self.root_view(), path@)) ==> !r,
    {
        let rel = strip_root(self.root.as_str(), path);
        match &self.gitignore {
            Some(gi) => {
                if check_gitignore_safe(rel.as_str()) {
                    gitignore_ignores(gi, rel.as_str())
                } else {
                    false
                }
            },
            None => false,
        }
    }

    /// Whether `path` is ignored, given the answer of `.gitignore`: under
    /// `.git`, ignored by `.gitignore`, or matched by a configured glob.
    pub fn decide(&self, path: &str, gitignored: bool) -> (r: bool)
        ensures
            r == ignored_with(self.root_view(), self.patterns_view(), path@, gitignored),
    {
        let rel = strip_root(self.root.as_str(), path);
        let under = is_in_git_dir(rel.as_str());
        let ghost pv = strings_view(self.patterns@);
        let mut hits: Vec<bool> = Vec::new();
        let mut k: usize = 0;
        while k < self.patterns.len()
            invariant
                k <= self.patterns@.len(),
                pv == strings_view(self.patterns@),
                hits@.len() == k,
                forall|i: int| 0 <= i < k ==> hits@[i] == glob_match(#[trigger] pv[i], rel@),
            decreases self.patterns@.len() - k,
        {
            let hit = glob_matches(self.patterns[k].as_str(), rel.as_str());
            hits.push(hit);
            k = k + 1;
        }
        let r = ignore_verdict(under, gitignored, &hits);
        proof {
            if any_glob_match(pv, rel@) {
                let i = choose|i: int| 0 <= i < pv.len() && glob_match(#[trigger] pv[i], rel@);
                assert(hits@[i]);
            }
            if r && !under && !gitignored {
                let i = choose|i: int| 0 <= i < hits@.len() && hits@[i];
                assert(glob_match(pv[i], rel@));
            }
        }
        r
    }

    /// Whether `path` is ignored (see `decide`), asking `.gitignore`.
    pub fn is_ignored(&self, path: &str) -> (r: bool)
        ensures
            exists|g: bool| r == ignored_with(self.root_view(), self.patterns_view(), path@, g),
            !self.has_gitignore() ==> r == ignored_with(self.root_view(), self.patterns_view(), path@, false),
    {
        let g = self.gitignore_says(path);
        self.decide(path, g)
    }
}

/// A path is ignored when it lies under `.git`, `.gitignore` ignores it
/// (`gitignored`), or a configured glob matches it, relative to the root.
pub open spec fn ignored_with(root: Seq<char>, patterns: Seq<Seq<char>>, p: Seq<char>, gitignored: bool) -> bool {
    in_git_dir(relative_to(root, p)) || gitignored || any_glob_match(patterns, relative_to(root, p))
}

/// Whether the gitignore matcher can take the relative path.
pub fn check_gitignore_safe(p: &str) -> (r: bool)
    ensures
        r == gitignore_safe(p@),
{
    let cs = chars_of(p);
    let n = cs.len();
    if n > 0 && cs[0] == '/' {
        return false;
    }
    let mut k: usize = 0;
    while k < n
        invariant
            k <= n,
            n == cs@.len(),
            cs@ == p@,
            forall|i: int| 0 <= i < k && i < n - 1 ==> !(#[trigger] cs@[i] == '/' && cs@[i + 1] == '/'),
        decreases n - k,
    {
        if k + 1 < n && cs[k] == '/' && cs[k + 1] == '/' {
            assert(p@[k as int] == '/' && p@[k + 1] == '/');
            return false;
        }
        k = k + 1;
    }
    true
}

/// What became of a notification.
#[derive(Debug, Clone, Copy, PartialEq, Eq, Structural)]
pub enum Arrival {
    /// Not a qualifying change, or an ignored path.
    Ignored,
    /// The path was already waiting to settle; its last-seen time is refreshed.
    Coalesced,
    /// The path starts waiting: check back after the debounce window.
    Scheduled,
}

/// What a debounce timer that fires finds.
#[derive(Debug, Clone, Copy, PartialEq, Eq, Structural)]
pub enum Expiry {
    /// The path has settled: emit one change for it (if it still exists).
    Emit,
    /// The path was seen again since: check back after this many milliseconds.
    Rearm(u64),
    /// The path is not waiting.
    Stale,
}

/// The pending paths after an arrival at `now`, and the answer.
pub open spec fn arrive(m: Map<Seq<char>, u64>, p: Seq<char>, now: u64) -> (Map<Seq<char>, u64>, Arrival) {
    if m.contains_key(p) {
        (m.insert(p, now), Arrival::Coalesced)
    } else {
        (m.insert(p, now), Arrival::Scheduled)
    }
}

/// Milliseconds from `now` until `last + window`, capped to `u64`.
pub open spec fn wait_left(last: u64, window: u64, now: u64) -> u64 {
    let d = last + window - now;
    if d > u64::MAX { u64::MAX } else { d as u64 }
}

/// The pending paths after a timer for `p` fires at `now`, and the answer:
/// a path whose last sighting is a full window old settles.
pub open spec fn expire(m: Map<Seq<char>, u64>, window: u64, p: Seq<char>, now: u64) -> (Map<Seq<char>, u64>, Expiry) {
    if !m.contains_key(p) {
        (m, Expiry::Stale)
    } else if now >= m[p] + window {
        (m.remove(p), Expiry::Emit)
    } else {
        (m, Expiry::Rearm(wait_left(m[p], window, now)))
    }
}

/// A path waiting to settle and when it was last seen (milliseconds).
pub struct PendingPath {
    path: String,
    last_seen: u64,
}

/// Per-path debounce: paths waiting to settle, each with its last sighting.
pub struct Debouncer {
    window: u64,
    pending: Vec<PendingPath>,
    model: Ghost<Map<Seq<char>, u64>>,
}

impl Debouncer {
    /// The pending paths and their last sightings.
    pub closed spec fn view_map(&self) -> Map<Seq<char>, u64> {
        self.model@
    }

    /// The debounce window in milliseconds.
    pub closed spec fn window_ms(&self) -> u64 {
        self.window
    }

    /// The entries hold distinct paths and agree with the model.
    pub closed spec fn wf(&self) -> bool {
        &&& forall|i: int, j: int|
            0 <= i < j < self.pending@.len() ==> #[trigger] self.pending@[i].path@ != #[trigger] self.pending@[j].path@
        &&& forall|i: int|
            0 <= i < self.pending@.len() ==> self.model@.contains_key(#[trigger] self.pending@[i].path@)
                && self.model@[self.pending@[i].path@] == self.pending@[i].last_seen
        &&& forall|p: Seq<char>|
            #[trigger] self.model@.contains_key(p) ==> exists|i: int| 0 <= i < self.pending@.len() && self.pending@[i].path@ == p
    }

    /// No path pending.
    pub fn new(window: u64) -> (r: Debouncer)
        ensures
            r.wf(),
            r.view_map() == Map::<Seq<char>, u64>::empty(),
            r.window_ms() == window,
    {
        Debouncer { window, pending: Vec::new(), model: Ghost(Map::empty()) }
    }

    fn find(&self, path: &String) -> (r: Option<usize>)
        requires
            self.wf(),
        ensures
            r is Some ==> r->0 < self.pending@.len() && self.pending@[r->0 as int].path@ == path@,
            r is None <==> !self.view_map().contains_key(path@),
    {
        let mut k: usize = 0;
        while k < self.pending.len()
            invariant
                k <= self.pending@.len(),
                self.wf(),
                forall|i: int| 0 <= i < k ==> self.pending@[i].path@ != path@,
            decreases self.pending@.len() - k,
        {
            if self.pending[k].path == *path {
                assert(self.model@.contains_key(self.pending@[k as int].path@));
                return Some(k);
            }
            k = k + 1;
        }
        proof {
            if self.model@.contains_key(path@) {
                let i = choose|i: int| 0 <= i < self.pending@.len() && self.pending@[i].path@ == path@;
                assert(self.pending@[i].path@ != path@);
            }
        }
        None
    }

    /// Whether the path is waiting to settle.
    pub fn is_pending(&self, path: &String) -> (r: bool)
        requires
            self.wf(),
        ensures
            r == self.view_map().contains_key(path@),
    {
        self.find(path).is_some()
    }

    /// A qualifying notification for `path` at `now` (see `arrive`).
    pub fn on_event(&mut self, path: &String, now: u64) -> (a: Arrival)
        requires
            old(self).wf(),
        ensures
            final(self).wf(),
            final(self).window_ms() == old(self).window_ms(),
            (final(self).view_map(), a) == arrive(old(self).view_map(), path@, now),
    {
        match self.find(path) {
            Some(k) => {
                let entry = PendingPath { path: path.clone(), last_seen: now };
                let ghost old_pending = self.pending@;
                self.pending.set(k, entry);
                self.model = Ghost(self.model@.insert(path@, now));
                proof {
                    assert forall|i: int| 0 <= i < self.pending@.len() implies self.model@.contains_key(#[trigger] self.pending@[i].path@)
                        && self.model@[self.pending@[i].path@] == self.pending@[i].last_seen by {
                        if i != k {
                            assert(self.pending@[i] == old_pending[i]);
                            assert(old_pending[i].path@ != old_pending[k as int].path@);
                        }
                    }
                    assert forall|p: Seq<char>| #[trigger] self.model@.contains_key(p) implies exists|i: int|
                        0 <= i < self.pending@.len() && self.pending@[i].path@ == p by {
                        if p == path@ {
                            assert(self.pending@[k as int].path@ == p);
                        } else {
                            let i = choose|i: int| 0 <= i < old_pending.len() && old_pending[i].path@ == p;
                            assert(i != k);
                            assert(self.pending@[i] == old_pending[i]);
                        }
                    }
                    assert forall|i: int, j: int| 0 <= i < j < self.pending@.len() implies #[trigger] self.pending@[i].path@
                        != #[trigger] self.pending@[j].path@ by {
                        assert(old_pending[i].path@ != old_pending[j].path@);
                    }
                }
                Arrival::Coalesced
            },
            None => {
                let entry = PendingPath { path: path.clone(), last_seen: now };
                let ghost old_pending = self.pending@;
                self.pending.push(entry);
                self.model = Ghost(self.model@.insert(path@, now));
                proof {
                    let n = old_pending.len() as int;
                    assert forall|i: int| 0 <= i < n implies old_pending[i].path@ != path@ by {
                        assert(self.view_map() == old(self).view_map().insert(path@, now));
                        assert(old(self).model@.contains_key(old_pending[i].path@));
                    }
                    assert forall|i: int| 0 <= i < self.pending@.len() implies self.model@.contains_key(#[trigger] self.pending@[i].path@)
                        && self.model@[self.pending@[i].path@] == self.pending@[i].last_seen by {
                        if i < n {
                            assert(self.pending@[i] == old_pending[i]);
                        }
                    }
                    assert forall|p: Seq<char>| #[trigger] self.model@.contains_key(p) implies exists|i: int|
                        0 <= i < self.pending@.len() && self.pending@[i].path@ == p by {
                        if p == path@ {
                            assert(self.pending@[n].path@ == p);
                        } else {
                            let i = choose|i: int| 0 <= i < old_pending.len() && old_pending[i].path@ == p;
                            assert(self.pending@[i] == old_pending[i]);
                        }
                    }
                    assert forall|i: int, j: int| 0 <= i < j < self.pending@.len() implies #[trigger] self.pending@[i].path@
                        != #[trigger] self.pending@[j].path@ by {
                        if j < n {
                            assert(old_pending[i].path@ != old_pending[j].path@);
                        } else {
                            assert(self.pending@[i] == old_pending[i]);
                        }
                    }
                }
                Arrival::Scheduled
            },
        }
    }

    /// The debounce timer for `path` fires at `now` (see `expire`).
    pub fn on_timer(&mut self, path: &String, now: u64) -> (e: Expiry)
        requires
            old(self).wf(),
        ensures
            final(self).wf(),
            final(self).window_ms() == old(self).window_ms(),
            (final(self).view_map(), e) == expire(old(self).view_map(), old(self).window_ms(), path@, now),
    {
        match self.find(path) {
            None => Expiry::Stale,
            Some(k) => {
                let last = self.pending[k].last_seen;
                assert(last == self.model@[path@]);
                if now >= last && now - last >= self.window {
                    let ghost old_pending = self.pending@;
                    self.pending.remove(k);
                    self.model = Ghost(self.model@.remove(path@));
                    proof {
                        assert forall|i: int| 0 <= i < self.pending@.len() implies self.model@.contains_key(#[trigger] self.pending@[i].path@)
                            && self.model@[self.pending@[i].path@] == self.pending@[i].last_seen by {
                            if i < k {
                                assert(self.pending@[i] == old_pending[i]);
                                assert(old_pending[i].path@ != old_pending[k as int].path@);
                            } else {
                                assert(self.pending@[i] == old_pending[i + 1]);
                                assert(old_pending[k as int].path@ != old_pending[i + 1].path@);
                            }
                        }
                        assert forall|p: Seq<char>| #[trigger] self.model@.contains_key(p) implies exists|i: int|
                            0 <= i < self.pending@.len() && self.pending@[i].path@ == p by {
                            let i = choose|i: int| 0 <= i < old_pending.len() && old_pending[i].path@ == p;
                            assert(i != k);
                            if i < k {
                                assert(self.pending@[i] == old_pending[i]);
                            } else {
                                assert(self.pending@[i - 1] == old_pending[i]);
                            }
                        }
                        assert forall|i: int, j: int| 0 <= i < j < self.pending@.len() implies #[trigger] self.pending@[i].path@
                            != #[trigger] self.pending@[j].path@ by {
                            let oi = if i < k { i } else { i + 1 };
                            let oj = if j < k { j } else { j + 1 };
                            assert(self.pending@[i] == old_pending[oi]);
                            assert(self.pending@[j] == old_pending[oj]);
                            assert(old_pending[oi].path@ != old_pending[oj].path@);
                        }
                    }
                    Expiry::Emit
                } else {
                    let left: u64 = if now >= last {
                        self.window - (now - last)
                    } else if self.window <= u64::MAX - (last - now) {
                        self.window + (last - now)
                    } else {
                        u64::MAX
                    };
                    Expiry::Rearm(left)
                }
            },
        }
    }
}

/// The arrivals of notifications for `p` at the times `ts`, in order: the
/// pending paths after them and the answers given.
pub open spec fn arrivals(m: Map<Seq<char>, u64>, p: Seq<char>, ts: Seq<u64>) -> (Map<Seq<char>, u64>, Seq<Arrival>)
    decreases ts.len(),
{
    if ts.len() == 0 {
        (m, Seq::empty())
    } else {
        let before = arrivals(m, p, ts.drop_last());
        let step = arrive(before.0, p, ts.last());
        (step.0, before.1.push(step.1))
    }
}

proof fn lemma_arrivals(m: Map<Seq<char>, u64>, p: Seq<char>, ts: Seq<u64>)
    requires
        !m.contains_key(p),
        ts.len() >= 1,
    ensures
        arrivals(m, p, ts).1.len() == ts.len(),
        arrivals(m, p, ts).1[0] == Arrival::Scheduled,
        forall|i: int| 1 <= i < ts.len() ==> #[trigger] arrivals(m, p, ts).1[i] == Arrival::Coalesced,
        arrivals(m, p, ts).0.contains_key(p),
        arrivals(m, p, ts).0[p] == ts.last(),
    decreases ts.len(),
{
    if ts.len() == 1 {
        assert(ts.drop_last() =~= Seq::<u64>::empty());
    } else {
        lemma_arrivals(m, p, ts.drop_last());
        let before = arrivals(m, p, ts.drop_last());
        assert forall|i: int| 1 <= i < ts.len() implies #[trigger] arrivals(m, p, ts).1[i] == Arrival::Coalesced by {
            if i < ts.len() - 1 {
                assert(arrivals(m, p, ts).1[i] == before.1[i]);
                assert(before.1[i] == arrivals(m, p, ts.drop_last()).1[i]);
            }
        }
    }
}

/// A burst of notifications for an idle path, each within a window of the
/// first, is scheduled once and coalesced after that; the timer set a window
/// after the first notification, and the one it re-arms if any, settle the
/// path exactly once, no earlier than a full window after the last
/// notification.
pub proof fn lemma_burst_settles_once(m: Map<Seq<char>, u64>, window: u64, p: Seq<char>, ts: Seq<u64>)
    requires
        !m.contains_key(p),
        ts.len() >= 1,
        forall|i: int, j: int| 0 <= i <= j < ts.len() ==> ts[i] <= ts[j],
        ts.last() < ts[0] + window,
        ts.last() + window <= u64::MAX,
    ensures
        arrivals(m, p, ts).1[0] == Arrival::Scheduled,
        forall|i: int| 1 <= i < ts.len() ==> #[trigger] arrivals(m, p, ts).1[i] == Arrival::Coalesced,
        ({
            let first = expire(arrivals(m, p, ts).0, window, p, (ts[0] + window) as u64);
            match first.1 {
                Expiry::Emit => ts[0] + window >= ts.last() + window && !first.0.contains_key(p),
                Expiry::Rearm(d) => {
                    let second = expire(first.0, window, p, (ts[0] + window + d) as u64);
                    &&& ts[0] + window + d == ts.last() + window
                    &&& second.1 == Expiry::Emit
                    &&& !second.0.contains_key(p)
                },
                Expiry::Stale => false,
            }
        }),
{
    lemma_arrivals(m, p, ts);
    assert(ts[0] <= ts.last());
}

/// A notification counts when it reports a created or modified file.
pub open spec fn qualifying(kind: ChangeKind) -> bool {
    kind == ChangeKind::Create || kind == ChangeKind::Modify
}

/// Ignore rules and debounce together: notifications in, settled changes out.
pub struct ChangeDetector {
    rules: IgnoreRules,
    debouncer: Debouncer,
}

impl ChangeDetector {
    /// The paths waiting to settle and their last sightings.
    pub closed spec fn pending(&self) -> Map<Seq<char>, u64> {
        self.debouncer.view_map()
    }

    pub closed spec fn window_ms(&self) -> u64 {
        self.debouncer.window_ms()
    }

    pub closed spec fn root(&self) -> Seq<char> {
        self.rules.root_view()
    }

    pub closed spec fn patterns(&self) -> Seq<Seq<char>> {
        self.rules.patterns_view()
    }

    /// The path is under `.git` or matched by a configured glob.
    pub open spec fn excluded(&self, p: Seq<char>) -> bool {
        in_git_dir(relative_to(self.root(), p)) || any_glob_match(self.patterns(), relative_to(self.root(), p))
    }

    /// The debouncer is well formed and no excluded path waits.
    pub closed spec fn wf(&self) -> bool {
        &&& self.debouncer.wf()
        &&& forall|p: Seq<char>| #[trigger] self.debouncer.view_map().contains_key(p) ==> !self.excluded(p)
    }

    /// A detector with nothing pending.
    pub fn new(rules: IgnoreRules, debounce_ms: u64) -> (r: ChangeDetector)
        ensures
            r.wf(),
            r.pending() == Map::<Seq<char>, u64>::empty(),
            r.window_ms() == debounce_ms,
            r.root() == rules.root_view(),
            r.patterns() == rules.patterns_view(),
    {
        ChangeDetector { rules, debouncer: Debouncer::new(debounce_ms) }
    }

    /// Whether a notification of this kind counts.
    pub fn is_qualifying(kind: ChangeKind) -> (r: bool)
        ensures
            r == qualifying(kind),
    {
        match kind {
            ChangeKind::Create | ChangeKind::Modify => true,
            _ => false,
        }
    }

    /// Whether rules were read from `.gitignore`.
    pub closed spec fn has_gitignore(&self) -> bool {
        self.rules.has_gitignore()
    }

    /// A notification counts when it reports a created or modified regular
    /// file that is not excluded and that `.gitignore` does not ignore.
    pub open spec fn counts(&self, kind: ChangeKind, p: Seq<char>, is_regular_file: bool, gitignored: bool) -> bool {
        qualifying(kind) && is_regular_file && !self.excluded(p) && !gitignored
    }

    /// What `.gitignore` answers for `path` (false without such rules).
    pub fn gitignore_answer(&self, path: &String) -> (r: bool)
        ensures
            !self.has_gitignore() ==> !r,
    {
        self.rules.gitignore_says(path.as_str())
    }

    /// A notification for `path` at `now`, given the answer of
    /// `.gitignore`: one that counts arrives at the debouncer, any other is
    /// ignored and changes nothing.
    pub fn on_notification(
        &mut self,
        kind: ChangeKind,
        path: &String,
        is_regular_file: bool,
        gitignored: bool,
        now: u64,
    ) -> (a: Arrival)
        requires
            old(self).wf(),
        ensures
            final(self).wf(),
            final(self).window_ms() == old(self).window_ms(),
            final(self).root() == old(self).root(),
            final(self).patterns() == old(self).patterns(),
            final(self).has_gitignore() == old(self).has_gitignore(),
            old(self).counts(kind, path@, is_regular_file, gitignored) ==> (final(self).pending(), a) == arrive(
                old(self).pending(),
                path@,
                now,
            ),
            !old(self).counts(kind, path@, is_regular_file, gitignored) ==> a == Arrival::Ignored
                && final(self).pending() == old(self).pending(),
    {
        if !ChangeDetector::is_qualifying(kind) || !is_regular_file {
            return Arrival::Ignored;
        }
        if self.rules.decide(path.as_str(), gitignored) {
            return Arrival::Ignored;
        }
        self.debouncer.on_event(path, now)
    }

    /// A notification for `path` at `now`, asking `.gitignore` (see
    /// `on_notification`).
    pub fn notify(&mut self, kind: ChangeKind, path: &String, is_regular_file: bool, now: u64) -> (a: Arrival)
        requires
            old(self).wf(),
        ensures
            final(self).wf(),
            final(self).window_ms() == old(self).window_ms(),
            final(self).root() == old(self).root(),
            final(self).patterns() == old(self).patterns(),
            final(self).has_gitignore() == old(self).has_gitignore(),
            exists|g: bool| {
                &&& (old(self).counts(kind, path@, is_regular_file, g) ==> (final(self).pending(), a) == arrive(
                    old(self).pending(),
                    path@,
                    now,
                ))
                &&& (!old(self).counts(kind, path@, is_regular_file, g) ==> a == Arrival::Ignored
                    && final(self).pending() == old(self).pending())
                &&& (!old(self).has_gitignore() ==> !g)
            },
    {
        let g = self.gitignore_answer(path);
        self.on_notification(kind, path, is_regular_file, g, now)
    }

    /// The debounce timer for `path` fires at `now`; an excluded path never
    /// settles.
    pub fn on_timer(&mut self, path: &String, now: u64) -> (e: Expiry)
        requires
            old(self).wf(),
        ensures
            final(self).wf(),
            final(self).window_ms() == old(self).window_ms(),
            final(self).root() == old(self).root(),
            final(self).patterns() == old(self).patterns(),
            (final(self).pending(), e) == expire(old(self).pending(), old(self).window_ms(), path@, now),
            old(self).excluded(path@) ==> e != Expiry::Emit,
    {
        self.debouncer.on_timer(path, now)
    }
}

} // verus!
