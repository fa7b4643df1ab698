//! Which files the user has marked as reviewed, and since when.
use vstd::prelude::*;
use crate::config::{Config, app_dir_in, join_path, joined};

verus! {

/// A reviewed file and when it was marked (milliseconds since the epoch).
#[derive(Debug, Clone)]
pub struct ReviewEntry {
    pub path: String,
    pub reviewed_at: i64,
}

/// The reviewed files, each once.
pub struct ReviewState {
    entries: Vec<ReviewEntry>,
    model: Ghost<Map<Seq<char>, i64>>,
}

impl ReviewState {
    /// The reviewed paths and when they were marked.
    pub closed spec fn view_map(&self) -> Map<Seq<char>, i64> {
        self.model@
    }

    /// The entries hold distinct paths and agree with the model.
    pub closed spec fn wf(&self) -> bool {
        &&& forall|i: int, j: int|
            0 <= i < j < self.entries@.len() ==> #[trigger] self.entries@[i].path@ != #[trigger] self.entries@[j].path@
        &&& forall|i: int|
            0 <= i < self.entries@.len() ==> self.model@.contains_key(#[trigger] self.entries@[i].path@)
                && self.model@[self.entries@[i].path@] == self.entries@[i].reviewed_at
        &&& forall|p: Seq<char>|
            #[trigger] self.model@.contains_key(p) ==> exists|i: int| 0 <= i < self.entries@.len() && self.entries@[i].path@ == p
        &&& self.model@.dom().finite()
        &&& self.model@.dom().len() == self.entries@.len()
    }

    /// The file the review state is kept in.
    pub fn state_path() -> (r: String)
        ensures
            exists|base: Option<Seq<char>>| r@ == joined(app_dir_in(base), "review_state.json"@),
    {
        let dir = Config::config_dir();
        join_path(dir.as_str(), "review_state.json")
    }

    /// Nothing reviewed.
    pub fn new() -> (r: ReviewState)
        ensures
            r.wf(),
            r.view_map() == Map::<Seq<char>, i64>::empty(),
    {
        ReviewState { entries: Vec::new(), model: Ghost(Map::empty()) }
    }

    fn find(&self, path: &String) -> (r: Option<usize>)
        requires
            self.wf(),
        ensures
            r is Some ==> r->0 < self.entries@.len() && self.entries@[r->0 as int].path@ == path@,
            r is None <==> !self.view_map().contains_key(path@),
    {
        let mut k: usize = 0;
        while k < self.entries.len()
            invariant
                k <= self.entries@.len(),
                self.wf(),
                forall|i: int| 0 <= i < k ==> self.entries@[i].path@ != path@,
            decreases self.entries@.len() - k,
        {
            if self.entries[k].path == *path {
                assert(self.model@.contains_key(self.entries@[k as int].path@));
                return Some(k);
            }
            k = k + 1;
        }
        proof {
            if self.model@.contains_key(path@) {
                let i = choose|i: int| 0 <= i < self.entries@.len() && self.entries@[i].path@ == path@;
                assert(self.entries@[i].path@ != path@);
            }
        }
        None
    }

    pub fn is_reviewed(&self, path: &String) -> (r: bool)
        requires
            self.wf(),
        ensures
            r == self.view_map().contains_key(path@),
    {
        self.find(path).is_some()
    }

    /// Marks the path as reviewed at `now_ms` (again, if it already was).
    pub fn mark_reviewed(&mut self, path: &String, now_ms: i64)
        requires
            old(self).wf(),
        ensures
            final(self).wf(),
            final(self).view_map() == old(self).view_map().insert(path@, now_ms),
    {
        let entry = ReviewEntry { path: path.clone(), reviewed_at: now_ms };
        let ghost old_entries = self.entries@;
        match self.find(path) {
            Some(k) => {
                self.entries.set(k, entry);
                self.model = Ghost(self.model@.insert(path@, now_ms));
                proof {
                    assert forall|i: int| 0 <= i < self.entries@.len() implies self.model@.contains_key(#[trigger] self.entries@[i].path@)
                        && self.model@[self.entries@[i].path@] == self.entries@[i].reviewed_at by {
                        if i != k {
                            assert(old_entries[i].path@ != old_entries[k as int].path@);
                        }
                    }
                    assert forall|p: Seq<char>| #[trigger] self.model@.contains_key(p) implies exists|i: int|
                        0 <= i < self.entries@.len() && self.entries@[i].path@ == p by {
                        if p == path@ {
                            assert(self.entries@[k as int].path@ == p);
                        } else {
                            let i = choose|i: int| 0 <= i < old_entries.len() && old_entries[i].path@ == p;
                            assert(self.entries@[i] == old_entries[i]);
                        }
                    }
                    assert forall|i: int, j: int| 0 <= i < j < self.entries@.len() implies #[trigger] self.entries@[i].path@
                        != #[trigger] self.entries@[j].path@ by {
                        assert(old_entries[i].path@ != old_entries[j].path@);
                    }
                    assert(self.model@.dom() =~= old(self).model@.dom());
                }
            },
            None => {
                self.entries.push(entry);
                self.model = Ghost(self.model@.insert(path@, now_ms));
                proof {
                    let n = old_entries.len() as int;
                    assert forall|i: int| 0 <= i < n implies old_entries[i].path@ != path@ by {
                        assert(old(self).model@.contains_key(old_entries[i].path@));
                    }
                    assert forall|i: int| 0 <= i < self.entries@.len() implies self.model@.contains_key(#[trigger] self.entries@[i].path@)
                        && self.model@[self.entries@[i].path@] == self.entries@[i].reviewed_at by {
                        if i < n {
                            assert(self.entries@[i] == old_entries[i]);
                        }
                    }
                    assert forall|p: Seq<char>| #[trigger] self.model@.contains_key(p) implies exists|i: int|
                        0 <= i < self.entries@.len() && self.entries@[i].path@ == p by {
                        if p == path@ {
                            assert(self.entries@[n].path@ == p);
                        } else {
                            let i = choose|i: int| 0 <= i < old_entries.len() && old_entries[i].path@ == p;
                            assert(self.entries@[i] == old_entries[i]);
                        }
                    }
                    assert forall|i: int, j: int| 0 <= i < j < self.entries@.len() implies #[trigger] self.entries@[i].path@
                        != #[trigger] self.entries@[j].path@ by {
                        if j < n {
                            assert(old_entries[i].path@ != old_entries[j].path@);
                        } else {
                            assert(self.entries@[i] == old_entries[i]);
                        }
                    }
                    assert(self.model@.dom() =~= old(self).model@.dom().insert(path@));
                }
            },
        }
    }

    /// Forgets that the path was reviewed.
    pub fn unmark_reviewed(&mut self, path: &String)
        requires
            old(self).wf(),
        ensures
            final(self).wf(),
            final(self).view_map() == old(self).view_map().remove(path@),
    {
        match self.find(path) {
            None => {
                assert(self.model@.remove(path@) =~= self.model@);
            },
            Some(k) => {
                let ghost old_entries = self.entries@;
                self.entries.remove(k);
                self.model = Ghost(self.model@.remove(path@));
                proof {
                    assert forall|i: int| 0 <= i < self.entries@.len() implies self.model@.contains_key(#[trigger] self.entries@[i].path@)
                        && self.model@[self.entries@[i].path@] == self.entries@[i].reviewed_at by {
                        if i < k {
                            assert(self.entries@[i] == old_entries[i]);
                            assert(old_entries[i].path@ != old_entries[k as int].path@);
                        } else {
                            assert(self.entries@[i] == old_entries[i + 1]);
                            assert(old_entries[k as int].path@ != old_entries[i + 1].path@);
                        }
                    }
                    assert forall|p: Seq<char>| #[trigger] self.model@.contains_key(p) implies exists|i: int|
                        0 <= i < self.entries@.len() && self.entries@[i].path@ == p by {
                        let i = choose|i: int| 0 <= i < old_entries.len() && old_entries[i].path@ == p;
                        assert(i != k);
                        if i < k {
                            assert(self.entries@[i] == old_entries[i]);
                        } else {
                            assert(self.entries@[i - 1] == old_entries[i]);
                        }
                    }
                    assert forall|i: int, j: int| 0 <= i < j < self.entries@.len() implies #[trigger] self.entries@[i].path@
                        != #[trigger] self.entries@[j].path@ by {
                        let oi = if i < k { i } else { i + 1 };
                        let oj = if j < k { j } else { j + 1 };
                        assert(self.entries@[i] == old_entries[oi]);
                        assert(self.entries@[j] == old_entries[oj]);
                        assert(old_entries[oi].path@ != old_entries[oj].path@);
                    }
                }
            },
        }
    }

    /// Marks the path at `now_ms` if it was not reviewed, else unmarks it.
    pub fn toggle_reviewed(&mut self, path: &String, now_ms: i64)
        requires
            old(self).wf(),
        ensures
            final(self).wf(),
            old(self).view_map().contains_key(path@) ==> final(self).view_map() == old(self).view_map().remove(path@),
            !old(self).view_map().contains_key(path@) ==> final(self).view_map() == old(self).view_map().insert(path@, now_ms),
    {
        if self.is_reviewed(path) {
            self.unmark_reviewed(path);
        } else {
            self.mark_reviewed(path, now_ms);
        }
    }

    /// Forgets every review.
    pub fn clear_all(&mut self)
        ensures
            final(self).wf(),
            final(self).view_map() == Map::<Seq<char>, i64>::empty(),
    {
        self.entries.clear();
        self.model = Ghost(Map::empty());
        assert(self.model@.dom() =~= Set::<Seq<char>>::empty());
    }

    /// Number of reviewed files.
    pub fn reviewed_count(&self) -> (r: usize)
        requires
            self.wf(),
        ensures
            r == self.view_map().len(),
    {
        self.entries.len()
    }

    /// The state holding the given entries; of two entries for one path the
    /// later one counts.
    pub fn from_entries(entries: Vec<ReviewEntry>) -> (r: ReviewState)
        ensures
            r.wf(),
            forall|p: Seq<char>| #[trigger] r.view_map().contains_key(p) ==> exists|i: int|
                0 <= i < entries@.len() && entries@[i].path@ == p,
            forall|i: int| 0 <= i < entries@.len() ==> r.view_map().contains_key(#[trigger] entries@[i].path@),
    {
        let mut state = ReviewState::new();
        let mut k: usize = 0;
        while k < entries.len()
            invariant
                k <= entries@.len(),
                state.wf(),
                forall|p: Seq<char>| #[trigger] state.view_map().contains_key(p) ==> exists|i: int|
                    0 <= i < k && entries@[i].path@ == p,
                forall|i: int| 0 <= i < k ==> state.view_map().contains_key(#[trigger] entries@[i].path@),
            decreases entries@.len() - k,
        {
            let ghost before = state.view_map();
            state.mark_reviewed(&entries[k].path, entries[k].reviewed_at);
            proof {
                assert forall|p: Seq<char>| #[trigger] state.view_map().contains_key(p) implies exists|i: int|
                    0 <= i < k + 1 && entries@[i].path@ == p by {
                    if p != entries@[k as int].path@ {
                        assert(before.contains_key(p));
                        let i = choose|i: int| 0 <= i < k && entries@[i].path@ == p;
                        assert(0 <= i < k + 1 && entries@[i].path@ == p);
                    } else {
                        assert(entries@[k as int].path@ == p);
                    }
                }
            }
            k = k + 1;
        }
        state
    }

    /// The entries, for saving.
    pub fn entries(&self) -> (r: &Vec<ReviewEntry>)
        requires
            self.wf(),
        ensures
            forall|i: int| 0 <= i < r@.len() ==> self.view_map().contains_key(#[trigger] r@[i].path@)
                && self.view_map()[r@[i].path@] == r@[i].reviewed_at,
            r@.len() == self.view_map().len(),
    {
        &self.entries
    }
}

} // verus!
