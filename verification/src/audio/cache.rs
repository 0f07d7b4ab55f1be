//! Handles kept per process id (session event listeners, peak meters).

use std::collections::{HashMap, HashSet};
use vstd::prelude::*;
use vstd::std_specs::iter::IteratorSpec;

verus! {

broadcast use vstd::std_specs::hash::group_hash_axioms;

/// A handle of type `T` per process id; a newer handle for a process replaces the older.
pub struct PidCache<T> {
    handles: HashMap<u32, T>,
}

impl<T> View for PidCache<T> {
    type V = Map<u32, T>;

    closed spec fn view(&self) -> Map<u32, T> {
        self.handles@
    }
}

impl<T> PidCache<T> {
    /// An empty cache.
    pub fn new() -> (c: Self)
        ensures
            c@ == Map::<u32, T>::empty(),
    {
        PidCache { handles: HashMap::new() }
    }

    /// Whether a handle is kept for `pid`.
    pub fn contains(&self, pid: u32) -> (r: bool)
        ensures
            r == self@.contains_key(pid),
    {
        self.handles.contains_key(&pid)
    }

    /// The handle kept for `pid`.
    pub fn get(&self, pid: u32) -> (r: Option<&T>)
        ensures
            match r {
                Some(h) => self@.contains_key(pid) && self@[pid] == *h,
                None => !self@.contains_key(pid),
            },
    {
        self.handles.get(&pid)
    }

    /// Keeps `handle` for `pid`, in place of any earlier one.
    pub fn insert(&mut self, pid: u32, handle: T)
        ensures
            final(self)@ == old(self)@.insert(pid, handle),
    {
        self.handles.insert(pid, handle);
    }

    /// Number of processes with a handle.
    pub fn len(&self) -> (n: usize)
        ensures
            n == self@.len(),
    {
        self.handles.len()
    }

    /// Drops every handle.
    pub fn clear(&mut self)
        ensures
            final(self)@ == Map::<u32, T>::empty(),
    {
        self.handles.clear();
    }

    /// All handles, by process id.
    pub fn handles(&self) -> (m: &HashMap<u32, T>)
        ensures
            m@ == self@,
    {
        &self.handles
    }

    /// Drops the handles of every process that is not in `seen`.
    pub fn retain_set(&mut self, seen: &HashSet<u32>)
        ensures
            final(self)@ == old(self)@.restrict(seen@),
    {
        let ghost start = self.handles@;
        let mut doomed: Vec<u32> = Vec::new();
        for k in it: self.handles.keys()
            invariant
                self.handles@ == start,
                it.seq().unref().to_set() == start.dom(),
                forall|p: u32| #[trigger] doomed@.contains(p) ==> start.contains_key(p) && !seen@.contains(p),
                forall|i: int| 0 <= i < it.index() && !seen@.contains(*it.seq()[i]) ==> doomed@.contains(*it.seq()[i]),
            ensures
                forall|p: u32| start.contains_key(p) && !seen@.contains(p) ==> #[trigger] doomed@.contains(p),
        {
            assert(0 <= it.index() < it.seq().len());
            assert(it.seq()[it.index()] == k);
            let ghost idx = it.index();
            assert(it.seq().unref()[idx] == *k);
            assert(it.seq().unref().to_set().contains(*k));
            assert(start.contains_key(*k));
            let absent = !seen.contains(k);
            assert(absent == !seen@.contains(*k));
            let ghost before = doomed@;
            if absent {
                doomed.push(*k);
                assert(doomed@ == before.push(*k));
                assert(doomed@[before.len() as int] == *k);
                assert forall|p: u32| #[trigger] doomed@.contains(p) implies start.contains_key(p) && !seen@.contains(p) by {
                    if p != *k {
                        let j = choose|j: int| 0 <= j < doomed@.len() && doomed@[j] == p;
                        assert(before[j] == p);
                        assert(before.contains(p));
                    }
                }
                assert forall|q: u32| #[trigger] before.contains(q) implies doomed@.contains(q) by {
                    let j = choose|j: int| 0 <= j < before.len() && before[j] == q;
                    assert(doomed@[j] == q);
                }
            }
        }
        assert forall|p: u32| start.contains_key(p) && !seen@.contains(p) implies #[trigger] doomed@.contains(p) by {
        }
        let mut j: usize = 0;
        while j < doomed.len()
            invariant
                j <= doomed.len(),
                self.handles@ == start.remove_keys(doomed@.take(j as int).to_set()),
            decreases doomed.len() - j,
        {
            let p = doomed[j];
            self.handles.remove(&p);
            assert(doomed@.take(j + 1) =~= doomed@.take(j as int).push(p));
            proof {
                doomed@.take(j as int).lemma_push_to_set_commute(p);
            }
            assert(self.handles@ =~= start.remove_keys(doomed@.take(j + 1).to_set()));
            j += 1;
        }
        assert(doomed@.take(doomed.len() as int) =~= doomed@);
        assert(self.handles@ =~= start.restrict(seen@));
    }
}

} // verus!
