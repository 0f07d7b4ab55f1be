//! One pass over the audio sessions of all output devices: each session is listed once.

use std::collections::HashSet;
use vstd::prelude::*;

verus! {

broadcast use vstd::std_specs::hash::group_hash_axioms;

/// What a pass over the sessions has met so far: the sessions listed, by process id and
/// session identifier, and the processes that they belong to.
pub struct SessionScan {
    keys: Vec<(u32, String)>,
    pids: HashSet<u32>,
}

impl SessionScan {
    /// The sessions listed so far.
    pub closed spec fn seen_keys(&self) -> Set<(u32, Seq<char>)> {
        self.keys.deep_view().to_set()
    }

    /// The processes of the sessions listed so far.
    pub closed spec fn seen_pids(&self) -> Set<u32> {
        self.pids@
    }

    /// A pass that has met nothing yet.
    pub fn new() -> (s: Self)
        ensures
            s.seen_keys() == Set::<(u32, Seq<char>)>::empty(),
            s.seen_pids() == Set::<u32>::empty(),
    {
        let s = SessionScan { keys: Vec::new(), pids: HashSet::new() };
        assert(s.seen_keys() =~= Set::<(u32, Seq<char>)>::empty());
        assert(s.seen_pids() =~= Set::<u32>::empty());
        s
    }

    /// Meets the session `session_id` of process `pid`: it is listed (`true`) unless a
    /// session with the same process and identifier was listed before in this pass.
    pub fn enter(&mut self, pid: u32, session_id: &String) -> (fresh: bool)
        ensures
            fresh == !old(self).seen_keys().contains((pid, session_id@)),
            final(self).seen_keys() == old(self).seen_keys().insert((pid, session_id@)),
            final(self).seen_pids() == (if fresh {
                old(self).seen_pids().insert(pid)
            } else {
                old(self).seen_pids()
            }),
    {
        let ghost key = (pid, session_id@);
        let mut i: usize = 0;
        while i < self.keys.len()
            invariant
                i <= self.keys.len(),
                key == (pid, session_id@),
                forall|j: int| 0 <= j < i ==> #[trigger] self.keys.deep_view()[j] != key,
            decreases self.keys.len() - i,
        {
            assert(self.keys.deep_view()[i as int] == (self.keys@[i as int].0, self.keys@[i as int].1@));
            let same_pid = self.keys[i].0 == pid;
            let same_id = self.keys[i].1 == *session_id;
            if same_pid && same_id {
                assert(self.keys.deep_view()[i as int] == key);
                assert(self.seen_keys().insert(key) =~= self.seen_keys());
                return false;
            }
            i += 1;
        }
        let ghost old_keys = self.keys.deep_view();
        assert(!old_keys.contains(key));
        self.keys.push((pid, session_id.clone()));
        self.pids.insert(pid);
        assert(self.keys.deep_view() =~= old_keys.push(key));
        proof {
            old_keys.lemma_push_to_set_commute(key);
        }
        true
    }

    /// The processes of the sessions listed so far.
    pub fn seen_pids_set(&self) -> (s: &HashSet<u32>)
        ensures
            s@ == self.seen_pids(),
    {
        &self.pids
    }
}

/// The sessions that a pass lists when it meets the sessions `entered` (process id and
/// session identifier) in this order: each one that was not met before.
pub open spec fn listed_sessions(entered: Seq<(u32, Seq<char>)>) -> Seq<(u32, Seq<char>)>
    decreases entered.len(),
{
    if entered.len() == 0 {
        Seq::empty()
    } else {
        let before = entered.drop_last();
        if before.contains(entered.last()) {
            listed_sessions(before)
        } else {
            listed_sessions(before).push(entered.last())
        }
    }
}

/// A pass lists every session that it meets, and each only once.
pub proof fn lemma_listed_once(entered: Seq<(u32, Seq<char>)>)
    ensures
        listed_sessions(entered).no_duplicates(),
        listed_sessions(entered).to_set() == entered.to_set(),
    decreases entered.len(),
{
    if entered.len() > 0 {
        let before = entered.drop_last();
        let last = entered.last();
        lemma_listed_once(before);
        assert(entered =~= before.push(last));
        before.lemma_push_to_set_commute(last);
        if before.contains(last) {
            assert(before.to_set().insert(last) =~= before.to_set());
        } else {
            let l = listed_sessions(before);
            l.lemma_push_to_set_commute(last);
            assert(!l.to_set().contains(last));
            assert(!l.contains(last));
            assert forall|i: int, j: int| 0 <= i < l.push(last).len() && 0 <= j < l.push(last).len() && i != j
                implies l.push(last)[i] != l.push(last)[j] by {
                if i < l.len() && j < l.len() {
                } else if i == l.len() {
                    assert(l.push(last)[j] == l[j]);
                } else {
                    assert(l.push(last)[i] == l[i]);
                }
            }
        }
    }
}

/// `SessionScan::enter` follows the listing: with the sessions met so far as its state,
/// it reports a session fresh exactly when the listing takes the session in.
pub proof fn lemma_enter_lists(before: Seq<(u32, Seq<char>)>, key: (u32, Seq<char>))
    ensures
        listed_sessions(before.push(key)) == (if before.to_set().contains(key) {
            listed_sessions(before)
        } else {
            listed_sessions(before).push(key)
        }),
{
    assert(before.push(key).drop_last() =~= before);
    assert(before.push(key).last() == key);
}

} // verus!
