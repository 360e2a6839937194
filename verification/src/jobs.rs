//! What has been asked of the job thread and not yet come back. The work
//! itself (a convex decomposition, seconds long) runs off the window's
//! thread; here is the bookkeeping that decides whether a request is
//! queued: the same work is never queued twice while it is in flight, and
//! once its result has been drained it can be asked for again.

use vstd::prelude::*;

verus! {

/// What identifies a job: the decomposition of one mesh at one set of
/// parameters, each given by the number the window knows it by.
#[derive(Debug, Clone, Copy, PartialEq, Eq, Structural)]
pub struct JobKey {
    pub mesh: u64,
    pub params: u64,
}

/// The keys requested and not yet drained.
pub struct InFlight {
    keys: Vec<JobKey>,
}

impl View for InFlight {
    type V = Set<JobKey>;

    closed spec fn view(&self) -> Set<JobKey> {
        self.keys@.to_set()
    }
}

impl InFlight {
    /// No key is held twice.
    pub closed spec fn wf(&self) -> bool {
        self.keys@.no_duplicates()
    }

    /// Nothing in flight.
    pub fn new() -> (jobs: InFlight)
        ensures
            jobs.wf(),
            jobs@ == Set::<JobKey>::empty(),
    {
        let jobs = InFlight { keys: Vec::new() };
        assert(jobs.keys@.to_set() =~= Set::<JobKey>::empty());
        jobs
    }

    /// Where `key` is held, if it is.
    fn position(&self, key: JobKey) -> (at: Option<usize>)
        ensures
            match at {
                Some(i) => i < self.keys@.len() && self.keys@[i as int] == key,
                None => !self.keys@.contains(key),
            },
    {
        let mut i: usize = 0;
        while i < self.keys.len()
            invariant
                i <= self.keys@.len(),
                forall|k: int| 0 <= k < i ==> self.keys@[k] != key,
            decreases self.keys@.len() - i,
        {
            if self.keys[i] == key {
                return Some(i);
            }
            i = i + 1;
        }
        None
    }

    /// Whether `key` has been requested and not yet come back.
    pub fn is_pending(&self, key: JobKey) -> (pending: bool)
        ensures
            pending == self@.contains(key),
    {
        let found = self.position(key).is_some();
        proof {
            if self.keys@.contains(key) {
                assert(self.keys@.to_set().contains(key));
            }
        }
        found
    }

    /// A request for `key`: queued (`true`) unless the same key is already
    /// in flight, in which case it is dropped. Either way it is in flight
    /// afterwards.
    pub fn request(&mut self, key: JobKey) -> (queued: bool)
        requires
            old(self).wf(),
        ensures
            final(self).wf(),
            queued == !old(self)@.contains(key),
            final(self)@ == old(self)@.insert(key),
    {
        let pending = self.is_pending(key);
        if pending {
            assert(self@.insert(key) =~= self@);
            return false;
        }
        let ghost before = self.keys@;
        self.keys.push(key);
        proof {
            assert(!before.contains(key));
            assert(self.keys@ == before.push(key));
            assert(self.keys@.no_duplicates()) by {
                assert forall|x: int, y: int| 0 <= x < y < self.keys@.len() implies self.keys@[x] != self.keys@[y] by {
                    if y == before.len() {
                        assert(before.contains(before[x]));
                    }
                }
            }
            assert(self.keys@.to_set() =~= before.to_set().insert(key)) by {
                assert forall|k: JobKey| #[trigger] self.keys@.to_set().contains(k) <==> before.to_set().insert(key).contains(k) by {
                    if self.keys@.contains(k) && k != key {
                        let i = choose|i: int| 0 <= i < self.keys@.len() && self.keys@[i] == k;
                        assert(before[i] == k);
                    }
                    if before.contains(k) {
                        let i = choose|i: int| 0 <= i < before.len() && before[i] == k;
                        assert(self.keys@[i] == k);
                    }
                    if k == key {
                        assert(self.keys@[before.len() as int] == k);
                    }
                }
            }
        }
        true
    }

    /// A result for `key` has been drained: it is no longer in flight, and
    /// can be asked for again.
    pub fn drained(&mut self, key: JobKey)
        requires
            old(self).wf(),
        ensures
            final(self).wf(),
            final(self)@ == old(self)@.remove(key),
    {
        if let Some(i) = self.position(key) {
            let ghost before = self.keys@;
            self.keys.swap_remove(i);
            proof {
                let after = self.keys@;
                assert(after.no_duplicates()) by {
                    assert forall|x: int, y: int| 0 <= x < y < after.len() implies after[x] != after[y] by {
                        let px = if x == i && i < after.len() { before.len() - 1 } else { x };
                        let py = if y == i && i < after.len() { before.len() - 1 } else { y };
                        assert(after[x] == before[px]);
                        assert(after[y] == before[py]);
                    }
                }
                assert(after.to_set() =~= before.to_set().remove(key)) by {
                    assert forall|k: JobKey| #[trigger] after.to_set().contains(k) <==> before.to_set().remove(key).contains(k) by {
                        if after.contains(k) {
                            let j = choose|j: int| 0 <= j < after.len() && after[j] == k;
                            let pj = if j == i && i < after.len() { before.len() - 1 } else { j };
                            assert(before[pj] == k);
                            assert(pj != i);
                        }
                        if before.contains(k) && k != key {
                            let j = choose|j: int| 0 <= j < before.len() && before[j] == k;
                            assert(j != i);
                            if j == before.len() - 1 {
                                assert(after[i as int] == k);
                            } else {
                                assert(after[j] == k);
                            }
                        }
                    }
                }
            }
        } else {
            assert(self@.remove(key) =~= self@);
        }
    }
}

/// The same key twice is one job, a different key is another, and once
/// drained a key can be asked for again: a request after a request for the
/// same key is dropped, and a request after its drain is queued.
pub proof fn lemma_requests_deduplicate(jobs: Set<JobKey>, key: JobKey, other: JobKey)
    ensures
        jobs.insert(key).contains(key),
        other != key ==> (jobs.insert(key).contains(other) == jobs.contains(other)),
        !jobs.insert(key).remove(key).contains(key),
{
}

} // verus!
