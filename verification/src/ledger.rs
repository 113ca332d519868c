//! The outcome ledger: which dispatched jobs succeeded, with their output
//! paths, and which failed, with the path that would have existed.

use vstd::prelude::*;

verus! {

/// Per-run record of job outcomes. Jobs are dispatched in ordinal order and
/// each lands in exactly one bucket.
#[derive(Debug)]
pub struct OutcomeLedger {
    pub successes: Vec<(usize, String)>,
    pub failures: Vec<(usize, String)>,
}

impl OutcomeLedger {
    /// Ordinal `k` is recorded as a success.
    pub open spec fn has_success(self, k: nat) -> bool {
        exists|i: int|
            0 <= i < self.successes@.len() && (#[trigger] self.successes@[i]).0 as nat == k
    }

    /// Ordinal `k` is recorded as a failure.
    pub open spec fn has_failure(self, k: nat) -> bool {
        exists|i: int|
            0 <= i < self.failures@.len() && (#[trigger] self.failures@[i]).0 as nat == k
    }

    /// With `dispatched` jobs attempted so far: each bucket holds only
    /// dispatched ordinals, in dispatch order without repetition, and every
    /// dispatched ordinal is in exactly one bucket.
    pub open spec fn wf(self, dispatched: nat) -> bool {
        &&& forall|i: int|
            0 <= i < self.successes@.len() ==> ((#[trigger] self.successes@[i]).0 as nat)
                < dispatched
        &&& forall|i: int|
            0 <= i < self.failures@.len() ==> ((#[trigger] self.failures@[i]).0 as nat)
                < dispatched
        &&& forall|i: int, j: int|
            0 <= i < j < self.successes@.len() ==> self.successes@[i].0 < self.successes@[j].0
        &&& forall|i: int, j: int|
            0 <= i < j < self.failures@.len() ==> self.failures@[i].0 < self.failures@[j].0
        &&& forall|k: nat| k < dispatched ==> (self.has_success(k) <==> !self.has_failure(k))
    }

    /// An empty ledger: nothing dispatched, nothing recorded.
    pub fn new() -> (r: OutcomeLedger)
        ensures
            r.wf(0),
            r.successes@ =~= Seq::<(usize, String)>::empty(),
            r.failures@ =~= Seq::<(usize, String)>::empty(),
    {
        OutcomeLedger { successes: Vec::new(), failures: Vec::new() }
    }

    /// Records that job `index` — the next one in dispatch order — produced
    /// its output file.
    pub fn record_success(&mut self, index: usize, path: String)
        requires
            old(self).wf(index as nat),
        ensures
            final(self).wf(index as nat + 1),
            final(self).successes@ == old(self).successes@.push((index, path)),
            final(self).failures@ == old(self).failures@,
            final(self).has_success(index as nat),
    {
        let ghost pre = *self;
        self.successes.push((index, path));
        proof {
            let n = self.successes@.len() as int;
            assert(self.successes@[n - 1].0 as nat == index as nat);
            assert(self.has_success(index as nat));
            assert forall|k: nat|
                k < index as nat + 1 implies (self.has_success(k) <==> !self.has_failure(k)) by {
                if k < index as nat {
                    if pre.has_success(k) {
                        let i = choose|i: int|
                            0 <= i < pre.successes@.len() && (#[trigger] pre.successes@[i]).0
                                as nat == k;
                        assert(self.successes@[i].0 as nat == k);
                        assert(self.has_success(k));
                    }
                    if self.has_success(k) {
                        let i = choose|i: int|
                            0 <= i < self.successes@.len() && (#[trigger] self.successes@[i]).0
                                as nat == k;
                        assert(i < n - 1);
                        assert(pre.successes@[i].0 as nat == k);
                        assert(pre.has_success(k));
                    }
                    assert(self.has_failure(k) == pre.has_failure(k));
                } else {
                    assert(!self.has_failure(index as nat));
                }
            }
        }
    }

    /// Records that job `index` — the next one in dispatch order — failed.
    pub fn record_failure(&mut self, index: usize, path: String)
        requires
            old(self).wf(index as nat),
        ensures
            final(self).wf(index as nat + 1),
            final(self).failures@ == old(self).failures@.push((index, path)),
            final(self).successes@ == old(self).successes@,
            final(self).has_failure(index as nat),
    {
        let ghost pre = *self;
        self.failures.push((index, path));
        proof {
            let n = self.failures@.len() as int;
            assert(self.failures@[n - 1].0 as nat == index as nat);
            assert(self.has_failure(index as nat));
            assert forall|k: nat|
                k < index as nat + 1 implies (self.has_success(k) <==> !self.has_failure(k)) by {
                if k < index as nat {
                    if pre.has_failure(k) {
                        let i = choose|i: int|
                            0 <= i < pre.failures@.len() && (#[trigger] pre.failures@[i]).0
                                as nat == k;
                        assert(self.failures@[i].0 as nat == k);
                        assert(self.has_failure(k));
                    }
                    if self.has_failure(k) {
                        let i = choose|i: int|
                            0 <= i < self.failures@.len() && (#[trigger] self.failures@[i]).0
                                as nat == k;
                        assert(i < n - 1);
                        assert(pre.failures@[i].0 as nat == k);
                        assert(pre.has_failure(k));
                    }
                    assert(self.has_success(k) == pre.has_success(k));
                } else {
                    assert(!self.has_success(index as nat));
                }
            }
        }
    }

    /// The output paths of the surviving (successful) jobs, in dispatch
    /// order.
    pub fn success_paths(&self) -> (r: Vec<String>)
        ensures
            r@.len() == self.successes@.len(),
            forall|i: int| 0 <= i < r@.len() ==> (#[trigger] r@[i])@ == self.successes@[i].1@,
    {
        let mut r: Vec<String> = Vec::new();
        let mut k: usize = 0;
        while k < self.successes.len()
            invariant
                k <= self.successes@.len(),
                r@.len() == k,
                forall|i: int| 0 <= i < k ==> (#[trigger] r@[i])@ == self.successes@[i].1@,
            decreases self.successes@.len() - k,
        {
            r.push(self.successes[k].1.clone());
            k += 1;
        }
        r
    }

    /// The would-be output paths of the failed jobs, in dispatch order.
    pub fn failure_paths(&self) -> (r: Vec<String>)
        ensures
            r@.len() == self.failures@.len(),
            forall|i: int| 0 <= i < r@.len() ==> (#[trigger] r@[i])@ == self.failures@[i].1@,
    {
        let mut r: Vec<String> = Vec::new();
        let mut k: usize = 0;
        while k < self.failures.len()
            invariant
                k <= self.failures@.len(),
                r@.len() == k,
                forall|i: int| 0 <= i < k ==> (#[trigger] r@[i])@ == self.failures@[i].1@,
            decreases self.failures@.len() - k,
        {
            r.push(self.failures[k].1.clone());
            k += 1;
        }
        r
    }
}

} // verus!
