//! Bounded-concurrency fan-out: the permit accounting used when one
//! request spreads into many backend calls (hardware inventory over every
//! node of a group) without overwhelming the upstream management plane.
//!
//! The driver loop that actually spawns tasks lives outside this crate; it
//! asks this state machine before starting a call and reports every
//! completion back, so the bound on in-flight calls and the completeness
//! of the collected results are verified here.

use vstd::prelude::*;

verus! {

/// How many entries of `s` hold a result already.
pub open spec fn num_somes<T>(s: Seq<Option<T>>) -> nat
    decreases s.len(),
{
    if s.len() == 0 {
        0
    } else {
        num_somes(s.drop_last()) + if s.last() is Some {
            1nat
        } else {
            0nat
        }
    }
}

proof fn lemma_num_somes_le_len<T>(s: Seq<Option<T>>)
    ensures
        num_somes(s) <= s.len(),
    decreases s.len(),
{
    if s.len() > 0 {
        lemma_num_somes_le_len(s.drop_last());
    }
}

/// If every entry from `k` on is empty and some entry below `k` is empty
/// too, then fewer than `k` entries hold a result.
proof fn lemma_num_somes_below<T>(s: Seq<Option<T>>, k: int, i: int)
    requires
        0 <= i < k <= s.len(),
        s[i] is None,
        forall|j: int| k <= j < s.len() ==> s[j] is None,
    ensures
        num_somes(s) < k,
    decreases s.len(),
{
    if s.len() > k {
        assert(s.last() is None);
        assert(forall|j: int| k <= j < s.drop_last().len() ==> s.drop_last()[j] is None);
        assert(s.drop_last()[i] is None);
        lemma_num_somes_below(s.drop_last(), k, i);
    } else {
        if i == s.len() - 1 {
            lemma_num_somes_le_len(s.drop_last());
        } else {
            assert(s.drop_last()[i] is None);
            lemma_num_somes_below(s.drop_last(), k - 1, i);
        }
    }
}

proof fn lemma_num_somes_fill<T>(s: Seq<Option<T>>, i: int, r: T)
    requires
        0 <= i < s.len(),
        s[i] is None,
    ensures
        num_somes(s.update(i, Some(r))) == num_somes(s) + 1,
    decreases s.len(),
{
    let u = s.update(i, Some(r));
    if i == s.len() - 1 {
        assert(u.drop_last() =~= s.drop_last());
    } else {
        assert(u.drop_last() =~= s.drop_last().update(i, Some(r)));
        assert(u.last() == s.last());
        lemma_num_somes_fill(s.drop_last(), i, r);
    }
}

/// The fan-out over `total` tasks with at most `bound` of them in flight
/// at once. Task `i`'s outcome, once reported, sits at `results[i]`; a
/// task is started by taking a permit and finishes by handing it back.
pub struct FanOut<T> {
    pub bound: usize,
    pub total: usize,
    pub started: usize,
    pub finished: usize,
    pub results: Vec<Option<T>>,
}

impl<T> FanOut<T> {
    /// Well-formedness: the permit accounting never exceeds the bound, and
    /// exactly the finished tasks have a result recorded, none of them a
    /// task that was never started.
    pub open spec fn wf(&self) -> bool {
        &&& self.bound >= 1
        &&& self.results@.len() == self.total
        &&& self.finished <= self.started <= self.total
        &&& self.started - self.finished <= self.bound
        &&& num_somes(self.results@) == self.finished
        &&& forall|i: int| self.started <= i < self.total ==> self.results@[i] is None
    }

    /// How many tasks are in flight: started but not finished.
    pub open spec fn spec_in_flight(&self) -> int {
        self.started - self.finished
    }

    /// A fresh fan-out: nothing started, no results.
    pub fn new(total: usize, bound: usize) -> (fo: FanOut<T>)
        requires
            bound >= 1,
        ensures
            fo.wf(),
            fo.total == total,
            fo.bound == bound,
            fo.started == 0,
            fo.finished == 0,
            forall|i: int| 0 <= i < total ==> fo.results@[i] is None,
    {
        let mut results: Vec<Option<T>> = Vec::new();
        let mut i: usize = 0;
        while i < total
            invariant
                i <= total,
                results@.len() == i,
                num_somes(results@) == 0,
                forall|j: int| 0 <= j < i ==> results@[j] is None,
            decreases total - i,
        {
            let ghost prev = results@;
            results.push(None);
            proof {
                assert(results@.drop_last() =~= prev);
            }
            i = i + 1;
        }
        FanOut { bound, total, started: 0, finished: 0, results }
    }

    /// Whether another task may start now: some task is left and a permit
    /// is free.
    pub fn can_start(&self) -> (r: bool)
        requires
            self.wf(),
        ensures
            r == (self.started < self.total && self.spec_in_flight() < self.bound),
    {
        self.started < self.total && self.started - self.finished < self.bound
    }

    /// Takes a permit and starts the next task; returns its index. Never
    /// lets more than `bound` tasks run at once: it may only be called
    /// while a permit is free.
    pub fn start(&mut self) -> (idx: usize)
        requires
            old(self).wf(),
            old(self).started < old(self).total,
            old(self).spec_in_flight() < old(self).bound,
        ensures
            final(self).wf(),
            idx == old(self).started,
            final(self).started == old(self).started + 1,
            final(self).spec_in_flight() == old(self).spec_in_flight() + 1,
            final(self).spec_in_flight() <= final(self).bound,
            final(self).finished == old(self).finished,
            final(self).total == old(self).total,
            final(self).bound == old(self).bound,
            final(self).results == old(self).results,
    {
        let idx = self.started;
        self.started = self.started + 1;
        idx
    }

    /// Records the outcome of started task `idx` and hands its permit
    /// back.
    pub fn complete(&mut self, idx: usize, result: T)
        requires
            old(self).wf(),
            idx < old(self).started,
            old(self).results@[idx as int] is None,
        ensures
            final(self).wf(),
            final(self).finished == old(self).finished + 1,
            final(self).spec_in_flight() == old(self).spec_in_flight() - 1,
            final(self).results@ == old(self).results@.update(idx as int, Some(result)),
            final(self).started == old(self).started,
            final(self).total == old(self).total,
            final(self).bound == old(self).bound,
    {
        proof {
            lemma_num_somes_below(self.results@, self.started as int, idx as int);
            lemma_num_somes_fill(self.results@, idx as int, result);
        }
        self.results.set(idx, Some(result));
        self.finished = self.finished + 1;
    }

    /// Whether every task has finished.
    pub fn is_complete(&self) -> (r: bool)
        ensures
            r == (self.finished == self.total),
    {
        self.finished == self.total
    }

    /// How many tasks are in flight right now.
    pub fn in_flight(&self) -> (r: usize)
        requires
            self.wf(),
        ensures
            r == self.spec_in_flight(),
    {
        self.started - self.finished
    }
}

/// Law: a finished fan-out is complete. Once as many tasks finished as
/// were asked for, every single task has a recorded outcome; none was
/// skipped for want of a permit.
pub proof fn lemma_finished_fanout_has_all_results<T>(fo: FanOut<T>)
    requires
        fo.wf(),
        fo.finished == fo.total,
    ensures
        forall|i: int| 0 <= i < fo.total ==> fo.results@[i] is Some,
{
    assert forall|i: int| 0 <= i < fo.total implies fo.results@[i] is Some by {
        if fo.results@[i] is None {
            lemma_num_somes_below(fo.results@, fo.total as int, i);
        }
    }
}

} // verus!
