//! Order-preserving drain over concurrently completing downloads.
//!
//! The scheduler admits segment indices in increasing order, runs up to a
//! bound of them concurrently, and drains results strictly head-first: a task
//! that finishes early is buffered until every earlier task has been drained.
//! The buffer here carries that discipline; whatever order completions arrive
//! in, the drained sequence is always a prefix of the admission sequence and
//! ends equal to it.

use vstd::prelude::*;
use crate::util::DownloadError;

verus! {

/// Outcome of one segment's download task.
pub enum FetchResult {
    /// Both artifacts are on disk, with the combined new byte count.
    Done { fname_audio: String, fname_video: String, bytes: u64 },
    /// The download failed; the segment becomes a gap, not a crash.
    Failed(DownloadError),
}

/// One admitted task: its segment index and, once it finishes, its outcome.
pub struct ReorderSlot {
    pub index: i64,
    pub outcome: Option<FetchResult>,
}

/// A sequence of indices in strictly increasing order.
pub open spec fn spec_strictly_increasing(s: Seq<i64>) -> bool {
    forall|i: int, j: int| 0 <= i < j < s.len() ==> s[i] < s[j]
}

/// The reorder buffer: a FIFO of admitted tasks plus the history of admitted
/// and drained indices.
pub struct ReorderBuffer {
    pub entries: Vec<ReorderSlot>,
    pub bound: usize,
    pub admitted: Ghost<Seq<i64>>,
    pub drained: Ghost<Seq<i64>>,
}

impl ReorderBuffer {
    /// The indices currently admitted and not yet drained, in admission order.
    pub open spec fn pending(&self) -> Seq<i64> {
        self.entries@.map(|i: int, s: ReorderSlot| s.index)
    }

    /// Everything the buffer ever had admitted, in admission order.
    pub open spec fn admission(&self) -> Seq<i64> {
        self.admitted@
    }

    /// Everything drained so far, in drain order.
    pub open spec fn drain_log(&self) -> Seq<i64> {
        self.drained@
    }

    /// Well-formedness: the admission history is strictly increasing and is
    /// exactly the drained indices followed by the pending ones, and no more
    /// than `bound` tasks are in flight.
    pub open spec fn wf(&self) -> bool {
        &&& self.bound >= 1
        &&& self.entries@.len() <= self.bound
        &&& self.admitted@ == self.drained@ + self.pending()
        &&& spec_strictly_increasing(self.admitted@)
    }

    /// An empty buffer for a concurrency bound.
    pub fn new(bound: usize) -> (r: ReorderBuffer)
        requires
            bound >= 1,
        ensures
            r.wf(),
            r.bound == bound,
            r.admission() =~= Seq::<i64>::empty(),
            r.drain_log() =~= Seq::<i64>::empty(),
            r.pending() =~= Seq::<i64>::empty(),
    {
        let r = ReorderBuffer {
            entries: Vec::new(),
            bound,
            admitted: Ghost(Seq::empty()),
            drained: Ghost(Seq::empty()),
        };
        proof {
            assert(r.pending() =~= Seq::<i64>::empty());
            assert(r.admitted@ =~= r.drained@ + r.pending());
        }
        r
    }

    /// How many tasks are in flight (admitted and not yet drained).
    pub fn in_flight(&self) -> (n: usize)
        ensures
            n == self.pending().len(),
    {
        self.entries.len()
    }

    /// Whether the buffer has room for another task.
    pub fn has_room(&self) -> (b: bool)
        ensures
            b <==> self.pending().len() < self.bound,
    {
        self.entries.len() < self.bound
    }

    /// Enqueues the next segment index at the tail of the FIFO.  Indices arrive
    /// from the discoverer in strictly increasing order, so the new index
    /// exceeds everything admitted before.
    pub fn enqueue(&mut self, index: i64)
        requires
            old(self).wf(),
            old(self).pending().len() < old(self).bound,
            old(self).admission().len() == 0 || old(self).admission().last() < index,
        ensures
            final(self).wf(),
            final(self).bound == old(self).bound,
            final(self).admission() == old(self).admission().push(index),
            final(self).drain_log() == old(self).drain_log(),
            final(self).pending() == old(self).pending().push(index),
    {
        self.entries.push(ReorderSlot { index, outcome: None });
        proof {
            self.admitted@ = self.admitted@.push(index);
            assert(self.pending() =~= old(self).pending().push(index));
            assert(self.admitted@ =~= self.drained@ + self.pending());
        }
    }

    /// Records the outcome of the in-flight task for `index`, wherever it
    /// stands in the FIFO; completions may arrive in any order.  Returns
    /// whether a not-yet-completed task with that index was found.
    pub fn complete(&mut self, index: i64, result: FetchResult) -> (accepted: bool)
        requires
            old(self).wf(),
        ensures
            final(self).wf(),
            final(self).bound == old(self).bound,
            final(self).admission() == old(self).admission(),
            final(self).drain_log() == old(self).drain_log(),
            final(self).pending() == old(self).pending(),
            accepted ==> exists|j: int|
                0 <= j < old(self).entries@.len() && old(self).entries@[j].index == index && old(
                    self,
                ).entries@[j].outcome is None && final(self).entries@ == old(self).entries@.update(
                    j,
                    ReorderSlot { index, outcome: Some(result) },
                ),
            !accepted ==> final(self).entries@ == old(self).entries@ && (forall|j: int|
                0 <= j < old(self).entries@.len() && old(self).entries@[j].index == index
                    ==> !(old(self).entries@[j].outcome is None)),
    {
        let n = self.entries.len();
        let mut i: usize = 0;
        while i < n
            invariant
                old(self).wf(),
                0 <= i <= n,
                n == self.entries@.len(),
                *self == *old(self),
                forall|j: int|
                    0 <= j < i && self.entries@[j].index == index ==> !(self.entries@[j].outcome
                        is None),
            decreases n - i,
        {
            if self.entries[i].index == index && self.entries[i].outcome.is_none() {
                self.entries[i] = ReorderSlot { index, outcome: Some(result) };
                proof {
                    assert(self.entries@ == old(self).entries@.update(
                        i as int,
                        ReorderSlot { index, outcome: Some(result) },
                    ));
                    assert(self.pending() =~= old(self).pending());
                    assert(self.admitted@ == old(self).admitted@);
                    assert(self.drained@ == old(self).drained@);
                    assert(old(self).admitted@ == old(self).drained@ + old(self).pending());
                    assert(self.admitted@ == self.drained@ + self.pending());
                }
                return true;
            }
            i = i + 1;
        }
        false
    }

    /// Drains the head of the FIFO if — and only if — its task has completed.
    /// A completed task behind an unfinished head stays buffered.
    pub fn pop_ready(&mut self) -> (r: Option<(i64, FetchResult)>)
        requires
            old(self).wf(),
        ensures
            final(self).wf(),
            final(self).bound == old(self).bound,
            final(self).admission() == old(self).admission(),
            match r {
                Some(popped) => {
                    &&& old(self).pending().len() > 0
                    &&& popped.0 == old(self).entries@[0].index
                    &&& old(self).entries@[0].outcome == Some(popped.1)
                    &&& final(self).entries@ == old(self).entries@.skip(1)
                    &&& final(self).drain_log() == old(self).drain_log().push(popped.0)
                },
                None => {
                    &&& *final(self) == *old(self)
                    &&& old(self).pending().len() == 0 || old(self).entries@[0].outcome is None
                },
            },
    {
        if self.entries.len() == 0 {
            return None;
        }
        if self.entries[0].outcome.is_none() {
            return None;
        }
        let slot = self.entries.remove(0);
        match slot.outcome {
            Some(outcome) => {
                proof {
                    self.drained@ = self.drained@.push(slot.index);
                    assert(self.entries@ =~= old(self).entries@.skip(1));
                    assert(self.pending() =~= old(self).pending().skip(1));
                    assert(self.admitted@ =~= self.drained@ + self.pending());
                }
                Some((slot.index, outcome))
            },
            None => None,
        }
    }
}

/// At any moment, what has been drained is a prefix of the admission order —
/// in that order, hence itself strictly increasing — and once nothing is
/// pending the drain equals the admission sequence exactly.
pub proof fn lemma_drain_is_admission_prefix(b: &ReorderBuffer)
    requires
        b.wf(),
    ensures
        b.drain_log() == b.admission().take(b.drain_log().len() as int),
        spec_strictly_increasing(b.drain_log()),
        b.pending().len() == 0 ==> b.drain_log() == b.admission(),
{
    assert(b.drain_log() =~= b.admission().take(b.drain_log().len() as int));
    assert forall|i: int, j: int|
        0 <= i < j < b.drain_log().len() implies b.drain_log()[i] < b.drain_log()[j] by {
        assert(b.drain_log()[i] == b.admission()[i]);
        assert(b.drain_log()[j] == b.admission()[j]);
    }
    if b.pending().len() == 0 {
        assert(b.drain_log() =~= b.admission());
    }
}

// ---------------------------------------------------------------------------
// Drain order under an arbitrary completion order
// ---------------------------------------------------------------------------
/// The drain position after popping every completed head: starting at task
/// position `k`, advance while the next position has completed.
pub open spec fn spec_advance(k: int, done: Set<int>, n: int) -> int
    decreases n - k,
{
    if k < n && done.contains(k) {
        spec_advance(k + 1, done, n)
    } else {
        k
    }
}

/// The drain position after the tasks complete one by one in the order given
/// by `completions` (each element a task position), draining every ready head
/// after each completion.
pub open spec fn spec_drain_sim(k: int, done: Set<int>, completions: Seq<int>, n: int) -> int
    decreases completions.len(),
{
    if completions.len() == 0 {
        k
    } else {
        let done2 = done.insert(completions[0]);
        spec_drain_sim(spec_advance(k, done2, n), done2, completions.skip(1), n)
    }
}

proof fn lemma_advance(k: int, done: Set<int>, n: int)
    requires
        0 <= k <= n,
    ensures
        k <= spec_advance(k, done, n) <= n,
        forall|i: int| k <= i < spec_advance(k, done, n) ==> done.contains(i),
        spec_advance(k, done, n) == n || !done.contains(spec_advance(k, done, n)),
    decreases n - k,
{
    if k < n && done.contains(k) {
        lemma_advance(k + 1, done, n);
    }
}

proof fn lemma_sim_reaches(k: int, done: Set<int>, completions: Seq<int>, n: int)
    requires
        0 <= k <= n,
        forall|i: int| 0 <= i < k ==> done.contains(i),
        k == n || !done.contains(k),
        forall|j: int| k <= j < n ==> done.contains(j) || completions.contains(j),
    ensures
        spec_drain_sim(k, done, completions, n) == n,
    decreases completions.len(),
{
    if completions.len() == 0 {
        if k < n {
            assert(done.contains(k));
        }
    } else {
        let c = completions[0];
        let done2 = done.insert(c);
        let k2 = spec_advance(k, done2, n);
        lemma_advance(k, done2, n);
        assert forall|j: int| k2 <= j < n implies done2.contains(j) || completions.skip(
            1,
        ).contains(j) by {
            if !done2.contains(j) {
                assert(done.contains(j) || completions.contains(j));
                assert(!done.contains(j));
                let w = choose|w: int|
                    0 <= w < completions.len() && completions[w] == j;
                assert(w != 0);
                assert(completions.skip(1)[w - 1] == j);
            }
        }
        lemma_sim_reaches(k2, done2, completions.skip(1), n);
    }
}

/// For any concurrency bound and any order of completion among the admitted
/// tasks, the head-first drain yields the tasks in admission order and yields
/// all of them: after every task position has completed — in whatever
/// permutation — the drain position reaches the end, and the drained sequence
/// `admitted.take(position)` at every intermediate point is a prefix of the
/// admission sequence, never a reordering by completion time.
pub proof fn lemma_drain_order_matches_admission(admitted: Seq<i64>, completions: Seq<int>)
    requires
        forall|i: int|
            0 <= i < completions.len() ==> 0 <= #[trigger] completions[i] < admitted.len(),
        forall|j: int| 0 <= j < admitted.len() ==> completions.contains(j),
    ensures
        spec_drain_sim(0, Set::empty(), completions, admitted.len() as int) == admitted.len(),
        admitted.take(
            spec_drain_sim(0, Set::empty(), completions, admitted.len() as int),
        ) == admitted,
{
    let n = admitted.len() as int;
    lemma_sim_reaches(0, Set::empty(), completions, n);
    assert(admitted.take(n) =~= admitted);
}

} // verus!
