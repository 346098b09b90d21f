//! The work queue: the targets still waiting for a worker.

use vstd::prelude::*;
use crate::text::texts;

verus! {

/// What a claim on the pending targets `q` hands out: the last of them, or
/// nothing when none is left.
pub open spec fn claimed<T>(q: Seq<T>) -> Option<T> {
    if q.len() == 0 {
        None
    } else {
        Some(q.last())
    }
}

/// The pending targets that a claim on `q` leaves behind.
pub open spec fn after_claim<T>(q: Seq<T>) -> Seq<T> {
    if q.len() == 0 {
        q
    } else {
        q.drop_last()
    }
}

/// The answers to `k` claims made one after another on `q`.
pub open spec fn claims<T>(q: Seq<T>, k: nat) -> Seq<Option<T>>
    decreases k,
{
    if k == 0 {
        Seq::empty()
    } else {
        seq![claimed(q)] + claims(after_claim(q), (k - 1) as nat)
    }
}

/// The pending targets left after `k` claims made one after another on `q`.
pub open spec fn after_claims<T>(q: Seq<T>, k: nat) -> Seq<T>
    decreases k,
{
    if k == 0 {
        q
    } else {
        after_claims(after_claim(q), (k - 1) as nat)
    }
}

/// The targets of a run that no worker has claimed yet.
///
/// Workers share one queue behind a lock; each claim is one call of
/// [`WorkQueue::claim`] made while holding it.
#[derive(Debug)]
pub struct WorkQueue {
    pending: Vec<String>,
}

impl View for WorkQueue {
    type V = Seq<Seq<char>>;

    closed spec fn view(&self) -> Seq<Seq<char>> {
        texts(self.pending@)
    }
}

impl WorkQueue {
    /// Seeds the queue with the full list of targets.
    pub fn new(targets: Vec<String>) -> (queue: WorkQueue)
        ensures
            queue@ == texts(targets@),
    {
        WorkQueue { pending: targets }
    }

    /// Number of targets not yet claimed.
    pub fn len(&self) -> (n: usize)
        ensures
            n == self@.len(),
    {
        self.pending.len()
    }

    /// Whether every target has been claimed.
    pub fn is_empty(&self) -> (empty: bool)
        ensures
            empty == (self@.len() == 0),
    {
        self.pending.len() == 0
    }

    /// Removes one pending target and hands it to the caller, or returns
    /// `None` when the queue is empty.
    pub fn claim(&mut self) -> (target: Option<String>)
        ensures
            final(self)@ == after_claim(old(self)@),
            match target {
                Some(t) => claimed(old(self)@) == Some(t@),
                None => claimed(old(self)@) is None,
            },
    {
        let target = self.pending.pop();
        proof {
            assert(texts(self.pending@) =~= after_claim(texts(old(self).pending@)));
        }
        target
    }
}

/// However many claims are made on a queue seeded with `q`, the `i`-th of
/// them (from zero) is handed the target at position `q.len() - 1 - i` while
/// `i < q.len()`, and every later one finds the queue empty. So each seeded
/// position is handed out exactly once, none twice, and out of `k > q.len()`
/// claims exactly `q.len()` succeed.
pub proof fn lemma_claims_exhaust<T>(q: Seq<T>, k: nat)
    ensures
        claims(q, k).len() == k,
        forall|i: int|
            0 <= i < k ==> #[trigger] claims(q, k)[i] == if i < q.len() {
                Some(q[q.len() - 1 - i])
            } else {
                None
            },
        after_claims(q, k) == q.take(if k <= q.len() { q.len() - k } else { 0 }),
    decreases k,
{
    if k == 0 {
        assert(q.take(q.len() as int) =~= q);
    } else {
        let rest = after_claim(q);
        lemma_claims_exhaust(rest, (k - 1) as nat);
        let tail = claims(rest, (k - 1) as nat);
        assert forall|i: int| 0 <= i < k implies #[trigger] claims(q, k)[i] == if i < q.len() {
            Some(q[q.len() - 1 - i])
        } else {
            None
        } by {
            if i > 0 {
                assert(claims(q, k)[i] == tail[i - 1]);
            }
        }
        let left: int = if k <= q.len() { q.len() - k } else { 0 };
        assert(after_claims(q, k) =~= q.take(left));
    }
}

} // verus!
