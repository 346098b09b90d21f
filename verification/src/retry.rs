//! The retry policy: whether an outcome is final, and how many attempts a
//! target gets.

use vstd::prelude::*;
use crate::outcome::{StatusView, WebsiteStatus};

verus! {

/// Pause between two attempts on the same target, in milliseconds.
pub const RETRY_DELAY_MS: u64 = 300;

/// An outcome calls for another attempt when the probe failed, when the
/// server answered with a 5xx status, or when the status is negative.
pub open spec fn retryable(outcome: StatusView) -> bool {
    outcome.error is Some || outcome.status_code >= 500 || outcome.status_code < 0
}

/// Whether the policy asks for another attempt after seeing `outcome`, having
/// already spent `used` of its `max` retries.
pub open spec fn wants_retry(max: nat, used: nat, outcome: StatusView) -> bool {
    used < max && retryable(outcome)
}

/// Number of attempts the policy makes in all, counted from the point where
/// `used` retries are spent, when the `i`-th attempt (from zero) yields
/// `feed(i)`.
pub open spec fn attempts_from(max: nat, used: nat, feed: spec_fn(nat) -> StatusView) -> nat
    decreases max - used,
{
    if wants_retry(max, used, feed(used)) {
        attempts_from(max, used + 1, feed)
    } else {
        used + 1
    }
}

/// Number of attempts a target gets under a policy of `max` retries.
pub open spec fn attempts(max: nat, feed: spec_fn(nat) -> StatusView) -> nat {
    attempts_from(max, 0, feed)
}

/// The outcome the policy reports: that of the last attempt made.
pub open spec fn reported(max: nat, feed: spec_fn(nat) -> StatusView) -> StatusView {
    feed((attempts(max, feed) - 1) as nat)
}

/// Number of pauses the policy takes: one before each attempt but the first.
pub open spec fn pauses(max: nat, feed: spec_fn(nat) -> StatusView) -> nat {
    (attempts(max, feed) - 1) as nat
}

/// What to do after an attempt.
#[derive(Clone, Debug, PartialEq, Eq)]
pub enum Decision {
    /// Wait `delay_ms` milliseconds, then probe the target again.
    RetryAfter { delay_ms: u64 },
    /// Stop: `outcome` is the target's result.
    Finish { outcome: WebsiteStatus },
}

/// Progress of the retry policy on one target.
#[derive(Debug, PartialEq, Eq)]
pub struct RetryPolicy {
    max_retries: u32,
    used: u32,
}

impl RetryPolicy {
    /// Retries the policy allows beyond the first attempt.
    pub closed spec fn max(&self) -> nat {
        self.max_retries as nat
    }

    /// Retries asked for so far.
    pub closed spec fn spent(&self) -> nat {
        self.used as nat
    }

    #[verifier::type_invariant]
    spec fn within_budget(&self) -> bool {
        self.used <= self.max_retries
    }

    /// A fresh policy that allows `max_retries` retries.
    pub fn new(max_retries: u32) -> (policy: RetryPolicy)
        ensures
            policy.max() == max_retries,
            policy.spent() == 0,
    {
        RetryPolicy { max_retries, used: 0 }
    }

    /// Retries the policy allows beyond the first attempt.
    pub fn max_retries(&self) -> (n: u32)
        ensures
            n == self.max(),
    {
        self.max_retries
    }

    /// Retries asked for so far.
    pub fn retries_used(&self) -> (n: u32)
        ensures
            n == self.spent(),
    {
        self.used
    }

    /// Takes the outcome of the attempt just made and decides what follows:
    /// another attempt after the fixed pause, or the end with this outcome
    /// as the result.
    pub fn decide(&mut self, outcome: WebsiteStatus) -> (decision: Decision)
        ensures
            final(self).max() == old(self).max(),
            final(self).spent() <= final(self).max(),
            wants_retry(old(self).max(), old(self).spent(), outcome@) ==> {
                &&& decision == (Decision::RetryAfter { delay_ms: RETRY_DELAY_MS })
                &&& final(self).spent() == old(self).spent() + 1
            },
            !wants_retry(old(self).max(), old(self).spent(), outcome@) ==> {
                &&& decision == (Decision::Finish { outcome })
                &&& final(self).spent() == old(self).spent()
            },
    {
        proof {
            use_type_invariant(&*self);
        }
        if self.used < self.max_retries && outcome.is_retryable() {
            self.used = self.used + 1;
            Decision::RetryAfter { delay_ms: RETRY_DELAY_MS }
        } else {
            Decision::Finish { outcome }
        }
    }
}

/// Whether attempt number `attempt` of `probe` can give a retryable
/// outcome.
pub open spec fn gave_retryable<P: Fn(u32) -> WebsiteStatus>(probe: P, attempt: u32) -> bool {
    exists|outcome: WebsiteStatus| #[trigger]
        probe.ensures((attempt,), outcome) && retryable(outcome@)
}

/// Probes one target under a policy of `max_retries` retries. `probe` is
/// handed the number of the attempt, counted from zero; it is called for
/// attempt zero, and for the next attempt after each `pause` while the
/// policy asks for one. Returns the outcome of the last attempt together
/// with the number of attempts made.
///
/// What `probe` returns is not for this function to know, so the contract
/// holds for whatever it returns: there are between one and
/// `max_retries + 1` attempts; the result is the outcome of the last of
/// them; every attempt before the last gave a retryable outcome; and the
/// attempts end early only on an outcome that is not retryable.
pub fn check_with_retries<P, S>(max_retries: u32, probe: P, pause: S) -> (done: (WebsiteStatus, u64))
    where
        P: Fn(u32) -> WebsiteStatus,
        S: Fn(u64) -> (),
    requires
        forall|i: u32| i <= max_retries ==> probe.requires((i,)),
        pause.requires((RETRY_DELAY_MS,)),
    ensures
        1 <= done.1 <= max_retries + 1,
        probe.ensures(((done.1 - 1) as u32,), done.0),
        forall|i: u32| i < done.1 - 1 ==> #[trigger] gave_retryable(probe, i),
        done.1 <= max_retries ==> !retryable(done.0@),
{
    let mut policy = RetryPolicy::new(max_retries);
    let mut last = probe(policy.retries_used());
    loop
        invariant
            forall|i: u32| i <= max_retries ==> probe.requires((i,)),
            pause.requires((RETRY_DELAY_MS,)),
            policy.max() == max_retries,
            policy.spent() <= policy.max(),
            probe.ensures((policy.spent() as u32,), last),
            forall|i: u32| i < policy.spent() ==> #[trigger] gave_retryable(probe, i),
        decreases policy.max() - policy.spent(),
    {
        let ghost seen = last;
        let ghost spent = policy.spent();
        match policy.decide(last) {
            Decision::RetryAfter { delay_ms } => {
                assert(gave_retryable(probe, spent as u32)) by {
                    assert(probe.ensures((spent as u32,), seen) && retryable(seen@));
                }
                pause(delay_ms);
                last = probe(policy.retries_used());
            },
            Decision::Finish { outcome } => {
                assert(!wants_retry(max_retries as nat, spent, seen@));
                let attempts: u64 = policy.retries_used() as u64 + 1;
                return (outcome, attempts);
            },
        }
    }
}

/// Unfolds the attempt count from the point where `used` retries are spent.
proof fn lemma_attempts_from(max: nat, used: nat, feed: spec_fn(nat) -> StatusView)
    requires
        used <= max,
    ensures
        used < attempts_from(max, used, feed) <= max + 1,
        forall|i: nat| used <= i < attempts_from(max, used, feed) - 1 ==> retryable(#[trigger] feed(i)),
        attempts_from(max, used, feed) <= max ==> !retryable(
            feed((attempts_from(max, used, feed) - 1) as nat),
        ),
    decreases max - used,
{
    if wants_retry(max, used, feed(used)) {
        lemma_attempts_from(max, used + 1, feed);
    }
}

/// The policy probes at least once and at most `max + 1` times; every
/// attempt before the last gave a retryable outcome; and it stops short of
/// `max + 1` attempts only on an outcome that is not retryable.
pub proof fn lemma_attempts_characterised(max: nat, feed: spec_fn(nat) -> StatusView)
    ensures
        1 <= attempts(max, feed) <= max + 1,
        forall|i: nat| i < attempts(max, feed) - 1 ==> retryable(#[trigger] feed(i)),
        attempts(max, feed) <= max ==> !retryable(reported(max, feed)),
        pauses(max, feed) == attempts(max, feed) - 1,
{
    lemma_attempts_from(max, 0, feed);
}

/// The attempt count is the only number of which all holds that
/// [`lemma_attempts_characterised`] states of it.
pub proof fn lemma_attempts_unique(max: nat, feed: spec_fn(nat) -> StatusView, n: nat)
    requires
        1 <= n <= max + 1,
        forall|i: nat| i < n - 1 ==> retryable(#[trigger] feed(i)),
        n <= max ==> !retryable(feed((n - 1) as nat)),
    ensures
        attempts(max, feed) == n,
{
    lemma_attempts_from(max, 0, feed);
    let m = attempts(max, feed);
    if m < n {
        assert(retryable(feed((m - 1) as nat)));
    } else if n < m {
        assert(retryable(feed((n - 1) as nat)));
    }
}

/// A target whose every attempt gives a retryable outcome is probed
/// `max + 1` times, with a pause before each attempt but the first, and the
/// outcome reported is that of the last attempt.
pub proof fn lemma_persistent_failure(max: nat, feed: spec_fn(nat) -> StatusView)
    requires
        forall|i: nat| i <= max ==> retryable(#[trigger] feed(i)),
    ensures
        attempts(max, feed) == max + 1,
        pauses(max, feed) == max,
        reported(max, feed) == feed(max),
{
    lemma_attempts_unique(max, feed, max + 1);
}

/// A target whose first attempt gives an outcome that is not retryable is
/// probed exactly once, whatever the number of retries allowed.
pub proof fn lemma_first_success(max: nat, feed: spec_fn(nat) -> StatusView)
    requires
        !retryable(feed(0)),
    ensures
        attempts(max, feed) == 1,
        pauses(max, feed) == 0,
        reported(max, feed) == feed(0),
{
}

/// With no retries allowed every target is probed exactly once and the
/// policy never pauses.
pub proof fn lemma_no_retries(feed: spec_fn(nat) -> StatusView)
    ensures
        attempts(0, feed) == 1,
        pauses(0, feed) == 0,
        reported(0, feed) == feed(0),
{
}

impl WebsiteStatus {
    /// Whether this outcome calls for another attempt.
    pub fn is_retryable(&self) -> (r: bool)
        ensures
            r == retryable(self@),
    {
        self.error.is_some() || self.status_code >= 500 || self.status_code < 0
    }
}

} // verus!
