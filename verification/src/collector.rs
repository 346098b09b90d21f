//! The result collector: outcomes in the order in which workers published
//! them.

use vstd::prelude::*;
use crate::outcome::{StatusView, WebsiteStatus};

verus! {

/// The views of a sequence of outcomes.
pub open spec fn outcome_views(outcomes: Seq<WebsiteStatus>) -> Seq<StatusView> {
    Seq::new(outcomes.len(), |i: int| outcomes[i]@)
}

/// The targets that a sequence of outcomes reports on, in the same order.
pub open spec fn probed(outcomes: Seq<StatusView>) -> Seq<Seq<char>> {
    Seq::new(outcomes.len(), |i: int| outcomes[i].url)
}

/// Gathers the outcomes of a run, one per publish, in arrival order.
#[derive(Debug)]
pub struct ResultCollector {
    arrived: Vec<WebsiteStatus>,
}

impl View for ResultCollector {
    type V = Seq<StatusView>;

    closed spec fn view(&self) -> Seq<StatusView> {
        outcome_views(self.arrived@)
    }
}

impl ResultCollector {
    /// A collector that has received nothing yet.
    pub fn new() -> (collector: ResultCollector)
        ensures
            collector@ == Seq::<StatusView>::empty(),
    {
        let collector = ResultCollector { arrived: Vec::new() };
        assert(collector@ =~= Seq::<StatusView>::empty());
        collector
    }

    /// Number of outcomes received so far.
    pub fn len(&self) -> (n: usize)
        ensures
            n == self@.len(),
    {
        self.arrived.len()
    }

    /// Accepts one outcome; it comes after all that arrived before it.
    pub fn publish(&mut self, outcome: WebsiteStatus)
        ensures
            final(self)@ == old(self)@.push(outcome@),
    {
        self.arrived.push(outcome);
        assert(self@ =~= old(self)@.push(outcome@));
    }

    /// Hands over everything received, in arrival order.
    pub fn drain(self) -> (outcomes: Vec<WebsiteStatus>)
        ensures
            outcome_views(outcomes@) == self@,
    {
        self.arrived
    }
}

} // verus!
