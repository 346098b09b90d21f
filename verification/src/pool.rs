//! The bookkeeping of one run of the worker pool: which targets wait, which
//! are in a worker's hands, and which have an outcome.

use vstd::prelude::*;
use vstd::multiset::Multiset;
use crate::collector::{outcome_views, probed, ResultCollector};
use crate::outcome::{StatusView, WebsiteStatus};
use crate::queue::WorkQueue;
use crate::text::texts;

verus! {

/// The stage a run has reached. A run only ever moves forward through them.
#[derive(Clone, Copy, Debug, PartialEq, Eq, Structural)]
pub enum Phase {
    /// The queue is populated and no worker has made a claim.
    Seeded,
    /// Workers are claiming targets and publishing outcomes.
    Running,
    /// The queue is empty; some workers are still finishing.
    Draining,
    /// Every worker has stopped; the set of outcomes is final.
    Complete,
}

/// What one worker of the pool is doing.
pub enum WorkerView {
    /// Between targets: about to make a claim.
    Idle,
    /// Probing the target it claimed.
    Busy { target: Seq<char> },
    /// Found the queue empty and terminated.
    Stopped,
}

/// The answer to a worker's claim.
pub enum ClaimView {
    /// The worker now holds this target.
    Target { target: Seq<char> },
    /// Nothing is left; the worker terminates.
    Empty,
    /// The caller is no worker of this pool, or a worker that is not idle.
    Refused,
}

/// Position of a phase in the order in which a run passes through them.
pub open spec fn phase_rank(phase: Phase) -> nat {
    match phase {
        Phase::Seeded => 0,
        Phase::Running => 1,
        Phase::Draining => 2,
        Phase::Complete => 3,
    }
}

/// The targets that workers hold at the moment.
pub open spec fn in_flight(workers: Seq<WorkerView>) -> Multiset<Seq<char>>
    decreases workers.len(),
{
    if workers.len() == 0 {
        Multiset::empty()
    } else {
        let rest = in_flight(workers.drop_last());
        match workers.last() {
            WorkerView::Busy { target } => rest.insert(target),
            _ => rest,
        }
    }
}

/// Whether every worker has terminated.
pub open spec fn all_stopped(workers: Seq<WorkerView>) -> bool {
    forall|w: int| 0 <= w < workers.len() ==> workers[w] is Stopped
}

/// Mathematical view of a run.
pub struct RunView {
    /// The targets the run was seeded with.
    pub targets: Seq<Seq<char>>,
    /// The targets still in the queue.
    pub pending: Seq<Seq<char>>,
    /// The state of each worker.
    pub workers: Seq<WorkerView>,
    /// The outcomes published so far, in arrival order.
    pub outcomes: Seq<StatusView>,
    /// Whether any worker has made a claim.
    pub started: bool,
}

impl RunView {
    /// The invariant of a run: every seeded target is in exactly one place
    /// (waiting in the queue, held by a worker, or reported in an outcome);
    /// before the first claim nothing has moved; and a worker stops only
    /// once the queue is empty.
    pub open spec fn well_formed(self) -> bool {
        &&& self.workers.len() >= 1
        &&& self.pending.to_multiset().add(in_flight(self.workers)).add(
            probed(self.outcomes).to_multiset(),
        ) == self.targets.to_multiset()
        &&& !self.started ==> {
            &&& self.pending == self.targets
            &&& self.outcomes.len() == 0
            &&& forall|w: int| 0 <= w < self.workers.len() ==> self.workers[w] is Idle
        }
        &&& forall|w: int|
            0 <= w < self.workers.len() && self.workers[w] is Stopped ==> self.pending.len() == 0
    }

    /// The stage the run has reached.
    pub open spec fn phase(self) -> Phase {
        if all_stopped(self.workers) {
            Phase::Complete
        } else if !self.started {
            Phase::Seeded
        } else if self.pending.len() == 0 {
            Phase::Draining
        } else {
            Phase::Running
        }
    }

    /// The state in which a run over `targets` with `workers` workers starts.
    pub open spec fn seeded(targets: Seq<Seq<char>>, workers: nat) -> RunView {
        RunView {
            targets,
            pending: targets,
            workers: Seq::new(if workers == 0 { 1 } else { workers }, |w: int| WorkerView::Idle),
            outcomes: Seq::empty(),
            started: false,
        }
    }

    /// Whether worker `w` is in a position to claim.
    pub open spec fn may_claim(self, w: int) -> bool {
        0 <= w < self.workers.len() && self.workers[w] is Idle
    }

    /// The answer that worker `w` gets to a claim.
    pub open spec fn claim_answer(self, w: int) -> ClaimView {
        if !self.may_claim(w) {
            ClaimView::Refused
        } else if self.pending.len() == 0 {
            ClaimView::Empty
        } else {
            ClaimView::Target { target: self.pending.last() }
        }
    }

    /// The state after worker `w` has made a claim.
    pub open spec fn claim(self, w: int) -> RunView {
        if !self.may_claim(w) {
            self
        } else if self.pending.len() == 0 {
            RunView { workers: self.workers.update(w, WorkerView::Stopped), started: true, ..self }
        } else {
            RunView {
                pending: self.pending.drop_last(),
                workers: self.workers.update(w, WorkerView::Busy { target: self.pending.last() }),
                started: true,
                ..self
            }
        }
    }

    /// Whether worker `w` is in a position to publish `outcome`: it holds
    /// the target that the outcome reports on.
    pub open spec fn may_publish(self, w: int, outcome: StatusView) -> bool {
        0 <= w < self.workers.len() && self.workers[w] == (WorkerView::Busy { target: outcome.url })
    }

    /// The state after worker `w` has published `outcome`.
    pub open spec fn publish(self, w: int, outcome: StatusView) -> RunView {
        if self.may_publish(w, outcome) {
            RunView {
                workers: self.workers.update(w, WorkerView::Idle),
                outcomes: self.outcomes.push(outcome),
                ..self
            }
        } else {
            self
        }
    }
}

/// What the worker at position `w` holds, taken apart from what the
/// others hold.
proof fn lemma_in_flight_split(workers: Seq<WorkerView>, w: int)
    requires
        0 <= w < workers.len(),
    ensures
        in_flight(workers) == match workers[w] {
            WorkerView::Busy { target } => in_flight(workers.update(w, WorkerView::Idle)).insert(
                target,
            ),
            _ => in_flight(workers.update(w, WorkerView::Idle)),
        },
        in_flight(workers.update(w, WorkerView::Stopped)) == in_flight(
            workers.update(w, WorkerView::Idle),
        ),
    decreases workers.len(),
{
    let idle = workers.update(w, WorkerView::Idle);
    let stopped = workers.update(w, WorkerView::Stopped);
    if w == workers.len() - 1 {
        assert(idle.drop_last() =~= workers.drop_last());
        assert(stopped.drop_last() =~= workers.drop_last());
    } else {
        lemma_in_flight_split(workers.drop_last(), w);
        assert(idle.drop_last() =~= workers.drop_last().update(w, WorkerView::Idle));
        assert(stopped.drop_last() =~= workers.drop_last().update(w, WorkerView::Stopped));
        match workers[w] {
            WorkerView::Busy { target } => {
                let base = in_flight(workers.drop_last().update(w, WorkerView::Idle));
                match workers.last() {
                    WorkerView::Busy { target: other } => {
                        assert(base.insert(target).insert(other) =~= base.insert(other).insert(
                            target,
                        ));
                    },
                    _ => {},
                }
            },
            _ => {},
        }
    }
}

/// Workers none of whom is busy hold nothing.
proof fn lemma_in_flight_none(workers: Seq<WorkerView>)
    requires
        forall|w: int| 0 <= w < workers.len() ==> !(workers[w] is Busy),
    ensures
        in_flight(workers) == Multiset::<Seq<char>>::empty(),
    decreases workers.len(),
{
    if workers.len() > 0 {
        lemma_in_flight_none(workers.drop_last());
    }
}

/// A freshly seeded run satisfies the invariant and is in phase `Seeded`.
pub proof fn lemma_seeded_well_formed(targets: Seq<Seq<char>>, workers: nat)
    ensures
        RunView::seeded(targets, workers).well_formed(),
        RunView::seeded(targets, workers).phase() == Phase::Seeded,
        RunView::seeded(targets, workers).workers.len() == if workers == 0 { 1 } else { workers },
{
    let run = RunView::seeded(targets, workers);
    lemma_in_flight_none(run.workers);
    assert(probed(run.outcomes) =~= Seq::<Seq<char>>::empty());
    assert(probed(run.outcomes).to_multiset() =~= Multiset::<Seq<char>>::empty()) by {
        broadcast use vstd::seq_lib::group_to_multiset_ensures;
    }
    assert(run.pending.to_multiset().add(in_flight(run.workers)).add(
        probed(run.outcomes).to_multiset(),
    ) =~= run.targets.to_multiset());
    assert(run.workers[0] is Idle);
}

/// A claim keeps the invariant and the seeded targets, and never moves the
/// run back to an earlier phase.
pub proof fn lemma_claim_preserves(run: RunView, w: int)
    requires
        run.well_formed(),
    ensures
        run.claim(w).well_formed(),
        run.claim(w).targets == run.targets,
        run.claim(w).outcomes == run.outcomes,
        phase_rank(run.claim(w).phase()) >= phase_rank(run.phase()),
{
    let next = run.claim(w);
    if run.may_claim(w) {
        lemma_in_flight_split(run.workers, w);
        assert(run.workers.update(w, WorkerView::Idle) =~= run.workers);
        if run.pending.len() == 0 {
            lemma_in_flight_split(next.workers, w);
            assert(next.workers.update(w, WorkerView::Idle) =~= run.workers);
        } else {
            let t = run.pending.last();
            lemma_in_flight_split(next.workers, w);
            assert(next.workers.update(w, WorkerView::Idle) =~= run.workers);
            assert(in_flight(next.workers) == in_flight(run.workers).insert(t));
            assert(run.pending =~= run.pending.drop_last().push(t));
            assert(run.pending.to_multiset() =~= next.pending.to_multiset().insert(t)) by {
                broadcast use vstd::seq_lib::group_to_multiset_ensures;
            }
            assert(next.pending.to_multiset().add(in_flight(next.workers)).add(
                probed(next.outcomes).to_multiset(),
            ) =~= run.pending.to_multiset().add(in_flight(run.workers)).add(
                probed(run.outcomes).to_multiset(),
            ));
            assert(forall|v: int|
                0 <= v < next.workers.len() && next.workers[v] is Stopped ==> run.workers[v] is Stopped);
            assert(next.workers[w] is Busy);
        }
        if all_stopped(run.workers) {
            assert(run.workers[w] is Stopped);
        }
    }
}

/// A publish keeps the invariant and the seeded targets, and never moves the
/// run back to an earlier phase.
pub proof fn lemma_publish_preserves(run: RunView, w: int, outcome: StatusView)
    requires
        run.well_formed(),
    ensures
        run.publish(w, outcome).well_formed(),
        run.publish(w, outcome).targets == run.targets,
        phase_rank(run.publish(w, outcome).phase()) >= phase_rank(run.phase()),
{
    let next = run.publish(w, outcome);
    if run.may_publish(w, outcome) {
        lemma_in_flight_split(run.workers, w);
        lemma_in_flight_split(next.workers, w);
        assert(next.workers.update(w, WorkerView::Idle) =~= next.workers);
        assert(run.workers.update(w, WorkerView::Idle) =~= next.workers);
        assert(in_flight(run.workers) == in_flight(next.workers).insert(outcome.url));
        assert(probed(next.outcomes) =~= probed(run.outcomes).push(outcome.url));
        assert(probed(next.outcomes).to_multiset() =~= probed(run.outcomes).to_multiset().insert(
            outcome.url,
        )) by {
            broadcast use vstd::seq_lib::group_to_multiset_ensures;
        }
        assert(next.pending.to_multiset().add(in_flight(next.workers)).add(
            probed(next.outcomes).to_multiset(),
        ) =~= run.pending.to_multiset().add(in_flight(run.workers)).add(
            probed(run.outcomes).to_multiset(),
        ));
        assert(forall|v: int|
            0 <= v < next.workers.len() && next.workers[v] is Stopped ==> run.workers[v] is Stopped);
        assert(next.workers[w] is Idle);
        assert(run.workers[w] is Busy);
        if all_stopped(next.workers) {
            assert(next.workers[w] is Stopped);
        }
        if !run.started {
            assert(run.workers[w] is Idle);
        }
    }
}

/// At every moment of a run the targets waiting, those in workers' hands
/// and those with an outcome add up to the number seeded.
pub proof fn lemma_accounting(run: RunView)
    requires
        run.well_formed(),
    ensures
        run.pending.len() + in_flight(run.workers).len() + run.outcomes.len() == run.targets.len(),
{
    broadcast use vstd::seq_lib::group_to_multiset_ensures;

    assert(probed(run.outcomes).len() == run.outcomes.len());
    assert(run.targets.to_multiset().len() == run.targets.len());
    assert(run.pending.to_multiset().len() == run.pending.len());
    assert(probed(run.outcomes).to_multiset().len() == run.outcomes.len());
}

/// Once a run is complete there is exactly one outcome per seeded target:
/// as many outcomes as targets, and each target reported as often as it was
/// seeded. This holds for any number of workers.
pub proof fn lemma_complete_run(run: RunView)
    requires
        run.well_formed(),
        run.phase() == Phase::Complete,
    ensures
        run.pending.len() == 0,
        run.outcomes.len() == run.targets.len(),
        probed(run.outcomes).to_multiset() == run.targets.to_multiset(),
{
    broadcast use vstd::seq_lib::group_to_multiset_ensures;

    assert(run.workers[0] is Stopped);
    lemma_in_flight_none(run.workers);
    assert(run.pending =~= Seq::<Seq<char>>::empty());
    assert(run.pending.to_multiset() =~= Multiset::<Seq<char>>::empty());
    assert(probed(run.outcomes).to_multiset() =~= run.targets.to_multiset());
    lemma_accounting(run);
}

/// One move of a worker in a run.
pub enum Step {
    /// Worker `worker` asks for its next target.
    Claim { worker: int },
    /// Worker `worker` hands in `outcome`.
    Publish { worker: int, outcome: StatusView },
}

/// The state after one move.
pub open spec fn after_step(run: RunView, step: Step) -> RunView {
    match step {
        Step::Claim { worker } => run.claim(worker),
        Step::Publish { worker, outcome } => run.publish(worker, outcome),
    }
}

/// The state after a series of moves, made one after another in the order
/// in which the workers got hold of the run.
pub open spec fn after_steps(run: RunView, steps: Seq<Step>) -> RunView
    decreases steps.len(),
{
    if steps.len() == 0 {
        run
    } else {
        after_step(after_steps(run, steps.drop_last()), steps.last())
    }
}

/// Whatever the workers do and in whatever order, a run over `targets`
/// keeps its invariant, and once it is complete it holds exactly one
/// outcome per seeded target: as many outcomes as targets, and each target
/// reported as often as it was seeded. This holds for any number of workers
/// and any list of targets.
pub proof fn lemma_every_run(targets: Seq<Seq<char>>, workers: nat, steps: Seq<Step>)
    ensures
        ({
            let run = after_steps(RunView::seeded(targets, workers), steps);
            &&& run.well_formed()
            &&& run.targets == targets
            &&& run.pending.len() + in_flight(run.workers).len() + run.outcomes.len()
                == targets.len()
            &&& run.phase() == Phase::Complete ==> {
                &&& run.outcomes.len() == targets.len()
                &&& probed(run.outcomes).to_multiset() == targets.to_multiset()
            }
        }),
    decreases steps.len(),
{
    let start = RunView::seeded(targets, workers);
    let run = after_steps(start, steps);
    if steps.len() == 0 {
        lemma_seeded_well_formed(targets, workers);
    } else {
        lemma_every_run(targets, workers, steps.drop_last());
        let before = after_steps(start, steps.drop_last());
        match steps.last() {
            Step::Claim { worker } => lemma_claim_preserves(before, worker),
            Step::Publish { worker, outcome } => lemma_publish_preserves(before, worker, outcome),
        }
    }
    lemma_accounting(run);
    if run.phase() == Phase::Complete {
        lemma_complete_run(run);
    }
}

/// A run never moves back to an earlier phase: the phase after any series
/// of moves comes no earlier than the phase after the first `k` of them.
pub proof fn lemma_phases_in_order(start: RunView, steps: Seq<Step>, k: int)
    requires
        start.well_formed(),
        0 <= k <= steps.len(),
    ensures
        after_steps(start, steps).well_formed(),
        phase_rank(after_steps(start, steps.take(k)).phase()) <= phase_rank(
            after_steps(start, steps).phase(),
        ),
    decreases steps.len(),
{
    if k == steps.len() {
        assert(steps.take(k) =~= steps);
        if steps.len() > 0 {
            lemma_phases_in_order(start, steps.drop_last(), 0);
        }
    } else {
        lemma_phases_in_order(start, steps.drop_last(), k);
        assert(steps.drop_last().take(k) =~= steps.take(k));
    }
    if steps.len() > 0 {
        let before = after_steps(start, steps.drop_last());
        match steps.last() {
            Step::Claim { worker } => lemma_claim_preserves(before, worker),
            Step::Publish { worker, outcome } => lemma_publish_preserves(before, worker, outcome),
        }
    }
}

/// What one worker of the pool is doing.
enum Worker {
    Idle,
    Busy { target: String },
    Stopped,
}

impl View for Worker {
    type V = WorkerView;

    closed spec fn view(&self) -> WorkerView {
        match *self {
            Worker::Idle => WorkerView::Idle,
            Worker::Busy { target } => WorkerView::Busy { target: target@ },
            Worker::Stopped => WorkerView::Stopped,
        }
    }
}

/// The views of a sequence of workers.
spec fn worker_views(workers: Seq<Worker>) -> Seq<WorkerView> {
    Seq::new(workers.len(), |w: int| workers[w]@)
}

/// The answer to a worker's claim.
#[derive(Clone, Debug, PartialEq, Eq)]
pub enum Claim {
    /// The worker now holds this target and is to probe it.
    Target { target: String },
    /// Nothing is left; the worker terminates.
    Empty,
    /// The caller is no worker of this pool, or a worker that is not idle.
    Refused,
}

impl View for Claim {
    type V = ClaimView;

    open spec fn view(&self) -> ClaimView {
        match *self {
            Claim::Target { target } => ClaimView::Target { target: target@ },
            Claim::Empty => ClaimView::Empty,
            Claim::Refused => ClaimView::Refused,
        }
    }
}

/// One run of the worker pool over a list of targets.
///
/// The workers share the run behind a lock. Each worker, known by its
/// number, claims a target, probes it with the lock released, publishes the
/// outcome and claims again, until a claim finds the queue empty.
pub struct PoolRun {
    queue: WorkQueue,
    workers: Vec<Worker>,
    collector: ResultCollector,
    started: bool,
    seeded: Ghost<Seq<Seq<char>>>,
}

impl View for PoolRun {
    type V = RunView;

    closed spec fn view(&self) -> RunView {
        RunView {
            targets: self.seeded@,
            pending: self.queue@,
            workers: worker_views(self.workers@),
            outcomes: self.collector@,
            started: self.started,
        }
    }
}

impl PoolRun {
    /// Seeds a run with `targets` and a pool of `workers` workers; a pool
    /// always has at least one.
    pub fn new(targets: Vec<String>, workers: usize) -> (run: PoolRun)
        ensures
            run@ == RunView::seeded(texts(targets@), workers as nat),
            run@.well_formed(),
    {
        let size = if workers == 0 { 1 } else { workers };
        let mut slots: Vec<Worker> = Vec::new();
        while slots.len() < size
            invariant
                slots.len() <= size,
                forall|w: int| 0 <= w < slots.len() ==> slots[w] is Idle,
            decreases size - slots.len(),
        {
            slots.push(Worker::Idle);
        }
        let ghost seeded = texts(targets@);
        let run = PoolRun {
            queue: WorkQueue::new(targets),
            workers: slots,
            collector: ResultCollector::new(),
            started: false,
            seeded: Ghost(seeded),
        };
        proof {
            lemma_seeded_well_formed(seeded, workers as nat);
            assert(run@.workers =~= RunView::seeded(seeded, workers as nat).workers);
        }
        run
    }

    /// Number of workers in the pool.
    pub fn workers(&self) -> (n: usize)
        ensures
            n == self@.workers.len(),
    {
        self.workers.len()
    }

    /// Number of targets still in the queue.
    pub fn pending(&self) -> (n: usize)
        ensures
            n == self@.pending.len(),
    {
        self.queue.len()
    }

    /// Number of outcomes published so far.
    pub fn published(&self) -> (n: usize)
        ensures
            n == self@.outcomes.len(),
    {
        self.collector.len()
    }

    /// Worker `worker` asks for its next target. An idle worker is handed
    /// one from the queue, or told that the queue is empty, upon which it
    /// terminates. Any other caller is refused and nothing changes.
    pub fn claim(&mut self, worker: usize) -> (answer: Claim)
        requires
            old(self)@.well_formed(),
        ensures
            final(self)@ == old(self)@.claim(worker as int),
            answer@ == old(self)@.claim_answer(worker as int),
            final(self)@.well_formed(),
    {
        proof {
            lemma_claim_preserves(self@, worker as int);
        }
        if worker >= self.workers.len() {
            return Claim::Refused;
        }
        match &self.workers[worker] {
            Worker::Idle => {},
            _ => {
                return Claim::Refused;
            },
        }
        self.started = true;
        match self.queue.claim() {
            Some(target) => {
                self.workers.set(worker, Worker::Busy { target: target.clone() });
                assert(self@.workers =~= old(self)@.claim(worker as int).workers);
                Claim::Target { target }
            },
            None => {
                self.workers.set(worker, Worker::Stopped);
                assert(self@.workers =~= old(self)@.claim(worker as int).workers);
                Claim::Empty
            },
        }
    }

    /// Worker `worker` hands in the outcome for the target it holds and
    /// becomes idle again. An outcome from any other caller, or for another
    /// target, is handed back and nothing changes.
    pub fn publish(&mut self, worker: usize, outcome: WebsiteStatus) -> (refused: Option<
        WebsiteStatus,
    >)
        requires
            old(self)@.well_formed(),
        ensures
            final(self)@ == old(self)@.publish(worker as int, outcome@),
            final(self)@.well_formed(),
            match refused {
                None => old(self)@.may_publish(worker as int, outcome@),
                Some(back) => back == outcome && !old(self)@.may_publish(worker as int, outcome@),
            },
    {
        proof {
            lemma_publish_preserves(self@, worker as int, outcome@);
        }
        if worker >= self.workers.len() {
            return Some(outcome);
        }
        let holds = match &self.workers[worker] {
            Worker::Busy { target } => *target == outcome.url,
            _ => false,
        };
        if !holds {
            return Some(outcome);
        }
        self.workers.set(worker, Worker::Idle);
        self.collector.publish(outcome);
        assert(self@.workers =~= old(self)@.publish(worker as int, outcome@).workers);
        None
    }

    /// Whether every worker has terminated.
    pub fn is_complete(&self) -> (done: bool)
        ensures
            done == (self@.phase() == Phase::Complete),
    {
        let mut w: usize = 0;
        while w < self.workers.len()
            invariant
                w <= self.workers.len(),
                forall|v: int| 0 <= v < w ==> self@.workers[v] is Stopped,
            decreases self.workers.len() - w,
        {
            match &self.workers[w] {
                Worker::Stopped => {},
                _ => {
                    assert(!(self@.workers[w as int] is Stopped));
                    return false;
                },
            }
            w += 1;
        }
        true
    }

    /// The stage the run has reached.
    pub fn phase(&self) -> (phase: Phase)
        ensures
            phase == self@.phase(),
    {
        if self.is_complete() {
            Phase::Complete
        } else if !self.started {
            Phase::Seeded
        } else if self.queue.is_empty() {
            Phase::Draining
        } else {
            Phase::Running
        }
    }

    /// Ends the run and hands over the outcomes in arrival order: as `Ok`
    /// once the run is complete, when there is exactly one per seeded
    /// target; as `Err` before that, when they are those published so far.
    pub fn finish(self) -> (outcomes: Result<Vec<WebsiteStatus>, Vec<WebsiteStatus>>)
        requires
            self@.well_formed(),
        ensures
            outcomes is Ok <==> self@.phase() == Phase::Complete,
            match outcomes {
                Ok(all) => {
                    &&& outcome_views(all@) == self@.outcomes
                    &&& all.len() == self@.targets.len()
                    &&& probed(outcome_views(all@)).to_multiset() == self@.targets.to_multiset()
                },
                Err(some) => outcome_views(some@) == self@.outcomes,
            },
    {
        if self.is_complete() {
            proof {
                lemma_complete_run(self@);
            }
            Ok(self.collector.drain())
        } else {
            Err(self.collector.drain())
        }
    }
}

} // verus!
