//! The order in which a supervisor does its work.

use crate::bookkeeping::{parking_keeps_order, transfer_stays_at_node};
use crate::plan::RuntimeNode;
use crate::scaling::ScaleOperation;
use crate::supervisor::{merges, Book, Removal, Supervisor};
use vstd::prelude::*;

verus! {

/// What a supervisor does, one thing after the other.
#[derive(Clone, Copy, Debug, PartialEq, Eq, Structural)]
pub enum RunStep {
    /// Takes in what the workers tell of.
    DrainEvents,
    /// Takes in the failures that came from elsewhere.
    DrainFailures,
    /// Lets go of the links, once the pipeline is to end.
    ReleaseLinks,
    /// Measures links and nodes.
    Sample,
    /// Changes the number of workers at a node.
    Scale,
    /// Shows how the pipeline stands.
    Observe,
    /// Looks whether the work is done.
    CheckEnd,
    /// Waits for the next round.
    Sleep,
    /// Takes in the failures that came last.
    DrainLastFailures,
    /// Tells the parked workers to stop.
    StopParked,
    /// Waits for all workers.
    JoinWorkers,
    /// Shows how the pipeline stands at its end.
    ObserveEnd,
    /// Waits for what writes the log.
    StopRecorder,
    /// Gives what the pipeline leaves behind.
    GiveResult,
}

impl RunStep {
    /// Whether the step is one of those that end the pipeline.
    pub open spec fn is_closing(self) -> bool {
        match self {
            RunStep::DrainLastFailures => true,
            RunStep::StopParked => true,
            RunStep::JoinWorkers => true,
            RunStep::ObserveEnd => true,
            RunStep::StopRecorder => true,
            RunStep::GiveResult => true,
            _ => false,
        }
    }

    /// How many steps are left at most, from a step that ends the pipeline.
    pub open spec fn closing_steps(self) -> nat {
        match self {
            RunStep::DrainLastFailures => 5,
            RunStep::StopParked => 4,
            RunStep::JoinWorkers => 3,
            RunStep::ObserveEnd => 2,
            RunStep::StopRecorder => 1,
            _ => 0,
        }
    }

    /// The step that follows. `done` tells whether the work is done.
    pub open spec fn followed_by(self, done: bool) -> Option<RunStep> {
        match self {
            RunStep::DrainEvents => Some(RunStep::DrainFailures),
            RunStep::DrainFailures => Some(RunStep::ReleaseLinks),
            RunStep::ReleaseLinks => Some(RunStep::Sample),
            RunStep::Sample => Some(RunStep::Scale),
            RunStep::Scale => Some(RunStep::Observe),
            RunStep::Observe => Some(RunStep::CheckEnd),
            RunStep::CheckEnd => if done {
                Some(RunStep::DrainLastFailures)
            } else {
                Some(RunStep::Sleep)
            },
            RunStep::Sleep => Some(RunStep::DrainEvents),
            RunStep::DrainLastFailures => Some(RunStep::StopParked),
            RunStep::StopParked => Some(RunStep::JoinWorkers),
            RunStep::JoinWorkers => Some(RunStep::ObserveEnd),
            RunStep::ObserveEnd => Some(RunStep::StopRecorder),
            RunStep::StopRecorder => Some(RunStep::GiveResult),
            RunStep::GiveResult => None,
        }
    }

    /// The step that follows. `done` tells whether the work is done; only the look whether it is
    /// makes use of that.
    pub fn next(self, done: bool) -> (r: Option<RunStep>)
        ensures
            r == self.followed_by(done),
    {
        match self {
            RunStep::DrainEvents => Some(RunStep::DrainFailures),
            RunStep::DrainFailures => Some(RunStep::ReleaseLinks),
            RunStep::ReleaseLinks => Some(RunStep::Sample),
            RunStep::Sample => Some(RunStep::Scale),
            RunStep::Scale => Some(RunStep::Observe),
            RunStep::Observe => Some(RunStep::CheckEnd),
            RunStep::CheckEnd => {
                if done {
                    Some(RunStep::DrainLastFailures)
                } else {
                    Some(RunStep::Sleep)
                }
            },
            RunStep::Sleep => Some(RunStep::DrainEvents),
            RunStep::DrainLastFailures => Some(RunStep::StopParked),
            RunStep::StopParked => Some(RunStep::JoinWorkers),
            RunStep::JoinWorkers => Some(RunStep::ObserveEnd),
            RunStep::ObserveEnd => Some(RunStep::StopRecorder),
            RunStep::StopRecorder => Some(RunStep::GiveResult),
            RunStep::GiveResult => None,
        }
    }
}

/// The step after `n` more, where the work is found to be done as `done` tells.
pub open spec fn step_after(step: RunStep, done: Seq<bool>, n: nat) -> Option<RunStep>
    decreases n,
{
    if n == 0 {
        Some(step)
    } else {
        match step_after(step, done, (n - 1) as nat) {
            Some(reached) => reached.followed_by(done[n - 1]),
            None => None,
        }
    }
}

/// A supervisor that begins with a round ends the pipeline only once it was told that the work is
/// done.
pub proof fn ends_once_done(done: Seq<bool>, n: nat)
    requires
        n <= done.len(),
    ensures
        match step_after(RunStep::DrainEvents, done, n) {
            Some(step) => step.is_closing() ==> exists|i: int| 0 <= i < n && #[trigger] done[i],
            None => exists|i: int| 0 <= i < n && #[trigger] done[i],
        },
        (forall|i: int| 0 <= i < n ==> !#[trigger] done[i]) ==> (step_after(
            RunStep::DrainEvents,
            done,
            n,
        ) matches Some(step) && !step.is_closing()),
    decreases n,
{
    if n > 0 {
        ends_once_done(done, (n - 1) as nat);
        if let Some(before) = step_after(RunStep::DrainEvents, done, (n - 1) as nat) {
            if before is CheckEnd && done[n - 1] {
                assert(done[n - 1]);
            }
        }
    }
}

/// An end goes straight on to the result: each step is followed by one that is nearer to it.
pub proof fn end_is_straight(step: RunStep, done: bool)
    requires
        step.is_closing(),
    ensures
        match step.followed_by(done) {
            Some(next) => next.is_closing() && next.closing_steps() < step.closing_steps(),
            None => step is GiveResult,
        },
{
}

/// What has to be done so that the number of workers at a node changes.
#[derive(Clone, Copy, Debug, PartialEq, Eq, Structural)]
pub enum ScaleTask {
    Nothing,
    /// Give the worker, which was parked, to the node.
    Seat { worker_id: usize, node_index: usize },
    /// Start a worker and give it to the node.
    SpawnAndSeat { node_index: usize },
    /// Ask the worker to clean up and leave the node.
    Cleanup { worker_id: usize, node_index: usize },
    /// Ask the worker to leave the node and to hand its state over to the other.
    Transfer { source_worker_id: usize, target_worker_id: usize, node_index: usize },
}

/// The node that the operation is about.
pub open spec fn operation_node(operation: ScaleOperation) -> usize {
    match operation {
        ScaleOperation::Add { node_index } => node_index,
        ScaleOperation::Remove { node_index, worker_id } => node_index,
    }
}

impl<M, C, T, F, Q, R: Copy> Book<M, C, T, F, Q, R> {
    /// What has to be done for the operation. A parked worker is taken before one is started.
    pub open spec fn task<S, A>(
        self,
        operation: Option<ScaleOperation>,
        nodes: Seq<RuntimeNode<S, A, R>>,
    ) -> ScaleTask {
        match operation {
            None => ScaleTask::Nothing,
            Some(ScaleOperation::Add { node_index }) => if self.parked.len() > 0 {
                ScaleTask::Seat { worker_id: self.parked.last(), node_index }
            } else {
                ScaleTask::SpawnAndSeat { node_index }
            },
            Some(ScaleOperation::Remove { node_index, worker_id }) => match self.removal(
                node_index,
                worker_id,
                merges(nodes[node_index as int]),
            ) {
                Removal::Nothing => ScaleTask::Nothing,
                Removal::Cleanup { worker_id } => ScaleTask::Cleanup { worker_id, node_index },
                Removal::Transfer { source_worker_id, target_worker_id } => ScaleTask::Transfer {
                    source_worker_id,
                    target_worker_id,
                    node_index,
                },
            },
        }
    }

    /// The book once the task was found: a parked worker that is needed is no longer parked.
    pub open spec fn tasked(self, operation: Option<ScaleOperation>) -> Self {
        match operation {
            Some(ScaleOperation::Add { node_index }) => if self.parked.len() > 0 {
                self.unparked()
            } else {
                self
            },
            _ => self,
        }
    }
}

impl<E, M, C, T, F, Q, R: Copy> Supervisor<E, M, C, T, F, Q, R> {
    /// Decides what has to be done for the operation.
    pub fn take_task<S, A>(
        &mut self,
        operation: Option<ScaleOperation>,
        nodes: &Vec<RuntimeNode<S, A, R>>,
    ) -> (r: ScaleTask)
        requires
            operation matches Some(op) ==> operation_node(op) < old(self).active_by_node@.len()
                && operation_node(op) < nodes@.len(),
            operation matches Some(ScaleOperation::Remove { node_index, worker_id }) ==> (old(
                self,
            )@.leaver(node_index, worker_id) matches Some(w) ==> w < old(self).workers@.len()),
        ensures
            r == old(self)@.task(operation, nodes@),
            final(self)@ == old(self)@.tasked(operation),
            final(self).stored_failure == old(self).stored_failure,
    {
        match operation {
            None => ScaleTask::Nothing,
            Some(ScaleOperation::Add { node_index }) => match self.take_parked() {
                Some(worker_id) => ScaleTask::Seat { worker_id, node_index },
                None => ScaleTask::SpawnAndSeat { node_index },
            },
            Some(ScaleOperation::Remove { node_index, worker_id }) => match self.plan_removal(
                node_index,
                worker_id,
                nodes,
            ) {
                Removal::Nothing => ScaleTask::Nothing,
                Removal::Cleanup { worker_id } => ScaleTask::Cleanup { worker_id, node_index },
                Removal::Transfer { source_worker_id, target_worker_id } => ScaleTask::Transfer {
                    source_worker_id,
                    target_worker_id,
                    node_index,
                },
            },
        }
    }
}

/// A worker that is taken from the parked ones for a node is free to be given to it, and the book
/// stays in order; a worker that is to hand its state over does so within its node.
pub proof fn tasks_can_be_done<M, C, T, F, Q, R: Copy, S, A>(
    book: Book<M, C, T, F, Q, R>,
    operation: ScaleOperation,
    nodes: Seq<RuntimeNode<S, A, R>>,
)
    requires
        book.in_order(),
        operation_node(operation) < book.active.len(),
        operation matches ScaleOperation::Remove { node_index, worker_id } ==> worker_id is None,
    ensures
        book.tasked(Some(operation)).in_order(),
        match book.task(Some(operation), nodes) {
            ScaleTask::Seat { worker_id, node_index } => {
                &&& worker_id < book.workers.len()
                &&& book.workers[worker_id as int].active_node is None
                &&& !book.tasked(Some(operation)).parked.contains(worker_id)
            },
            ScaleTask::Cleanup { worker_id, node_index } => {
                book.active[node_index as int].contains(worker_id)
            },
            ScaleTask::Transfer { source_worker_id, target_worker_id, node_index } => {
                &&& source_worker_id != target_worker_id
                &&& book.active[node_index as int].contains(source_worker_id)
                &&& book.active[node_index as int].contains(target_worker_id)
            },
            _ => true,
        },
{
    transfer_stays_at_node(
        book,
        operation_node(operation),
        merges(nodes[operation_node(operation) as int]),
    );
    if operation is Add && book.parked.len() > 0 {
        parking_keeps_order(book, 0);
    }
}

} // verus!
