//! What a worker does from the moment it is given to a node until it leaves it.
//!
//! A worker is a machine: it names the next thing to be done outside, and goes on with what came of
//! it. `M` is the type of states, `I` that of items; a state that is asked for comes out of a `C`, and
//! one that is handed over goes into a `K`.

use crate::branch::{ArmRates, FillOrder, WeightedBranchController};
use crate::control::{LinkCounts, NodeSample};
use crate::error::NodeFailure;
use crate::links::{next_count, RecvPoll};
use crate::supervisor::WorkerEvent;
use vstd::prelude::*;

verus! {

/// How a worker is to leave its node.
#[derive(Debug, PartialEq, Eq)]
pub enum RetireAction<K> {
    Cleanup,
    Transfer(K),
}

/// Where a worker is asked to leave its node.
#[derive(Debug)]
pub struct RetireControl<K> {
    pub requested: bool,
    pub transfer_sender: Option<K>,
}

impl<K> RetireControl<K> {
    /// Nothing is asked.
    pub fn new() -> (r: Self)
        ensures
            r == (RetireControl { requested: false, transfer_sender: None::<K> }),
    {
        RetireControl { requested: false, transfer_sender: None }
    }

    /// Asks the worker to clean up its state and leave.
    pub fn request_cleanup(&mut self)
        ensures
            *final(self) == (RetireControl { requested: true, ..*old(self) }),
    {
        self.requested = true;
    }

    /// Asks the worker to hand its state over and leave.
    pub fn request_transfer(&mut self, sender: K)
        ensures
            *final(self) == (RetireControl { requested: true, transfer_sender: Some(sender) }),
    {
        self.transfer_sender = Some(sender);
        self.requested = true;
    }

    /// What is asked of the worker, if anything is.
    pub open spec fn request(self) -> Option<RetireAction<K>> {
        if !self.requested {
            None
        } else {
            match self.transfer_sender {
                Some(sender) => Some(RetireAction::Transfer(sender)),
                None => Some(RetireAction::Cleanup),
            }
        }
    }

    /// Takes what is asked of the worker, if anything is. Nothing is asked afterwards.
    pub fn take_request(&mut self) -> (r: Option<RetireAction<K>>)
        ensures
            r == old(self).request(),
            final(self).request() is None,
            *final(self) == if old(self).requested {
                RetireControl { requested: false, transfer_sender: None::<K> }
            } else {
                *old(self)
            },
    {
        if !self.requested {
            return None;
        }
        let transfer: Option<K> = self.transfer_sender.take();
        self.requested = false;
        match transfer {
            Some(sender) => Some(RetireAction::Transfer(sender)),
            None => Some(RetireAction::Cleanup),
        }
    }
}

/// What is counted of a worker's work. Counts start anew once they have passed the largest number.
#[derive(Clone, Copy, Debug, PartialEq, Eq, Structural)]
pub struct WorkerStats {
    pub process_nanos: u64,
    pub wait_nanos: u64,
    pub processed_items: u64,
}

/// The sum of two counts, started anew past the largest number.
pub open spec fn wrapped_sum(a: u64, b: u64) -> int {
    (a + b) % (u64::MAX + 1)
}

impl WorkerStats {
    /// Sets every count to zero.
    pub fn reset(&mut self)
        ensures
            *final(self) == (WorkerStats { process_nanos: 0, wait_nanos: 0, processed_items: 0 }),
    {
        self.process_nanos = 0;
        self.wait_nanos = 0;
        self.processed_items = 0;
    }

    /// Counts time that was spent waiting for an item.
    pub fn note_wait(&mut self, nanos: u64)
        ensures
            final(self).wait_nanos == wrapped_sum(old(self).wait_nanos, nanos),
            final(self).process_nanos == old(self).process_nanos,
            final(self).processed_items == old(self).processed_items,
    {
        self.wait_nanos = self.wait_nanos.wrapping_add(nanos);
    }

    /// Counts time that was spent on an item, and the item where nothing went wrong with it.
    pub fn note_processing(&mut self, nanos: u64, done: bool)
        ensures
            final(self).process_nanos == wrapped_sum(old(self).process_nanos, nanos),
            final(self).wait_nanos == old(self).wait_nanos,
            final(self).processed_items == if done {
                next_count(old(self).processed_items)
            } else {
                old(self).processed_items
            },
    {
        self.process_nanos = self.process_nanos.wrapping_add(nanos);
        if done {
            self.processed_items = self.processed_items.wrapping_add(1);
        }
    }

    /// Counts an item that was passed on.
    pub fn note_item(&mut self)
        ensures
            *final(self) == (WorkerStats {
                processed_items: next_count(old(self).processed_items),
                ..*old(self)
            }),
    {
        self.processed_items = self.processed_items.wrapping_add(1);
    }

    /// Takes what was counted; every count is zero afterwards.
    pub fn take(&mut self) -> (r: NodeSample)
        ensures
            r.process_nanos == old(self).process_nanos,
            r.wait_nanos == old(self).wait_nanos,
            r.processed_items == old(self).processed_items,
            *final(self) == (WorkerStats { process_nanos: 0, wait_nanos: 0, processed_items: 0 }),
    {
        let sample: NodeSample = NodeSample {
            process_nanos: self.process_nanos,
            wait_nanos: self.wait_nanos,
            processed_items: self.processed_items,
        };
        self.reset();
        sample
    }
}

impl Default for WorkerStats {
    /// Nothing is counted.
    fn default() -> (r: Self)
        ensures
            r == (WorkerStats { process_nanos: 0, wait_nanos: 0, processed_items: 0 }),
    {
        WorkerStats { process_nanos: 0, wait_nanos: 0, processed_items: 0 }
    }
}

/// What made a worker fail.
#[derive(Debug)]
pub enum WorkerFault<E> {
    /// The node's code.
    Node(NodeFailure<E>),
    /// Nobody can ask it to take in states any more.
    MergeRequestsClosed,
    /// A state that it was to take in never came.
    StateLost,
    /// Nobody takes the state that it hands over.
    TransferClosed,
}

/// What a worker reports.
#[derive(Debug)]
pub enum WorkerReport<E, M> {
    Started,
    /// It has taken in the state of that worker.
    Merged { source_worker_id: usize },
    /// It has left its node.
    Parked { returned_state: Option<M> },
    /// It has left its node because something went wrong.
    Failed { fault: WorkerFault<E> },
}

/// What has to be done next for a worker.
#[derive(Debug)]
pub enum WorkerAction<E, M, I, K, C> {
    /// Make a state.
    Init,
    Report(WorkerReport<E, M>),
    /// Look whether the pipeline is aborted.
    LoadAbort,
    /// Look whether states are to be taken in, and take that back.
    TakeMergeFlag,
    /// Look for a request to take in a state.
    NextMergeRequest,
    /// Wait for the state.
    ReceiveState { receiver: C },
    /// Take the source into the state.
    Merge { state: M, source: M },
    /// Look whether the worker is to leave its node.
    TakeRetire,
    /// Wait for an item.
    Poll,
    /// Work on the item.
    Process { state: M, item: I },
    /// Look whether the worker is to stop, as no item came.
    LoadStop,
    /// Look whether the pipeline is aborted, as no item will come.
    LoadFinalAbort,
    /// Hand the state over.
    Transfer { state: M, sender: K },
    /// Clean the state up.
    Cleanup { state: M },
    /// There is nothing left to do.
    Finish,
}

/// What came of what was done.
#[derive(Debug)]
pub enum WorkerReply<E, M, I, K, C> {
    Initialized(Result<M, NodeFailure<E>>),
    Reported,
    Abort(bool),
    MergeFlag(bool),
    /// A request with its source and what its state comes out of; `None` where there is none.
    MergeRequest(Option<(usize, C)>),
    /// There will be no requests any more.
    MergeRequestsClosed,
    /// The state, unless it never came.
    StateReceived(Option<M>),
    Merged { state: M, result: Result<(), NodeFailure<E>> },
    Retire(Option<RetireAction<K>>),
    Polled(RecvPoll<I>),
    Processed { state: M, result: Result<(), NodeFailure<E>> },
    Stop {
        abort: bool,
        /// Whether the worker's link is done.
        terminated: bool,
        shutdown: bool,
        /// Whether the worker stops without an item once the pipeline is shut down.
        stops_on_shutdown: bool,
    },
    Transferred(bool),
    CleanedUp(Result<(), NodeFailure<E>>),
}

/// Where a worker is.
#[derive(Clone, Copy, Debug, PartialEq, Eq, Structural)]
pub enum WorkerPhase {
    Initializing,
    Starting,
    Looking,
    CheckingMerge,
    FetchingRequest,
    AwaitingState { source_worker_id: usize },
    Merging { source_worker_id: usize },
    ReportingMerge,
    CheckingRetire,
    Polling,
    Processing,
    TimedOut,
    Disconnected,
    Transferring,
    CleaningUp,
    Ending,
    Ended,
}

/// How a worker leaves its node.
#[derive(Debug)]
pub enum WorkerExit<K> {
    Graceful,
    Abort,
    Retire(RetireAction<K>),
}

/// A worker at a node whose code the pipeline runs.
#[derive(Debug)]
pub struct ManagedWorker<M> {
    pub phase: WorkerPhase,
    pub state: Option<M>,
    pub return_state_on_exit: bool,
}

impl WorkerPhase {
    /// Whether the worker itself holds its state there.
    pub open spec fn holds_state(self) -> bool {
        match self {
            WorkerPhase::Initializing => false,
            WorkerPhase::Merging { source_worker_id } => false,
            WorkerPhase::Processing => false,
            WorkerPhase::Transferring => false,
            WorkerPhase::CleaningUp => false,
            WorkerPhase::Ending => false,
            WorkerPhase::Ended => false,
            _ => true,
        }
    }

    /// Whether the worker has parted with its state, or never got one.
    pub open spec fn is_leaving(self) -> bool {
        self is Transferring || self is CleaningUp || self is Ending || self is Ended
    }
}

impl<M> ManagedWorker<M> {
    /// Whether the worker holds a state exactly where it should.
    pub open spec fn wf(self) -> bool {
        self.state is Some <==> self.phase.holds_state()
    }

    /// The worker at that place, with its state.
    pub open spec fn at(self, phase: WorkerPhase) -> Self {
        ManagedWorker { phase, ..self }
    }

    /// The worker at that place, with this state.
    pub open spec fn holding(self, phase: WorkerPhase, state: M) -> Self {
        ManagedWorker { phase, state: Some(state), ..self }
    }

    /// The worker at that place, without a state.
    pub open spec fn bare(self, phase: WorkerPhase) -> Self {
        ManagedWorker { phase, state: None, ..self }
    }

    /// What a worker whose last report this is does.
    pub open spec fn ending<E, I, K, C>(self, report: WorkerReport<E, M>) -> (
        Self,
        WorkerAction<E, M, I, K, C>,
    ) {
        (self.bare(WorkerPhase::Ending), WorkerAction::Report(report))
    }

    /// What a worker that leaves its node does. On an abort its state is dropped; otherwise it is
    /// given back, handed over or cleaned up.
    pub open spec fn leaving<E, I, K, C>(self, exit: WorkerExit<K>) -> (
        Self,
        WorkerAction<E, M, I, K, C>,
    ) {
        match exit {
            WorkerExit::Abort => self.ending(WorkerReport::Parked { returned_state: None }),
            WorkerExit::Retire(RetireAction::Transfer(sender)) => (
                self.bare(WorkerPhase::Transferring),
                WorkerAction::Transfer { state: self.state->0, sender },
            ),
            WorkerExit::Retire(RetireAction::Cleanup) => (
                self.bare(WorkerPhase::CleaningUp),
                WorkerAction::Cleanup { state: self.state->0 },
            ),
            WorkerExit::Graceful => if self.return_state_on_exit {
                self.ending(WorkerReport::Parked { returned_state: self.state })
            } else {
                (
                    self.bare(WorkerPhase::CleaningUp),
                    WorkerAction::Cleanup { state: self.state->0 },
                )
            },
        }
    }

    /// Whether this can come of what the worker had done last.
    pub open spec fn expects<E, I, K, C>(self, reply: WorkerReply<E, M, I, K, C>) -> bool {
        match self.phase {
            WorkerPhase::Initializing => reply is Initialized,
            WorkerPhase::Starting => reply is Reported,
            WorkerPhase::Looking => reply is Abort,
            WorkerPhase::CheckingMerge => reply is MergeFlag,
            WorkerPhase::FetchingRequest => reply is MergeRequest || reply is MergeRequestsClosed,
            WorkerPhase::AwaitingState { source_worker_id } => reply is StateReceived,
            WorkerPhase::Merging { source_worker_id } => reply is Merged,
            WorkerPhase::ReportingMerge => reply is Reported,
            WorkerPhase::CheckingRetire => reply is Retire,
            WorkerPhase::Polling => reply is Polled,
            WorkerPhase::Processing => reply is Processed,
            WorkerPhase::TimedOut => reply is Stop,
            WorkerPhase::Disconnected => reply is Abort,
            WorkerPhase::Transferring => reply is Transferred,
            WorkerPhase::CleaningUp => reply is CleanedUp,
            WorkerPhase::Ending => reply is Reported,
            WorkerPhase::Ended => false,
        }
    }

    /// Where the worker goes from where it is, and what has to be done next.
    pub open spec fn step<E, I, K, C>(self, reply: WorkerReply<E, M, I, K, C>) -> (
        Self,
        WorkerAction<E, M, I, K, C>,
    ) {
        match (self.phase, reply) {
            (WorkerPhase::Initializing, WorkerReply::Initialized(Ok(state))) => (
                self.holding(WorkerPhase::Starting, state),
                WorkerAction::Report(WorkerReport::Started),
            ),
            (WorkerPhase::Initializing, WorkerReply::Initialized(Err(failure))) => self.ending(
                WorkerReport::Failed { fault: WorkerFault::Node(failure) },
            ),
            (WorkerPhase::Starting, WorkerReply::Reported) => (
                self.at(WorkerPhase::Looking),
                WorkerAction::LoadAbort,
            ),
            (WorkerPhase::Looking, WorkerReply::Abort(abort)) => if abort {
                self.leaving(WorkerExit::Abort)
            } else {
                (self.at(WorkerPhase::CheckingMerge), WorkerAction::TakeMergeFlag)
            },
            (WorkerPhase::CheckingMerge, WorkerReply::MergeFlag(pending)) => if pending {
                (self.at(WorkerPhase::FetchingRequest), WorkerAction::NextMergeRequest)
            } else {
                (self.at(WorkerPhase::CheckingRetire), WorkerAction::TakeRetire)
            },
            (WorkerPhase::FetchingRequest, WorkerReply::MergeRequest(None)) => (
                self.at(WorkerPhase::CheckingRetire),
                WorkerAction::TakeRetire,
            ),
            (
                WorkerPhase::FetchingRequest,
                WorkerReply::MergeRequest(Some((source_worker_id, receiver))),
            ) => (
                self.at(WorkerPhase::AwaitingState { source_worker_id }),
                WorkerAction::ReceiveState { receiver },
            ),
            (WorkerPhase::FetchingRequest, WorkerReply::MergeRequestsClosed) => self.ending(
                WorkerReport::Failed { fault: WorkerFault::MergeRequestsClosed },
            ),
            (
                WorkerPhase::AwaitingState { source_worker_id },
                WorkerReply::StateReceived(Some(source)),
            ) => (
                self.bare(WorkerPhase::Merging { source_worker_id }),
                WorkerAction::Merge { state: self.state->0, source },
            ),
            (WorkerPhase::AwaitingState { source_worker_id }, WorkerReply::StateReceived(None)) => {
                self.ending(WorkerReport::Failed { fault: WorkerFault::StateLost })
            },
            (WorkerPhase::Merging { source_worker_id }, WorkerReply::Merged { state, result }) => {
                match result {
                    Ok(_) => (
                        self.holding(WorkerPhase::ReportingMerge, state),
                        WorkerAction::Report(WorkerReport::Merged { source_worker_id }),
                    ),
                    Err(failure) => self.ending(
                        WorkerReport::Failed { fault: WorkerFault::Node(failure) },
                    ),
                }
            },
            (WorkerPhase::ReportingMerge, WorkerReply::Reported) => (
                self.at(WorkerPhase::FetchingRequest),
                WorkerAction::NextMergeRequest,
            ),
            (WorkerPhase::CheckingRetire, WorkerReply::Retire(Some(retire))) => self.leaving(
                WorkerExit::Retire(retire),
            ),
            (WorkerPhase::CheckingRetire, WorkerReply::Retire(None)) => (
                self.at(WorkerPhase::Polling),
                WorkerAction::Poll,
            ),
            (WorkerPhase::Polling, WorkerReply::Polled(RecvPoll::Item(item))) => (
                self.bare(WorkerPhase::Processing),
                WorkerAction::Process { state: self.state->0, item },
            ),
            (WorkerPhase::Polling, WorkerReply::Polled(RecvPoll::Timeout)) => (
                self.at(WorkerPhase::TimedOut),
                WorkerAction::LoadStop,
            ),
            (WorkerPhase::Polling, WorkerReply::Polled(RecvPoll::Disconnected)) => (
                self.at(WorkerPhase::Disconnected),
                WorkerAction::LoadFinalAbort,
            ),
            (WorkerPhase::Processing, WorkerReply::Processed { state, result }) => match result {
                Ok(_) => (self.holding(WorkerPhase::Looking, state), WorkerAction::LoadAbort),
                Err(failure) => self.ending(
                    WorkerReport::Failed { fault: WorkerFault::Node(failure) },
                ),
            },
            (
                WorkerPhase::TimedOut,
                WorkerReply::Stop { abort, terminated, shutdown, stops_on_shutdown },
            ) => if abort {
                self.leaving(WorkerExit::Abort)
            } else if terminated || shutdown && stops_on_shutdown {
                self.leaving(WorkerExit::Graceful)
            } else {
                (self.at(WorkerPhase::Looking), WorkerAction::LoadAbort)
            },
            (WorkerPhase::Disconnected, WorkerReply::Abort(abort)) => if abort {
                self.leaving(WorkerExit::Abort)
            } else {
                self.leaving(WorkerExit::Graceful)
            },
            (WorkerPhase::Transferring, WorkerReply::Transferred(sent)) => if sent {
                self.ending(WorkerReport::Parked { returned_state: None })
            } else {
                self.ending(WorkerReport::Failed { fault: WorkerFault::TransferClosed })
            },
            (WorkerPhase::CleaningUp, WorkerReply::CleanedUp(result)) => match result {
                Ok(_) => self.ending(WorkerReport::Parked { returned_state: None }),
                Err(failure) => self.ending(
                    WorkerReport::Failed { fault: WorkerFault::Node(failure) },
                ),
            },
            (WorkerPhase::Ending, WorkerReply::Reported) => (
                self.at(WorkerPhase::Ended),
                WorkerAction::Finish,
            ),
            _ => (self, WorkerAction::Finish),
        }
    }

    /// A worker that begins at its node, and the first thing to be done: its state is made, unless it
    /// brings one.
    pub fn begin<E, I, K, C>(initial_state: Option<M>, return_state_on_exit: bool) -> (r: (
        Self,
        WorkerAction<E, M, I, K, C>,
    ))
        ensures
            r.0.wf(),
            r.0.return_state_on_exit == return_state_on_exit,
            r.0.state == initial_state,
            match initial_state {
                Some(_) => r.0.phase is Starting && r.1 == WorkerAction::<E, M, I, K, C>::Report(
                    WorkerReport::Started,
                ),
                None => r.0.phase is Initializing && r.1 == WorkerAction::<E, M, I, K, C>::Init,
            },
    {
        match initial_state {
            Some(state) => (
                ManagedWorker {
                    phase: WorkerPhase::Starting,
                    state: Some(state),
                    return_state_on_exit,
                },
                WorkerAction::Report(WorkerReport::Started),
            ),
            None => (
                ManagedWorker {
                    phase: WorkerPhase::Initializing,
                    state: None,
                    return_state_on_exit,
                },
                WorkerAction::Init,
            ),
        }
    }

    fn end<E, I, K, C>(&mut self, report: WorkerReport<E, M>) -> (r: WorkerAction<E, M, I, K, C>)
        ensures
            (*final(self), r) == old(self).ending::<E, I, K, C>(report),
    {
        self.phase = WorkerPhase::Ending;
        self.state = None;
        WorkerAction::Report(report)
    }

    fn fail<E, I, K, C>(&mut self, fault: WorkerFault<E>) -> (r: WorkerAction<E, M, I, K, C>)
        ensures
            (*final(self), r) == old(self).ending::<E, I, K, C>(WorkerReport::Failed { fault }),
    {
        self.end(WorkerReport::Failed { fault })
    }

    fn leave<E, I, K, C>(&mut self, exit: WorkerExit<K>) -> (r: WorkerAction<E, M, I, K, C>)
        requires
            old(self).state is Some,
        ensures
            (*final(self), r) == old(self).leaving::<E, I, K, C>(exit),
    {
        let state: M = match self.state.take() {
            Some(state) => state,
            None => {
                return WorkerAction::Finish;
            },
        };
        match exit {
            WorkerExit::Abort => self.end(WorkerReport::Parked { returned_state: None }),
            WorkerExit::Retire(RetireAction::Transfer(sender)) => {
                self.phase = WorkerPhase::Transferring;
                WorkerAction::Transfer { state, sender }
            },
            WorkerExit::Retire(RetireAction::Cleanup) => {
                self.phase = WorkerPhase::CleaningUp;
                WorkerAction::Cleanup { state }
            },
            WorkerExit::Graceful => {
                if self.return_state_on_exit {
                    self.end(WorkerReport::Parked { returned_state: Some(state) })
                } else {
                    self.phase = WorkerPhase::CleaningUp;
                    WorkerAction::Cleanup { state }
                }
            },
        }
    }

    fn go<E, I, K, C>(&mut self, phase: WorkerPhase, action: WorkerAction<E, M, I, K, C>) -> (r:
        WorkerAction<E, M, I, K, C>)
        ensures
            *final(self) == old(self).at(phase),
            r == action,
    {
        self.phase = phase;
        action
    }

    /// Goes on with what came of what was done last. Tells what has to be done next.
    pub fn advance<E, I, K, C>(&mut self, reply: WorkerReply<E, M, I, K, C>) -> (r: WorkerAction<
        E,
        M,
        I,
        K,
        C,
    >)
        requires
            old(self).wf(),
            old(self).expects(reply),
        ensures
            (*final(self), r) == old(self).step(reply),
            final(self).wf(),
    {
        match reply {
            WorkerReply::Initialized(Ok(state)) => {
                self.state = Some(state);
                self.go(WorkerPhase::Starting, WorkerAction::Report(WorkerReport::Started))
            },
            WorkerReply::Initialized(Err(failure)) => self.fail(WorkerFault::Node(failure)),
            WorkerReply::Reported => match self.phase {
                WorkerPhase::ReportingMerge => self.go(
                    WorkerPhase::FetchingRequest,
                    WorkerAction::NextMergeRequest,
                ),
                WorkerPhase::Ending => self.go(WorkerPhase::Ended, WorkerAction::Finish),
                _ => self.go(WorkerPhase::Looking, WorkerAction::LoadAbort),
            },
            WorkerReply::Abort(abort) => {
                if abort {
                    self.leave(WorkerExit::Abort)
                } else if matches!(self.phase, WorkerPhase::Disconnected) {
                    self.leave(WorkerExit::Graceful)
                } else {
                    self.go(WorkerPhase::CheckingMerge, WorkerAction::TakeMergeFlag)
                }
            },
            WorkerReply::MergeFlag(pending) => {
                if pending {
                    self.go(WorkerPhase::FetchingRequest, WorkerAction::NextMergeRequest)
                } else {
                    self.go(WorkerPhase::CheckingRetire, WorkerAction::TakeRetire)
                }
            },
            WorkerReply::MergeRequest(None) => self.go(
                WorkerPhase::CheckingRetire,
                WorkerAction::TakeRetire,
            ),
            WorkerReply::MergeRequest(Some((source_worker_id, receiver))) => self.go(
                WorkerPhase::AwaitingState { source_worker_id },
                WorkerAction::ReceiveState { receiver },
            ),
            WorkerReply::MergeRequestsClosed => self.fail(WorkerFault::MergeRequestsClosed),
            WorkerReply::StateReceived(None) => self.fail(WorkerFault::StateLost),
            WorkerReply::StateReceived(Some(source)) => {
                let state: Option<M> = self.state.take();
                match (self.phase, state) {
                    (WorkerPhase::AwaitingState { source_worker_id }, Some(state)) => self.go(
                        WorkerPhase::Merging { source_worker_id },
                        WorkerAction::Merge { state, source },
                    ),
                    _ => WorkerAction::Finish,
                }
            },
            WorkerReply::Merged { state, result: Ok(_) } => {
                self.state = Some(state);
                match self.phase {
                    WorkerPhase::Merging { source_worker_id } => self.go(
                        WorkerPhase::ReportingMerge,
                        WorkerAction::Report(WorkerReport::Merged { source_worker_id }),
                    ),
                    _ => WorkerAction::Finish,
                }
            },
            WorkerReply::Merged { state: _, result: Err(failure) } => self.fail(
                WorkerFault::Node(failure),
            ),
            WorkerReply::Retire(Some(retire)) => self.leave(WorkerExit::Retire(retire)),
            WorkerReply::Retire(None) => self.go(WorkerPhase::Polling, WorkerAction::Poll),
            WorkerReply::Polled(RecvPoll::Item(item)) => {
                let state: Option<M> = self.state.take();
                match state {
                    Some(state) => self.go(
                        WorkerPhase::Processing,
                        WorkerAction::Process { state, item },
                    ),
                    None => WorkerAction::Finish,
                }
            },
            WorkerReply::Polled(RecvPoll::Timeout) => self.go(
                WorkerPhase::TimedOut,
                WorkerAction::LoadStop,
            ),
            WorkerReply::Polled(RecvPoll::Disconnected) => self.go(
                WorkerPhase::Disconnected,
                WorkerAction::LoadFinalAbort,
            ),
            WorkerReply::Processed { state, result: Ok(_) } => {
                self.state = Some(state);
                self.go(WorkerPhase::Looking, WorkerAction::LoadAbort)
            },
            WorkerReply::Processed { state: _, result: Err(failure) } => self.fail(
                WorkerFault::Node(failure),
            ),
            WorkerReply::Stop { abort, terminated, shutdown, stops_on_shutdown } => {
                if abort {
                    self.leave(WorkerExit::Abort)
                } else if terminated || (shutdown && stops_on_shutdown) {
                    self.leave(WorkerExit::Graceful)
                } else {
                    self.go(WorkerPhase::Looking, WorkerAction::LoadAbort)
                }
            },
            WorkerReply::Transferred(sent) => {
                if sent {
                    self.end(WorkerReport::Parked { returned_state: None })
                } else {
                    self.fail(WorkerFault::TransferClosed)
                }
            },
            WorkerReply::CleanedUp(Ok(_)) => self.end(WorkerReport::Parked { returned_state: None }),
            WorkerReply::CleanedUp(Err(failure)) => self.fail(WorkerFault::Node(failure)),
        }
    }
}

/// Whether the failure is that of the fault.
pub open spec fn is_failure_of<E>(failure: NodeFailure<E>, fault: WorkerFault<E>) -> bool {
    match fault {
        WorkerFault::Node(inner) => failure == inner,
        WorkerFault::MergeRequestsClosed => failure matches NodeFailure::Internal(message)
            && message@ == "worker merge request channel closed"@,
        WorkerFault::StateLost => failure matches NodeFailure::Internal(message) && message@
            == "worker state transfer channel closed"@,
        WorkerFault::TransferClosed => failure matches NodeFailure::Internal(message) && message@
            == "state transfer receiver closed"@,
    }
}

/// Whether the event is the report of that worker at that node.
pub open spec fn is_event_of<E, M>(
    event: WorkerEvent<E, M>,
    report: WorkerReport<E, M>,
    worker: usize,
    node: usize,
    name: Seq<char>,
) -> bool {
    match report {
        WorkerReport::Started => event == WorkerEvent::<E, M>::Started { worker_id: worker },
        WorkerReport::Merged { source_worker_id } => event == WorkerEvent::<E, M>::MergeCompleted {
            worker_id: worker,
            node_index: node,
            source_worker_id,
        },
        WorkerReport::Parked { returned_state } => event == WorkerEvent::<E, M>::Parked {
            worker_id: worker,
            node_index: node,
            returned_state,
        },
        WorkerReport::Failed { fault } => event matches WorkerEvent::Failed {
            worker_id,
            node_index,
            worker: w,
            failure,
        } && worker_id == worker && node_index == node && w@ == name && is_failure_of(
            failure,
            fault,
        ),
    }
}

/// The event by which the supervisor learns of a worker's report.
pub fn worker_event<E, M>(
    report: WorkerReport<E, M>,
    worker_id: usize,
    node_index: usize,
    worker: &str,
) -> (r: WorkerEvent<E, M>)
    ensures
        is_event_of(r, report, worker_id, node_index, worker@),
{
    match report {
        WorkerReport::Started => WorkerEvent::Started { worker_id },
        WorkerReport::Merged { source_worker_id } => WorkerEvent::MergeCompleted {
            worker_id,
            node_index,
            source_worker_id,
        },
        WorkerReport::Parked { returned_state } => WorkerEvent::Parked {
            worker_id,
            node_index,
            returned_state,
        },
        WorkerReport::Failed { fault } => {
            let failure: NodeFailure<E> = match fault {
                WorkerFault::Node(failure) => failure,
                WorkerFault::MergeRequestsClosed => NodeFailure::Internal(
                    "worker merge request channel closed".to_owned(),
                ),
                WorkerFault::StateLost => NodeFailure::Internal(
                    "worker state transfer channel closed".to_owned(),
                ),
                WorkerFault::TransferClosed => NodeFailure::Internal(
                    "state transfer receiver closed".to_owned(),
                ),
            };
            WorkerEvent::Failed { worker_id, node_index, worker: worker.to_owned(), failure }
        },
    }
}

/// Whether these are replies that can come in this order to a worker that begins as this one.
pub open spec fn can_come<E, M, I, K, C>(
    worker: ManagedWorker<M>,
    replies: Seq<WorkerReply<E, M, I, K, C>>,
    n: nat,
) -> bool
    decreases n,
{
    n == 0 || n <= replies.len() && can_come(worker, replies, (n - 1) as nat) && after(
        worker,
        replies,
        (n - 1) as nat,
    ).expects(replies[n - 1])
}

/// The worker once the first `n` replies have come.
pub open spec fn after<E, M, I, K, C>(
    worker: ManagedWorker<M>,
    replies: Seq<WorkerReply<E, M, I, K, C>>,
    n: nat,
) -> ManagedWorker<M>
    decreases n,
{
    if n == 0 {
        worker
    } else {
        after(worker, replies, (n - 1) as nat).step(replies[n - 1]).0
    }
}

/// What is done after the reply numbered `i`.
pub open spec fn action_at<E, M, I, K, C>(
    worker: ManagedWorker<M>,
    replies: Seq<WorkerReply<E, M, I, K, C>>,
    i: int,
) -> WorkerAction<E, M, I, K, C> {
    after(worker, replies, i as nat).step(replies[i]).1
}

/// Whether it is the report of a worker that has left its node.
pub open spec fn is_last_report<E, M, I, K, C>(action: WorkerAction<E, M, I, K, C>) -> bool {
    action matches WorkerAction::Report(report) && (report is Parked || report is Failed)
}

/// Whether the worker parts with its state: it is given back, handed over or cleaned up.
pub open spec fn parts_with_state<E, M, I, K, C>(action: WorkerAction<E, M, I, K, C>) -> bool {
    match action {
        WorkerAction::Transfer { state, sender } => true,
        WorkerAction::Cleanup { state } => true,
        WorkerAction::Report(WorkerReport::Parked { returned_state }) => returned_state is Some,
        _ => false,
    }
}

/// How many of the things done after the first `n` replies are the report of a worker that has left
/// its node.
pub open spec fn last_reports<E, M, I, K, C>(
    worker: ManagedWorker<M>,
    replies: Seq<WorkerReply<E, M, I, K, C>>,
    n: nat,
) -> nat
    decreases n,
{
    if n == 0 {
        0
    } else {
        last_reports(worker, replies, (n - 1) as nat) + if is_last_report(
            action_at(worker, replies, n - 1),
        ) {
            1nat
        } else {
            0nat
        }
    }
}

/// How often the worker has parted with its state after the first `n` replies.
pub open spec fn partings<E, M, I, K, C>(
    worker: ManagedWorker<M>,
    replies: Seq<WorkerReply<E, M, I, K, C>>,
    n: nat,
) -> nat
    decreases n,
{
    if n == 0 {
        0
    } else {
        partings(worker, replies, (n - 1) as nat) + if parts_with_state(
            action_at(worker, replies, n - 1),
        ) {
            1nat
        } else {
            0nat
        }
    }
}

/// Whatever comes, a worker that begins at its node keeps track of its state and reports once that it
/// has left: it has reported so exactly when it ends or has ended. It parts with its state once at
/// most, and not before it leaves.
pub proof fn worker_leaves_once<E, M, I, K, C>(
    worker: ManagedWorker<M>,
    replies: Seq<WorkerReply<E, M, I, K, C>>,
    n: nat,
)
    requires
        worker.wf(),
        worker.phase is Initializing || worker.phase is Starting,
        can_come(worker, replies, n),
    ensures
        after(worker, replies, n).wf(),
        last_reports(worker, replies, n) == if after(worker, replies, n).phase is Ending || after(
            worker,
            replies,
            n,
        ).phase is Ended {
            1nat
        } else {
            0nat
        },
        partings(worker, replies, n) <= 1,
        !after(worker, replies, n).phase.is_leaving() ==> partings(worker, replies, n) == 0,
    decreases n,
{
    if n > 0 {
        worker_leaves_once(worker, replies, (n - 1) as nat);
    }
}

/// Whether the reply says that the pipeline is aborted.
pub open spec fn tells_of_abort<E, M, I, K, C>(reply: WorkerReply<E, M, I, K, C>) -> bool {
    match reply {
        WorkerReply::Abort(abort) => abort,
        WorkerReply::Stop { abort, terminated, shutdown, stops_on_shutdown } => abort,
        _ => false,
    }
}

/// A worker that learns of an abort drops its state and leaves: it does not clean the state up, hand
/// it over or give it back.
pub proof fn abort_drops_state<E, M, I, K, C>(
    worker: ManagedWorker<M>,
    reply: WorkerReply<E, M, I, K, C>,
)
    requires
        worker.wf(),
        worker.expects(reply),
        tells_of_abort(reply),
    ensures
        worker.step(reply).0.phase is Ending,
        worker.step(reply).0.state is None,
        worker.step(reply).1 == (WorkerAction::<E, M, I, K, C>::Report(
            (WorkerReport::Parked { returned_state: None }),
        )),
{
}

/// The items that came with the first `n` replies.
pub open spec fn items_received<E, M, I, K, C>(
    replies: Seq<WorkerReply<E, M, I, K, C>>,
    n: nat,
) -> Seq<I>
    decreases n,
{
    if n == 0 {
        Seq::empty()
    } else {
        let before = items_received(replies, (n - 1) as nat);
        match replies[n - 1] {
            WorkerReply::Polled(RecvPoll::Item(item)) => before.push(item),
            _ => before,
        }
    }
}

/// The items that were given to the node's code after the first `n` replies.
pub open spec fn items_processed<E, M, I, K, C>(
    worker: ManagedWorker<M>,
    replies: Seq<WorkerReply<E, M, I, K, C>>,
    n: nat,
) -> Seq<I>
    decreases n,
{
    if n == 0 {
        Seq::empty()
    } else {
        let before = items_processed(worker, replies, (n - 1) as nat);
        match action_at(worker, replies, n - 1) {
            WorkerAction::Process { state, item } => before.push(item),
            _ => before,
        }
    }
}

/// Whatever comes, each item that a worker receives is given to its node's code once, in the order in
/// which they came, and nothing else is.
pub proof fn items_are_processed_once<E, M, I, K, C>(
    worker: ManagedWorker<M>,
    replies: Seq<WorkerReply<E, M, I, K, C>>,
    n: nat,
)
    requires
        worker.wf(),
        worker.phase is Initializing || worker.phase is Starting,
        can_come(worker, replies, n),
    ensures
        items_processed(worker, replies, n) == items_received(replies, n),
    decreases n,
{
    if n > 0 {
        items_are_processed_once(worker, replies, (n - 1) as nat);
    }
}

/// Every item that comes is worked on, with the state that the worker holds, and the state that comes
/// back from work that went well is the one held from then on.
pub proof fn items_are_worked_on<E, M, I, K, C>(worker: ManagedWorker<M>, item: I, next: M)
    requires
        worker.wf(),
        worker.phase is Polling,
    ensures
        ({
            let polled = worker.step(
                WorkerReply::<E, M, I, K, C>::Polled(RecvPoll::Item(item)),
            );
            let processed = polled.0.step(
                WorkerReply::<E, M, I, K, C>::Processed { state: next, result: Ok(()) },
            );
            &&& polled.1 == WorkerAction::<E, M, I, K, C>::Process { state: worker.state->0, item }
            &&& polled.0.phase is Processing
            &&& processed.0.state == Some(next)
            &&& processed.0.phase is Looking
        }),
{
}

/// A worker that stops of itself gives its state back where it is asked to, and otherwise cleans it
/// up; a worker that is asked to leave never gives it back.
pub proof fn stopping_worker_returns_state<E, M, I, K, C>(
    worker: ManagedWorker<M>,
    action: RetireAction<K>,
)
    requires
        worker.wf(),
        worker.state is Some,
    ensures
        worker.return_state_on_exit ==> worker.leaving::<E, I, K, C>(WorkerExit::Graceful).1
            == (WorkerAction::<E, M, I, K, C>::Report(
            (WorkerReport::Parked { returned_state: worker.state }),
        )),
        !worker.return_state_on_exit ==> worker.leaving::<E, I, K, C>(WorkerExit::Graceful).1
            == (WorkerAction::<E, M, I, K, C>::Cleanup { state: worker.state->0 }),
        !(worker.leaving::<E, I, K, C>(WorkerExit::Retire(action)).1 is Report),
{
}

/// A sample of both sides of a branch.
#[derive(Clone, Copy, Debug)]
pub struct ArmSamples<R> {
    pub left_counts: LinkCounts,
    pub left_rates: ArmRates<R>,
    pub right_counts: LinkCounts,
    pub right_rates: ArmRates<R>,
}

/// What has to be done next for a worker at a branch.
#[derive(Debug)]
pub enum BranchAction<I> {
    ReportStarted,
    /// Look whether the pipeline is aborted.
    LoadAbort,
    /// Look whether the worker is to leave its node.
    TakeRetire,
    /// Wait for an item.
    Poll,
    /// Look how long it is since the sides were sampled.
    LoadElapsed,
    /// Sample both sides.
    SampleArms,
    /// Look which side is less full.
    CompareFill,
    /// Pass the item on, to the left or else to the right.
    Route { item: I, left: bool },
    /// Look whether the worker is to stop, as no item came.
    LoadStop,
    ReportParked,
    /// There is nothing left to do.
    Finish,
}

/// What came of what was done.
#[derive(Debug)]
pub enum BranchReply<I, R> {
    Reported,
    Abort(bool),
    /// Whether the worker is to leave its node.
    Retire(bool),
    Polled(RecvPoll<I>),
    /// How long it is since the sides were sampled, and after what time they are to be.
    Elapsed { elapsed: u128, interval: u128 },
    Sampled(ArmSamples<R>),
    Compared(FillOrder),
    Routed,
    Stop { terminated: bool, shutdown: bool, stops_on_shutdown: bool },
}

/// Where a worker at a branch is.
#[derive(Clone, Copy, Debug, PartialEq, Eq, Structural)]
pub enum BranchPhase {
    Starting,
    Looking,
    CheckingRetire,
    Polling,
    Timing,
    Sampling,
    Comparing,
    Routing,
    TimedOut,
    Ending,
    Ended,
}

/// A worker at a branch, with what the branch remembers and the item that is to be passed on.
#[derive(Debug)]
pub struct BranchWorker<I, R> {
    pub phase: BranchPhase,
    pub controller: WeightedBranchController<R>,
    pub item: Option<I>,
}

impl<I, R: Copy> BranchWorker<I, R> {
    /// Whether an item is held exactly where one is to be passed on.
    pub open spec fn wf(self) -> bool {
        self.item is Some <==> (self.phase is Timing || self.phase is Sampling || self.phase is Comparing)
    }

    /// Whether this can come of what the worker had done last.
    pub open spec fn expects(self, reply: BranchReply<I, R>) -> bool {
        match self.phase {
            BranchPhase::Starting => reply is Reported,
            BranchPhase::Looking => reply is Abort,
            BranchPhase::CheckingRetire => reply is Retire,
            BranchPhase::Polling => reply is Polled,
            BranchPhase::Timing => reply is Elapsed,
            BranchPhase::Sampling => reply is Sampled,
            BranchPhase::Comparing => reply is Compared,
            BranchPhase::Routing => reply is Routed,
            BranchPhase::TimedOut => reply is Stop,
            BranchPhase::Ending => reply is Reported,
            BranchPhase::Ended => false,
        }
    }

    /// The worker at another place.
    pub open spec fn at(self, phase: BranchPhase) -> Self {
        BranchWorker { phase, ..self }
    }

    /// Where the worker goes from where it is, and what has to be done next. An item goes to the side that
    /// the branch chooses for it, from what it remembers and which side is less full.
    pub open spec fn step(self, reply: BranchReply<I, R>) -> (Self, BranchAction<I>) {
        let look = (self.at(BranchPhase::Looking), BranchAction::LoadAbort);
        let leave = (self.at(BranchPhase::Ending), BranchAction::ReportParked);
        let compare = (self.at(BranchPhase::Comparing), BranchAction::CompareFill);
        match (self.phase, reply) {
            (BranchPhase::Starting, BranchReply::Reported) => look,
            (BranchPhase::Looking, BranchReply::Abort(abort)) => if abort {
                leave
            } else {
                (self.at(BranchPhase::CheckingRetire), BranchAction::TakeRetire)
            },
            (BranchPhase::CheckingRetire, BranchReply::Retire(retire)) => if retire {
                leave
            } else {
                (self.at(BranchPhase::Polling), BranchAction::Poll)
            },
            (BranchPhase::Polling, BranchReply::Polled(RecvPoll::Item(item))) => (
                BranchWorker { item: Some(item), ..self.at(BranchPhase::Timing) },
                BranchAction::LoadElapsed,
            ),
            (BranchPhase::Polling, BranchReply::Polled(RecvPoll::Timeout)) => (
                self.at(BranchPhase::TimedOut),
                BranchAction::LoadStop,
            ),
            (BranchPhase::Polling, BranchReply::Polled(RecvPoll::Disconnected)) => leave,
            (BranchPhase::Timing, BranchReply::Elapsed { elapsed, interval }) => {
                if self.controller.wants_sample(elapsed, interval) {
                    (self.at(BranchPhase::Sampling), BranchAction::SampleArms)
                } else {
                    compare
                }
            },
            (BranchPhase::Sampling, BranchReply::Sampled(samples)) => (
                BranchWorker {
                    controller: self.controller.sampled(
                        samples.left_counts,
                        samples.left_rates,
                        samples.right_counts,
                        samples.right_rates,
                    ),
                    ..compare.0
                },
                compare.1,
            ),
            (BranchPhase::Comparing, BranchReply::Compared(order)) => (
                BranchWorker {
                    phase: BranchPhase::Routing,
                    controller: self.controller.routed(order),
                    item: None,
                },
                BranchAction::Route { item: self.item->0, left: self.controller.goes_left(order) },
            ),
            (BranchPhase::Routing, BranchReply::Routed) => look,
            (
                BranchPhase::TimedOut,
                BranchReply::Stop { terminated, shutdown, stops_on_shutdown },
            ) => if terminated || shutdown && stops_on_shutdown {
                leave
            } else {
                look
            },
            (BranchPhase::Ending, BranchReply::Reported) => (
                self.at(BranchPhase::Ended),
                BranchAction::Finish,
            ),
            _ => (self, BranchAction::Finish),
        }
    }

    /// A worker that begins at its branch, and the first thing to be done.
    pub fn begin(controller: WeightedBranchController<R>) -> (r: (Self, BranchAction<I>))
        ensures
            r.0 == (BranchWorker::<I, R> { phase: BranchPhase::Starting, controller, item: None }),
            r.0.wf(),
            r.1 == BranchAction::<I>::ReportStarted,
    {
        (
            BranchWorker { phase: BranchPhase::Starting, controller, item: None },
            BranchAction::ReportStarted,
        )
    }

    fn go(&mut self, phase: BranchPhase, action: BranchAction<I>) -> (r: BranchAction<I>)
        ensures
            *final(self) == old(self).at(phase),
            r == action,
    {
        self.phase = phase;
        action
    }

    fn route(&mut self, order: FillOrder) -> (r: BranchAction<I>)
        requires
            old(self).item is Some,
        ensures
            *final(self) == (BranchWorker::<I, R> {
                phase: BranchPhase::Routing,
                controller: old(self).controller.routed(order),
                item: None,
            }),
            r == (BranchAction::Route {
                item: old(self).item->0,
                left: old(self).controller.goes_left(order),
            }),
    {
        let mut controller: WeightedBranchController<R> = self.controller;
        let left: bool = controller.choose_route(order);
        self.controller = controller;
        self.phase = BranchPhase::Routing;
        match self.item.take() {
            Some(item) => BranchAction::Route { item, left },
            None => BranchAction::Finish,
        }
    }

    /// Goes on with what came of what was done last. Tells what has to be done next.
    pub fn advance(&mut self, reply: BranchReply<I, R>) -> (r: BranchAction<I>)
        requires
            old(self).wf(),
            old(self).expects(reply),
        ensures
            (*final(self), r) == old(self).step(reply),
            final(self).wf(),
    {
        match reply {
            BranchReply::Reported => if matches!(self.phase, BranchPhase::Ending) {
                self.go(BranchPhase::Ended, BranchAction::Finish)
            } else {
                self.go(BranchPhase::Looking, BranchAction::LoadAbort)
            },
            BranchReply::Abort(true) | BranchReply::Retire(true) | BranchReply::Polled(
                RecvPoll::Disconnected,
            ) => self.go(BranchPhase::Ending, BranchAction::ReportParked),
            BranchReply::Abort(false) => self.go(
                BranchPhase::CheckingRetire,
                BranchAction::TakeRetire,
            ),
            BranchReply::Retire(false) => self.go(BranchPhase::Polling, BranchAction::Poll),
            BranchReply::Polled(RecvPoll::Item(item)) => {
                self.item = Some(item);
                self.go(BranchPhase::Timing, BranchAction::LoadElapsed)
            },
            BranchReply::Polled(RecvPoll::Timeout) => self.go(
                BranchPhase::TimedOut,
                BranchAction::LoadStop,
            ),
            BranchReply::Elapsed { elapsed, interval } => {
                if self.controller.sample_due(elapsed, interval) {
                    self.go(BranchPhase::Sampling, BranchAction::SampleArms)
                } else {
                    self.go(BranchPhase::Comparing, BranchAction::CompareFill)
                }
            },
            BranchReply::Sampled(samples) => {
                let mut controller: WeightedBranchController<R> = self.controller;
                controller.sample_arms(
                    &samples.left_counts,
                    &samples.left_rates,
                    &samples.right_counts,
                    &samples.right_rates,
                );
                self.controller = controller;
                self.go(BranchPhase::Comparing, BranchAction::CompareFill)
            },
            BranchReply::Compared(order) => self.route(order),
            BranchReply::Routed => self.go(BranchPhase::Looking, BranchAction::LoadAbort),
            BranchReply::Stop { terminated, shutdown, stops_on_shutdown } => {
                if terminated || (shutdown && stops_on_shutdown) {
                    self.go(BranchPhase::Ending, BranchAction::ReportParked)
                } else {
                    self.go(BranchPhase::Looking, BranchAction::LoadAbort)
                }
            },
        }
    }
}

/// Whether these are replies that can come in this order to a worker that begins at a branch as this
/// one.
pub open spec fn branch_can_come<I, R: Copy>(
    worker: BranchWorker<I, R>,
    replies: Seq<BranchReply<I, R>>,
    n: nat,
) -> bool
    decreases n,
{
    n == 0 || n <= replies.len() && branch_can_come(worker, replies, (n - 1) as nat) && branch_after(
        worker,
        replies,
        (n - 1) as nat,
    ).expects(replies[n - 1])
}

/// The worker at a branch once the first `n` replies have come.
pub open spec fn branch_after<I, R: Copy>(
    worker: BranchWorker<I, R>,
    replies: Seq<BranchReply<I, R>>,
    n: nat,
) -> BranchWorker<I, R>
    decreases n,
{
    if n == 0 {
        worker
    } else {
        branch_after(worker, replies, (n - 1) as nat).step(replies[n - 1]).0
    }
}

/// The items that came with the first `n` replies to a worker at a branch.
pub open spec fn branch_received<I, R>(replies: Seq<BranchReply<I, R>>, n: nat) -> Seq<I>
    decreases n,
{
    if n == 0 {
        Seq::empty()
    } else {
        let before = branch_received(replies, (n - 1) as nat);
        match replies[n - 1] {
            BranchReply::Polled(RecvPoll::Item(item)) => before.push(item),
            _ => before,
        }
    }
}

/// The items that were passed on after the first `n` replies.
pub open spec fn items_routed<I, R: Copy>(
    worker: BranchWorker<I, R>,
    replies: Seq<BranchReply<I, R>>,
    n: nat,
) -> Seq<I>
    decreases n,
{
    if n == 0 {
        Seq::empty()
    } else {
        let before = items_routed(worker, replies, (n - 1) as nat);
        match branch_after(worker, replies, (n - 1) as nat).step(replies[n - 1]).1 {
            BranchAction::Route { item, left } => before.push(item),
            _ => before,
        }
    }
}

/// The items that were passed on after the first `n` replies, and the one that is yet to be.
pub open spec fn items_taken<I, R: Copy>(
    worker: BranchWorker<I, R>,
    replies: Seq<BranchReply<I, R>>,
    n: nat,
) -> Seq<I> {
    match branch_after(worker, replies, n).item {
        Some(item) => items_routed(worker, replies, n).push(item),
        None => items_routed(worker, replies, n),
    }
}

/// How many of the things done after the first `n` replies are the report of a worker that has left
/// its branch.
pub open spec fn branch_reports<I, R: Copy>(
    worker: BranchWorker<I, R>,
    replies: Seq<BranchReply<I, R>>,
    n: nat,
) -> nat
    decreases n,
{
    if n == 0 {
        0
    } else {
        branch_reports(worker, replies, (n - 1) as nat) + if branch_after(
            worker,
            replies,
            (n - 1) as nat,
        ).step(replies[n - 1]).1 is ReportParked {
            1nat
        } else {
            0nat
        }
    }
}

/// Whatever comes, a branch passes each item on to one side, once, in the order in which they came;
/// and its worker reports once that it has left, exactly when it ends or has ended, and no item is
/// held by then.
pub proof fn items_are_routed_once<I, R: Copy>(
    worker: BranchWorker<I, R>,
    replies: Seq<BranchReply<I, R>>,
    n: nat,
)
    requires
        worker.phase is Starting,
        worker.wf(),
        branch_can_come(worker, replies, n),
    ensures
        branch_after(worker, replies, n).wf(),
        items_taken(worker, replies, n) == branch_received(replies, n),
        branch_reports(worker, replies, n) == if branch_after(worker, replies, n).phase is Ending
            || branch_after(worker, replies, n).phase is Ended {
            1nat
        } else {
            0nat
        },
    decreases n,
{
    if n > 0 {
        items_are_routed_once(worker, replies, (n - 1) as nat);
    }
}

} // verus!
