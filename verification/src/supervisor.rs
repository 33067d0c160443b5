//! The supervisor's book of workers, and what it does on each event.
//!
//! What reaches a worker from outside is carried as values: `T` asks a worker to retire, `F` tells
//! it that a merge waits for it, `Q` carries merge requests to it, and `C` is where a state that is
//! handed over comes out. `M` is the type of states.

use crate::control::{NodeControl, ScaleDirection};
use crate::error::{
    node_failure_to_piper_error, reports_node_failure, NodeFailure, PanicPayload, PiperError,
    panic_payload_to_string,
};
use crate::plan::RuntimeNode;
use crate::scaling::{active_total, active_worker_count};
use crate::snapshot::NodeScalingState;
use vstd::prelude::*;

verus! {

/// A worker as the supervisor knows it.
pub struct WorkerSlot<T, F, Q> {
    pub name: String,
    pub active_node: Option<usize>,
    pub retire: Option<T>,
    pub merge_pending: Option<F>,
    pub merge_sender: Option<Q>,
}

/// What a worker reports.
pub enum WorkerEvent<E, M> {
    Started { worker_id: usize },
    Parked { worker_id: usize, node_index: usize, returned_state: Option<M> },
    MergeCompleted { worker_id: usize, node_index: usize, source_worker_id: usize },
    Failed { worker_id: usize, node_index: usize, worker: String, failure: NodeFailure<E> },
    Stopped,
}

/// A change of the number of workers that has begun.
pub enum PendingScale<C> {
    Add { worker_id: usize, node_index: usize },
    Remove { worker_id: usize, node_index: usize },
    /// The state of one worker goes over to another of the same node.
    MergeDown {
        source_worker_id: usize,
        target_worker_id: usize,
        node_index: usize,
        state_receiver: Option<C>,
        waiting_for_target: bool,
    },
}

/// What has to be done outside after an event.
pub enum FollowUp<C> {
    Nothing,
    /// The target has to be asked to take in the state that comes out of the receiver.
    RequestMerge { source_worker_id: usize, target_worker_id: usize, state_receiver: C },
}

/// What the supervisor keeps.
pub struct Supervisor<E, M, C, T, F, Q, R> {
    pub workers: Vec<WorkerSlot<T, F, Q>>,
    pub active_by_node: Vec<Vec<usize>>,
    pub parked: Vec<usize>,
    pub controls: Vec<NodeControl<R>>,
    pub pending_scale: Option<PendingScale<C>>,
    pub stored_failure: Option<PiperError<E>>,
    pub returned_states: Vec<M>,
    pub holds_links: bool,
}

/// The supervisor's book: all that it keeps but for a failure.
#[verifier::ext_equal]
pub struct Book<M, C, T, F, Q, R> {
    pub workers: Seq<WorkerSlot<T, F, Q>>,
    pub active: Seq<Seq<usize>>,
    pub parked: Seq<usize>,
    pub controls: Seq<NodeControl<R>>,
    pub pending: Option<PendingScale<C>>,
    pub states: Seq<M>,
    pub holds_links: bool,
}

/// The lists of numbers in these vectors.
pub open spec fn lists(active: Seq<Vec<usize>>) -> Seq<Seq<usize>> {
    active.map_values(|v: Vec<usize>| v@)
}

/// The list without the first `x`, in whose place the last item stands.
pub open spec fn without(s: Seq<usize>, x: usize) -> Seq<usize> {
    if s.contains(x) {
        let i = s.index_of_first(x)->0;
        s.update(i, s.last()).drop_last()
    } else {
        s
    }
}

impl<T, F, Q> WorkerSlot<T, F, Q> {
    /// The worker once it is not at any node.
    pub open spec fn released(self) -> Self {
        WorkerSlot {
            name: self.name,
            active_node: None,
            retire: None,
            merge_pending: None,
            merge_sender: None,
        }
    }
}

/// Whether that change concerns the worker.
pub open spec fn involves<C>(pending: Option<PendingScale<C>>, worker: usize) -> bool {
    match pending {
        Some(PendingScale::Add { worker_id, node_index }) => worker_id == worker,
        Some(PendingScale::Remove { worker_id, node_index }) => worker_id == worker,
        Some(
            PendingScale::MergeDown {
                source_worker_id,
                target_worker_id,
                node_index,
                state_receiver,
                waiting_for_target,
            },
        ) => source_worker_id == worker || target_worker_id == worker,
        None => false,
    }
}

/// Whether that change concerns the worker.
pub fn pending_scale_involves_worker<C>(pending: &Option<PendingScale<C>>, worker_id: usize) -> (r:
    bool)
    ensures
        r == involves(*pending, worker_id),
{
    match pending {
        Some(PendingScale::Add { worker_id: pending, .. }) => *pending == worker_id,
        Some(PendingScale::Remove { worker_id: pending, .. }) => *pending == worker_id,
        Some(PendingScale::MergeDown { source_worker_id, target_worker_id, .. }) => *source_worker_id
            == worker_id || *target_worker_id == worker_id,
        None => false,
    }
}

/// What went wrong in the supervisor.
pub enum SupervisorFault<E> {
    /// A worker failed.
    Worker { worker: String, failure: NodeFailure<E> },
    /// A state was handed over, but nothing is there that it would come out of.
    MissingReceiver,
    /// The worker that was to take in a state is not at any node.
    TargetInactive,
    /// The worker that was to take in a state can no longer be asked.
    TargetClosed,
    /// The worker that was to take in a state cannot be told of it.
    FlagMissing,
}

/// Whether the error is the supervisor's own, with that message.
pub open spec fn is_internal<E>(error: PiperError<E>, text: Seq<char>) -> bool {
    error matches PiperError::Internal { worker, message } && worker@ == "piper-supervisor"@
        && message@ == text
}

/// Whether the error tells of the fault.
pub open spec fn reports_supervisor_fault<E>(error: PiperError<E>, fault: SupervisorFault<E>) -> bool {
    match fault {
        SupervisorFault::Worker { worker, failure } => reports_node_failure(
            error,
            worker@,
            failure,
        ),
        SupervisorFault::MissingReceiver => is_internal(error, "missing merge state receiver"@),
        SupervisorFault::TargetInactive => is_internal(error, "merge target worker is not active"@),
        SupervisorFault::TargetClosed => is_internal(error, "merge target request channel closed"@),
        SupervisorFault::FlagMissing => is_internal(
            error,
            "merge target pending flag is unavailable"@,
        ),
    }
}

fn supervisor_error<E>(fault: SupervisorFault<E>) -> (r: PiperError<E>)
    ensures
        reports_supervisor_fault(r, fault),
{
    let message: String = match fault {
        SupervisorFault::Worker { worker, failure } => {
            return node_failure_to_piper_error(worker.as_str(), failure);
        },
        SupervisorFault::MissingReceiver => "missing merge state receiver".to_owned(),
        SupervisorFault::TargetInactive => "merge target worker is not active".to_owned(),
        SupervisorFault::TargetClosed => "merge target request channel closed".to_owned(),
        SupervisorFault::FlagMissing => "merge target pending flag is unavailable".to_owned(),
    };
    PiperError::Internal { worker: "piper-supervisor".to_owned(), message }
}

impl<M, C, T, F, Q, R: Copy> Book<M, C, T, F, Q, R> {
    /// The book once the node's number of workers was changed and nothing is pending.
    pub open spec fn completed(self, node: usize, direction: ScaleDirection, now: u128) -> Self {
        Book {
            pending: None,
            controls: self.controls.update(
                node as int,
                self.controls[node as int].after_operation(direction, now),
            ),
            ..self
        }
    }

    /// The book once the worker has left the node.
    pub open spec fn left(self, worker: usize, node: usize) -> Self {
        Book {
            workers: self.workers.update(worker as int, self.workers[worker as int].released()),
            active: self.active.update(
                node as int,
                without(self.active[node as int], worker),
            ),
            ..self
        }
    }

    /// The book once the worker started.
    pub open spec fn started(self, worker: usize, now: u128) -> Self {
        match self.pending {
            Some(PendingScale::Add { worker_id, node_index }) => if worker_id == worker {
                self.completed(node_index, ScaleDirection::Add, now)
            } else {
                self
            },
            _ => self,
        }
    }

    /// The book once the worker has left the node and is parked, before anything that was pending is
    /// looked at.
    pub open spec fn put_away(self, worker: usize, node: usize, state: Option<M>) -> Self {
        let rest = self.left(worker, node);
        Book {
            parked: rest.parked.push(worker),
            states: match state {
                Some(state) => rest.states.push(state),
                None => rest.states,
            },
            ..rest
        }
    }

    /// Whether the worker hands over its state by leaving.
    pub open spec fn hands_over(self, worker: usize) -> bool {
        self.pending matches Some(
            PendingScale::MergeDown {
                source_worker_id,
                target_worker_id,
                node_index,
                state_receiver,
                waiting_for_target,
            },
        ) && source_worker_id == worker && !waiting_for_target
    }

    /// The book once the receiver was taken out of what is pending.
    pub open spec fn receiver_taken(self) -> Self {
        Book {
            pending: match self.pending {
                Some(
                    PendingScale::MergeDown {
                        source_worker_id,
                        target_worker_id,
                        node_index,
                        state_receiver,
                        waiting_for_target,
                    },
                ) => Some(
                    PendingScale::MergeDown {
                        source_worker_id,
                        target_worker_id,
                        node_index,
                        state_receiver: None,
                        waiting_for_target,
                    },
                ),
                other => other,
            },
            ..self
        }
    }

    /// The book once the worker was parked.
    pub open spec fn parked_away(self, worker: usize, node: usize, state: Option<M>, now: u128) -> Self {
        let rest = self.put_away(worker, node, state);
        match rest.pending {
            Some(PendingScale::Remove { worker_id, node_index }) => if worker_id == worker {
                rest.completed(node_index, ScaleDirection::Remove, now)
            } else {
                rest
            },
            _ => if rest.hands_over(worker) {
                rest.receiver_taken()
            } else {
                rest
            },
        }
    }

    /// What goes wrong when the worker is parked.
    pub open spec fn parking_fault<E>(self, worker: usize, node: usize) -> Option<SupervisorFault<E>> {
        match self.left(worker, node).pending {
            Some(
                PendingScale::MergeDown {
                    source_worker_id,
                    target_worker_id,
                    node_index,
                    state_receiver,
                    waiting_for_target,
                },
            ) => if source_worker_id != worker || waiting_for_target {
                None
            } else if state_receiver is None {
                Some(SupervisorFault::MissingReceiver)
            } else if self.left(worker, node).workers[target_worker_id as int].merge_sender is None {
                Some(SupervisorFault::TargetInactive)
            } else {
                None
            },
            _ => None,
        }
    }

    /// What has to be done outside once the worker was parked.
    pub open spec fn parking_request(self, worker: usize, node: usize) -> FollowUp<C> {
        match self.left(worker, node).pending {
            Some(
                PendingScale::MergeDown {
                    source_worker_id,
                    target_worker_id,
                    node_index,
                    state_receiver: Some(receiver),
                    waiting_for_target,
                },
            ) => if source_worker_id == worker && !waiting_for_target && self.left(
                worker,
                node,
            ).workers[target_worker_id as int].merge_sender is Some {
                FollowUp::RequestMerge {
                    source_worker_id: worker,
                    target_worker_id,
                    state_receiver: receiver,
                }
            } else {
                FollowUp::Nothing
            },
            _ => FollowUp::Nothing,
        }
    }

    /// The book once a state was taken in.
    pub open spec fn merged(self, worker: usize, node: usize, source: usize, now: u128) -> Self {
        match self.pending {
            Some(
                PendingScale::MergeDown {
                    source_worker_id,
                    target_worker_id,
                    node_index,
                    state_receiver,
                    waiting_for_target,
                },
            ) => if source_worker_id == source && target_worker_id == worker && waiting_for_target {
                self.completed(node, ScaleDirection::Merge, now)
            } else {
                self
            },
            _ => self,
        }
    }

    /// The book once the worker failed.
    pub open spec fn failed(self, worker: usize, node: usize) -> Self {
        let rest = self.left(worker, node);
        Book {
            parked: if rest.parked.contains(worker) {
                rest.parked
            } else {
                rest.parked.push(worker)
            },
            pending: if involves(rest.pending, worker) {
                None
            } else {
                rest.pending
            },
            ..rest
        }
    }

    /// The book after an event.
    pub open spec fn after<E>(self, event: WorkerEvent<E, M>, now: u128) -> Self {
        match event {
            WorkerEvent::Started { worker_id } => self.started(worker_id, now),
            WorkerEvent::Parked { worker_id, node_index, returned_state } => self.parked_away(
                worker_id,
                node_index,
                returned_state,
                now,
            ),
            WorkerEvent::MergeCompleted { worker_id, node_index, source_worker_id } => self.merged(
                worker_id,
                node_index,
                source_worker_id,
                now,
            ),
            WorkerEvent::Failed { worker_id, node_index, worker, failure } => self.failed(
                worker_id,
                node_index,
            ),
            WorkerEvent::Stopped => self,
        }
    }

    /// What an event shows to be wrong.
    pub open spec fn fault<E>(self, event: WorkerEvent<E, M>) -> Option<SupervisorFault<E>> {
        match event {
            WorkerEvent::Parked { worker_id, node_index, returned_state } => self.parking_fault(
                worker_id,
                node_index,
            ),
            WorkerEvent::Failed { worker_id, node_index, worker, failure } => Some(
                SupervisorFault::Worker { worker, failure },
            ),
            _ => None,
        }
    }

    /// What has to be done outside after an event.
    pub open spec fn follow_up<E>(self, event: WorkerEvent<E, M>) -> FollowUp<C> {
        match event {
            WorkerEvent::Parked { worker_id, node_index, returned_state } => self.parking_request(
                worker_id,
                node_index,
            ),
            _ => FollowUp::Nothing,
        }
    }

    /// Whether the event names only workers and nodes that are in the book.
    pub open spec fn knows<E>(self, event: WorkerEvent<E, M>) -> bool {
        match event {
            WorkerEvent::Started { worker_id } => true,
            WorkerEvent::Parked { worker_id, node_index, returned_state } => worker_id
                < self.workers.len() && node_index < self.active.len(),
            WorkerEvent::MergeCompleted { worker_id, node_index, source_worker_id } => node_index
                < self.controls.len(),
            WorkerEvent::Failed { worker_id, node_index, worker, failure } => worker_id
                < self.workers.len() && node_index < self.active.len(),
            WorkerEvent::Stopped => true,
        }
    }

    /// Whether what is pending names only workers and nodes that are in the book.
    pub open spec fn pending_known(self) -> bool {
        match self.pending {
            Some(PendingScale::Add { worker_id, node_index }) => node_index < self.controls.len(),
            Some(PendingScale::Remove { worker_id, node_index }) => node_index
                < self.controls.len(),
            Some(
                PendingScale::MergeDown {
                    source_worker_id,
                    target_worker_id,
                    node_index,
                    state_receiver,
                    waiting_for_target,
                },
            ) => target_worker_id < self.workers.len() && node_index < self.controls.len(),
            None => true,
        }
    }
}

impl<E, M, C, T, F, Q, R> View for Supervisor<E, M, C, T, F, Q, R> {
    type V = Book<M, C, T, F, Q, R>;

    open spec fn view(&self) -> Book<M, C, T, F, Q, R> {
        Book {
            workers: self.workers@,
            active: lists(self.active_by_node@),
            parked: self.parked@,
            controls: self.controls@,
            pending: self.pending_scale,
            states: self.returned_states@,
            holds_links: self.holds_links,
        }
    }
}

/// Takes the worker off the list of its node's workers.
pub fn remove_worker_from_node(
    active_by_node: &mut Vec<Vec<usize>>,
    node_index: usize,
    worker_id: usize,
)
    requires
        node_index < old(active_by_node)@.len(),
    ensures
        lists(final(active_by_node)@) == lists(old(active_by_node)@).update(
            node_index as int,
            without(old(active_by_node)@[node_index as int]@, worker_id),
        ),
{
    let ghost before = active_by_node@[node_index as int]@;
    let count: usize = active_by_node[node_index].len();
    for i in 0..count
        invariant
            active_by_node@ == old(active_by_node)@,
            node_index < active_by_node@.len(),
            before == active_by_node@[node_index as int]@,
            count == before.len(),
            forall|k: int| 0 <= k < i ==> before[k] != worker_id,
    {
        if active_by_node[node_index][i] == worker_id {
            assert(before.contains(worker_id));
            assert(before.index_of_first(worker_id) == Some(i as int)) by {
                before.index_of_first_ensures(worker_id);
            }
            active_by_node[node_index].swap_remove(i);
            assert(active_by_node@[node_index as int]@ == without(before, worker_id));
            assert(lists(active_by_node@) == lists(old(active_by_node)@).update(
                node_index as int,
                without(before, worker_id),
            ));
            return ;
        }
    }
    assert(!before.contains(worker_id));
    assert(lists(old(active_by_node)@).update(node_index as int, before) == lists(
        old(active_by_node)@,
    ));
}

fn has_number(list: &Vec<usize>, x: usize) -> (r: bool)
    ensures
        r == list@.contains(x),
{
    for i in 0..list.len()
        invariant
            forall|k: int| 0 <= k < i ==> list@[k] != x,
    {
        if list[i] == x {
            assert(list@[i as int] == x);
            return true;
        }
    }
    false
}

impl<E, M, C, T, F, Q, R: Copy> Supervisor<E, M, C, T, F, Q, R> {
    fn complete(&mut self, node_index: usize, direction: ScaleDirection, now: u128)
        requires
            node_index < old(self).controls@.len(),
        ensures
            final(self)@ == old(self)@.completed(node_index, direction, now),
            final(self).stored_failure == old(self).stored_failure,
    {
        let mut control: NodeControl<R> = self.controls[node_index];
        control.record_operation(direction, now);
        self.controls.set(node_index, control);
        self.pending_scale = None;
    }

    fn release(&mut self, worker_id: usize, node_index: usize)
        requires
            worker_id < old(self).workers@.len(),
            node_index < old(self).active_by_node@.len(),
        ensures
            final(self)@ == old(self)@.left(worker_id, node_index),
            final(self).stored_failure == old(self).stored_failure,
    {
        remove_worker_from_node(&mut self.active_by_node, node_index, worker_id);
        self.workers[worker_id].active_node = None;
        self.workers[worker_id].retire = None;
        self.workers[worker_id].merge_pending = None;
        self.workers[worker_id].merge_sender = None;
        assert(self.workers@ == old(self).workers@.update(
            worker_id as int,
            old(self).workers@[worker_id as int].released(),
        ));
    }

    fn fail(&mut self, fault: SupervisorFault<E>)
        ensures
            final(self)@ == old(self)@,
            final(self).stored_failure matches Some(error) && reports_supervisor_fault(
                error,
                fault,
            ),
    {
        self.stored_failure = Some(supervisor_error(fault));
    }

    fn park(
        &mut self,
        worker_id: usize,
        node_index: usize,
        returned_state: Option<M>,
        now: u128,
    ) -> (r: (bool, FollowUp<C>))
        requires
            worker_id < old(self).workers@.len(),
            node_index < old(self).active_by_node@.len(),
            old(self)@.pending_known(),
        ensures
            final(self)@ == old(self)@.parked_away(worker_id, node_index, returned_state, now),
            match old(self)@.parking_fault::<E>(worker_id, node_index) {
                Some(fault) => r.0 && (final(self).stored_failure matches Some(error)
                    && reports_supervisor_fault(error, fault)),
                None => !r.0 && final(self).stored_failure == old(self).stored_failure,
            },
            r.1 == old(self)@.parking_request(worker_id, node_index),
    {
        self.release(worker_id, node_index);
        self.parked.push(worker_id);
        if let Some(state) = returned_state {
            self.returned_states.push(state);
        }
        assert(self@ == old(self)@.put_away(worker_id, node_index, returned_state));
        if let Some(PendingScale::Remove { worker_id: pending, node_index: changed }) =
            &self.pending_scale {
            if *pending == worker_id {
                let changed: usize = *changed;
                self.complete(changed, ScaleDirection::Remove, now);
                return (false, FollowUp::Nothing);
            }
        }
        let mut handed: Option<(usize, Option<C>)> = None;
        let pending: Option<PendingScale<C>> = self.pending_scale.take();
        match pending {
            Some(
                PendingScale::MergeDown {
                    source_worker_id,
                    target_worker_id,
                    node_index: changed,
                    state_receiver,
                    waiting_for_target,
                },
            ) => {
                if source_worker_id == worker_id && !waiting_for_target {
                    handed = Some((target_worker_id, state_receiver));
                    self.pending_scale =
                    Some(
                        PendingScale::MergeDown {
                            source_worker_id,
                            target_worker_id,
                            node_index: changed,
                            state_receiver: None,
                            waiting_for_target,
                        },
                    );
                } else {
                    self.pending_scale =
                    Some(
                        PendingScale::MergeDown {
                            source_worker_id,
                            target_worker_id,
                            node_index: changed,
                            state_receiver,
                            waiting_for_target,
                        },
                    );
                }
            },
            other => {
                self.pending_scale = other;
            },
        }
        match handed {
            None => (false, FollowUp::Nothing),
            Some((_, None)) => {
                self.fail(SupervisorFault::MissingReceiver);
                (true, FollowUp::Nothing)
            },
            Some((target_worker_id, Some(state_receiver))) => {
                if self.workers[target_worker_id].merge_sender.is_none() {
                    self.fail(SupervisorFault::TargetInactive);
                    return (true, FollowUp::Nothing);
                }
                (
                    false,
                    FollowUp::RequestMerge {
                        source_worker_id: worker_id,
                        target_worker_id,
                        state_receiver,
                    },
                )
            },
        }
    }

    /// Takes in an event. Tells whether the pipeline has to be aborted, and what has to be done
    /// outside.
    pub fn apply_event(&mut self, event: WorkerEvent<E, M>, now: u128) -> (r: (bool, FollowUp<C>))
        requires
            old(self)@.knows(event),
            old(self)@.pending_known(),
        ensures
            final(self)@ == old(self)@.after(event, now),
            match old(self)@.fault(event) {
                Some(fault) => r.0 && (final(self).stored_failure matches Some(error)
                    && reports_supervisor_fault(error, fault)),
                None => !r.0 && final(self).stored_failure == old(self).stored_failure,
            },
            r.1 == old(self)@.follow_up(event),
    {
        match event {
            WorkerEvent::Started { worker_id } => {
                if let Some(PendingScale::Add { worker_id: pending, node_index }) =
                    &self.pending_scale {
                    if *pending == worker_id {
                        let node_index: usize = *node_index;
                        self.complete(node_index, ScaleDirection::Add, now);
                    }
                }
                (false, FollowUp::Nothing)
            },
            WorkerEvent::Parked { worker_id, node_index, returned_state } => self.park(
                worker_id,
                node_index,
                returned_state,
                now,
            ),
            WorkerEvent::MergeCompleted { worker_id, node_index, source_worker_id } => {
                let completes: bool = match &self.pending_scale {
                    Some(
                        PendingScale::MergeDown {
                            source_worker_id: source,
                            target_worker_id: target,
                            waiting_for_target,
                            ..
                        },
                    ) => *source == source_worker_id && *target == worker_id && *waiting_for_target,
                    _ => false,
                };
                if completes {
                    self.complete(node_index, ScaleDirection::Merge, now);
                }
                (false, FollowUp::Nothing)
            },
            WorkerEvent::Failed { worker_id, node_index, worker, failure } => {
                self.release(worker_id, node_index);
                if !has_number(&self.parked, worker_id) {
                    self.parked.push(worker_id);
                }
                if pending_scale_involves_worker(&self.pending_scale, worker_id) {
                    self.pending_scale = None;
                }
                self.fail(SupervisorFault::Worker { worker, failure });
                (true, FollowUp::Nothing)
            },
            WorkerEvent::Stopped => (false, FollowUp::Nothing),
        }
    }
}

impl<M, C, T, F, Q, R: Copy> Book<M, C, T, F, Q, R> {
    /// The book with one more worker parked.
    pub open spec fn parking(self, worker: usize) -> Self {
        Book { parked: self.parked.push(worker), ..self }
    }

    /// The book without the worker that was parked last.
    pub open spec fn unparked(self) -> Self {
        Book { parked: self.parked.drop_last(), ..self }
    }

    /// The book once a worker was given to a node, and has yet to start.
    pub open spec fn adding(self, worker: usize, node: usize) -> Self {
        Book {
            pending: Some(PendingScale::Add { worker_id: worker, node_index: node }),
            ..self
        }
    }

    /// The book once a worker was asked to clean up and leave its node.
    pub open spec fn removing(self, worker: usize, node: usize) -> Self {
        Book {
            pending: Some(PendingScale::Remove { worker_id: worker, node_index: node }),
            ..self
        }
    }

    /// The book once a worker was asked to hand its state over to another of its node.
    pub open spec fn transferring(
        self,
        source: usize,
        target: usize,
        node: usize,
        receiver: C,
    ) -> Self {
        Book {
            pending: Some(
                PendingScale::MergeDown {
                    source_worker_id: source,
                    target_worker_id: target,
                    node_index: node,
                    state_receiver: Some(receiver),
                    waiting_for_target: false,
                },
            ),
            controls: self.controls.update(
                node as int,
                NodeControl {
                    scaling_state: NodeScalingState::Merging,
                    ..self.controls[node as int]
                },
            ),
            ..self
        }
    }

    /// The book once the target of a merge was asked and told.
    pub open spec fn awaiting_target(self) -> Self {
        match self.pending {
            Some(
                PendingScale::MergeDown {
                    source_worker_id,
                    target_worker_id,
                    node_index,
                    state_receiver,
                    waiting_for_target,
                },
            ) => Book {
                pending: Some(
                    PendingScale::MergeDown {
                        source_worker_id,
                        target_worker_id,
                        node_index,
                        state_receiver,
                        waiting_for_target: true,
                    },
                ),
                controls: self.controls.update(
                    node_index as int,
                    NodeControl {
                        scaling_state: NodeScalingState::Merging,
                        ..self.controls[node_index as int]
                    },
                ),
                ..self
            },
            _ => self,
        }
    }

    /// The worker that is to take in a state, if a merge is pending.
    pub open spec fn merge_target(self) -> Option<usize> {
        match self.pending {
            Some(
                PendingScale::MergeDown {
                    source_worker_id,
                    target_worker_id,
                    node_index,
                    state_receiver,
                    waiting_for_target,
                },
            ) => Some(target_worker_id),
            _ => None,
        }
    }
}

impl<E, M, C, T, F, Q, R: Copy> Supervisor<E, M, C, T, F, Q, R> {
    /// Goes on with a merge once its target was asked; `sent` tells whether that worked. Tells
    /// whether the pipeline has to be aborted, and which worker has to be told that a merge waits.
    pub fn merge_requested(&mut self, sent: bool) -> (r: (bool, Option<usize>))
        requires
            old(self)@.merge_target() is Some,
            old(self)@.pending_known(),
        ensures
            ({
                let target = old(self)@.merge_target()->0;
                if !sent {
                    &&& r == (true, None::<usize>)
                    &&& final(self)@ == old(self)@
                    &&& final(self).stored_failure matches Some(error) && reports_supervisor_fault(
                        error,
                        SupervisorFault::TargetClosed,
                    )
                } else if old(self)@.workers[target as int].merge_pending is Some {
                    &&& r == (false, Some(target))
                    &&& final(self)@ == old(self)@.awaiting_target()
                    &&& final(self).stored_failure == old(self).stored_failure
                } else {
                    &&& r == (true, None::<usize>)
                    &&& final(self)@ == old(self)@
                    &&& final(self).stored_failure matches Some(error) && reports_supervisor_fault(
                        error,
                        SupervisorFault::FlagMissing,
                    )
                }
            }),
    {
        if !sent {
            self.fail(SupervisorFault::TargetClosed);
            return (true, None);
        }
        let pending: Option<PendingScale<C>> = self.pending_scale.take();
        match pending {
            Some(
                PendingScale::MergeDown {
                    source_worker_id,
                    target_worker_id,
                    node_index,
                    state_receiver,
                    waiting_for_target,
                },
            ) => {
                if self.workers[target_worker_id].merge_pending.is_some() {
                    self.pending_scale =
                    Some(
                        PendingScale::MergeDown {
                            source_worker_id,
                            target_worker_id,
                            node_index,
                            state_receiver,
                            waiting_for_target: true,
                        },
                    );
                    let mut control: NodeControl<R> = self.controls[node_index];
                    control.scaling_state = NodeScalingState::Merging;
                    self.controls.set(node_index, control);
                    (false, Some(target_worker_id))
                } else {
                    self.pending_scale =
                    Some(
                        PendingScale::MergeDown {
                            source_worker_id,
                            target_worker_id,
                            node_index,
                            state_receiver,
                            waiting_for_target,
                        },
                    );
                    self.fail(SupervisorFault::FlagMissing);
                    (true, None)
                }
            },
            other => {
                self.pending_scale = other;
                (false, None)
            },
        }
    }
}

/// What a worker that is given to a node has to do.
#[derive(Clone, Copy, Debug, PartialEq, Eq, Structural)]
pub enum WorkerRole {
    /// It hands each item on to one of two links.
    Branch { input_link: usize, left_link: usize, right_link: usize, is_input_stage: bool },
    /// It runs the node's code.
    Managed {
        input_link: usize,
        output_link: usize,
        is_input_stage: bool,
        return_state_on_exit: bool,
    },
}

/// What a worker that is given to the node has to do, if the pipeline runs the node.
pub open spec fn role_at<S, A, R>(node: RuntimeNode<S, A, R>, input_link: usize) -> Option<WorkerRole> {
    if node.weighted_branch_config is Some {
        Some(
            WorkerRole::Branch {
                input_link: node.input_link,
                left_link: node.output_links@[0],
                right_link: node.output_links@[1],
                is_input_stage: node.input_link == input_link,
            },
        )
    } else if node.stage is Some {
        Some(
            WorkerRole::Managed {
                input_link: node.input_link,
                output_link: node.output_links@[0],
                is_input_stage: node.input_link == input_link,
                return_state_on_exit: node.return_state_on_exit,
            },
        )
    } else {
        None
    }
}

/// What reaches a worker that is given to a node.
pub struct WorkerReach<T, F, Q> {
    pub retire: T,
    pub merge_pending: F,
    pub merge_sender: Q,
}

impl<M, C, T, F, Q, R: Copy> Book<M, C, T, F, Q, R> {
    /// The book once there is one more worker, which is not at any node.
    pub open spec fn registered(self, slot: WorkerSlot<T, F, Q>) -> Self {
        Book { workers: self.workers.push(slot), ..self }
    }

    /// The book once the worker was given to the node. A branch takes in no states.
    pub open spec fn assigned(
        self,
        worker: usize,
        node: usize,
        role: WorkerRole,
        reach: WorkerReach<T, F, Q>,
    ) -> Self {
        let slot = self.workers[worker as int];
        Book {
            workers: self.workers.update(
                worker as int,
                WorkerSlot {
                    name: slot.name,
                    active_node: Some(node),
                    retire: Some(reach.retire),
                    merge_pending: if role is Branch {
                        None
                    } else {
                        Some(reach.merge_pending)
                    },
                    merge_sender: if role is Branch {
                        None
                    } else {
                        Some(reach.merge_sender)
                    },
                },
            ),
            active: self.active.update(node as int, self.active[node as int].push(worker)),
            ..self
        }
    }
}

impl<E, M, C, T, F, Q, R: Copy> Supervisor<E, M, C, T, F, Q, R> {
    /// The supervisor of a pipeline without workers.
    pub fn new(controls: Vec<NodeControl<R>>) -> (r: Self)
        ensures
            r@ == (Book {
                workers: Seq::<WorkerSlot<T, F, Q>>::empty(),
                active: Seq::new(controls@.len(), |i: int| Seq::<usize>::empty()),
                parked: Seq::<usize>::empty(),
                controls: controls@,
                pending: None::<PendingScale<C>>,
                states: Seq::<M>::empty(),
                holds_links: true,
            }),
            r.stored_failure is None,
    {
        let mut active_by_node: Vec<Vec<usize>> = Vec::new();
        for i in 0..controls.len()
            invariant
                active_by_node@.len() == i,
                forall|k: int|
                    0 <= k < i ==> #[trigger] active_by_node@[k]@ == Seq::<usize>::empty(),
        {
            active_by_node.push(Vec::new());
        }
        assert(lists(active_by_node@) == Seq::new(controls@.len(), |i: int| Seq::<usize>::empty()));
        Supervisor {
            workers: Vec::new(),
            active_by_node,
            parked: Vec::new(),
            controls,
            pending_scale: None,
            stored_failure: None,
            returned_states: Vec::new(),
            holds_links: true,
        }
    }

    /// Enters a worker that was just started, and gives its number.
    pub fn register_worker(&mut self, name: String) -> (r: usize)
        ensures
            r == old(self)@.workers.len(),
            final(self)@ == old(self)@.registered(
                WorkerSlot {
                    name,
                    active_node: None,
                    retire: None,
                    merge_pending: None,
                    merge_sender: None,
                },
            ),
            final(self).stored_failure == old(self).stored_failure,
    {
        let worker_id: usize = self.workers.len();
        self.workers.push(
            WorkerSlot {
                name,
                active_node: None,
                retire: None,
                merge_pending: None,
                merge_sender: None,
            },
        );
        worker_id
    }

    /// Gives the worker to the node. Tells what it has to do there.
    pub fn assign_worker<S, A>(
        &mut self,
        worker_id: usize,
        node_index: usize,
        nodes: &Vec<RuntimeNode<S, A, R>>,
        input_link: usize,
        reach: WorkerReach<T, F, Q>,
    ) -> (r: Result<WorkerRole, PiperError<E>>)
        requires
            worker_id < old(self).workers@.len(),
            node_index < old(self).active_by_node@.len(),
            node_index < nodes@.len(),
            nodes@[node_index as int].weighted_branch_config is Some
                ==> nodes@[node_index as int].output_links@.len() >= 2,
            nodes@[node_index as int].stage is Some
                ==> nodes@[node_index as int].output_links@.len() >= 1,
        ensures
            final(self).stored_failure == old(self).stored_failure,
            match role_at(nodes@[node_index as int], input_link) {
                Some(role) => {
                    &&& r == Ok::<WorkerRole, PiperError<E>>(role)
                    &&& final(self)@ == old(self)@.assigned(worker_id, node_index, role, reach)
                },
                None => {
                    &&& r matches Err(PiperError::Internal { worker, message }) && worker@ == old(
                        self,
                    )@.workers[worker_id as int].name@ && message@
                        == "cannot assign a managed worker to an external node"@
                    &&& final(self)@ == old(self)@
                },
            },
    {
        let node: &RuntimeNode<S, A, R> = &nodes[node_index];
        let is_input_stage: bool = node.input_link == input_link;
        let role: WorkerRole = if node.weighted_branch_config.is_some() {
            WorkerRole::Branch {
                input_link: node.input_link,
                left_link: node.output_links[0],
                right_link: node.output_links[1],
                is_input_stage,
            }
        } else if node.stage.is_some() {
            WorkerRole::Managed {
                input_link: node.input_link,
                output_link: node.output_links[0],
                is_input_stage,
                return_state_on_exit: node.return_state_on_exit,
            }
        } else {
            return Err(
                PiperError::Internal {
                    worker: self.workers[worker_id].name.clone(),
                    message: "cannot assign a managed worker to an external node".to_owned(),
                },
            );
        };
        self.workers[worker_id].active_node = Some(node_index);
        self.workers[worker_id].retire = Some(reach.retire);
        if matches!(role, WorkerRole::Branch { .. }) {
            self.workers[worker_id].merge_pending = None;
            self.workers[worker_id].merge_sender = None;
        } else {
            self.workers[worker_id].merge_pending = Some(reach.merge_pending);
            self.workers[worker_id].merge_sender = Some(reach.merge_sender);
        }
        self.active_by_node[node_index].push(worker_id);
        assert(self@.workers == old(self)@.assigned(worker_id, node_index, role, reach).workers);
        assert(self@.active == old(self)@.assigned(worker_id, node_index, role, reach).active);
        Ok(role)
    }

    /// The error of a worker that can no longer be given anything to do.
    pub fn command_closed(&self, worker_id: usize) -> (r: PiperError<E>)
        requires
            worker_id < self.workers@.len(),
        ensures
            r matches PiperError::Internal { worker, message } && worker@
                == self.workers@[worker_id as int].name@ && message@
                == "worker command channel closed"@,
    {
        PiperError::Internal {
            worker: self.workers[worker_id].name.clone(),
            message: "worker command channel closed".to_owned(),
        }
    }

    /// Parks a worker that was just started.
    pub fn park_new_worker(&mut self, worker_id: usize)
        ensures
            final(self)@ == old(self)@.parking(worker_id),
            final(self).stored_failure == old(self).stored_failure,
    {
        self.parked.push(worker_id);
    }

    /// Takes the worker that was parked last, if any is parked.
    pub fn take_parked(&mut self) -> (r: Option<usize>)
        ensures
            final(self).stored_failure == old(self).stored_failure,
            if old(self)@.parked.len() > 0 {
                &&& r == Some(old(self)@.parked.last())
                &&& final(self)@ == old(self)@.unparked()
            } else {
                &&& r is None
                &&& final(self)@ == old(self)@
            },
    {
        let taken: Option<usize> = self.parked.pop();
        if taken.is_none() {
            assert(self@ == old(self)@);
        }
        taken
    }

    /// How many workers have to be started so that `target` are parked.
    pub fn missing_parked(&self, target: usize) -> (r: usize)
        ensures
            r == if self@.parked.len() < target {
                target - self@.parked.len()
            } else {
                0
            },
    {
        let count: usize = self.parked.len();
        if count < target {
            target - count
        } else {
            0
        }
    }
}

/// The first number in the list that is not `x`.
pub open spec fn first_other(s: Seq<usize>, x: usize) -> Option<usize>
    decreases s.len(),
{
    if s.len() == 0 {
        None
    } else if s[0] != x {
        Some(s[0])
    } else {
        first_other(s.skip(1), x)
    }
}

fn find_other(list: &Vec<usize>, x: usize) -> (r: Option<usize>)
    ensures
        r == first_other(list@, x),
{
    assert(list@.skip(0) == list@);
    for i in 0..list.len()
        invariant
            first_other(list@, x) == first_other(list@.skip(i as int), x),
    {
        assert(list@.skip(i as int).skip(1) == list@.skip(i + 1));
        if list[i] != x {
            return Some(list[i]);
        }
    }
    None
}

/// How a worker is taken off its node.
#[derive(Clone, Copy, Debug, PartialEq, Eq, Structural)]
pub enum Removal {
    Nothing,
    /// The worker cleans up its state.
    Cleanup { worker_id: usize },
    /// The worker hands its state over to another.
    Transfer { source_worker_id: usize, target_worker_id: usize },
}

/// Whether the node's states can be merged.
pub open spec fn merges<S, A, R>(node: RuntimeNode<S, A, R>) -> bool {
    node.stage matches Some(stage) && stage.merges_state
}

/// Whether the node's states can be merged.
pub fn node_has_merge_state<S, A, R>(node: &RuntimeNode<S, A, R>) -> (r: bool)
    ensures
        r == merges(*node),
{
    match &node.stage {
        Some(stage) => stage.merges_state,
        None => false,
    }
}

impl<M, C, T, F, Q, R: Copy> Book<M, C, T, F, Q, R> {
    /// The worker that is to be taken off the node: the one that was named, or else the node's first.
    pub open spec fn leaver(self, node: usize, worker: Option<usize>) -> Option<usize> {
        if worker is Some {
            worker
        } else if self.active[node as int].len() > 0 {
            Some(self.active[node as int][0])
        } else {
            None
        }
    }

    /// How a worker is taken off the node. Where states can be merged and another worker is there,
    /// the state goes over to the first other.
    pub open spec fn removal(self, node: usize, worker: Option<usize>, merging: bool) -> Removal {
        match self.leaver(node, worker) {
            None => Removal::Nothing,
            Some(w) => if self.workers[w as int].retire is None {
                Removal::Nothing
            } else if merging && self.active[node as int].len() > 1 {
                match first_other(self.active[node as int], w) {
                    Some(target) => Removal::Transfer {
                        source_worker_id: w,
                        target_worker_id: target,
                    },
                    None => Removal::Nothing,
                }
            } else {
                Removal::Cleanup { worker_id: w }
            },
        }
    }
}

impl<E, M, C, T, F, Q, R: Copy> Supervisor<E, M, C, T, F, Q, R> {
    /// Decides how a worker is taken off the node.
    pub fn plan_removal<S, A>(
        &self,
        node_index: usize,
        worker_id: Option<usize>,
        nodes: &Vec<RuntimeNode<S, A, R>>,
    ) -> (r: Removal)
        requires
            node_index < self.active_by_node@.len(),
            node_index < nodes@.len(),
            self@.leaver(node_index, worker_id) matches Some(w) ==> w < self.workers@.len(),
        ensures
            r == self@.removal(node_index, worker_id, merges(nodes@[node_index as int])),
    {
        let active: &Vec<usize> = &self.active_by_node[node_index];
        let ghost listed = self@.active[node_index as int];
        assert(listed == active@);
        let leaver: usize = match worker_id {
            Some(worker_id) => worker_id,
            None => {
                if active.len() == 0 {
                    return Removal::Nothing;
                }
                active[0]
            },
        };
        if node_has_merge_state(&nodes[node_index]) && active.len() > 1 {
            match find_other(active, leaver) {
                Some(target_worker_id) => {
                    if self.workers[leaver].retire.is_some() {
                        Removal::Transfer { source_worker_id: leaver, target_worker_id }
                    } else {
                        Removal::Nothing
                    }
                },
                None => Removal::Nothing,
            }
        } else if self.workers[leaver].retire.is_some() {
            Removal::Cleanup { worker_id: leaver }
        } else {
            Removal::Nothing
        }
    }

    /// Notes that a worker was given to the node, and has yet to start.
    pub fn begin_add(&mut self, worker_id: usize, node_index: usize)
        ensures
            final(self)@ == old(self)@.adding(worker_id, node_index),
            final(self).stored_failure == old(self).stored_failure,
    {
        self.pending_scale = Some(PendingScale::Add { worker_id, node_index });
    }

    /// Notes that a worker of the node was asked to clean up and leave.
    pub fn begin_cleanup(&mut self, worker_id: usize, node_index: usize)
        ensures
            final(self)@ == old(self)@.removing(worker_id, node_index),
            final(self).stored_failure == old(self).stored_failure,
    {
        self.pending_scale = Some(PendingScale::Remove { worker_id, node_index });
    }

    /// Notes that a worker of the node was asked to hand its state over, which will come out of the
    /// receiver.
    pub fn begin_transfer(
        &mut self,
        source_worker_id: usize,
        target_worker_id: usize,
        node_index: usize,
        state_receiver: C,
    )
        requires
            node_index < old(self).controls@.len(),
        ensures
            final(self)@ == old(self)@.transferring(
                source_worker_id,
                target_worker_id,
                node_index,
                state_receiver,
            ),
            final(self).stored_failure == old(self).stored_failure,
    {
        self.pending_scale =
        Some(
            PendingScale::MergeDown {
                source_worker_id,
                target_worker_id,
                node_index,
                state_receiver: Some(state_receiver),
                waiting_for_target: false,
            },
        );
        let mut control: NodeControl<R> = self.controls[node_index];
        control.scaling_state = NodeScalingState::Merging;
        self.controls.set(node_index, control);
    }

    /// Whether the pipeline is to end.
    pub open spec fn ends(&self, shutdown: bool, abort: bool) -> bool {
        shutdown || abort || self.stored_failure is Some
    }

    /// Whether a change of the number of workers may begin: the pipeline is not to end, and none is
    /// pending.
    pub fn may_scale(&self, shutdown: bool, abort: bool) -> (r: bool)
        ensures
            r == (!self.ends(shutdown, abort) && self@.pending is None),
    {
        !shutdown && !abort && self.stored_failure.is_none() && self.pending_scale.is_none()
    }

    /// What becomes of the links: once the pipeline is to end they are let go, and what waits on them
    /// is dropped where it is aborted or has failed.
    pub fn release_links(&mut self, shutdown: bool, abort: bool) -> (r: LinkAction)
        ensures
            final(self).stored_failure == old(self).stored_failure,
            if old(self)@.holds_links && old(self).ends(shutdown, abort) {
                &&& final(self)@ == (Book { holds_links: false, ..old(self)@ })
                &&& r == if abort || old(self).stored_failure is Some {
                    LinkAction::Abort
                } else {
                    LinkAction::Close
                }
            } else {
                &&& final(self)@ == old(self)@
                &&& r == LinkAction::Keep
            },
    {
        if !(shutdown || abort || self.stored_failure.is_some()) || !self.holds_links {
            return LinkAction::Keep;
        }
        self.holds_links = false;
        if abort || self.stored_failure.is_some() {
            LinkAction::Abort
        } else {
            LinkAction::Close
        }
    }

    /// Whether the supervisor is done: the pipeline is to end, and no worker is at any node.
    pub fn is_done(&self, shutdown: bool, abort: bool) -> (r: bool)
        requires
            active_total(self.active_by_node@, self.active_by_node@.len()) <= usize::MAX,
        ensures
            r == (self.ends(shutdown, abort) && active_total(
                self.active_by_node@,
                self.active_by_node@.len(),
            ) == 0),
    {
        (shutdown || abort || self.stored_failure.is_some()) && active_worker_count(
            &self.active_by_node,
        ) == 0
    }

    /// What the supervisor leaves behind: the states that were given back, or the failure.
    pub fn into_result(self) -> (r: Result<Vec<M>, PiperError<E>>)
        ensures
            match self.stored_failure {
                Some(error) => r == Err::<Vec<M>, PiperError<E>>(error),
                None => r matches Ok(states) && states@ == self@.states,
            },
    {
        match self.stored_failure {
            Some(error) => Err(error),
            None => Ok(self.returned_states),
        }
    }
}

/// What becomes of the links.
#[derive(Clone, Copy, Debug, PartialEq, Eq, Structural)]
pub enum LinkAction {
    Keep,
    /// They are closed: what waits on them is still worked on.
    Close,
    /// They are closed, and what waits on them is dropped.
    Abort,
}

/// The error of a thread that panicked.
pub fn worker_panicked<E>(worker: String, payload: PanicPayload) -> (r: PiperError<E>)
    ensures
        r matches PiperError::WorkerPanicked { worker: w, message } && w == worker && message@
            == payload.text(),
{
    PiperError::WorkerPanicked { worker, message: panic_payload_to_string(payload) }
}

} // verus!
