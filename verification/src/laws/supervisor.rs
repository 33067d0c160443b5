//! How the supervisor keeps its book, and what it does on each event.

use crate::control::{NodeControl, ScaleDirection};
use crate::error::{NodeFailure, PanicPayload, PiperError};
use crate::laws::links::supervisor_tells;
use crate::laws::scaling::{total_counts_the_lists, workforce};
use crate::plan::RuntimeNode;
use crate::rounds::{RunStep, ScaleTask};
use crate::scaling::ScaleOperation;
use crate::snapshot::NodeScalingState;
use crate::supervisor::{
    first_other, lists, node_has_merge_state, pending_scale_involves_worker,
    remove_worker_from_node, without, worker_panicked, FollowUp, LinkAction, PendingScale, Removal,
    Supervisor, WorkerEvent, WorkerReach, WorkerRole, WorkerSlot,
};
use vstd::prelude::*;

verus! {

/// Whether `after` is the list with the first `x` taken out and the last item put in its place; a list
/// without it stays.
pub open spec fn taken_off(before: Seq<usize>, after: Seq<usize>, x: usize) -> bool {
    &&& (forall|k: int| 0 <= k < before.len() ==> before[k] != x) ==> after == before
    &&& forall|i: int|
        0 <= i < before.len() && #[trigger] before[i] == x && (forall|k: int|
            0 <= k < i ==> before[k] != x) ==> {
            &&& after.len() == before.len() - 1
            &&& forall|k: int| 0 <= k < after.len() && k != i ==> #[trigger] after[k] == before[k]
            &&& i < after.len() ==> after[i] == before[before.len() - 1]
        }
}

proof fn without_is_taken_off(before: Seq<usize>, x: usize)
    ensures
        taken_off(before, without(before, x), x),
{
    before.index_of_first_ensures(x);
    assert forall|i: int|
        0 <= i < before.len() && #[trigger] before[i] == x && (forall|k: int|
            0 <= k < i ==> before[k] != x) implies ({
        let after = without(before, x);
        &&& after.len() == before.len() - 1
        &&& forall|k: int| 0 <= k < after.len() && k != i ==> #[trigger] after[k] == before[k]
        &&& i < after.len() ==> after[i] == before[before.len() - 1]
    }) by {
        assert(before.contains(x));
        let j = before.index_of_first(x)->0;
        assert(before[j] == x);
        assert(i == j);
    }
}

proof fn listed(active: Seq<Vec<usize>>, i: int)
    requires
        0 <= i < active.len(),
    ensures
        lists(active)[i] == active[i]@,
{
}

/// A worker is taken off the list of its node, and no other list changes.
pub proof fn workers_are_taken_off(
    active_by_node: &mut Vec<Vec<usize>>,
    node_index: usize,
    worker_id: usize,
    i: int,
)
    requires
        call_ensures(
            remove_worker_from_node,
            (active_by_node, node_index, worker_id),
            (),
        ),
        node_index < old(active_by_node)@.len(),
        0 <= i < old(active_by_node)@.len(),
    ensures
        final(active_by_node)@.len() == old(active_by_node)@.len(),
        i == node_index ==> taken_off(
            old(active_by_node)@[i]@,
            final(active_by_node)@[i]@,
            worker_id,
        ),
        i != node_index ==> final(active_by_node)@[i]@ == old(active_by_node)@[i]@,
{
    assert(lists(final(active_by_node)@).len() == lists(old(active_by_node)@).len());
    listed(final(active_by_node)@, i);
    listed(old(active_by_node)@, i);
    without_is_taken_off(old(active_by_node)@[node_index as int]@, worker_id);
}

/// A change that has begun concerns the worker that is added or removed, or both that merge.
pub proof fn changes_concern_their_workers<C>(
    pending: &Option<PendingScale<C>>,
    worker_id: usize,
    r: bool,
)
    requires
        call_ensures(pending_scale_involves_worker::<C>, (pending, worker_id), r),
    ensures
        match *pending {
            None => !r,
            Some(PendingScale::Add { worker_id: w, node_index }) => r <==> w == worker_id,
            Some(PendingScale::Remove { worker_id: w, node_index }) => r <==> w == worker_id,
            Some(
                PendingScale::MergeDown {
                    source_worker_id,
                    target_worker_id,
                    node_index,
                    state_receiver,
                    waiting_for_target,
                },
            ) => r <==> source_worker_id == worker_id || target_worker_id == worker_id,
        },
{
}

/// Whether the node settles after a change of that kind, and all else is as it was.
pub open spec fn settles_after<R>(
    before: NodeControl<R>,
    after: NodeControl<R>,
    direction: ScaleDirection,
    now: u128,
) -> bool {
    after == NodeControl {
        last_operation: Some((direction, now)),
        settling: true,
        settle_samples: 0,
        settle_observed_work: false,
        scaling_state: NodeScalingState::Settling,
        ..before
    }
}

/// Whether the change at that node is over: nothing is pending, the node settles, and no other node's
/// controls changed.
pub open spec fn change_over<E, M, C, T, F, Q, R>(
    before: Supervisor<E, M, C, T, F, Q, R>,
    after: Supervisor<E, M, C, T, F, Q, R>,
    node: usize,
    direction: ScaleDirection,
    now: u128,
) -> bool {
    &&& after.pending_scale is None
    &&& after.controls@.len() == before.controls@.len()
    &&& settles_after(
        before.controls@[node as int],
        after.controls@[node as int],
        direction,
        now,
    )
    &&& forall|i: int|
        0 <= i < before.controls@.len() && i != node ==> #[trigger] after.controls@[i]
            == before.controls@[i]
}

/// Whether the controls and what is pending stayed.
pub open spec fn change_stays<E, M, C, T, F, Q, R>(
    before: Supervisor<E, M, C, T, F, Q, R>,
    after: Supervisor<E, M, C, T, F, Q, R>,
) -> bool {
    after.pending_scale == before.pending_scale && after.controls@ == before.controls@
}

/// Whether the workers and where they are stayed.
pub open spec fn workers_stay<E, M, C, T, F, Q, R>(
    before: Supervisor<E, M, C, T, F, Q, R>,
    after: Supervisor<E, M, C, T, F, Q, R>,
) -> bool {
    &&& after.workers@ == before.workers@
    &&& lists(after.active_by_node@) == lists(before.active_by_node@)
    &&& after.parked@ == before.parked@
    &&& after.returned_states@ == before.returned_states@
    &&& after.holds_links == before.holds_links
}

/// Whether the worker has left the node: it is off the node's list, nothing reaches it any more, and no
/// other worker or list changed.
pub open spec fn has_left<E, M, C, T, F, Q, R>(
    before: Supervisor<E, M, C, T, F, Q, R>,
    after: Supervisor<E, M, C, T, F, Q, R>,
    worker: usize,
    node: usize,
) -> bool {
    &&& after.workers@.len() == before.workers@.len()
    &&& forall|i: int|
        0 <= i < before.workers@.len() && i != worker ==> #[trigger] after.workers@[i]
            == before.workers@[i]
    &&& after.workers@[worker as int] == WorkerSlot::<T, F, Q> {
        name: before.workers@[worker as int].name,
        active_node: None,
        retire: None,
        merge_pending: None,
        merge_sender: None,
    }
    &&& after.active_by_node@.len() == before.active_by_node@.len()
    &&& taken_off(
        before.active_by_node@[node as int]@,
        after.active_by_node@[node as int]@,
        worker,
    )
    &&& forall|i: int|
        0 <= i < before.active_by_node@.len() && i != node ==> #[trigger] after.active_by_node@[i]@
            == before.active_by_node@[i]@
    &&& after.holds_links == before.holds_links
}

proof fn leaving_is_seen<E, M, C, T, F, Q, R: Copy>(
    before: Supervisor<E, M, C, T, F, Q, R>,
    after: Supervisor<E, M, C, T, F, Q, R>,
    worker: usize,
    node: usize,
)
    requires
        worker < before.workers@.len(),
        node < before.active_by_node@.len(),
        after@.workers == before@.left(worker, node).workers,
        after@.active == before@.left(worker, node).active,
        after@.holds_links == before@.holds_links,
    ensures
        has_left(before, after, worker, node),
{
    assert(lists(after.active_by_node@).len() == lists(before.active_by_node@).len());
    without_is_taken_off(before.active_by_node@[node as int]@, worker);
    listed(before.active_by_node@, node as int);
    listed(after.active_by_node@, node as int);
    assert forall|i: int| 0 <= i < before.active_by_node@.len() && i != node implies
    #[trigger] after.active_by_node@[i]@ == before.active_by_node@[i]@ by {
        listed(before.active_by_node@, i);
        listed(after.active_by_node@, i);
    }
}

/// A worker that started ends the change by which it was added; nothing else comes of it.
pub proof fn started_workers_end_their_change<E, M, C, T, F, Q, R: Copy>(
    supervisor: &mut Supervisor<E, M, C, T, F, Q, R>,
    worker_id: usize,
    now: u128,
    r: (bool, FollowUp<C>),
)
    requires
        call_ensures(
            Supervisor::<E, M, C, T, F, Q, R>::apply_event,
            (supervisor, WorkerEvent::<E, M>::Started { worker_id }, now),
            r,
        ),
        old(supervisor).pending_scale matches Some(PendingScale::Add { worker_id: w, node_index })
            ==> node_index < old(supervisor).controls@.len(),
    ensures
        !r.0,
        r.1 is Nothing,
        final(supervisor).stored_failure == old(supervisor).stored_failure,
        workers_stay(*old(supervisor), *final(supervisor)),
        match old(supervisor).pending_scale {
            Some(PendingScale::Add { worker_id: w, node_index }) if w == worker_id => change_over(
                *old(supervisor),
                *final(supervisor),
                node_index,
                ScaleDirection::Add,
                now,
            ),
            _ => change_stays(*old(supervisor), *final(supervisor)),
        },
{
    let before = old(supervisor)@;
    let after = final(supervisor)@;
    assert(after.workers == before.workers && after.active == before.active && after.parked
        == before.parked && after.states == before.states);
}

/// A worker that was parked has left its node and is parked behind the others, and the state that it
/// gave back is kept behind the others. It ends the change by which it was removed.
pub proof fn parked_workers_have_left<E, M, C, T, F, Q, R: Copy>(
    supervisor: &mut Supervisor<E, M, C, T, F, Q, R>,
    worker_id: usize,
    node_index: usize,
    returned_state: Option<M>,
    now: u128,
    r: (bool, FollowUp<C>),
)
    requires
        call_ensures(
            Supervisor::<E, M, C, T, F, Q, R>::apply_event,
            (
                supervisor,
                WorkerEvent::<E, M>::Parked { worker_id, node_index, returned_state },
                now,
            ),
            r,
        ),
        worker_id < old(supervisor).workers@.len(),
        node_index < old(supervisor).active_by_node@.len(),
        old(supervisor).pending_scale matches Some(PendingScale::Remove { worker_id: w, node_index })
            ==> node_index < old(supervisor).controls@.len(),
    ensures
        has_left(*old(supervisor), *final(supervisor), worker_id, node_index),
        final(supervisor).parked@ == old(supervisor).parked@.push(worker_id),
        returned_state matches Some(state) ==> final(supervisor).returned_states@ == old(
            supervisor,
        ).returned_states@.push(state),
        returned_state is None ==> final(supervisor).returned_states@ == old(
            supervisor,
        ).returned_states@,
        match old(supervisor).pending_scale {
            Some(PendingScale::Remove { worker_id: w, node_index: n }) if w == worker_id => {
                &&& change_over(
                    *old(supervisor),
                    *final(supervisor),
                    n,
                    ScaleDirection::Remove,
                    now,
                )
                &&& !r.0
                &&& r.1 is Nothing
                &&& final(supervisor).stored_failure == old(supervisor).stored_failure
            },
            Some(
                PendingScale::MergeDown {
                    source_worker_id,
                    target_worker_id,
                    node_index: n,
                    state_receiver,
                    waiting_for_target,
                },
            ) if source_worker_id == worker_id && !waiting_for_target => {
                let reachable = target_worker_id != worker_id && old(
                    supervisor,
                ).workers@[target_worker_id as int].merge_sender is Some;
                &&& final(supervisor).controls@ == old(supervisor).controls@
                &&& final(supervisor).pending_scale == Some(
                    PendingScale::MergeDown {
                        source_worker_id,
                        target_worker_id,
                        node_index: n,
                        state_receiver: None::<C>,
                        waiting_for_target,
                    },
                )
                &&& target_worker_id < old(supervisor).workers@.len() ==> {
                    &&& r.0 <==> state_receiver is None || !reachable
                    &&& !r.0 ==> r.1 == (FollowUp::RequestMerge {
                        source_worker_id: worker_id,
                        target_worker_id,
                        state_receiver: state_receiver->0,
                    }) && final(supervisor).stored_failure == old(supervisor).stored_failure
                    &&& r.0 ==> r.1 is Nothing && final(supervisor).stored_failure is Some
                    &&& r.0 && state_receiver is None ==> supervisor_tells(
                        final(supervisor).stored_failure->0,
                        "missing merge state receiver"@,
                    )
                    &&& r.0 && state_receiver is Some ==> supervisor_tells(
                        final(supervisor).stored_failure->0,
                        "merge target worker is not active"@,
                    )
                }
            },
            _ => {
                &&& change_stays(*old(supervisor), *final(supervisor))
                &&& !r.0
                &&& r.1 is Nothing
                &&& final(supervisor).stored_failure == old(supervisor).stored_failure
            },
        },
{
    leaving_is_seen(*old(supervisor), *final(supervisor), worker_id, node_index);
}

/// A merge is over once the worker that was to take the state in says so, of the worker that handed it
/// over, and was waited for; anything else of that kind changes nothing.
pub proof fn merges_end_with_their_target<E, M, C, T, F, Q, R: Copy>(
    supervisor: &mut Supervisor<E, M, C, T, F, Q, R>,
    worker_id: usize,
    node_index: usize,
    source: usize,
    now: u128,
    r: (bool, FollowUp<C>),
)
    requires
        call_ensures(
            Supervisor::<E, M, C, T, F, Q, R>::apply_event,
            (
                supervisor,
                WorkerEvent::<E, M>::MergeCompleted {
                    worker_id,
                    node_index,
                    source_worker_id: source,
                },
                now,
            ),
            r,
        ),
        node_index < old(supervisor).controls@.len(),
    ensures
        !r.0,
        r.1 is Nothing,
        final(supervisor).stored_failure == old(supervisor).stored_failure,
        workers_stay(*old(supervisor), *final(supervisor)),
        match old(supervisor).pending_scale {
            Some(
                PendingScale::MergeDown {
                    source_worker_id,
                    target_worker_id,
                    node_index: n,
                    state_receiver,
                    waiting_for_target,
                },
            ) if source_worker_id == source && target_worker_id == worker_id
                && waiting_for_target => change_over(
                *old(supervisor),
                *final(supervisor),
                node_index,
                ScaleDirection::Merge,
                now,
            ),
            _ => change_stays(*old(supervisor), *final(supervisor)),
        },
{
    let before = old(supervisor)@;
    let after = final(supervisor)@;
    assert(after.workers == before.workers && after.active == before.active && after.parked
        == before.parked && after.states == before.states);
}

/// A worker that failed has left its node and is parked, once; the pipeline is aborted and its failure
/// kept, and a change that concerns it is given up.
pub proof fn failed_workers_abort<E, M, C, T, F, Q, R: Copy>(
    supervisor: &mut Supervisor<E, M, C, T, F, Q, R>,
    worker_id: usize,
    node_index: usize,
    worker: String,
    failure: NodeFailure<E>,
    now: u128,
    r: (bool, FollowUp<C>),
)
    requires
        call_ensures(
            Supervisor::<E, M, C, T, F, Q, R>::apply_event,
            (
                supervisor,
                WorkerEvent::<E, M>::Failed { worker_id, node_index, worker, failure },
                now,
            ),
            r,
        ),
        worker_id < old(supervisor).workers@.len(),
        node_index < old(supervisor).active_by_node@.len(),
    ensures
        r.0,
        r.1 is Nothing,
        has_left(*old(supervisor), *final(supervisor), worker_id, node_index),
        old(supervisor).parked@.contains(worker_id) ==> final(supervisor).parked@ == old(
            supervisor,
        ).parked@,
        !old(supervisor).parked@.contains(worker_id) ==> final(supervisor).parked@ == old(
            supervisor,
        ).parked@.push(worker_id),
        final(supervisor).returned_states@ == old(supervisor).returned_states@,
        final(supervisor).controls@ == old(supervisor).controls@,
        ({
            let concerned = match old(supervisor).pending_scale {
                None => false,
                Some(PendingScale::Add { worker_id: w, node_index: n }) => w == worker_id,
                Some(PendingScale::Remove { worker_id: w, node_index: n }) => w == worker_id,
                Some(
                    PendingScale::MergeDown {
                        source_worker_id,
                        target_worker_id,
                        node_index: n,
                        state_receiver,
                        waiting_for_target,
                    },
                ) => source_worker_id == worker_id || target_worker_id == worker_id,
            };
            &&& concerned ==> final(supervisor).pending_scale is None
            &&& !concerned ==> final(supervisor).pending_scale == old(supervisor).pending_scale
        }),
        final(supervisor).stored_failure is Some,
        match failure {
            NodeFailure::Init(e) => final(
                supervisor
            ).stored_failure->0 matches PiperError::UserInit { worker: w, error } && w@ == worker@
                && error == e,
            NodeFailure::Process(e) => final(
                supervisor
            ).stored_failure->0 matches PiperError::UserProcess { worker: w, error } && w@
                == worker@ && error == e,
            NodeFailure::Cleanup(e) => final(
                supervisor
            ).stored_failure->0 matches PiperError::UserCleanup { worker: w, error } && w@
                == worker@ && error == e,
            NodeFailure::Merge(e) => final(
                supervisor
            ).stored_failure->0 matches PiperError::UserMerge { worker: w, error } && w@ == worker@
                && error == e,
            NodeFailure::Internal(m) => final(
                supervisor
            ).stored_failure->0 matches PiperError::Internal { worker: w, message } && w@
                == worker@ && message@ == m@,
        },
{
    leaving_is_seen(*old(supervisor), *final(supervisor), worker_id, node_index);
}

/// A worker that stopped changes nothing.
pub proof fn stopped_workers_change_nothing<E, M, C, T, F, Q, R: Copy>(
    supervisor: &mut Supervisor<E, M, C, T, F, Q, R>,
    now: u128,
    r: (bool, FollowUp<C>),
)
    requires
        call_ensures(
            Supervisor::<E, M, C, T, F, Q, R>::apply_event,
            (supervisor, WorkerEvent::<E, M>::Stopped, now),
            r,
        ),
    ensures
        !r.0,
        r.1 is Nothing,
        final(supervisor).stored_failure == old(supervisor).stored_failure,
        workers_stay(*old(supervisor), *final(supervisor)),
        change_stays(*old(supervisor), *final(supervisor)),
{
    let before = old(supervisor)@;
    let after = final(supervisor)@;
    assert(after.workers == before.workers && after.active == before.active && after.parked
        == before.parked && after.states == before.states);
}

/// A merge goes on where its target was asked and can be told: it is then waited for, and its node
/// merges. Otherwise the pipeline is aborted, and what was wrong is kept.
pub proof fn merge_targets_are_told<E, M, C, T, F, Q, R: Copy>(
    supervisor: &mut Supervisor<E, M, C, T, F, Q, R>,
    sent: bool,
    source: usize,
    target: usize,
    node: usize,
    receiver: Option<C>,
    waiting: bool,
    r: (bool, Option<usize>),
)
    requires
        call_ensures(
            Supervisor::<E, M, C, T, F, Q, R>::merge_requested,
            (supervisor, sent),
            r,
        ),
        old(supervisor).pending_scale == Some(
            PendingScale::MergeDown {
                source_worker_id: source,
                target_worker_id: target,
                node_index: node,
                state_receiver: receiver,
                waiting_for_target: waiting,
            },
        ),
        target < old(supervisor).workers@.len(),
        node < old(supervisor).controls@.len(),
    ensures
        ({
            let told = sent && old(supervisor).workers@[target as int].merge_pending is Some;
            &&& workers_stay(*old(supervisor), *final(supervisor))
            &&& r.0 <==> !told
            &&& told ==> {
                &&& r.1 == Some(target)
                &&& final(supervisor).pending_scale == Some(
                    PendingScale::MergeDown {
                        source_worker_id: source,
                        target_worker_id: target,
                        node_index: node,
                        state_receiver: receiver,
                        waiting_for_target: true,
                    },
                )
                &&& final(supervisor).stored_failure == old(supervisor).stored_failure
                &&& final(supervisor).controls@.len() == old(supervisor).controls@.len()
                &&& final(supervisor).controls@[node as int] == (NodeControl {
                    scaling_state: NodeScalingState::Merging,
                    ..old(supervisor).controls@[node as int]
                })
                &&& forall|i: int|
                    0 <= i < old(supervisor).controls@.len() && i != node
                        ==> #[trigger] final(supervisor).controls@[i] == old(
                        supervisor,
                    ).controls@[i]
            }
            &&& !told ==> {
                &&& r.1 is None
                &&& change_stays(*old(supervisor), *final(supervisor))
                &&& final(supervisor).stored_failure is Some
                &&& !sent ==> supervisor_tells(
                    final(supervisor).stored_failure->0,
                    "merge target request channel closed"@,
                )
                &&& sent ==> supervisor_tells(
                    final(supervisor).stored_failure->0,
                    "merge target pending flag is unavailable"@,
                )
            }
        }),
{
    let before = old(supervisor)@;
    let after = final(supervisor)@;
    assert(after.workers == before.workers && after.active == before.active && after.parked
        == before.parked && after.states == before.states);
}

/// A new supervisor has the nodes' controls, an empty list for each node, and nothing else.
pub proof fn supervisors_begin_empty<E, M, C, T, F, Q, R: Copy>(
    controls: Vec<NodeControl<R>>,
    r: Supervisor<E, M, C, T, F, Q, R>,
)
    requires
        call_ensures(Supervisor::<E, M, C, T, F, Q, R>::new, (controls,), r),
    ensures
        r.workers@.len() == 0,
        r.active_by_node@.len() == controls@.len(),
        forall|i: int| 0 <= i < controls@.len() ==> (#[trigger] r.active_by_node@[i])@.len() == 0,
        r.parked@.len() == 0,
        r.controls@ == controls@,
        r.pending_scale is None,
        r.stored_failure is None,
        r.returned_states@.len() == 0,
        r.holds_links,
{
    assert(r@.active.len() == controls@.len());
    assert forall|i: int| 0 <= i < controls@.len() implies (#[trigger] r.active_by_node@[i])@.len()
        == 0 by {
        listed(r.active_by_node@, i);
        assert(r@.active[i] == Seq::<usize>::empty());
    }
}

/// A worker that is entered gets the next number, and is not at any node.
pub proof fn workers_are_entered<E, M, C, T, F, Q, R: Copy>(
    supervisor: &mut Supervisor<E, M, C, T, F, Q, R>,
    name: String,
    r: usize,
)
    requires
        call_ensures(
            Supervisor::<E, M, C, T, F, Q, R>::register_worker,
            (supervisor, name),
            r,
        ),
    ensures
        r == old(supervisor).workers@.len(),
        final(supervisor).workers@ == old(supervisor).workers@.push(
            WorkerSlot {
                name,
                active_node: None,
                retire: None,
                merge_pending: None,
                merge_sender: None,
            },
        ),
        lists(final(supervisor).active_by_node@) == lists(old(supervisor).active_by_node@),
        final(supervisor).parked@ == old(supervisor).parked@,
        final(supervisor).returned_states@ == old(supervisor).returned_states@,
        change_stays(*old(supervisor), *final(supervisor)),
        final(supervisor).stored_failure == old(supervisor).stored_failure,
{
    let before = old(supervisor)@;
    let after = final(supervisor)@;
    assert(after.active == before.active && after.parked == before.parked && after.states
        == before.states);
}

/// A worker that is given to a node stands last on its list and can be reached, but for merges at a
/// branch. It is told its links, whether they are the pipeline's first, and whether states are given
/// back. A node that the pipeline does not run takes none, and nothing changes.
pub proof fn workers_are_given_to_nodes<E, M, C, T, F, Q, R: Copy, S, A>(
    supervisor: &mut Supervisor<E, M, C, T, F, Q, R>,
    worker_id: usize,
    node_index: usize,
    nodes: &Vec<RuntimeNode<S, A, R>>,
    input_link: usize,
    reach: WorkerReach<T, F, Q>,
    r: Result<WorkerRole, PiperError<E>>,
)
    requires
        call_ensures(
            Supervisor::<E, M, C, T, F, Q, R>::assign_worker::<S, A>,
            (supervisor, worker_id, node_index, nodes, input_link, reach),
            r,
        ),
        worker_id < old(supervisor).workers@.len(),
        node_index < old(supervisor).active_by_node@.len(),
    ensures
        ({
            let node = nodes@[node_index as int];
            let branch = node.weighted_branch_config is Some;
            let first = node.input_link == input_link;
            &&& r is Ok <==> branch || node.stage is Some
            &&& branch ==> r == Ok::<WorkerRole, PiperError<E>>(
                WorkerRole::Branch {
                    input_link: node.input_link,
                    left_link: node.output_links@[0],
                    right_link: node.output_links@[1],
                    is_input_stage: first,
                },
            )
            &&& !branch && node.stage is Some ==> r == Ok::<WorkerRole, PiperError<E>>(
                WorkerRole::Managed {
                    input_link: node.input_link,
                    output_link: node.output_links@[0],
                    is_input_stage: first,
                    return_state_on_exit: node.return_state_on_exit,
                },
            )
            &&& r is Ok ==> {
                let slot = final(supervisor).workers@[worker_id as int];
                &&& slot.name == old(supervisor).workers@[worker_id as int].name
                &&& slot.active_node == Some(node_index)
                &&& slot.retire == Some(reach.retire)
                &&& branch ==> slot.merge_pending is None && slot.merge_sender is None
                &&& !branch ==> slot.merge_pending == Some(reach.merge_pending) && slot.merge_sender
                    == Some(reach.merge_sender)
                &&& final(supervisor).workers@.len() == old(supervisor).workers@.len()
                &&& forall|i: int|
                    0 <= i < old(supervisor).workers@.len() && i != worker_id
                        ==> #[trigger] final(supervisor).workers@[i] == old(supervisor).workers@[i]
                &&& final(supervisor).active_by_node@.len() == old(supervisor).active_by_node@.len()
                &&& final(supervisor).active_by_node@[node_index as int]@ == old(
                    supervisor,
                ).active_by_node@[node_index as int]@.push(worker_id)
                &&& forall|i: int|
                    0 <= i < old(supervisor).active_by_node@.len() && i != node_index
                        ==> #[trigger] final(supervisor).active_by_node@[i]@ == old(
                        supervisor,
                    ).active_by_node@[i]@
                &&& final(supervisor).parked@ == old(supervisor).parked@
                &&& final(supervisor).returned_states@ == old(supervisor).returned_states@
            }
            &&& r matches Err(error) ==> {
                &&& error matches PiperError::Internal { worker, message } && worker@ == old(
                    supervisor,
                ).workers@[worker_id as int].name@ && message@
                    == "cannot assign a managed worker to an external node"@
                &&& workers_stay(*old(supervisor), *final(supervisor))
            }
            &&& change_stays(*old(supervisor), *final(supervisor))
            &&& final(supervisor).stored_failure == old(supervisor).stored_failure
        }),
{
    let before = old(supervisor)@;
    let after = final(supervisor)@;
    assert(after.active.len() == before.active.len());
    listed(old(supervisor).active_by_node@, node_index as int);
    listed(final(supervisor).active_by_node@, node_index as int);
    assert forall|i: int|
        0 <= i < old(supervisor).active_by_node@.len() && i != node_index && r is Ok implies
    #[trigger] final(supervisor).active_by_node@[i]@ == old(supervisor).active_by_node@[i]@ by {
        listed(old(supervisor).active_by_node@, i);
        listed(final(supervisor).active_by_node@, i);
    }
    if r is Err {
        assert(after.workers == before.workers && after.active == before.active && after.parked
            == before.parked && after.states == before.states);
    }
}

/// Workers are parked one behind the other, and the one that was parked last is taken first; as many are
/// missing as there are fewer than are to be parked.
pub proof fn parked_workers_are_stacked<E, M, C, T, F, Q, R: Copy>(
    parking: &mut Supervisor<E, M, C, T, F, Q, R>,
    taking: &mut Supervisor<E, M, C, T, F, Q, R>,
    counted: &Supervisor<E, M, C, T, F, Q, R>,
    worker_id: usize,
    taken: Option<usize>,
    target: usize,
    missing: usize,
)
    requires
        call_ensures(
            Supervisor::<E, M, C, T, F, Q, R>::park_new_worker,
            (parking, worker_id),
            (),
        ),
        call_ensures(Supervisor::<E, M, C, T, F, Q, R>::take_parked, (taking,), taken),
        call_ensures(
            Supervisor::<E, M, C, T, F, Q, R>::missing_parked,
            (counted, target),
            missing,
        ),
    ensures
        final(parking).parked@ == old(parking).parked@.push(worker_id),
        final(parking).workers@ == old(parking).workers@,
        lists(final(parking).active_by_node@) == lists(old(parking).active_by_node@),
        change_stays(*old(parking), *final(parking)),
        taken is Some <==> old(taking).parked@.len() > 0,
        taken matches Some(worker) ==> old(taking).parked@ == final(taking).parked@.push(worker),
        taken is None ==> final(taking).parked@.len() == 0,
        final(taking).workers@ == old(taking).workers@,
        lists(final(taking).active_by_node@) == lists(old(taking).active_by_node@),
        change_stays(*old(taking), *final(taking)),
        counted.parked@.len() >= target ==> missing == 0,
        counted.parked@.len() < target ==> counted.parked@.len() + missing == target,
{
    let before = old(parking)@;
    let after = final(parking)@;
    assert(after.workers == before.workers && after.active == before.active && after.parked
        == before.parked.push(worker_id));
    let before = old(taking)@;
    let after = final(taking)@;
    assert(after.workers == before.workers && after.active == before.active);
    if taken is Some {
        assert(after.parked == before.parked.drop_last());
        assert(before.parked =~= before.parked.drop_last().push(before.parked.last()));
    }
}

proof fn other_is_first(s: Seq<usize>, x: usize, k: int)
    requires
        0 <= k < s.len(),
        s[k] != x,
        forall|j: int| 0 <= j < k ==> s[j] == x,
    ensures
        first_other(s, x) == Some(s[k]),
    decreases k,
{
    if k > 0 {
        assert(s[0] == x);
        other_is_first(s.skip(1), x, k - 1);
    }
}

proof fn no_other(s: Seq<usize>, x: usize)
    requires
        forall|j: int| 0 <= j < s.len() ==> s[j] == x,
    ensures
        first_other(s, x) is None,
    decreases s.len(),
{
    if s.len() > 0 {
        assert(s[0] == x);
        no_other(s.skip(1), x);
    }
}

/// States can be merged exactly where the node's code can.
pub proof fn code_merges_states<S, A, R>(node: &RuntimeNode<S, A, R>, r: bool)
    requires
        call_ensures(node_has_merge_state::<S, A, R>, (node,), r),
    ensures
        r <==> node.stage is Some && node.stage->0.merges_state,
{
}

/// The worker that is named, or else the node's first, is taken off a node. Where states can be merged
/// and there are several workers, it hands its state over to the first of the others; otherwise it
/// cleans it up. A worker that cannot be asked, or a node without workers, is left alone.
pub proof fn states_go_to_another_worker<E, M, C, T, F, Q, R: Copy, S, A>(
    supervisor: &Supervisor<E, M, C, T, F, Q, R>,
    node_index: usize,
    worker_id: Option<usize>,
    nodes: &Vec<RuntimeNode<S, A, R>>,
    r: Removal,
)
    requires
        call_ensures(
            Supervisor::<E, M, C, T, F, Q, R>::plan_removal::<S, A>,
            (supervisor, node_index, worker_id, nodes),
            r,
        ),
        node_index < supervisor.active_by_node@.len(),
    ensures
        ({
            let list = supervisor.active_by_node@[node_index as int]@;
            let stage = nodes@[node_index as int].stage;
            let merging = stage is Some && stage->0.merges_state && list.len() >= 2;
            let leaver = if worker_id is Some {
                worker_id->0
            } else {
                list[0]
            };
            let reachable = supervisor.workers@[leaver as int].retire is Some;
            let nobody = worker_id is None && list.len() == 0;
            &&& nobody || !reachable ==> r is Nothing
            &&& !nobody && reachable && !merging ==> r == (Removal::Cleanup { worker_id: leaver })
            &&& !nobody && reachable && merging ==> {
                &&& forall|k: int|
                    0 <= k < list.len() && #[trigger] list[k] != leaver && (forall|j: int|
                        0 <= j < k ==> list[j] == leaver) ==> r == (Removal::Transfer {
                        source_worker_id: leaver,
                        target_worker_id: list[k],
                    })
                &&& (forall|j: int| 0 <= j < list.len() ==> list[j] == leaver) ==> r is Nothing
            }
        }),
{
    let list = supervisor.active_by_node@[node_index as int]@;
    listed(supervisor.active_by_node@, node_index as int);
    let leaver = if worker_id is Some {
        worker_id->0
    } else {
        list[0]
    };
    assert forall|k: int|
        0 <= k < list.len() && #[trigger] list[k] != leaver && (forall|j: int|
            0 <= j < k ==> list[j] == leaver) implies first_other(list, leaver) == Some(
        list[k],
    ) by {
        other_is_first(list, leaver, k);
    }
    if forall|j: int| 0 <= j < list.len() ==> list[j] == leaver {
        no_other(list, leaver);
    }
}

/// A change that begins is noted with its workers and its node; one by which a state is handed over
/// marks the node as merging. Nothing else changes.
pub proof fn changes_are_noted<E, M, C, T, F, Q, R: Copy>(
    adding: &mut Supervisor<E, M, C, T, F, Q, R>,
    removing: &mut Supervisor<E, M, C, T, F, Q, R>,
    handing: &mut Supervisor<E, M, C, T, F, Q, R>,
    worker_id: usize,
    target: usize,
    node_index: usize,
    receiver: C,
)
    requires
        call_ensures(
            Supervisor::<E, M, C, T, F, Q, R>::begin_add,
            (adding, worker_id, node_index),
            (),
        ),
        call_ensures(
            Supervisor::<E, M, C, T, F, Q, R>::begin_cleanup,
            (removing, worker_id, node_index),
            (),
        ),
        call_ensures(
            Supervisor::<E, M, C, T, F, Q, R>::begin_transfer,
            (handing, worker_id, target, node_index, receiver),
            (),
        ),
        node_index < old(handing).controls@.len(),
    ensures
        workers_stay(*old(adding), *final(adding)),
        final(adding).controls@ == old(adding).controls@,
        final(adding).pending_scale == Some(PendingScale::<C>::Add { worker_id, node_index }),
        workers_stay(*old(removing), *final(removing)),
        final(removing).controls@ == old(removing).controls@,
        final(removing).pending_scale == Some(PendingScale::<C>::Remove { worker_id, node_index }),
        workers_stay(*old(handing), *final(handing)),
        final(handing).pending_scale == Some(
            PendingScale::MergeDown {
                source_worker_id: worker_id,
                target_worker_id: target,
                node_index,
                state_receiver: Some(receiver),
                waiting_for_target: false,
            },
        ),
        final(handing).controls@.len() == old(handing).controls@.len(),
        final(handing).controls@[node_index as int] == (NodeControl {
            scaling_state: NodeScalingState::Merging,
            ..old(handing).controls@[node_index as int]
        }),
        forall|i: int|
            0 <= i < old(handing).controls@.len() && i != node_index
                ==> #[trigger] final(handing).controls@[i] == old(handing).controls@[i],
        final(adding).stored_failure == old(adding).stored_failure,
        final(removing).stored_failure == old(removing).stored_failure,
        final(handing).stored_failure == old(handing).stored_failure,
{
    let (a, b) = (old(adding)@, final(adding)@);
    assert(b.workers == a.workers && b.active == a.active && b.parked == a.parked && b.states
        == a.states);
    let (a, b) = (old(removing)@, final(removing)@);
    assert(b.workers == a.workers && b.active == a.active && b.parked == a.parked && b.states
        == a.states);
    let (a, b) = (old(handing)@, final(handing)@);
    assert(b.workers == a.workers && b.active == a.active && b.parked == a.parked && b.states
        == a.states);
}

/// The pipeline ends once it is shut down, aborted or has failed. Until then, and while no other change
/// has begun, numbers of workers may be changed; from then on the supervisor is done once no worker is
/// at any node.
pub proof fn pipelines_end<E, M, C, T, F, Q, R: Copy>(
    supervisor: &Supervisor<E, M, C, T, F, Q, R>,
    shutdown: bool,
    abort: bool,
    scales: bool,
    done: bool,
)
    requires
        call_ensures(
            Supervisor::<E, M, C, T, F, Q, R>::may_scale,
            (supervisor, shutdown, abort),
            scales,
        ),
        call_ensures(
            Supervisor::<E, M, C, T, F, Q, R>::is_done,
            (supervisor, shutdown, abort),
            done,
        ),
    ensures
        ({
            let ends = shutdown || abort || supervisor.stored_failure is Some;
            &&& scales <==> !ends && supervisor.pending_scale is None
            &&& done <==> ends && workforce(supervisor.active_by_node@).len() == 0
        }),
{
    total_counts_the_lists(supervisor.active_by_node@);
}

/// Links are let go once, when the pipeline ends: what waits on them is dropped where it was aborted or
/// has failed, and otherwise still worked on.
pub proof fn links_are_let_go_once<E, M, C, T, F, Q, R: Copy>(
    supervisor: &mut Supervisor<E, M, C, T, F, Q, R>,
    shutdown: bool,
    abort: bool,
    r: LinkAction,
)
    requires
        call_ensures(
            Supervisor::<E, M, C, T, F, Q, R>::release_links,
            (supervisor, shutdown, abort),
            r,
        ),
    ensures
        ({
            let dropped = abort || old(supervisor).stored_failure is Some;
            let held = old(supervisor).holds_links;
            &&& r == LinkAction::Abort <==> held && dropped
            &&& r == LinkAction::Close <==> held && !dropped && shutdown
            &&& r == LinkAction::Keep <==> !held || !(dropped || shutdown)
            &&& final(supervisor).holds_links <==> held && r == LinkAction::Keep
            &&& final(supervisor).stored_failure == old(supervisor).stored_failure
            &&& change_stays(*old(supervisor), *final(supervisor))
            &&& final(supervisor).workers@ == old(supervisor).workers@
            &&& final(supervisor).parked@ == old(supervisor).parked@
            &&& final(supervisor).returned_states@ == old(supervisor).returned_states@
        }),
{
    let (a, b) = (old(supervisor)@, final(supervisor)@);
    assert(b.workers == a.workers && b.active == a.active && b.parked == a.parked && b.states
        == a.states && b.controls == a.controls && b.pending == a.pending);
}

/// A pipeline leaves its failure behind, or the states that were given back.
pub proof fn pipelines_leave_states<E, M, C, T, F, Q, R: Copy>(
    supervisor: Supervisor<E, M, C, T, F, Q, R>,
    r: Result<Vec<M>, PiperError<E>>,
)
    requires
        call_ensures(Supervisor::<E, M, C, T, F, Q, R>::into_result, (supervisor,), r),
    ensures
        supervisor.stored_failure matches Some(error) ==> r == Err::<Vec<M>, PiperError<E>>(error),
        supervisor.stored_failure is None ==> (r matches Ok(states) && states@
            == supervisor.returned_states@),
{
}

/// A worker that can no longer be told anything, or whose thread panicked, is told of by its name.
pub proof fn lost_workers_are_told<E, M, C, T, F, Q, R: Copy>(
    supervisor: &Supervisor<E, M, C, T, F, Q, R>,
    worker_id: usize,
    closed: PiperError<E>,
    worker: String,
    payload: PanicPayload,
    panicked: PiperError<E>,
)
    requires
        call_ensures(
            Supervisor::<E, M, C, T, F, Q, R>::command_closed,
            (supervisor, worker_id),
            closed,
        ),
        call_ensures(worker_panicked::<E>, (worker, payload), panicked),
    ensures
        closed matches PiperError::Internal { worker: w, message } && w@
            == supervisor.workers@[worker_id as int].name@ && message@
            == "worker command channel closed"@,
        panicked matches PiperError::WorkerPanicked { worker: w, message } && w == worker
            && match payload {
            PanicPayload::Owned(s) => message@ == s@,
            PanicPayload::Static(s) => message@ == s@,
            PanicPayload::Other => message@ == "<non-string panic payload>"@,
        },
{
}

/// A worker is added from the parked ones, the last parked first, and only where none is parked is one
/// started; a removal is what is planned for the node.
pub proof fn parked_workers_are_used_first<E, M, C, T, F, Q, R: Copy, S, A>(
    supervisor: &mut Supervisor<E, M, C, T, F, Q, R>,
    operation: Option<ScaleOperation>,
    nodes: &Vec<RuntimeNode<S, A, R>>,
    r: ScaleTask,
    planned: Removal,
    node: usize,
    named: Option<usize>,
)
    requires
        call_ensures(
            Supervisor::<E, M, C, T, F, Q, R>::take_task::<S, A>,
            (supervisor, operation, nodes),
            r,
        ),
        call_ensures(
            Supervisor::<E, M, C, T, F, Q, R>::plan_removal::<S, A>,
            (&*old(supervisor), node, named, nodes),
            planned,
        ),
    ensures
        operation is None ==> r == ScaleTask::Nothing && final(supervisor).parked@ == old(
            supervisor,
        ).parked@,
        operation matches Some(ScaleOperation::Add { node_index }) ==> {
            &&& old(supervisor).parked@.len() > 0 ==> r == (ScaleTask::Seat {
                worker_id: old(supervisor).parked@[old(supervisor).parked@.len() - 1],
                node_index,
            }) && final(supervisor).parked@ == old(supervisor).parked@.drop_last()
            &&& old(supervisor).parked@.len() == 0 ==> r == (ScaleTask::SpawnAndSeat {
                node_index,
            }) && final(supervisor).parked@.len() == 0
        },
        operation == Some(ScaleOperation::Remove { node_index: node, worker_id: named }) ==> {
            &&& final(supervisor).parked@ == old(supervisor).parked@
            &&& match planned {
                Removal::Nothing => r == ScaleTask::Nothing,
                Removal::Cleanup { worker_id } => r == (ScaleTask::Cleanup {
                    worker_id,
                    node_index: node,
                }),
                Removal::Transfer { source_worker_id, target_worker_id } => r
                    == (ScaleTask::Transfer {
                    source_worker_id,
                    target_worker_id,
                    node_index: node,
                }),
            }
        },
        final(supervisor).workers@ == old(supervisor).workers@,
        lists(final(supervisor).active_by_node@) == lists(old(supervisor).active_by_node@),
        change_stays(*old(supervisor), *final(supervisor)),
        final(supervisor).stored_failure == old(supervisor).stored_failure,
{
    let (a, b) = (old(supervisor)@, final(supervisor)@);
    assert(b.workers == a.workers && b.active == a.active && b.states == a.states && b.controls
        == a.controls && b.pending == a.pending);
    assert(b == a.tasked(operation));
}

/// In each round the supervisor takes in events and then failures, lets go of links, samples, scales,
/// shows how things stand, and looks whether the work is done. Only then does it end: last failures,
/// parked workers, all workers, a last look, the log, and the result.
pub proof fn rounds_go_in_order(step: RunStep, done: bool, r: Option<RunStep>)
    requires
        call_ensures(RunStep::next, (step, done), r),
    ensures
        step == RunStep::DrainEvents ==> r == Some(RunStep::DrainFailures),
        step == RunStep::DrainFailures ==> r == Some(RunStep::ReleaseLinks),
        step == RunStep::ReleaseLinks ==> r == Some(RunStep::Sample),
        step == RunStep::Sample ==> r == Some(RunStep::Scale),
        step == RunStep::Scale ==> r == Some(RunStep::Observe),
        step == RunStep::Observe ==> r == Some(RunStep::CheckEnd),
        step == RunStep::CheckEnd && !done ==> r == Some(RunStep::Sleep),
        step == RunStep::CheckEnd && done ==> r == Some(RunStep::DrainLastFailures),
        step == RunStep::Sleep ==> r == Some(RunStep::DrainEvents),
        step == RunStep::DrainLastFailures ==> r == Some(RunStep::StopParked),
        step == RunStep::StopParked ==> r == Some(RunStep::JoinWorkers),
        step == RunStep::JoinWorkers ==> r == Some(RunStep::ObserveEnd),
        step == RunStep::ObserveEnd ==> r == Some(RunStep::StopRecorder),
        step == RunStep::StopRecorder ==> r == Some(RunStep::GiveResult),
        step == RunStep::GiveResult ==> r is None,
{
}

} // verus!
