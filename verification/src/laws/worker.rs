//! What a worker does, and when.

use crate::branch::{FillOrder, WeightedBranchController};
use crate::control::NodeSample;
use crate::error::NodeFailure;
use crate::laws::branch::remembers;
use crate::links::RecvPoll;
use crate::supervisor::WorkerEvent;
use crate::worker::{
    worker_event, BranchAction, BranchPhase, BranchReply, BranchWorker, ManagedWorker, RetireAction,
    RetireControl, WorkerAction, WorkerFault, WorkerPhase, WorkerReply, WorkerReport, WorkerStats,
};
use vstd::prelude::*;

verus! {

/// A worker is asked to leave by what was requested last: to hand its state over where something was
/// given to take it, and otherwise to clean it up. A request is taken once.
pub proof fn requests_are_taken_once<K>(
    fresh: RetireControl<K>,
    control: &mut RetireControl<K>,
    r: Option<RetireAction<K>>,
)
    requires
        call_ensures(RetireControl::<K>::new, (), fresh),
        call_ensures(RetireControl::<K>::take_request, (control,), r),
    ensures
        !fresh.requested && fresh.transfer_sender is None,
        r is Some <==> old(control).requested,
        r is Some && old(control).transfer_sender is Some ==> r == Some(
            RetireAction::Transfer(old(control).transfer_sender->0),
        ),
        r is Some && old(control).transfer_sender is None ==> r == Some(
            RetireAction::<K>::Cleanup,
        ),
        !final(control).requested,
        old(control).requested ==> final(control).transfer_sender is None,
        !old(control).requested ==> final(control).transfer_sender == old(control).transfer_sender,
{
}

/// A request stands until it is taken.
pub proof fn requests_stand<K>(
    cleaning: &mut RetireControl<K>,
    handing: &mut RetireControl<K>,
    sender: K,
)
    requires
        call_ensures(RetireControl::<K>::request_cleanup, (cleaning,), ()),
        call_ensures(RetireControl::<K>::request_transfer, (handing, sender), ()),
    ensures
        final(cleaning).requested,
        final(cleaning).transfer_sender == old(cleaning).transfer_sender,
        final(handing).requested,
        final(handing).transfer_sender == Some(sender),
{
}

/// Whether a count went up by that much, starting anew past the largest number.
pub open spec fn rose_by(before: u64, after: u64, n: u64) -> bool {
    after == before + n || after == before + n - u64::MAX - 1
}

/// Each kind of work is counted on its own: time that was waited, time that was worked, and items that
/// were done.
pub proof fn work_is_counted(
    waited: &mut WorkerStats,
    worked: &mut WorkerStats,
    passed: &mut WorkerStats,
    nanos: u64,
    done: bool,
)
    requires
        call_ensures(WorkerStats::note_wait, (waited, nanos), ()),
        call_ensures(WorkerStats::note_processing, (worked, nanos, done), ()),
        call_ensures(WorkerStats::note_item, (passed,), ()),
    ensures
        rose_by(old(waited).wait_nanos, final(waited).wait_nanos, nanos),
        final(waited).process_nanos == old(waited).process_nanos,
        final(waited).processed_items == old(waited).processed_items,
        rose_by(old(worked).process_nanos, final(worked).process_nanos, nanos),
        final(worked).wait_nanos == old(worked).wait_nanos,
        done ==> rose_by(old(worked).processed_items, final(worked).processed_items, 1),
        !done ==> final(worked).processed_items == old(worked).processed_items,
        rose_by(old(passed).processed_items, final(passed).processed_items, 1),
        final(passed).process_nanos == old(passed).process_nanos,
        final(passed).wait_nanos == old(passed).wait_nanos,
{
}

/// What was counted is taken whole, and counting starts anew.
pub proof fn counts_are_taken(stats: &mut WorkerStats, cleared: &mut WorkerStats, r: NodeSample)
    requires
        call_ensures(WorkerStats::take, (stats,), r),
        call_ensures(WorkerStats::reset, (cleared,), ()),
    ensures
        r.process_nanos == old(stats).process_nanos,
        r.wait_nanos == old(stats).wait_nanos,
        r.processed_items == old(stats).processed_items,
        final(stats).process_nanos == 0 && final(stats).wait_nanos == 0
            && final(stats).processed_items == 0,
        final(cleared).process_nanos == 0 && final(cleared).wait_nanos == 0
            && final(cleared).processed_items == 0,
{
}

/// A worker that brings a state starts at once; any other has one made first.
pub proof fn workers_begin<E, M, I, K, C>(
    initial_state: Option<M>,
    return_state_on_exit: bool,
    r: (ManagedWorker<M>, WorkerAction<E, M, I, K, C>),
)
    requires
        call_ensures(
            ManagedWorker::<M>::begin::<E, I, K, C>,
            (initial_state, return_state_on_exit),
            r,
        ),
    ensures
        r.0.state == initial_state,
        r.0.return_state_on_exit == return_state_on_exit,
        initial_state is Some ==> r.0.phase == WorkerPhase::Starting && r.1
            == WorkerAction::<E, M, I, K, C>::Report(WorkerReport::Started),
        initial_state is None ==> r.0.phase == WorkerPhase::Initializing && r.1
            == WorkerAction::<E, M, I, K, C>::Init,
{
}

/// Whether the worker has given its last report and holds no state any more.
pub open spec fn reports_last<E, M, I, K, C>(
    after: ManagedWorker<M>,
    action: WorkerAction<E, M, I, K, C>,
    report: WorkerReport<E, M>,
) -> bool {
    &&& action == WorkerAction::<E, M, I, K, C>::Report(report)
    &&& after.phase == WorkerPhase::Ending
    &&& after.state is None
}

/// Whether the worker goes on with its state, to do that next.
pub open spec fn goes_on<E, M, I, K, C>(
    before: ManagedWorker<M>,
    after: ManagedWorker<M>,
    phase: WorkerPhase,
    action: WorkerAction<E, M, I, K, C>,
    next: WorkerAction<E, M, I, K, C>,
) -> bool {
    action == next && after.phase == phase && after.state == before.state
}

/// Whether the worker lets its node's code clean its state up.
pub open spec fn cleans_up<E, M, I, K, C>(
    before: ManagedWorker<M>,
    after: ManagedWorker<M>,
    action: WorkerAction<E, M, I, K, C>,
) -> bool {
    &&& action == (WorkerAction::<E, M, I, K, C>::Cleanup { state: before.state->0 })
    &&& after.phase == WorkerPhase::CleaningUp
    &&& after.state is None
}

/// Whether the worker stops of itself: it gives its state back where it is to, and otherwise has it
/// cleaned up.
pub open spec fn stops<E, M, I, K, C>(
    before: ManagedWorker<M>,
    after: ManagedWorker<M>,
    action: WorkerAction<E, M, I, K, C>,
) -> bool {
    if before.return_state_on_exit {
        reports_last(after, action, WorkerReport::Parked { returned_state: before.state })
    } else {
        cleans_up(before, after, action)
    }
}

/// A worker that has its state made reports that it started, or why it could not; from then on, before
/// everything else, it looks whether the pipeline is aborted, then whether it is to take states in, then
/// whether it is to leave, and then waits for an item.
pub proof fn workers_look_before_they_wait<E, M, I, K, C>(
    worker: &mut ManagedWorker<M>,
    reply: WorkerReply<E, M, I, K, C>,
    r: WorkerAction<E, M, I, K, C>,
)
    requires
        call_ensures(ManagedWorker::<M>::advance::<E, I, K, C>, (worker, reply), r),
    ensures
        ({
            let before = *old(worker);
            let after = *final(worker);
            let drop = WorkerReport::<E, M>::Parked { returned_state: None };
            &&& after.return_state_on_exit == before.return_state_on_exit
            &&& before.phase == WorkerPhase::Initializing ==> match reply {
                WorkerReply::Initialized(Ok(state)) => r == WorkerAction::<E, M, I, K, C>::Report(
                    WorkerReport::Started,
                ) && after.phase == WorkerPhase::Starting && after.state == Some(state),
                WorkerReply::Initialized(Err(failure)) => reports_last(
                    after,
                    r,
                    WorkerReport::Failed { fault: WorkerFault::Node(failure) },
                ),
                _ => true,
            }
            &&& before.phase == WorkerPhase::Starting && reply is Reported ==> goes_on(
                before,
                after,
                WorkerPhase::Looking,
                r,
                WorkerAction::LoadAbort,
            )
            &&& before.phase == WorkerPhase::Looking ==> match reply {
                WorkerReply::Abort(true) => reports_last(after, r, drop),
                WorkerReply::Abort(false) => goes_on(
                    before,
                    after,
                    WorkerPhase::CheckingMerge,
                    r,
                    WorkerAction::TakeMergeFlag,
                ),
                _ => true,
            }
            &&& before.phase == WorkerPhase::CheckingMerge ==> match reply {
                WorkerReply::MergeFlag(true) => goes_on(
                    before,
                    after,
                    WorkerPhase::FetchingRequest,
                    r,
                    WorkerAction::NextMergeRequest,
                ),
                WorkerReply::MergeFlag(false) => goes_on(
                    before,
                    after,
                    WorkerPhase::CheckingRetire,
                    r,
                    WorkerAction::TakeRetire,
                ),
                _ => true,
            }
            &&& before.phase == WorkerPhase::CheckingRetire && (reply matches WorkerReply::Retire(None))
                ==> goes_on(before, after, WorkerPhase::Polling, r, WorkerAction::Poll)
        }),
{
}

/// A worker takes in every state that it is asked to, one after the other, and tells of each; it fails
/// where nobody can ask any more, where a state does not come, or where its node's code cannot merge.
pub proof fn states_are_taken_in<E, M, I, K, C>(
    worker: &mut ManagedWorker<M>,
    reply: WorkerReply<E, M, I, K, C>,
    r: WorkerAction<E, M, I, K, C>,
)
    requires
        call_ensures(ManagedWorker::<M>::advance::<E, I, K, C>, (worker, reply), r),
    ensures
        ({
            let before = *old(worker);
            let after = *final(worker);
            &&& before.phase == WorkerPhase::FetchingRequest ==> match reply {
                WorkerReply::MergeRequest(None) => goes_on(
                    before,
                    after,
                    WorkerPhase::CheckingRetire,
                    r,
                    WorkerAction::TakeRetire,
                ),
                WorkerReply::MergeRequest(Some((source_worker_id, receiver))) => goes_on(
                    before,
                    after,
                    WorkerPhase::AwaitingState { source_worker_id },
                    r,
                    WorkerAction::ReceiveState { receiver },
                ),
                WorkerReply::MergeRequestsClosed => reports_last(
                    after,
                    r,
                    WorkerReport::Failed { fault: WorkerFault::MergeRequestsClosed },
                ),
                _ => true,
            }
            &&& before.phase matches WorkerPhase::AwaitingState { source_worker_id } ==> match reply {
                WorkerReply::StateReceived(Some(source)) => r == (WorkerAction::<
                    E,
                    M,
                    I,
                    K,
                    C,
                >::Merge { state: before.state->0, source }) && after.phase
                    == (WorkerPhase::Merging { source_worker_id }) && after.state is None,
                WorkerReply::StateReceived(None) => reports_last(
                    after,
                    r,
                    WorkerReport::Failed { fault: WorkerFault::StateLost },
                ),
                _ => true,
            }
            &&& before.phase matches WorkerPhase::Merging { source_worker_id } ==> match reply {
                WorkerReply::Merged { state, result: Ok(_) } => r == WorkerAction::<
                    E,
                    M,
                    I,
                    K,
                    C,
                >::Report(WorkerReport::Merged { source_worker_id }) && after.phase
                    == WorkerPhase::ReportingMerge && after.state == Some(state),
                WorkerReply::Merged { state, result: Err(failure) } => reports_last(
                    after,
                    r,
                    WorkerReport::Failed { fault: WorkerFault::Node(failure) },
                ),
                _ => true,
            }
            &&& before.phase == WorkerPhase::ReportingMerge && reply is Reported ==> goes_on(
                before,
                after,
                WorkerPhase::FetchingRequest,
                r,
                WorkerAction::NextMergeRequest,
            )
        }),
{
}

/// A worker that waits works on the item that comes. Where none comes it looks whether it is to stop,
/// and where none will come, whether the pipeline is aborted. After an item that went well it looks
/// again; one that went wrong makes it fail.
pub proof fn items_are_worked_on_as_they_come<E, M, I, K, C>(
    worker: &mut ManagedWorker<M>,
    reply: WorkerReply<E, M, I, K, C>,
    r: WorkerAction<E, M, I, K, C>,
)
    requires
        call_ensures(ManagedWorker::<M>::advance::<E, I, K, C>, (worker, reply), r),
    ensures
        ({
            let before = *old(worker);
            let after = *final(worker);
            &&& before.phase == WorkerPhase::Polling ==> match reply {
                WorkerReply::Polled(RecvPoll::Item(item)) => r == (WorkerAction::<
                    E,
                    M,
                    I,
                    K,
                    C,
                >::Process { state: before.state->0, item }) && after.phase
                    == WorkerPhase::Processing && after.state is None,
                WorkerReply::Polled(RecvPoll::Timeout) => goes_on(
                    before,
                    after,
                    WorkerPhase::TimedOut,
                    r,
                    WorkerAction::LoadStop,
                ),
                WorkerReply::Polled(RecvPoll::Disconnected) => goes_on(
                    before,
                    after,
                    WorkerPhase::Disconnected,
                    r,
                    WorkerAction::LoadFinalAbort,
                ),
                _ => true,
            }
            &&& before.phase == WorkerPhase::Processing ==> match reply {
                WorkerReply::Processed { state, result: Ok(_) } => r
                    == WorkerAction::<E, M, I, K, C>::LoadAbort && after.phase
                    == WorkerPhase::Looking && after.state == Some(state),
                WorkerReply::Processed { state, result: Err(failure) } => reports_last(
                    after,
                    r,
                    WorkerReport::Failed { fault: WorkerFault::Node(failure) },
                ),
                _ => true,
            }
        }),
{
}

/// A worker without an item drops its state where the pipeline is aborted, stops of itself where its
/// link is done or it stops on a shutdown that has come, and otherwise looks again.
pub proof fn idle_workers_stop<E, M, I, K, C>(
    worker: &mut ManagedWorker<M>,
    reply: WorkerReply<E, M, I, K, C>,
    r: WorkerAction<E, M, I, K, C>,
)
    requires
        call_ensures(ManagedWorker::<M>::advance::<E, I, K, C>, (worker, reply), r),
        old(worker).state is Some,
    ensures
        ({
            let before = *old(worker);
            let after = *final(worker);
            let drop = WorkerReport::<E, M>::Parked { returned_state: None };
            &&& before.phase == WorkerPhase::TimedOut && (reply matches WorkerReply::Stop {
                abort,
                terminated,
                shutdown,
                stops_on_shutdown,
            }) ==> {
                let abort = reply->Stop_abort;
                let ends = reply->terminated || (reply->shutdown && reply->stops_on_shutdown);
                &&& abort ==> reports_last(after, r, drop)
                &&& !abort && ends ==> stops(before, after, r)
                &&& !abort && !ends ==> goes_on(
                    before,
                    after,
                    WorkerPhase::Looking,
                    r,
                    WorkerAction::LoadAbort,
                )
            }
            &&& before.phase == WorkerPhase::Disconnected ==> match reply {
                WorkerReply::Abort(true) => reports_last(after, r, drop),
                WorkerReply::Abort(false) => stops(before, after, r),
                _ => true,
            }
        }),
{
}

/// A worker that is asked to leave hands its state over or has it cleaned up, and then reports that it
/// has left, or why that failed; with that report it ends.
pub proof fn workers_leave_when_asked<E, M, I, K, C>(
    worker: &mut ManagedWorker<M>,
    reply: WorkerReply<E, M, I, K, C>,
    r: WorkerAction<E, M, I, K, C>,
)
    requires
        call_ensures(ManagedWorker::<M>::advance::<E, I, K, C>, (worker, reply), r),
    ensures
        ({
            let before = *old(worker);
            let after = *final(worker);
            let gone = WorkerReport::<E, M>::Parked { returned_state: None };
            &&& before.phase == WorkerPhase::CheckingRetire ==> match reply {
                WorkerReply::Retire(Some(RetireAction::Transfer(sender))) => r == (WorkerAction::<
                    E,
                    M,
                    I,
                    K,
                    C,
                >::Transfer { state: before.state->0, sender }) && after.phase
                    == WorkerPhase::Transferring && after.state is None,
                WorkerReply::Retire(Some(RetireAction::Cleanup)) => cleans_up(before, after, r),
                _ => true,
            }
            &&& before.phase == WorkerPhase::Transferring ==> match reply {
                WorkerReply::Transferred(true) => reports_last(after, r, gone),
                WorkerReply::Transferred(false) => reports_last(
                    after,
                    r,
                    WorkerReport::Failed { fault: WorkerFault::TransferClosed },
                ),
                _ => true,
            }
            &&& before.phase == WorkerPhase::CleaningUp ==> match reply {
                WorkerReply::CleanedUp(Ok(_)) => reports_last(after, r, gone),
                WorkerReply::CleanedUp(Err(failure)) => reports_last(
                    after,
                    r,
                    WorkerReport::Failed { fault: WorkerFault::Node(failure) },
                ),
                _ => true,
            }
            &&& before.phase == WorkerPhase::Ending && reply is Reported ==> r
                == WorkerAction::<E, M, I, K, C>::Finish && after.phase == WorkerPhase::Ended
        }),
{
}

/// Whether the failure is an internal one with that message.
pub open spec fn tells_inside<E>(failure: NodeFailure<E>, text: Seq<char>) -> bool {
    failure matches NodeFailure::Internal(message) && message@ == text
}

/// What a worker reports reaches the supervisor as what it is, with the worker and the node.
pub proof fn reports_reach_the_supervisor<E, M>(
    report: WorkerReport<E, M>,
    worker_id: usize,
    node_index: usize,
    worker: &str,
    r: WorkerEvent<E, M>,
)
    requires
        call_ensures(worker_event::<E, M>, (report, worker_id, node_index, worker), r),
    ensures
        match report {
            WorkerReport::Started => r matches WorkerEvent::Started { worker_id: w } && w
                == worker_id,
            WorkerReport::Merged {
                source_worker_id,
            } => r matches WorkerEvent::MergeCompleted {
                worker_id: w,
                node_index: n,
                source_worker_id: s,
            } && w == worker_id && n == node_index && s == source_worker_id,
            WorkerReport::Parked { returned_state } => r matches WorkerEvent::Parked {
                worker_id: w,
                node_index: n,
                returned_state: s,
            } && w == worker_id && n == node_index && s == returned_state,
            WorkerReport::Failed { fault } => r matches WorkerEvent::Failed {
                worker_id: w,
                node_index: n,
                worker: name,
                failure,
            } && w == worker_id && n == node_index && name@ == worker@ && match fault {
                WorkerFault::Node(inner) => failure == inner,
                WorkerFault::MergeRequestsClosed => tells_inside(
                    failure,
                    "worker merge request channel closed"@,
                ),
                WorkerFault::StateLost => tells_inside(
                    failure,
                    "worker state transfer channel closed"@,
                ),
                WorkerFault::TransferClosed => tells_inside(
                    failure,
                    "state transfer receiver closed"@,
                ),
            },
        },
{
}

/// A worker at a branch begins without an item, and reports that it started.
pub proof fn branch_workers_begin<I, R: Copy>(
    controller: WeightedBranchController<R>,
    r: (BranchWorker<I, R>, BranchAction<I>),
)
    requires
        call_ensures(BranchWorker::<I, R>::begin, (controller,), r),
    ensures
        r.0.phase == BranchPhase::Starting,
        r.0.controller == controller,
        r.0.item is None,
        r.1 == BranchAction::<I>::ReportStarted,
{
}

/// Whether the worker goes on with all that it holds, to do that next.
pub open spec fn branch_goes_on<I, R>(
    before: BranchWorker<I, R>,
    after: BranchWorker<I, R>,
    phase: BranchPhase,
    action: BranchAction<I>,
    next: BranchAction<I>,
) -> bool {
    &&& action == next
    &&& after.phase == phase
    &&& after.item == before.item
    &&& after.controller == before.controller
}

/// Before each item, a worker at a branch looks whether the pipeline is aborted and then whether it is to
/// leave; on either, or where no item will come, it leaves. Where none came in time it leaves once its
/// link is done, or it stops on a shutdown that has come, and otherwise looks again.
pub proof fn branch_workers_look_before_they_wait<I, R: Copy>(
    worker: &mut BranchWorker<I, R>,
    reply: BranchReply<I, R>,
    r: BranchAction<I>,
)
    requires
        call_ensures(BranchWorker::<I, R>::advance, (worker, reply), r),
    ensures
        ({
            let before = *old(worker);
            let after = *final(worker);
            let leaves = branch_goes_on(
                before,
                after,
                BranchPhase::Ending,
                r,
                BranchAction::ReportParked,
            );
            let looks = branch_goes_on(
                before,
                after,
                BranchPhase::Looking,
                r,
                BranchAction::LoadAbort,
            );
            &&& before.phase == BranchPhase::Starting && reply is Reported ==> looks
            &&& before.phase == BranchPhase::Routing && reply is Routed ==> looks
            &&& before.phase == BranchPhase::Looking ==> match reply {
                BranchReply::Abort(true) => leaves,
                BranchReply::Abort(false) => branch_goes_on(
                    before,
                    after,
                    BranchPhase::CheckingRetire,
                    r,
                    BranchAction::TakeRetire,
                ),
                _ => true,
            }
            &&& before.phase == BranchPhase::CheckingRetire ==> match reply {
                BranchReply::Retire(true) => leaves,
                BranchReply::Retire(false) => branch_goes_on(
                    before,
                    after,
                    BranchPhase::Polling,
                    r,
                    BranchAction::Poll,
                ),
                _ => true,
            }
            &&& before.phase == BranchPhase::Polling ==> match reply {
                BranchReply::Polled(RecvPoll::Item(item)) => r == BranchAction::<I>::LoadElapsed
                    && after.phase == BranchPhase::Timing && after.item == Some(item)
                    && after.controller == before.controller,
                BranchReply::Polled(RecvPoll::Timeout) => branch_goes_on(
                    before,
                    after,
                    BranchPhase::TimedOut,
                    r,
                    BranchAction::LoadStop,
                ),
                BranchReply::Polled(RecvPoll::Disconnected) => leaves,
                _ => true,
            }
            &&& before.phase == BranchPhase::TimedOut ==> match reply {
                BranchReply::Stop { terminated, shutdown, stops_on_shutdown } => {
                    &&& terminated || (shutdown && stops_on_shutdown) ==> leaves
                    &&& !terminated && !(shutdown && stops_on_shutdown) ==> looks
                },
                _ => true,
            }
            &&& before.phase == BranchPhase::Ending && reply is Reported ==> branch_goes_on(
                before,
                after,
                BranchPhase::Ended,
                r,
                BranchAction::Finish,
            )
        }),
{
}

/// An item at a branch is passed on after the sides were compared, and before that sampled where they
/// are not both ready or the interval has passed. It goes to the side that is less full where both are
/// ready and one is, and otherwise by turns.
pub proof fn branch_workers_pass_items_on<I, R: Copy>(
    worker: &mut BranchWorker<I, R>,
    reply: BranchReply<I, R>,
    r: BranchAction<I>,
)
    requires
        call_ensures(BranchWorker::<I, R>::advance, (worker, reply), r),
        old(worker).item is Some,
    ensures
        ({
            let before = *old(worker);
            let after = *final(worker);
            let ready = before.controller.left.ready && before.controller.right.ready;
            &&& before.phase == BranchPhase::Timing ==> match reply {
                BranchReply::Elapsed { elapsed, interval } => {
                    &&& !ready || elapsed >= interval ==> branch_goes_on(
                        before,
                        after,
                        BranchPhase::Sampling,
                        r,
                        BranchAction::SampleArms,
                    )
                    &&& ready && elapsed < interval ==> branch_goes_on(
                        before,
                        after,
                        BranchPhase::Comparing,
                        r,
                        BranchAction::CompareFill,
                    )
                },
                _ => true,
            }
            &&& before.phase == BranchPhase::Sampling ==> match reply {
                BranchReply::Sampled(samples) => {
                    &&& r == BranchAction::<I>::CompareFill
                    &&& after.phase == BranchPhase::Comparing
                    &&& after.item == before.item
                    &&& remembers(
                        after.controller.left,
                        samples.left_counts,
                        samples.left_rates,
                    )
                    &&& remembers(
                        after.controller.right,
                        samples.right_counts,
                        samples.right_rates,
                    )
                    &&& after.controller.left.ready <==> before.controller.left.ready
                        || samples.left_rates.loaded
                    &&& after.controller.right.ready <==> before.controller.right.ready
                        || samples.right_rates.loaded
                    &&& after.controller.next_alternate_left
                        == before.controller.next_alternate_left
                    &&& after.controller.target_queue_seconds
                        == before.controller.target_queue_seconds
                },
                _ => true,
            }
            &&& before.phase == BranchPhase::Comparing ==> match reply {
                BranchReply::Compared(order) => {
                    let compared = ready && order != FillOrder::Tie;
                    &&& r == (BranchAction::Route {
                        item: before.item->0,
                        left: if compared {
                            order == FillOrder::LeftLower
                        } else {
                            before.controller.next_alternate_left
                        },
                    })
                    &&& after.phase == BranchPhase::Routing
                    &&& after.item is None
                    &&& after.controller.next_alternate_left == (if compared {
                        before.controller.next_alternate_left
                    } else {
                        !before.controller.next_alternate_left
                    })
                    &&& after.controller.left == before.controller.left
                    &&& after.controller.right == before.controller.right
                    &&& after.controller.target_queue_seconds
                        == before.controller.target_queue_seconds
                },
                _ => true,
            }
        }),
{
}

} // verus!
