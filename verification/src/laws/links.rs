//! What links, pools, leases and results owe to their users.

use crate::error::{
    InternalFailure, NodeFailure, PanicPayload, PiperError, RecvOutputError, SendInputError,
    TryRecvOutputError,
};
use crate::laws::failures::named;
use crate::laws::worker::{rose_by, tells_inside};
use crate::links::{
    duration_nanos_u64, external_output_failure, feeder_step, feeder_try, input_sent,
    node_output_failure, received_output, recv_poll, send_report, should_stop_on_shutdown_timeout,
    try_received_output, FeederAnswer, FeederStep, LinkRecvError, LinkStats, LinkTryRecvError,
    RecvPoll, SendReport,
};
use crate::outcome::{
    begin_merge, check_merge, cleanup_state, default_inline_cleanup, merge_failed, merge_states,
    merged_state, missing_merge, process_parts, returned_states, startup_timed_out,
    take_external_node, MergeRun,
};
use crate::pipe::{
    collect_output, plan_workers, worker_result, PipeAction, PipeFault, PipePhase, PipeReply,
    PipeWorker,
};
use crate::recycle::{BufferLease, Recycle};
use crate::text::decimal;
use vstd::prelude::*;

verus! {

/// What waiting gave is what polling gives, and what a user gets: the item, or why there is none.
pub proof fn items_come_through<I, T>(
    polled: Result<I, LinkRecvError>,
    received: Result<Option<T>, LinkRecvError>,
    tried: Result<Option<T>, LinkTryRecvError>,
    poll: RecvPoll<I>,
    output: Result<T, RecvOutputError>,
    at_once: Result<T, TryRecvOutputError>,
)
    requires
        call_ensures(recv_poll::<I>, (polled,), poll),
        call_ensures(received_output::<T>, (received,), output),
        call_ensures(try_received_output::<T>, (tried,), at_once),
    ensures
        polled matches Ok(item) ==> poll == RecvPoll::Item(item),
        polled == Err::<I, _>(LinkRecvError::Timeout) ==> poll is Timeout,
        polled == Err::<I, _>(LinkRecvError::Closed) ==> poll is Disconnected,
        received matches Ok(Some(item)) ==> output == Ok::<T, RecvOutputError>(item),
        received == Ok::<Option<T>, LinkRecvError>(None) ==> output == Err::<T, _>(
            RecvOutputError::TypeMismatch,
        ),
        received == Err::<Option<T>, _>(LinkRecvError::Timeout) ==> output == Err::<T, _>(
            RecvOutputError::Timeout,
        ),
        received == Err::<Option<T>, _>(LinkRecvError::Closed) ==> output == Err::<T, _>(
            RecvOutputError::Closed,
        ),
        tried matches Ok(Some(item)) ==> at_once == Ok::<T, TryRecvOutputError>(item),
        tried == Ok::<Option<T>, LinkTryRecvError>(None) ==> at_once == Err::<T, _>(
            TryRecvOutputError::TypeMismatch,
        ),
        tried == Err::<Option<T>, _>(LinkTryRecvError::Empty) ==> at_once == Err::<T, _>(
            TryRecvOutputError::Empty,
        ),
        tried == Err::<Option<T>, _>(LinkTryRecvError::Closed) ==> at_once == Err::<T, _>(
            TryRecvOutputError::Closed,
        ),
{
}

/// Arrivals and drains are counted apart.
pub proof fn arrivals_and_drains_are_counted(arriving: &mut LinkStats, leaving: &mut LinkStats)
    requires
        call_ensures(LinkStats::note_arrival, (arriving,), ()),
        call_ensures(LinkStats::note_drain, (leaving,), ()),
    ensures
        rose_by(old(arriving).arrivals, final(arriving).arrivals, 1),
        final(arriving).drains == old(arriving).drains,
        rose_by(old(leaving).drains, final(leaving).drains, 1),
        final(leaving).arrivals == old(leaving).arrivals,
{
}

/// Only what arrived is counted, and what did not arrive is a failure only while the pipeline goes on.
pub proof fn lost_items_are_failures(
    sent: bool,
    shutdown: bool,
    abort: bool,
    r: SendReport,
)
    requires
        call_ensures(send_report, (sent, shutdown, abort), r),
    ensures
        r == SendReport::Counted <==> sent,
        r == SendReport::Fatal <==> !sent && !shutdown && !abort,
        r == SendReport::Dropped <==> !sent && (shutdown || abort),
{
}

/// A lost output is told of as what it is.
pub proof fn lost_outputs_are_told<M>(
    name: &str,
    node: InternalFailure<M>,
    outside: InternalFailure<M>,
)
    requires
        call_ensures(node_output_failure::<M>, (), node),
        call_ensures(external_output_failure::<M>, (name,), outside),
    ensures
        node matches InternalFailure::Internal { message } && message@
            == "node output channel closed unexpectedly"@,
        outside matches InternalFailure::Internal { message } && message@ == named(
            "external node "@,
            name@,
            " output channel closed unexpectedly"@,
        ),
{
}

/// The input takes an item exactly where it arrived and the pipeline was not shut down.
pub proof fn input_takes_items(shutdown: bool, sent: Option<bool>, r: Result<(), SendInputError>)
    requires
        call_ensures(input_sent, (shutdown, sent), r),
    ensures
        r is Ok <==> !shutdown && sent == Some(true),
{
}

/// On a shutdown, a worker without an item stops behind a feeder, and on the pipeline's input where it
/// is empty, and nowhere else.
pub proof fn shutdown_stops_idle_workers(
    feeder: bool,
    is_input_stage: bool,
    empty: bool,
    r: bool,
)
    requires
        call_ensures(should_stop_on_shutdown_timeout, (feeder, is_input_stage, empty), r),
    ensures
        feeder ==> r,
        !feeder ==> (r <==> is_input_stage && empty),
{
}

/// An item of a feeder is given on; a feeder that is done closes the link. One that has nothing yet is
/// asked again after a millisecond, or sooner where the time is up sooner, until it is up.
pub proof fn feeders_are_asked_until_the_deadline<I>(
    answer: FeederAnswer<I>,
    now: u128,
    deadline: u128,
    r: FeederStep<I>,
    at_once: Result<I, LinkTryRecvError>,
    last: bool,
)
    requires
        call_ensures(feeder_step::<I>, (answer, now, deadline), r),
        call_ensures(feeder_try::<I>, (answer,), at_once),
        call_ensures(FeederAnswer::<I>::is_final, (&answer,), last),
    ensures
        last <==> answer is NoMoreWork || answer is Cancelled,
        answer matches FeederAnswer::Item(item) ==> r == FeederStep::Give(item) && at_once == Ok::<
            I,
            LinkTryRecvError,
        >(item),
        last ==> r is Closed && at_once == Err::<I, _>(LinkTryRecvError::Closed),
        answer is Empty || answer is InShutdown ==> {
            &&& at_once == Err::<I, _>(LinkTryRecvError::Empty)
            &&& r is GiveUp <==> now >= deadline
            &&& now < deadline ==> (r matches FeederStep::Sleep(pause) && pause <= 1_000_000 && now
                + pause <= deadline && (pause == 1_000_000 || now + pause == deadline))
        },
{
}

/// Times are counted in full as far as a counter holds them.
pub proof fn long_times_are_cut(nanos: u128, r: u64)
    requires
        call_ensures(duration_nanos_u64, (nanos,), r),
    ensures
        nanos <= 0xffff_ffff_ffff_ffff ==> r == nanos,
        nanos > 0xffff_ffff_ffff_ffff ==> r == 0xffff_ffff_ffff_ffff,
{
}

/// A pool has the workers that were asked for, named by their numbers; one without workers is refused.
pub proof fn pools_have_their_workers<E>(num_workers: usize, r: Result<Vec<String>, PiperError<E>>)
    requires
        call_ensures(plan_workers::<E>, (num_workers,), r),
    ensures
        r is Err <==> num_workers == 0,
        r matches Err(error) ==> error is ZeroWorkers,
        r matches Ok(names) ==> names@.len() == num_workers && forall|i: int|
            0 <= i < num_workers ==> (#[trigger] names@[i])@ == "pipe-worker-"@ + decimal(i as nat),
{
}

/// A worker of a pool begins by making what it keeps.
pub proof fn pool_workers_begin<S, I, O, E>(r: (PipeWorker<S>, PipeAction<S, I, O, E>))
    requires
        call_ensures(PipeWorker::<S>::begin::<I, O, E>, (), r),
    ensures
        r.0.phase == PipePhase::Initializing,
        r.0.storage is None,
        r.1 == PipeAction::<S, I, O, E>::Init,
{
}

/// Whether the worker is done, with that result.
pub open spec fn is_done<S, I, O, E>(
    after: PipeWorker<S>,
    action: PipeAction<S, I, O, E>,
    result: Result<O, PipeFault<E>>,
) -> bool {
    &&& action == PipeAction::<S, I, O, E>::Finish(result)
    &&& after.phase == PipePhase::Done
    &&& after.storage is None
}

/// Whether the worker makes its result from what it keeps.
pub open spec fn makes_result<S, I, O, E>(
    before: PipeWorker<S>,
    after: PipeWorker<S>,
    action: PipeAction<S, I, O, E>,
) -> bool {
    &&& action == (PipeAction::<S, I, O, E>::Finalize { storage: before.storage->0 })
    &&& after.phase == PipePhase::Finalizing
    &&& after.storage is None
}

/// A worker of a pool looks before each item whether the pool is cancelled, and works on every item that
/// comes, with what it keeps. It makes its result once the pool is cancelled or no item will come. What
/// fails ends it with that failure.
pub proof fn pool_workers_work<S, I, O, E>(
    worker: &mut PipeWorker<S>,
    reply: PipeReply<S, I, O, E>,
    r: PipeAction<S, I, O, E>,
)
    requires
        call_ensures(PipeWorker::<S>::advance::<I, O, E>, (worker, reply), r),
        old(worker).phase == PipePhase::Looking || old(worker).phase == PipePhase::Receiving ==> old(
            worker,
        ).storage is Some,
    ensures
        ({
            let before = *old(worker);
            let after = *final(worker);
            let looks = r == PipeAction::<S, I, O, E>::LoadCancel && after.phase
                == PipePhase::Looking;
            &&& before.phase == PipePhase::Initializing ==> match reply {
                PipeReply::Initialized(Ok(storage)) => looks && after.storage == Some(storage),
                PipeReply::Initialized(Err(error)) => is_done(after, r, Err(PipeFault::Init(error))),
                _ => true,
            }
            &&& before.phase == PipePhase::Looking ==> match reply {
                PipeReply::Cancel(true) => makes_result(before, after, r),
                PipeReply::Cancel(false) => r == PipeAction::<S, I, O, E>::Receive && after.phase
                    == PipePhase::Receiving && after.storage == before.storage,
                _ => true,
            }
            &&& before.phase == PipePhase::Receiving ==> match reply {
                PipeReply::Received(Ok(item)) => r == (PipeAction::<S, I, O, E>::Process {
                    storage: before.storage->0,
                    item,
                }) && after.phase == PipePhase::Processing && after.storage is None,
                PipeReply::Received(Err(LinkRecvError::Timeout)) => looks && after.storage
                    == before.storage,
                PipeReply::Received(Err(LinkRecvError::Closed)) => makes_result(before, after, r),
                _ => true,
            }
            &&& before.phase == PipePhase::Processing ==> match reply {
                PipeReply::Processed { storage, result: Ok(_) } => looks && after.storage == Some(
                    storage,
                ),
                PipeReply::Processed { storage, result: Err(error) } => is_done(
                    after,
                    r,
                    Err(PipeFault::Process(error)),
                ),
                _ => true,
            }
            &&& before.phase == PipePhase::Finalizing ==> match reply {
                PipeReply::Finalized(Ok(output)) => is_done(after, r, Ok(output)),
                PipeReply::Finalized(Err(error)) => is_done(
                    after,
                    r,
                    Err(PipeFault::Finalize(error)),
                ),
                _ => true,
            }
        }),
{
}

/// What a worker of a pool gives is its result, or the error of what failed, with its name.
pub proof fn pool_failures_are_told<O, E>(
    worker: &str,
    result: Result<O, PipeFault<E>>,
    r: Result<O, PiperError<E>>,
)
    requires
        call_ensures(worker_result::<O, E>, (worker, result), r),
    ensures
        match result {
            Ok(output) => r == Ok::<O, PiperError<E>>(output),
            Err(PipeFault::Init(e)) => r matches Err(PiperError::UserInit { worker: w, error })
                && w@ == worker@ && error == e,
            Err(PipeFault::Process(e)) => r matches Err(PiperError::UserProcess { worker: w, error })
                && w@ == worker@ && error == e,
            Err(PipeFault::Finalize(e)) => r matches Err(
                PiperError::UserFinalize { worker: w, error },
            ) && w@ == worker@ && error == e,
        },
{
}

/// Each result is added behind those that came before; what failed adds nothing and is told.
pub proof fn results_are_collected_in_order<O, E>(
    results: &mut Vec<O>,
    worker: String,
    joined: Result<Result<O, PiperError<E>>, PanicPayload>,
    r: Result<(), PiperError<E>>,
)
    requires
        call_ensures(collect_output::<O, E>, (results, worker, joined), r),
    ensures
        r is Ok <==> (joined matches Ok(Ok(_))),
        r is Err ==> final(results)@ == old(results)@,
        match joined {
            Ok(Ok(output)) => final(results)@.len() == old(results)@.len() + 1
                && final(results)@.last() == output && forall|i: int|
                0 <= i < old(results)@.len() ==> #[trigger] final(results)@[i] == old(results)@[i],
            Ok(Err(error)) => r == Err::<(), PiperError<E>>(error),
            Err(payload) => r matches Err(PiperError::WorkerPanicked { worker: w, message }) && w
                == worker && match payload {
                PanicPayload::Owned(s) => message@ == s@,
                PanicPayload::Static(s) => message@ == s@,
                PanicPayload::Other => message@ == "<non-string panic payload>"@,
            },
        },
{
}

/// A lease gives out the value that it was made on, once.
pub proof fn leases_give_their_value<T: Recycle>(
    value: T,
    lease: BufferLease<T>,
    inner: T,
    shown: &T,
    emptied: &mut BufferLease<T>,
    taken: Option<T>,
)
    requires
        call_ensures(BufferLease::<T>::new, (value,), lease),
        call_ensures(BufferLease::<T>::into_inner, (lease,), inner),
        call_ensures(BufferLease::<T>::get, (&lease,), shown),
        call_ensures(BufferLease::<T>::take, (emptied,), taken),
        *old(emptied) == lease,
    ensures
        inner == value,
        *shown == value,
        taken == Some(value),
        final(emptied).held() is None,
{
}

/// What goes back from a lease is what its value became by being emptied; nothing goes back twice.
pub proof fn leases_return_emptied_values<T: Recycle>(
    lease: &mut BufferLease<T>,
    r: Option<T>,
    returned: bool,
    shutdown: bool,
    abort: bool,
    report: SendReport,
)
    requires
        call_ensures(BufferLease::<T>::take_recycled, (lease,), r),
        call_ensures(BufferLease::<T>::return_report, (returned, shutdown, abort), report),
    ensures
        r is Some <==> old(lease).held() is Some,
        final(lease).held() is None,
        r is Some ==> exists|place: &mut T|
            *place == old(lease).held()->0 && *final(place) == r->0 && #[trigger] call_ensures(
                T::recycle,
                (place,),
                (),
            ),
        report == SendReport::Counted <==> returned,
        report == SendReport::Fatal <==> !returned && !shutdown && !abort,
{
}

/// A list is emptied to be used again.
pub proof fn lists_are_emptied<T>(list: &mut Vec<T>)
    requires
        call_ensures(<Vec<T> as Recycle>::recycle, (list,), ()),
    ensures
        final(list)@.len() == 0,
{
}

/// Whether the error is one of the supervisor with that message.
pub open spec fn supervisor_tells<E>(error: PiperError<E>, text: Seq<char>) -> bool {
    error matches PiperError::Internal { worker, message } && worker@ == "piper-supervisor"@
        && message@ == text
}

/// A node's code gets its state, the item and what it gets outputs from, each as it is; what is of
/// another type is told of, the state first and then the item.
pub proof fn node_code_gets_its_parts<T, I, A, E>(
    state: Option<T>,
    input: Option<I>,
    output_acquire: Option<Option<A>>,
    r: Result<(T, I, Option<A>), NodeFailure<E>>,
)
    requires
        call_ensures(process_parts::<T, I, A, E>, (state, input, output_acquire), r),
    ensures
        r is Ok <==> state is Some && input is Some && output_acquire != Some(None::<A>),
        r matches Ok(parts) ==> Some(parts.0) == state && Some(parts.1) == input && (
        output_acquire is Some ==> parts.2 == output_acquire->0) && (output_acquire is None
            ==> parts.2 is None),
        r matches Err(failure) ==> {
            &&& state is None ==> tells_inside(failure, "node state type mismatch"@)
            &&& state is Some && input is None ==> tells_inside(
                failure,
                "node input type mismatch"@,
            )
            &&& state is Some && input is Some ==> tells_inside(
                failure,
                "node output factory type mismatch"@,
            )
        },
{
}

/// A node's code gets the state to clean up and the states to merge as they are; what is of another
/// type is told of, and so is a node that cannot merge.
pub proof fn node_code_gets_its_states<T, U, E>(
    state: Option<T>,
    source: Option<U>,
    cleaned: Result<T, NodeFailure<E>>,
    both: Result<(T, U), NodeFailure<E>>,
    missing: NodeFailure<E>,
    done: Result<(), E>,
)
    requires
        call_ensures(cleanup_state::<T, E>, (state,), cleaned),
        call_ensures(merge_states::<T, U, E>, (state, source), both),
        call_ensures(missing_merge::<E>, (), missing),
        call_ensures(default_inline_cleanup::<Option<T>, E>, (state,), done),
    ensures
        state matches Some(s) ==> cleaned == Ok::<T, NodeFailure<E>>(s),
        state is None ==> (cleaned matches Err(failure) && tells_inside(
            failure,
            "node cleanup state type mismatch"@,
        )),
        both is Ok <==> state is Some && source is Some,
        both matches Ok(pair) ==> Some(pair.0) == state && Some(pair.1) == source,
        state is None ==> (both matches Err(failure) && tells_inside(
            failure,
            "node merge target state type mismatch"@,
        )),
        state is Some && source is None ==> (both matches Err(failure) && tells_inside(
            failure,
            "node merge source state type mismatch"@,
        )),
        tells_inside(missing, "node does not provide a state merge function"@),
        done is Ok,
{
}

/// A pipeline gives back its states in order, and none where one is of another type.
pub proof fn states_are_given_back_in_order<T, E>(
    states: Vec<Option<T>>,
    r: Result<Vec<T>, PiperError<E>>,
)
    requires
        call_ensures(returned_states::<T, E>, (states,), r),
    ensures
        r is Ok <==> forall|i: int| 0 <= i < states@.len() ==> #[trigger] states@[i] is Some,
        r matches Ok(given) ==> given@.len() == states@.len() && forall|i: int|
            0 <= i < states@.len() ==> states@[i] == Some(#[trigger] given@[i]),
        r matches Err(error) ==> supervisor_tells(error, "returned node state type mismatch"@),
{
}

/// States can be merged exactly where a node gives them back that can.
pub proof fn merging_needs_a_node<E>(stage: Option<bool>, r: Result<(), PiperError<E>>)
    requires
        call_ensures(check_merge::<E>, (stage,), r),
    ensures
        r is Ok <==> stage == Some(true),
        stage is None ==> (r matches Err(error) && supervisor_tells(
            error,
            "pipeline does not have a returned state node"@,
        )),
        stage == Some(false) ==> (r matches Err(PiperError::MissingStateMerge { node }) && node@
            == "returned-state node"@),
{
}

/// The first state takes in the others, one by one and in order.
pub proof fn states_are_merged_one_by_one<M, E>(
    states: Vec<M>,
    begun: Result<MergeRun<M>, PiperError<E>>,
    run: &mut MergeRun<M>,
    next: Option<M>,
)
    requires
        call_ensures(begin_merge::<M, E>, (states,), begun),
        call_ensures(MergeRun::<M>::next, (run,), next),
    ensures
        begun is Err <==> states@.len() == 0,
        begun matches Err(error) ==> supervisor_tells(
            error,
            "no returned node state was collected"@,
        ),
        begun matches Ok(started) ==> seq![started.merged] + started.rest@ == states@,
        next is Some <==> old(run).rest@.len() > 0,
        next matches Some(state) ==> seq![state] + final(run).rest@ == old(run).rest@,
        next is None ==> final(run).rest@.len() == 0,
        final(run).merged == old(run).merged,
{
    if let Ok(started) = begun {
        assert(seq![started.merged] + started.rest@ =~= states@);
    }
    if let Some(state) = next {
        assert(seq![state] + final(run).rest@ =~= old(run).rest@);
    }
}

/// A merge that failed is told of by the supervisor, and so is a merged state of another type.
pub proof fn merge_failures_are_told<T, E>(
    failure: NodeFailure<E>,
    failed: PiperError<E>,
    state: Option<T>,
    merged: Result<T, PiperError<E>>,
    late: PiperError<E>,
)
    requires
        call_ensures(merge_failed::<E>, (failure,), failed),
        call_ensures(merged_state::<T, E>, (state,), merged),
        call_ensures(startup_timed_out::<E>, (), late),
    ensures
        failure matches NodeFailure::Merge(e) ==> (failed matches PiperError::UserMerge {
            worker,
            error,
        } && worker@ == "piper-supervisor"@ && error == e),
        failure matches NodeFailure::Internal(m) ==> supervisor_tells(failed, m@),
        state matches Some(s) ==> merged == Ok::<T, PiperError<E>>(s),
        state is None ==> (merged matches Err(error) && supervisor_tells(
            error,
            "returned node state type mismatch"@,
        )),
        supervisor_tells(late, "initial workers were not ready before startup completed"@),
{
}

/// A handle is taken from its place, and no other is touched.
pub proof fn handles_are_taken_once<H>(handles: &mut Vec<Option<H>>, index: usize, r: H)
    requires
        call_ensures(take_external_node::<H>, (handles, index), r),
        index < old(handles)@.len(),
    ensures
        old(handles)@[index as int] == Some(r),
        final(handles)@.len() == old(handles)@.len(),
        final(handles)@[index as int] is None,
        forall|i: int|
            0 <= i < old(handles)@.len() && i != index ==> #[trigger] final(handles)@[i] == old(
                handles,
            )@[i],
{
}

/// A lease that cannot give its value back tells so, and what is changed through a lease is changed in it.
pub proof fn leases_tell_of_lost_values<T: Recycle, M>(
    failure: InternalFailure<M>,
    lease: &mut BufferLease<T>,
    place: &mut T,
)
    requires
        call_ensures(BufferLease::<T>::internal_failure::<M>, (), failure),
        call_ensures(BufferLease::<T>::get_mut, (lease,), place),
    ensures
        failure matches InternalFailure::Internal { message } && message@
            == "recycle channel closed while returning BufferLease"@,
        old(lease).held() == Some(*old(place)),
        final(lease).held() == Some(*final(place)),
{
}

} // verus!
