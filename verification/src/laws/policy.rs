//! How many threads a node gets for what was asked.

use crate::error::PiperError;
use crate::policy::{
    fixed_thread_count, low_queue_seconds, max_of, max_thread_count, resolve_global_worker_cap,
    resolve_scale_policy, resolve_thread_policy, startup_worker_count, target_queue_seconds,
    thread_policy_kind, NodeScalePolicy, NodeThreadPolicyKind, ResolvedScalePolicy,
    ResolvedThreadPolicy, ThreadPolicyHints,
};
use vstd::prelude::*;

verus! {

/// The larger of two counts is one of them, and neither is above it.
pub proof fn larger_count_is_above(a: usize, b: usize, r: usize)
    requires
        call_ensures(max_of, (a, b), r),
    ensures
        a <= r,
        b <= r,
        r == a || r == b,
{
}

/// Whether the thresholds of the resolved policy are those of the policy that was given.
pub open spec fn keeps_thresholds<R>(
    resolved: ResolvedScalePolicy<R>,
    given: NodeScalePolicy<R>,
) -> bool {
    &&& resolved.target_queue_seconds == given.target_queue_seconds
    &&& resolved.low_queue_seconds == given.low_queue_seconds
    &&& resolved.scale_down_after == given.scale_down_after
    &&& resolved.underutilized_busy_ratio == given.underutilized_busy_ratio
}

/// Whether the resolved counts are those that were asked for, where zero asks for what the machine
/// offers: as many threads as it runs at once, but one at least, and to begin with half of the
/// largest number, rounded up. There are never more to begin with than in the end.
pub open spec fn keeps_counts<R>(
    resolved: ResolvedScalePolicy<R>,
    initial: usize,
    max: usize,
    available: usize,
) -> bool {
    &&& max > 0 ==> resolved.max_threads == max
    &&& max == 0 && available > 0 ==> resolved.max_threads == available
    &&& max == 0 && available == 0 ==> resolved.max_threads == 1
    &&& 0 < initial <= resolved.max_threads ==> resolved.initial_threads == initial
    &&& initial > resolved.max_threads ==> resolved.initial_threads == resolved.max_threads
    &&& initial == 0 ==> {
        ||| resolved.max_threads == 2 * resolved.initial_threads
        ||| resolved.max_threads == 2 * resolved.initial_threads - 1
    }
}

/// A scale policy keeps its thresholds and the counts that it asks for.
pub proof fn scale_policy_is_kept<R>(
    policy: NodeScalePolicy<R>,
    available: usize,
    r: ResolvedScalePolicy<R>,
)
    requires
        call_ensures(resolve_scale_policy::<R>, (policy, available), r),
    ensures
        keeps_thresholds(r, policy),
        keeps_counts(r, policy.initial_threads, policy.max_threads, available),
        1 <= r.initial_threads <= r.max_threads,
{
}

/// Whether the thread policy is what the hints of a node ask for. A fixed number is all that counts
/// where there is one. Otherwise the node scales where anything was asked for or it is an anchor:
/// with the thresholds of the policy that was given, or of the default where none was, and with the
/// counts that were asked for by themselves, or else those of that policy. Any other node supports.
pub open spec fn follows_hints<R>(
    policy: ResolvedThreadPolicy<R>,
    is_anchor: bool,
    hints: ThreadPolicyHints<R>,
    default: NodeScalePolicy<R>,
    available: usize,
) -> bool {
    let scales = hints.fixed_threads is None && (is_anchor || hints.scale_policy is Some
        || hints.max_threads is Some || hints.initial_threads is Some);
    &&& hints.fixed_threads matches Some(count) ==> policy == ResolvedThreadPolicy::<R>::Fixed(count)
    &&& scales <==> policy is Scalable
    &&& hints.fixed_threads is None && !scales ==> policy is ImplicitSupport
    &&& policy matches ResolvedThreadPolicy::Scalable(resolved) ==> {
        let given = if hints.scale_policy is Some {
            hints.scale_policy->0
        } else {
            default
        };
        &&& keeps_thresholds(resolved, given)
        &&& keeps_counts(
            resolved,
            if hints.initial_threads is Some {
                hints.initial_threads->0
            } else {
                given.initial_threads
            },
            if hints.max_threads is Some {
                hints.max_threads->0
            } else {
                given.max_threads
            },
            available,
        )
        &&& 1 <= resolved.initial_threads <= resolved.max_threads
    }
}

/// A node gets the thread policy that its hints ask for, and is refused exactly where they ask for a
/// fixed number of no threads.
pub proof fn hints_are_followed<R, E>(
    is_anchor: bool,
    hints: ThreadPolicyHints<R>,
    default: NodeScalePolicy<R>,
    available: usize,
    r: Result<ResolvedThreadPolicy<R>, PiperError<E>>,
)
    requires
        call_ensures(resolve_thread_policy::<R, E>, (is_anchor, hints, default, available), r),
    ensures
        r is Err <==> hints.fixed_threads == Some(0usize),
        r matches Err(error) ==> error is InvalidThreadCount,
        r matches Ok(policy) ==> follows_hints(policy, is_anchor, hints, default, available),
{
}

/// What telemetry shows of a policy is what the policy says, and nothing where it says nothing of it.
pub proof fn policies_are_shown<R: Copy>(
    policy: &ResolvedThreadPolicy<R>,
    kind: NodeThreadPolicyKind,
    fixed: Option<usize>,
    max: Option<usize>,
    target: Option<R>,
    low: Option<R>,
)
    requires
        call_ensures(thread_policy_kind::<R>, (policy,), kind),
        call_ensures(fixed_thread_count::<R>, (policy,), fixed),
        call_ensures(max_thread_count::<R>, (policy,), max),
        call_ensures(target_queue_seconds::<R>, (policy,), target),
        call_ensures(low_queue_seconds::<R>, (policy,), low),
    ensures
        kind == NodeThreadPolicyKind::Fixed <==> policy is Fixed,
        kind == NodeThreadPolicyKind::Scalable <==> policy is Scalable,
        kind == NodeThreadPolicyKind::ImplicitSupport <==> policy is ImplicitSupport,
        *policy matches ResolvedThreadPolicy::Fixed(count) ==> fixed == Some(count),
        fixed is Some <==> policy is Fixed,
        *policy matches ResolvedThreadPolicy::Scalable(scale) ==> {
            &&& max == Some(scale.max_threads)
            &&& target == Some(scale.target_queue_seconds)
            &&& low == Some(scale.low_queue_seconds)
        },
        max is Some <==> policy is Scalable,
        target is Some <==> policy is Scalable,
        low is Some <==> policy is Scalable,
{
}

/// A node starts with its fixed number of workers, with the initial number of its policy, one of which
/// it must have, or with one.
pub proof fn policies_start_workers<R>(policy: &ResolvedThreadPolicy<R>, r: (usize, usize))
    requires
        call_ensures(startup_worker_count::<R>, (policy,), r),
    ensures
        *policy matches ResolvedThreadPolicy::Fixed(count) ==> r.0 == count && r.1 == 0,
        *policy matches ResolvedThreadPolicy::Scalable(scale) ==> r.0 == 1 && (
        scale.initial_threads >= 1 ==> r.0 + r.1 == scale.initial_threads) && (
        scale.initial_threads == 0 ==> r.1 == 0),
        policy is ImplicitSupport ==> r.0 == 1 && r.1 == 0,
{
}

/// The pipeline may have as many workers as were asked for, or else two for each thread that the
/// machine runs at once, but at least two. Only where there are more nodes, or more workers to begin
/// with, may it have more, and then as many as those.
pub proof fn cap_is_what_was_asked(
    configured: Option<usize>,
    node_count: usize,
    required_base: usize,
    available: usize,
    r: usize,
)
    requires
        call_ensures(
            resolve_global_worker_cap,
            (configured, node_count, required_base, available),
            r,
        ),
    ensures
        r >= node_count,
        r >= required_base,
        configured matches Some(cap) ==> r >= cap && (r == cap || r == node_count || r
            == required_base),
        configured is None ==> {
            &&& r >= 2
            &&& available >= 1 && 2 * available <= usize::MAX ==> r >= 2 * available && (r == 2
                * available || r == node_count || r == required_base)
            &&& available == 0 ==> r == 2 || r == node_count || r == required_base
            &&& 2 * available > usize::MAX ==> r == usize::MAX
        },
{
}

/// On a machine that runs that many threads at once, a scale policy by default allows as many, but one
/// at least, and begins with half of them, rounded up.
pub proof fn default_policy_fits_machine<R>(
    available: usize,
    target: R,
    low: R,
    after: u128,
    ratio: R,
    r: NodeScalePolicy<R>,
)
    requires
        call_ensures(
            NodeScalePolicy::<R>::for_parallelism,
            (available, target, low, after, ratio),
            r,
        ),
    ensures
        available >= 1 ==> r.max_threads == available,
        available == 0 ==> r.max_threads == 1,
        r.max_threads == 2 * r.initial_threads || r.max_threads == 2 * r.initial_threads - 1,
        r.target_queue_seconds == target,
        r.low_queue_seconds == low,
        r.scale_down_after == after,
        r.underutilized_busy_ratio == ratio,
{
}

/// Where nothing is asked for, no hint is there.
pub proof fn no_hint_is_there<R>(r: ThreadPolicyHints<R>)
    requires
        call_ensures(ThreadPolicyHints::<R>::none, (), r),
    ensures
        r.fixed_threads is None,
        r.max_threads is None,
        r.initial_threads is None,
        r.scale_policy is None,
{
}

} // verus!
