//! What is remembered of links and nodes, and how many workers a node should have.

use crate::control::{
    build_node_controls, classify_queue_trend, collect_node_samples, effective_queue_len,
    queue_len_or_zero, sample_links, sum_samples, update_desired_workers, LinkControl, LinkCounts,
    LinkRates, NodeControl, NodeDemand, NodeMeasures, NodeSample, RateBand, ScaleDirection,
};
use crate::laws::scaling::rising;
use crate::plan::RuntimeNode;
use crate::policy::ResolvedThreadPolicy;
use crate::snapshot::{NodeScalingState, QueueTrend};
use vstd::prelude::*;

verus! {

/// Whether `trend` tells how a queue develops that now has `len` items and had `previous`. An empty
/// queue is starved where next to nothing moves, and stable where it was empty before. Any other queue
/// goes by its rates, but runs away only where it got longer, and where its rates are even it grows
/// where more than two items were added.
pub open spec fn tells(
    trend: QueueTrend,
    len: usize,
    previous: usize,
    idle: bool,
    band: RateBand,
) -> bool {
    let goes_by_rates = len > 0 || (!idle && previous > 0);
    &&& trend == QueueTrend::Starved <==> len == 0 && idle
    &&& len == 0 && previous == 0 && !idle ==> trend == QueueTrend::Stable
    &&& goes_by_rates ==> {
        &&& trend == QueueTrend::FastDraining <==> band == RateBand::FastDrain
        &&& trend == QueueTrend::Draining <==> band == RateBand::Drain
        &&& trend == QueueTrend::Stable <==> band == RateBand::Even && len <= previous + 2
        &&& trend == QueueTrend::Growing <==> band == RateBand::Grow || (band == RateBand::Even
            && len >= previous + 3)
        &&& trend == QueueTrend::FastGrowing <==> band == RateBand::FastGrow || (band
            == RateBand::Runaway && len <= previous)
        &&& trend == QueueTrend::Runaway <==> band == RateBand::Runaway && len > previous
    }
}

/// A queue's trend tells how it develops.
pub proof fn trend_tells(
    len: usize,
    previous_len: usize,
    idle: bool,
    band: RateBand,
    r: QueueTrend,
)
    requires
        call_ensures(classify_queue_trend, (len, previous_len, idle, band), r),
    ensures
        tells(r, len, previous_len, idle, band),
{
}

/// Whether `after` is what is remembered of a link that was remembered as `before`, after a sample.
pub open spec fn link_remembers<R>(
    before: LinkControl<R>,
    counts: LinkCounts,
    rates: LinkRates<R>,
    after: LinkControl<R>,
) -> bool {
    &&& after.last_arrivals == counts.arrivals
    &&& after.last_drains == counts.drains
    &&& counts.queue_len is Some ==> after.len == counts.queue_len->0
    &&& counts.queue_len is None ==> after.len == 0
    &&& after.previous_len == before.len
    &&& after.arrival_rate == rates.arrival_rate
    &&& after.drain_rate == rates.drain_rate
    &&& after.net_rate == rates.net_rate
    &&& after.smoothed_len == rates.smoothed_len
    &&& tells(after.trend, after.len, before.len, rates.idle, rates.band)
}

/// After a sample of a link, what was counted and measured is remembered, and its length before.
pub proof fn link_sample_is_remembered<R: Copy>(
    control: &mut LinkControl<R>,
    counts: &LinkCounts,
    rates: &LinkRates<R>,
)
    requires
        call_ensures(LinkControl::<R>::take_sample, (control, counts, rates), ()),
    ensures
        link_remembers(*old(control), *counts, *rates, *final(control)),
{
}

/// After a sample of all links each remembers its own; what is not sampled stays.
pub proof fn every_link_is_sampled<R: Copy>(
    counts: &Vec<LinkCounts>,
    rates: &Vec<LinkRates<R>>,
    controls: &mut Vec<LinkControl<R>>,
)
    requires
        call_ensures(sample_links::<R>, (counts, rates, controls), ()),
    ensures
        final(controls)@.len() == old(controls)@.len(),
        forall|i: int|
            0 <= i < counts@.len() ==> link_remembers(
                old(controls)@[i],
                counts@[i],
                rates@[i],
                #[trigger] final(controls)@[i],
            ),
        forall|i: int|
            counts@.len() <= i < old(controls)@.len() ==> #[trigger] final(controls)@[i] == old(
                controls,
            )@[i],
{
}

/// What arrived and left on a link since the sample before is what the counts rose by; a count that
/// fell back adds nothing.
pub proof fn link_gains_are_differences<R: Copy>(
    control: &LinkControl<R>,
    counts: &LinkCounts,
    r: (u64, u64),
)
    requires
        call_ensures(LinkControl::<R>::gains, (control, counts), r),
    ensures
        counts.arrivals >= control.last_arrivals ==> r.0 == counts.arrivals - control.last_arrivals,
        counts.arrivals < control.last_arrivals ==> r.0 == 0,
        counts.drains >= control.last_drains ==> r.1 == counts.drains - control.last_drains,
        counts.drains < control.last_drains ==> r.1 == 0,
{
}

/// At first nothing has passed a link, and it counts as starved.
pub proof fn links_begin_starved<R: Copy>(zero: R, r: LinkControl<R>)
    requires
        call_ensures(LinkControl::<R>::starting, (zero,), r),
    ensures
        r.last_arrivals == 0 && r.last_drains == 0 && r.len == 0 && r.previous_len == 0,
        r.smoothed_len == zero && r.arrival_rate == zero && r.drain_rate == zero && r.net_rate
            == zero,
        r.trend == QueueTrend::Starved,
{
}

/// A link that cannot tell its length holds nothing.
pub proof fn unknown_length_is_none(queue_len: Option<usize>, r: usize)
    requires
        call_ensures(queue_len_or_zero, (queue_len,), r),
    ensures
        queue_len matches Some(len) ==> r == len,
        queue_len is None ==> r == 0,
{
}

/// Where nothing waits now, nothing counts as waiting; otherwise at least what waits now and what
/// waited on average does, and no more than one of both.
pub proof fn empty_queues_are_empty(observed: usize, smoothed: usize, r: usize)
    requires
        call_ensures(effective_queue_len, (observed, smoothed), r),
    ensures
        observed == 0 ==> r == 0,
        observed > 0 ==> r >= observed && r >= smoothed && (r == observed || r == smoothed),
{
}

/// At first a node is what its plan says, should have one worker, and may be changed.
pub proof fn nodes_begin_eligible<S, A, R: Copy>(
    nodes: &Vec<RuntimeNode<S, A, R>>,
    zero: R,
    r: Vec<NodeControl<R>>,
    i: int,
)
    requires
        call_ensures(build_node_controls::<S, A, R>, (nodes, zero), r),
        0 <= i < nodes@.len(),
    ensures
        r@.len() == nodes@.len(),
        r@[i].is_external == nodes@[i].is_external,
        r@[i].is_weighted_branch <==> nodes@[i].weighted_branch_config is Some,
        r@[i].is_anchor == nodes@[i].is_anchor,
        r@[i].thread_policy == nodes@[i].thread_policy,
        r@[i].desired_workers == 1,
        r@[i].processed_count == 0 && r@[i].last_sample_processed == 0,
        r@[i].busy_ratio == zero && r@[i].service_time_ewma == zero && r@[i].per_worker_throughput
            == zero && r@[i].backlog_seconds == zero,
        r@[i].scaling_state == NodeScalingState::Eligible && !r@[i].settling,
        r@[i].settle_samples == 0 && !r@[i].settle_observed_work,
        r@[i].scale_down_eligible_since is None,
        r@[i].last_anchor_pressure_reason is None,
        r@[i].last_operation is None,
{
}

/// What the workers of a node did together is each worker's part, summed up.
pub proof fn samples_are_summed(samples: &Vec<NodeSample>, r: NodeSample)
    requires
        call_ensures(sum_samples, (samples,), r),
    ensures
        r.process_nanos == samples@.fold_left(0int, |sum: int, s: NodeSample| sum + s.process_nanos),
        r.wait_nanos == samples@.fold_left(0int, |sum: int, s: NodeSample| sum + s.wait_nanos),
        r.processed_items == samples@.fold_left(
            0int,
            |sum: int, s: NodeSample| sum + s.processed_items,
        ),
{
    totals_are_sums(samples@, samples@.len());
    assert(samples@.take(samples@.len() as int) == samples@);
}

proof fn totals_are_sums(samples: Seq<NodeSample>, n: nat)
    requires
        n <= samples.len(),
    ensures
        crate::control::process_total(samples, n) == samples.take(n as int).fold_left(
            0int,
            |sum: int, s: NodeSample| sum + s.process_nanos,
        ),
        crate::control::wait_total(samples, n) == samples.take(n as int).fold_left(
            0int,
            |sum: int, s: NodeSample| sum + s.wait_nanos,
        ),
        crate::control::item_total(samples, n) == samples.take(n as int).fold_left(
            0int,
            |sum: int, s: NodeSample| sum + s.processed_items,
        ),
    decreases n,
{
    if n > 0 {
        totals_are_sums(samples, (n - 1) as nat);
        assert(samples.take(n as int).drop_last() == samples.take(n - 1));
    }
}

/// Whether `after` is what is remembered of a node that was remembered as `before`, after a sample.
/// Items are added up. Times count only where there were any, and service times and throughput only
/// where items were processed in some time. What is due to a policy of the node's own changes only
/// where there is one: the backlog, and since when the node has been underused without a break.
pub open spec fn node_remembers<R>(
    before: NodeControl<R>,
    sample: NodeSample,
    measures: NodeMeasures<R>,
    now: u128,
    after: NodeControl<R>,
) -> bool {
    let timed = sample.process_nanos > 0 || sample.wait_nanos > 0;
    let served = sample.processed_items > 0 && sample.process_nanos > 0;
    let scales = before.thread_policy is Scalable;
    &&& after.last_sample_processed == sample.processed_items
    &&& before.processed_count + sample.processed_items <= u64::MAX ==> after.processed_count
        == before.processed_count + sample.processed_items
    &&& before.processed_count + sample.processed_items > u64::MAX ==> after.processed_count
        == u64::MAX
    &&& timed ==> after.busy_ratio == measures.busy_ratio
    &&& !timed ==> after.busy_ratio == before.busy_ratio
    &&& served ==> after.service_time_ewma == measures.service_time_ewma
        && after.per_worker_throughput == measures.per_worker_throughput
    &&& !served ==> after.service_time_ewma == before.service_time_ewma
        && after.per_worker_throughput == before.per_worker_throughput
    &&& scales ==> after.backlog_seconds == measures.backlog_seconds
    &&& !scales ==> after.backlog_seconds == before.backlog_seconds
        && after.scale_down_eligible_since == before.scale_down_eligible_since
    &&& scales && !measures.underutilized ==> after.scale_down_eligible_since is None
    &&& scales && measures.underutilized && before.scale_down_eligible_since is Some
        ==> after.scale_down_eligible_since == before.scale_down_eligible_since
    &&& scales && measures.underutilized && before.scale_down_eligible_since is None
        ==> after.scale_down_eligible_since == Some(now)
    &&& !before.settling ==> !after.settling && after.scaling_state == before.scaling_state
        && after.settle_samples == before.settle_samples && after.settle_observed_work
        == before.settle_observed_work
    &&& before.settling ==> {
        let worked = before.settle_observed_work || sample.processed_items > 0;
        &&& after.settle_observed_work == worked
        &&& before.settle_samples < u32::MAX ==> after.settle_samples == before.settle_samples + 1
        &&& before.settle_samples == u32::MAX ==> after.settle_samples == u32::MAX
        &&& after.settling <==> after.settle_samples < 2 || !worked
        &&& !after.settling ==> after.scaling_state == NodeScalingState::Eligible
        &&& after.settling ==> after.scaling_state == before.scaling_state
    }
    &&& after.is_external == before.is_external
    &&& after.is_weighted_branch == before.is_weighted_branch
    &&& after.is_anchor == before.is_anchor
    &&& after.thread_policy == before.thread_policy
    &&& after.desired_workers == before.desired_workers
    &&& after.last_anchor_pressure_reason == before.last_anchor_pressure_reason
    &&& after.last_operation == before.last_operation
}

/// After a sample of a node, what was counted and measured is remembered.
pub proof fn node_sample_is_remembered<R: Copy>(
    control: &mut NodeControl<R>,
    sample: &NodeSample,
    measures: &NodeMeasures<R>,
    now: u128,
)
    requires
        call_ensures(NodeControl::<R>::take_sample, (control, sample, measures, now), ()),
    ensures
        node_remembers(*old(control), *sample, *measures, now, *final(control)),
{
}

/// After a sample of all nodes each remembers its own; what is not sampled stays.
pub proof fn every_node_is_sampled<R: Copy>(
    samples: &Vec<NodeSample>,
    measures: &Vec<NodeMeasures<R>>,
    controls: &mut Vec<NodeControl<R>>,
    now: u128,
)
    requires
        call_ensures(collect_node_samples::<R>, (samples, measures, controls, now), ()),
    ensures
        final(controls)@.len() == old(controls)@.len(),
        forall|i: int|
            0 <= i < samples@.len() ==> node_remembers(
                old(controls)@[i],
                samples@[i],
                measures@[i],
                now,
                #[trigger] final(controls)@[i],
            ),
        forall|i: int|
            samples@.len() <= i < old(controls)@.len() ==> #[trigger] final(controls)@[i] == old(
                controls,
            )@[i],
{
    assert forall|i: int| 0 <= i < samples@.len() implies node_remembers(
        old(controls)@[i],
        samples@[i],
        measures@[i],
        now,
        #[trigger] final(controls)@[i],
    ) by {
        let before = old(controls)@[i];
        assert(final(controls)@[i] == before.sampled(samples@[i], measures@[i], now));
    }
}

/// A node whose number of workers was changed begins to settle, and it is remembered how and when it
/// was changed. Nothing else changes.
pub proof fn changed_nodes_settle<R: Copy>(
    control: &mut NodeControl<R>,
    direction: ScaleDirection,
    now: u128,
)
    requires
        call_ensures(NodeControl::<R>::record_operation, (control, direction, now), ()),
    ensures
        final(control).last_operation == Some((direction, now)),
        final(control).settling,
        final(control).scaling_state == NodeScalingState::Settling,
        final(control).settle_samples == 0,
        !final(control).settle_observed_work,
        *final(control) == (NodeControl {
            last_operation: final(control).last_operation,
            settling: true,
            scaling_state: NodeScalingState::Settling,
            settle_samples: 0,
            settle_observed_work: false,
            ..*old(control)
        }),
{
}

/// Whether `n` is how many workers a node should have by that policy, where it has `active` and what
/// it needs is not measured: as many as it has, but one at least, and one more where its queue gets
/// longer.
pub open spec fn keeps_pace(n: int, active: int, growing: bool) -> bool {
    let present = if active >= 1 {
        active
    } else {
        1
    };
    n == if growing && present < usize::MAX {
        present + 1
    } else {
        present
    }
}

/// Whether `after` is what is remembered of a node once it is known how many workers it should have.
pub open spec fn node_demands<R>(
    before: NodeControl<R>,
    active: int,
    growing: bool,
    demand: NodeDemand<R>,
    after: NodeControl<R>,
) -> bool {
    let wanted = after.desired_workers as int;
    let managed = !before.is_external && !before.is_weighted_branch;
    &&& before.is_external ==> wanted == 0
    &&& !before.is_external && before.is_weighted_branch ==> wanted == 1
    &&& managed ==> (before.thread_policy matches ResolvedThreadPolicy::Fixed(count) ==> wanted
        == count)
    &&& managed ==> (before.thread_policy matches ResolvedThreadPolicy::Scalable(policy) ==> {
        let max = policy.max_threads as int;
        &&& demand.measured ==> {
            &&& 1 <= wanted <= max
            &&& wanted >= demand.for_arrivals || wanted == max
            &&& wanted >= demand.for_backlog || wanted == max
            &&& wanted == demand.for_arrivals || wanted == demand.for_backlog || wanted == 1
                || wanted == max
            &&& wanted == 1 || wanted <= demand.for_arrivals || wanted <= demand.for_backlog
            &&& after.backlog_seconds == demand.backlog_seconds
        }
        &&& !demand.measured && growing ==> wanted <= max && (wanted == max || keeps_pace(
            wanted,
            active,
            true,
        )) && wanted <= active + 1 + (if active == 0 {
            1int
        } else {
            0
        })
        &&& !demand.measured && !growing ==> keeps_pace(wanted, active, false)
    })
    &&& managed && before.thread_policy is ImplicitSupport ==> {
        &&& demand.measured ==> wanted >= 1 && wanted >= demand.for_support && (wanted == 1 || wanted
            == demand.for_support)
        &&& !demand.measured ==> keeps_pace(wanted, active, growing)
    }
    &&& !(managed && before.thread_policy is Scalable && demand.measured) ==> after.backlog_seconds
        == before.backlog_seconds
    &&& after == NodeControl {
        desired_workers: after.desired_workers,
        backlog_seconds: after.backlog_seconds,
        ..before
    }
}

/// Every node should have as many workers as its demand asks for and its policy allows. By a policy of
/// its own, that is enough for what arrives and enough for what waits, but no more than either takes
/// and no more than the policy allows.
pub proof fn demands_are_met<S, A, R: Copy>(
    links: &Vec<LinkControl<R>>,
    active_by_node: &Vec<Vec<usize>>,
    nodes: &Vec<RuntimeNode<S, A, R>>,
    demands: &Vec<NodeDemand<R>>,
    controls: &mut Vec<NodeControl<R>>,
    i: int,
)
    requires
        call_ensures(
            update_desired_workers::<S, A, R>,
            (links, active_by_node, nodes, demands, controls),
            (),
        ),
        0 <= i < old(controls)@.len(),
        old(controls)@[i].thread_policy matches ResolvedThreadPolicy::Scalable(policy)
            ==> policy.max_threads >= 1,
    ensures
        final(controls)@.len() == old(controls)@.len(),
        node_demands(
            old(controls)@[i],
            active_by_node@[i]@.len() as int,
            rising(links@[nodes@[i].input_link as int].trend),
            demands@[i],
            final(controls)@[i],
        ),
{
    let before = old(controls)@[i];
    assert(active_by_node@[i].len() <= usize::MAX);
}

/// The demands of nodes can be taken in wherever each node has its workers, its demand and its input link,
/// and a policy that allows some worker.
pub proof fn demands_can_be_taken_in<S, A, R: Copy>(
    links: &Vec<LinkControl<R>>,
    active_by_node: &Vec<Vec<usize>>,
    nodes: &Vec<RuntimeNode<S, A, R>>,
    demands: &Vec<NodeDemand<R>>,
    controls: &mut Vec<NodeControl<R>>,
)
    requires
        old(controls)@.len() == active_by_node@.len(),
        old(controls)@.len() == nodes@.len(),
        old(controls)@.len() == demands@.len(),
        forall|i: int| 0 <= i < nodes@.len() ==> (#[trigger] nodes@[i]).input_link < links@.len(),
        forall|i: int|
            0 <= i < nodes@.len() ==> match (#[trigger] old(controls)@[i]).thread_policy {
                ResolvedThreadPolicy::Fixed(count) => count >= 1,
                ResolvedThreadPolicy::Scalable(policy) => 1 <= policy.initial_threads
                    <= policy.max_threads,
                ResolvedThreadPolicy::ImplicitSupport => true,
            },
    ensures
        call_requires(
            update_desired_workers::<S, A, R>,
            (links, active_by_node, nodes, demands, controls),
        ),
{
}

} // verus!
