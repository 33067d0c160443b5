//! What the supervisor remembers of each link and each node between two samples.
//!
//! Quantities that are measured and smoothed are carried as values of the type `R`; what follows
//! from comparing them comes in as plain values. Times are nanoseconds on one clock.

use crate::plan::RuntimeNode;
use crate::policy::{larger, max_of, ResolvedThreadPolicy};
use crate::snapshot::{AnchorPressureReason, NodeScalingState, QueueTrend};
use vstd::prelude::*;

verus! {

/// After how many samples a node that was changed may be changed again.
pub const SETTLE_SAMPLES: u32 = 2;

/// What is remembered of a link.
#[derive(Clone, Copy, Debug)]
pub struct LinkControl<R> {
    pub last_arrivals: u64,
    pub last_drains: u64,
    pub len: usize,
    pub previous_len: usize,
    pub smoothed_len: R,
    pub arrival_rate: R,
    pub drain_rate: R,
    pub net_rate: R,
    pub trend: QueueTrend,
}

impl<R: Copy> LinkControl<R> {
    /// What is known of a link at first. `zero` is the quantity nothing.
    pub fn starting(zero: R) -> (r: Self)
        ensures
            r == (LinkControl {
                last_arrivals: 0,
                last_drains: 0,
                len: 0,
                previous_len: 0,
                smoothed_len: zero,
                arrival_rate: zero,
                drain_rate: zero,
                net_rate: zero,
                trend: QueueTrend::Starved,
            }),
    {
        LinkControl {
            last_arrivals: 0,
            last_drains: 0,
            len: 0,
            previous_len: 0,
            smoothed_len: zero,
            arrival_rate: zero,
            drain_rate: zero,
            net_rate: zero,
            trend: QueueTrend::Starved,
        }
    }
}

/// Where the net rate of a link lies, as a share of the larger of its two rates.
#[derive(Clone, Copy, Debug, PartialEq, Eq, Structural)]
pub enum RateBand {
    /// It drains fast.
    FastDrain,
    /// It drains.
    Drain,
    /// It is about even.
    Even,
    /// It grows.
    Grow,
    /// It grows fast.
    FastGrow,
    /// Nearly all that arrives stays.
    Runaway,
}

/// How a queue develops that now has `len` items and had `previous_len`; `idle` tells whether next
/// to nothing arrives or leaves.
pub open spec fn trend_of(len: usize, previous_len: usize, idle: bool, band: RateBand) -> QueueTrend {
    if len == 0 && idle {
        QueueTrend::Starved
    } else if len == 0 && previous_len == 0 {
        QueueTrend::Stable
    } else {
        match band {
            RateBand::FastDrain => QueueTrend::FastDraining,
            RateBand::Drain => QueueTrend::Draining,
            RateBand::Runaway => if len > previous_len {
                QueueTrend::Runaway
            } else {
                QueueTrend::FastGrowing
            },
            RateBand::FastGrow => QueueTrend::FastGrowing,
            RateBand::Grow => QueueTrend::Growing,
            RateBand::Even => if len - previous_len > 2 {
                QueueTrend::Growing
            } else {
                QueueTrend::Stable
            },
        }
    }
}

/// Classifies how a queue develops.
pub fn classify_queue_trend(len: usize, previous_len: usize, idle: bool, band: RateBand) -> (r:
    QueueTrend)
    ensures
        r == trend_of(len, previous_len, idle, band),
{
    if len == 0 && idle {
        return QueueTrend::Starved;
    }
    if len == 0 && previous_len == 0 {
        return QueueTrend::Stable;
    }
    match band {
        RateBand::FastDrain => QueueTrend::FastDraining,
        RateBand::Drain => QueueTrend::Draining,
        RateBand::Runaway => if len > previous_len {
            QueueTrend::Runaway
        } else {
            QueueTrend::FastGrowing
        },
        RateBand::FastGrow => QueueTrend::FastGrowing,
        RateBand::Grow => QueueTrend::Growing,
        RateBand::Even => if len > previous_len && len - previous_len > 2 {
            QueueTrend::Growing
        } else {
            QueueTrend::Stable
        },
    }
}

/// What was counted on a link: all that ever arrived and left, and what it holds now.
#[derive(Clone, Copy, Debug)]
pub struct LinkCounts {
    pub arrivals: u64,
    pub drains: u64,
    /// How many items wait, where the link can tell.
    pub queue_len: Option<usize>,
}

/// How much was added to a count that went from `before` to `after`; a count that went back adds
/// nothing.
pub open spec fn gain(before: u64, after: u64) -> u64 {
    if after >= before {
        (after - before) as u64
    } else {
        0
    }
}

/// What a link's rates are once a sample has been smoothed in.
#[derive(Clone, Copy, Debug)]
pub struct LinkRates<R> {
    pub arrival_rate: R,
    pub drain_rate: R,
    pub net_rate: R,
    pub smoothed_len: R,
    /// Whether next to nothing arrives or leaves.
    pub idle: bool,
    pub band: RateBand,
}

/// How many items a link holds, where it can tell, or else none.
pub open spec fn known_len(queue_len: Option<usize>) -> usize {
    match queue_len {
        Some(len) => len,
        None => 0,
    }
}

/// How many items a link holds.
pub fn queue_len_or_zero(queue_len: Option<usize>) -> (r: usize)
    ensures
        r == known_len(queue_len),
{
    match queue_len {
        Some(len) => len,
        None => 0,
    }
}

impl<R: Copy> LinkControl<R> {
    /// How much arrived and how much left since the sample before.
    pub fn gains(&self, counts: &LinkCounts) -> (r: (u64, u64))
        ensures
            r == (gain(self.last_arrivals, counts.arrivals), gain(self.last_drains, counts.drains)),
    {
        (
            counts.arrivals.saturating_sub(self.last_arrivals),
            counts.drains.saturating_sub(self.last_drains),
        )
    }

    /// What is remembered of the link after a sample.
    pub open spec fn sampled(self, counts: LinkCounts, rates: LinkRates<R>) -> Self {
        LinkControl {
            last_arrivals: counts.arrivals,
            last_drains: counts.drains,
            len: known_len(counts.queue_len),
            previous_len: self.len,
            smoothed_len: rates.smoothed_len,
            arrival_rate: rates.arrival_rate,
            drain_rate: rates.drain_rate,
            net_rate: rates.net_rate,
            trend: trend_of(known_len(counts.queue_len), self.len, rates.idle, rates.band),
        }
    }

    /// Takes in a sample.
    pub fn take_sample(&mut self, counts: &LinkCounts, rates: &LinkRates<R>)
        ensures
            *final(self) == old(self).sampled(*counts, *rates),
    {
        let len: usize = queue_len_or_zero(counts.queue_len);
        self.last_arrivals = counts.arrivals;
        self.last_drains = counts.drains;
        self.previous_len = self.len;
        self.len = len;
        self.arrival_rate = rates.arrival_rate;
        self.drain_rate = rates.drain_rate;
        self.net_rate = rates.net_rate;
        self.smoothed_len = rates.smoothed_len;
        self.trend = classify_queue_trend(len, self.previous_len, rates.idle, rates.band);
    }
}

/// Takes a sample of every link.
pub fn sample_links<R: Copy>(
    counts: &Vec<LinkCounts>,
    rates: &Vec<LinkRates<R>>,
    controls: &mut Vec<LinkControl<R>>,
)
    requires
        counts@.len() == rates@.len(),
        counts@.len() <= old(controls)@.len(),
    ensures
        final(controls)@.len() == old(controls)@.len(),
        forall|i: int|
            0 <= i < counts@.len() ==> #[trigger] final(controls)@[i] == old(controls)@[i].sampled(
                counts@[i],
                rates@[i],
            ),
        forall|i: int|
            counts@.len() <= i < old(controls)@.len() ==> #[trigger] final(controls)@[i] == old(
                controls,
            )@[i],
{
    for i in 0..counts.len()
        invariant
            counts@.len() == rates@.len(),
            counts@.len() <= controls@.len(),
            controls@.len() == old(controls)@.len(),
            forall|k: int|
                0 <= k < i ==> #[trigger] controls@[k] == old(controls)@[k].sampled(
                    counts@[k],
                    rates@[k],
                ),
            forall|k: int|
                i <= k < controls@.len() ==> #[trigger] controls@[k] == old(controls)@[k],
    {
        let mut control: LinkControl<R> = controls[i];
        control.take_sample(&counts[i], &rates[i]);
        controls.set(i, control);
    }
}

/// How many items wait on a link, where the smoothed length, rounded up, still counts: the larger
/// of both, or none where nothing waits now.
pub open spec fn effective_len(observed: usize, smoothed: usize) -> int {
    if observed == 0 {
        0
    } else {
        larger(observed as int, smoothed as int)
    }
}

/// How many items count as waiting on a link. `smoothed` is the smoothed length rounded up, or
/// zero where it is not a positive finite number.
pub fn effective_queue_len(observed: usize, smoothed: usize) -> (r: usize)
    ensures
        r == effective_len(observed, smoothed),
{
    if observed == 0 {
        0
    } else {
        max_of(observed, smoothed)
    }
}

/// In which way the number of workers of a node was changed.
#[derive(Clone, Copy, Debug, PartialEq, Eq, Structural)]
pub enum ScaleDirection {
    Add,
    Remove,
    Merge,
}

/// What is remembered of a node.
#[derive(Clone, Copy, Debug)]
pub struct NodeControl<R> {
    pub is_external: bool,
    pub is_weighted_branch: bool,
    pub is_anchor: bool,
    pub thread_policy: ResolvedThreadPolicy<R>,
    pub processed_count: u64,
    pub busy_ratio: R,
    pub service_time_ewma: R,
    pub per_worker_throughput: R,
    pub desired_workers: usize,
    pub backlog_seconds: R,
    pub last_sample_processed: u64,
    pub scaling_state: NodeScalingState,
    pub settling: bool,
    pub settle_samples: u32,
    pub settle_observed_work: bool,
    pub scale_down_eligible_since: Option<u128>,
    pub last_anchor_pressure_reason: Option<AnchorPressureReason>,
    pub last_operation: Option<(ScaleDirection, u128)>,
}

/// What is known of a node at first. `zero` is the quantity nothing.
pub open spec fn starting_control<S, A, R>(node: RuntimeNode<S, A, R>, zero: R) -> NodeControl<R> {
    NodeControl {
        is_external: node.is_external,
        is_weighted_branch: node.weighted_branch_config is Some,
        is_anchor: node.is_anchor,
        thread_policy: node.thread_policy,
        processed_count: 0,
        busy_ratio: zero,
        service_time_ewma: zero,
        per_worker_throughput: zero,
        desired_workers: 1,
        backlog_seconds: zero,
        last_sample_processed: 0,
        scaling_state: NodeScalingState::Eligible,
        settling: false,
        settle_samples: 0,
        settle_observed_work: false,
        scale_down_eligible_since: None,
        last_anchor_pressure_reason: None,
        last_operation: None,
    }
}

/// What is known of every node at first.
pub fn build_node_controls<S, A, R: Copy>(nodes: &Vec<RuntimeNode<S, A, R>>, zero: R) -> (r: Vec<
    NodeControl<R>,
>)
    ensures
        r@.len() == nodes@.len(),
        forall|i: int|
            0 <= i < nodes@.len() ==> #[trigger] r@[i] == starting_control(nodes@[i], zero),
{
    let mut controls: Vec<NodeControl<R>> = Vec::new();
    for i in 0..nodes.len()
        invariant
            controls@.len() == i,
            forall|k: int|
                0 <= k < i ==> #[trigger] controls@[k] == starting_control(nodes@[k], zero),
    {
        let node: &RuntimeNode<S, A, R> = &nodes[i];
        controls.push(
            NodeControl {
                is_external: node.is_external,
                is_weighted_branch: node.weighted_branch_config.is_some(),
                is_anchor: node.is_anchor,
                thread_policy: node.thread_policy,
                processed_count: 0,
                busy_ratio: zero,
                service_time_ewma: zero,
                per_worker_throughput: zero,
                desired_workers: 1,
                backlog_seconds: zero,
                last_sample_processed: 0,
                scaling_state: NodeScalingState::Eligible,
                settling: false,
                settle_samples: 0,
                settle_observed_work: false,
                scale_down_eligible_since: None,
                last_anchor_pressure_reason: None,
                last_operation: None,
            },
        );
    }
    controls
}

/// What workers did since the sample before.
#[derive(Clone, Copy, Debug)]
pub struct NodeSample {
    pub process_nanos: u64,
    pub wait_nanos: u64,
    pub processed_items: u64,
}

/// How long the first `n` of these workers processed items.
pub open spec fn process_total(samples: Seq<NodeSample>, n: nat) -> nat
    decreases n,
{
    if n == 0 {
        0
    } else {
        process_total(samples, (n - 1) as nat) + samples[n - 1].process_nanos as nat
    }
}

/// How long the first `n` of these workers waited.
pub open spec fn wait_total(samples: Seq<NodeSample>, n: nat) -> nat
    decreases n,
{
    if n == 0 {
        0
    } else {
        wait_total(samples, (n - 1) as nat) + samples[n - 1].wait_nanos as nat
    }
}

/// How many items the first `n` of these workers processed.
pub open spec fn item_total(samples: Seq<NodeSample>, n: nat) -> nat
    decreases n,
{
    if n == 0 {
        0
    } else {
        item_total(samples, (n - 1) as nat) + samples[n - 1].processed_items as nat
    }
}

proof fn totals_grow(samples: Seq<NodeSample>, m: nat, n: nat)
    requires
        m <= n,
    ensures
        process_total(samples, m) <= process_total(samples, n),
        wait_total(samples, m) <= wait_total(samples, n),
        item_total(samples, m) <= item_total(samples, n),
    decreases n,
{
    if m < n {
        totals_grow(samples, m, (n - 1) as nat);
    }
}

/// What the workers of a node did together.
pub fn sum_samples(samples: &Vec<NodeSample>) -> (r: NodeSample)
    requires
        process_total(samples@, samples@.len()) <= u64::MAX,
        wait_total(samples@, samples@.len()) <= u64::MAX,
        item_total(samples@, samples@.len()) <= u64::MAX,
    ensures
        r.process_nanos == process_total(samples@, samples@.len()),
        r.wait_nanos == wait_total(samples@, samples@.len()),
        r.processed_items == item_total(samples@, samples@.len()),
{
    let mut sum: NodeSample = NodeSample { process_nanos: 0, wait_nanos: 0, processed_items: 0 };
    for i in 0..samples.len()
        invariant
            process_total(samples@, samples@.len()) <= u64::MAX,
            wait_total(samples@, samples@.len()) <= u64::MAX,
            item_total(samples@, samples@.len()) <= u64::MAX,
            sum.process_nanos == process_total(samples@, i as nat),
            sum.wait_nanos == wait_total(samples@, i as nat),
            sum.processed_items == item_total(samples@, i as nat),
    {
        proof {
            totals_grow(samples@, (i + 1) as nat, samples@.len());
        }
        sum.process_nanos = sum.process_nanos + samples[i].process_nanos;
        sum.wait_nanos = sum.wait_nanos + samples[i].wait_nanos;
        sum.processed_items = sum.processed_items + samples[i].processed_items;
    }
    sum
}

/// What follows for a node from a sample: each quantity as it is once the sample counts.
#[derive(Clone, Copy, Debug)]
pub struct NodeMeasures<R> {
    pub busy_ratio: R,
    pub service_time_ewma: R,
    pub per_worker_throughput: R,
    pub backlog_seconds: R,
    /// Whether little waits for the node while its workers are seldom busy.
    pub underutilized: bool,
}

/// The sum of two counts, or the largest count where that is less.
pub open spec fn capped_sum(a: u64, b: u64) -> u64 {
    if a + b <= u64::MAX {
        (a + b) as u64
    } else {
        u64::MAX
    }
}

impl<R: Copy> NodeControl<R> {
    /// Whether a node that settles has done so once this many items were processed in one more
    /// sample.
    pub open spec fn settles(self, items: u64) -> bool {
        self.settling && self.settle_samples + 1 >= SETTLE_SAMPLES && (self.settle_observed_work
            || items > 0)
    }

    /// What is remembered of the node after a sample that ended at `now`.
    pub open spec fn sampled(self, sample: NodeSample, measures: NodeMeasures<R>, now: u128) -> Self {
        let scalable = self.thread_policy is Scalable;
        let timed = sample.process_nanos > 0 || sample.wait_nanos > 0;
        let served = sample.processed_items > 0 && sample.process_nanos > 0;
        NodeControl {
            last_sample_processed: sample.processed_items,
            processed_count: capped_sum(self.processed_count, sample.processed_items),
            busy_ratio: if timed {
                measures.busy_ratio
            } else {
                self.busy_ratio
            },
            service_time_ewma: if served {
                measures.service_time_ewma
            } else {
                self.service_time_ewma
            },
            per_worker_throughput: if served {
                measures.per_worker_throughput
            } else {
                self.per_worker_throughput
            },
            settle_samples: if self.settling && self.settle_samples < u32::MAX {
                (self.settle_samples + 1) as u32
            } else {
                self.settle_samples
            },
            settle_observed_work: self.settle_observed_work || self.settling
                && sample.processed_items > 0,
            settling: self.settling && !self.settles(sample.processed_items),
            scaling_state: if self.settles(sample.processed_items) {
                NodeScalingState::Eligible
            } else {
                self.scaling_state
            },
            backlog_seconds: if scalable {
                measures.backlog_seconds
            } else {
                self.backlog_seconds
            },
            scale_down_eligible_since: if !scalable {
                self.scale_down_eligible_since
            } else if !measures.underutilized {
                None
            } else if self.scale_down_eligible_since is Some {
                self.scale_down_eligible_since
            } else {
                Some(now)
            },
            ..self
        }
    }

    /// Takes in a sample that ended at `now`.
    pub fn take_sample(&mut self, sample: &NodeSample, measures: &NodeMeasures<R>, now: u128)
        ensures
            *final(self) == old(self).sampled(*sample, *measures, now),
    {
        self.last_sample_processed = sample.processed_items;
        self.processed_count = self.processed_count.saturating_add(sample.processed_items);
        if sample.process_nanos > 0 || sample.wait_nanos > 0 {
            self.busy_ratio = measures.busy_ratio;
        }
        if sample.processed_items > 0 && sample.process_nanos > 0 {
            self.service_time_ewma = measures.service_time_ewma;
            self.per_worker_throughput = measures.per_worker_throughput;
        }
        if self.settling {
            self.settle_samples = self.settle_samples.saturating_add(1);
            self.settle_observed_work = self.settle_observed_work || sample.processed_items > 0;
            if self.settle_samples >= SETTLE_SAMPLES && self.settle_observed_work {
                self.settling = false;
                self.scaling_state = NodeScalingState::Eligible;
            }
        }
        if let ResolvedThreadPolicy::Scalable(_) = self.thread_policy {
            self.backlog_seconds = measures.backlog_seconds;
            if measures.underutilized {
                if self.scale_down_eligible_since.is_none() {
                    self.scale_down_eligible_since = Some(now);
                }
            } else {
                self.scale_down_eligible_since = None;
            }
        }
    }

    /// What is remembered of the node once its number of workers was changed.
    pub open spec fn after_operation(self, direction: ScaleDirection, now: u128) -> Self {
        NodeControl {
            last_operation: Some((direction, now)),
            settling: true,
            settle_samples: 0,
            settle_observed_work: false,
            scaling_state: NodeScalingState::Settling,
            ..self
        }
    }

    /// Notes a change of the number of workers.
    pub fn record_operation(&mut self, direction: ScaleDirection, now: u128)
        ensures
            *final(self) == old(self).after_operation(direction, now),
    {
        self.last_operation = Some((direction, now));
        self.settling = true;
        self.settle_samples = 0;
        self.settle_observed_work = false;
        self.scaling_state = NodeScalingState::Settling;
    }
}

/// Takes a sample of every node.
pub fn collect_node_samples<R: Copy>(
    samples: &Vec<NodeSample>,
    measures: &Vec<NodeMeasures<R>>,
    controls: &mut Vec<NodeControl<R>>,
    now: u128,
)
    requires
        samples@.len() == measures@.len(),
        samples@.len() <= old(controls)@.len(),
    ensures
        final(controls)@.len() == old(controls)@.len(),
        forall|i: int|
            0 <= i < samples@.len() ==> #[trigger] final(controls)@[i] == old(controls)@[i].sampled(
                samples@[i],
                measures@[i],
                now,
            ),
        forall|i: int|
            samples@.len() <= i < old(controls)@.len() ==> #[trigger] final(controls)@[i] == old(
                controls,
            )@[i],
{
    for i in 0..samples.len()
        invariant
            samples@.len() == measures@.len(),
            samples@.len() <= controls@.len(),
            controls@.len() == old(controls)@.len(),
            forall|k: int|
                0 <= k < i ==> #[trigger] controls@[k] == old(controls)@[k].sampled(
                    samples@[k],
                    measures@[k],
                    now,
                ),
            forall|k: int|
                i <= k < controls@.len() ==> #[trigger] controls@[k] == old(controls)@[k],
    {
        let mut control: NodeControl<R> = controls[i];
        control.take_sample(&samples[i], &measures[i], now);
        controls.set(i, control);
    }
}

/// How many workers a node would need, as far as that is measured.
#[derive(Clone, Copy, Debug)]
pub struct NodeDemand<R> {
    /// Whether it is known how much one worker gets done. Where it is not, the rest of what is
    /// here is not used.
    pub measured: bool,
    /// How long what waits will take.
    pub backlog_seconds: R,
    /// How many workers keep up with what arrives.
    pub for_arrivals: usize,
    /// How many workers get what waits done in the time that the policy names.
    pub for_backlog: usize,
    /// How many workers keep up with what arrives and, where the queue grows, catch up with what
    /// waits.
    pub for_support: usize,
}

/// `n`, or the nearest number from 1 to `max`.
pub open spec fn within(n: int, max: usize) -> int {
    if n < 1 {
        1
    } else if n > max {
        max as int
    } else {
        n
    }
}

fn clamp_count(n: usize, max: usize) -> (r: usize)
    requires
        max >= 1,
    ensures
        r == within(n as int, max),
{
    if n < 1 {
        1
    } else if n > max {
        max
    } else {
        n
    }
}

/// One more than `n`, or the largest count where that is less.
pub open spec fn one_more(n: int) -> int {
    if n < usize::MAX {
        n + 1
    } else {
        usize::MAX as int
    }
}

impl<R: Copy> NodeControl<R> {
    /// How many workers the node should have; `active` is how many it has, and `growing` tells
    /// whether what waits for it grows.
    pub open spec fn desired(self, active: nat, growing: bool, demand: NodeDemand<R>) -> int {
        let present = larger(active as int, 1);
        if self.is_external {
            0
        } else if self.is_weighted_branch {
            1
        } else {
            match self.thread_policy {
                ResolvedThreadPolicy::Fixed(count) => count as int,
                ResolvedThreadPolicy::Scalable(policy) => if demand.measured {
                    within(
                        larger(demand.for_arrivals as int, demand.for_backlog as int),
                        policy.max_threads,
                    )
                } else if growing {
                    within(one_more(present), policy.max_threads)
                } else {
                    present
                },
                ResolvedThreadPolicy::ImplicitSupport => if demand.measured {
                    larger(demand.for_support as int, 1)
                } else if growing {
                    one_more(present)
                } else {
                    present
                },
            }
        }
    }

    /// Whether a measured demand also tells how long what waits will take.
    pub open spec fn takes_backlog(self, demand: NodeDemand<R>) -> bool {
        !self.is_external && !self.is_weighted_branch && self.thread_policy is Scalable
            && demand.measured
    }

    /// What is remembered of the node once it is known how many workers it should have.
    pub open spec fn demanding(self, active: nat, growing: bool, demand: NodeDemand<R>) -> Self {
        NodeControl {
            desired_workers: self.desired(active, growing, demand) as usize,
            backlog_seconds: if self.takes_backlog(demand) {
                demand.backlog_seconds
            } else {
                self.backlog_seconds
            },
            ..self
        }
    }

    fn take_demand(&mut self, active: usize, growing: bool, demand: &NodeDemand<R>)
        requires
            old(self).thread_policy.wf(),
        ensures
            *final(self) == old(self).demanding(active as nat, growing, *demand),
    {
        if self.is_external {
            self.desired_workers = 0;
            return ;
        }
        if self.is_weighted_branch {
            self.desired_workers = 1;
            return ;
        }
        let present: usize = max_of(active, 1);
        match self.thread_policy {
            ResolvedThreadPolicy::Fixed(count) => {
                self.desired_workers = count;
            },
            ResolvedThreadPolicy::Scalable(policy) => {
                if demand.measured {
                    self.backlog_seconds = demand.backlog_seconds;
                    self.desired_workers =
                    clamp_count(
                        max_of(demand.for_arrivals, demand.for_backlog),
                        policy.max_threads,
                    );
                } else if growing {
                    self.desired_workers = clamp_count(present.saturating_add(1), policy.max_threads);
                } else {
                    self.desired_workers = present;
                }
            },
            ResolvedThreadPolicy::ImplicitSupport => {
                if demand.measured {
                    self.desired_workers = max_of(demand.for_support, 1);
                } else if growing {
                    self.desired_workers = present.saturating_add(1);
                } else {
                    self.desired_workers = present;
                }
            },
        }
    }
}

/// Decides how many workers every node should have.
pub fn update_desired_workers<S, A, R: Copy>(
    links: &Vec<LinkControl<R>>,
    active_by_node: &Vec<Vec<usize>>,
    nodes: &Vec<RuntimeNode<S, A, R>>,
    demands: &Vec<NodeDemand<R>>,
    controls: &mut Vec<NodeControl<R>>,
)
    requires
        old(controls)@.len() <= active_by_node@.len(),
        old(controls)@.len() <= nodes@.len(),
        old(controls)@.len() <= demands@.len(),
        forall|i: int|
            0 <= i < old(controls)@.len() ==> (#[trigger] nodes@[i]).input_link < links@.len(),
        forall|i: int|
            0 <= i < old(controls)@.len() ==> (#[trigger] old(controls)@[i]).thread_policy.wf(),
    ensures
        final(controls)@.len() == old(controls)@.len(),
        forall|i: int|
            0 <= i < old(controls)@.len() ==> #[trigger] final(controls)@[i] == old(
                controls,
            )@[i].demanding(
                active_by_node@[i]@.len(),
                links@[nodes@[i].input_link as int].trend.grows(),
                demands@[i],
            ),
{
    let count: usize = controls.len();
    for i in 0..count
        invariant
            controls@.len() == count,
            count == old(controls)@.len(),
            count <= active_by_node@.len(),
            count <= nodes@.len(),
            count <= demands@.len(),
            forall|i: int| 0 <= i < count ==> (#[trigger] nodes@[i]).input_link < links@.len(),
            forall|i: int| 0 <= i < count ==> (#[trigger] old(controls)@[i]).thread_policy.wf(),
            forall|k: int|
                0 <= k < i ==> #[trigger] controls@[k] == old(controls)@[k].demanding(
                    active_by_node@[k]@.len(),
                    links@[nodes@[k].input_link as int].trend.grows(),
                    demands@[k],
                ),
            forall|k: int| i <= k < count ==> #[trigger] controls@[k] == old(controls)@[k],
    {
        let mut control: NodeControl<R> = controls[i];
        let growing: bool = links[nodes[i].input_link].trend.is_growing();
        assert(control == old(controls)@[i as int]);
        control.take_demand(active_by_node[i].len(), growing, &demands[i]);
        controls.set(i, control);
    }
}

/// The number of workers that a node should have keeps to its policy: as many as are fixed, none
/// where it is run from outside, one where it is a branch, and otherwise at least one; and where
/// the node scales by a policy of its own and its demand is measured, or what waits for it grows,
/// at most as many as the policy allows.
pub proof fn desired_keeps_policy<R: Copy>(
    control: NodeControl<R>,
    active: nat,
    growing: bool,
    demand: NodeDemand<R>,
)
    requires
        control.thread_policy.wf(),
        active <= usize::MAX,
    ensures
        ({
            let wanted = control.demanding(active, growing, demand).desired_workers;
            &&& wanted == control.desired(active, growing, demand)
            &&& control.is_external ==> wanted == 0
            &&& !control.is_external && control.is_weighted_branch ==> wanted == 1
            &&& !control.is_external ==> wanted >= 1
            &&& !control.is_external && !control.is_weighted_branch ==> {
                &&& control.thread_policy matches ResolvedThreadPolicy::Fixed(count) ==> wanted
                    == count
                &&& control.thread_policy matches ResolvedThreadPolicy::Scalable(policy)
                    ==> demand.measured || growing ==> wanted <= policy.max_threads
            }
        }),
{
}

/// A node whose number of workers was just changed may be changed again after as many samples as
/// it takes to settle, provided that an item was processed in one of them, and not before.
pub proof fn settling_takes_two_samples<R: Copy>(
    control: NodeControl<R>,
    direction: ScaleDirection,
    first: NodeSample,
    second: NodeSample,
    measures: NodeMeasures<R>,
    now: u128,
)
    ensures
        ({
            let changed = control.after_operation(direction, now);
            let once = changed.sampled(first, measures, now);
            let twice = once.sampled(second, measures, now);
            &&& changed.settling && once.settling
            &&& once.scaling_state == NodeScalingState::Settling
            &&& twice.settling <==> first.processed_items == 0 && second.processed_items == 0
            &&& !twice.settling ==> twice.scaling_state == NodeScalingState::Eligible
        }),
{
}

} // verus!
