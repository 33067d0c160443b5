//! What a running pipeline shows of itself.
//!
//! `R` is the type of measured quantities (rates, ratios, seconds) and `D` that of time spans.

use crate::policy::NodeThreadPolicyKind;
use vstd::prelude::*;

verus! {

/// How the length of a queue develops.
#[derive(Clone, Copy, Debug, PartialEq, Eq, Structural)]
pub enum QueueTrend {
    Starved,
    FastDraining,
    Draining,
    Stable,
    Growing,
    FastGrowing,
    Runaway,
}

impl QueueTrend {
    /// The number that stands for the trend: from 0, starved, to 6, running away.
    pub open spec fn number(self) -> u8 {
        match self {
            QueueTrend::Starved => 0,
            QueueTrend::FastDraining => 1,
            QueueTrend::Draining => 2,
            QueueTrend::Stable => 3,
            QueueTrend::Growing => 4,
            QueueTrend::FastGrowing => 5,
            QueueTrend::Runaway => 6,
        }
    }

    /// Whether the queue is empty or gets shorter.
    pub open spec fn drains(self) -> bool {
        self is Starved || self is FastDraining || self is Draining
    }

    /// Whether the queue gets longer.
    pub open spec fn grows(self) -> bool {
        self is Growing || self is FastGrowing || self is Runaway
    }

    /// The number that stands for the trend.
    pub fn code(self) -> (r: u8)
        ensures
            r == self.number(),
    {
        match self {
            QueueTrend::Starved => 0,
            QueueTrend::FastDraining => 1,
            QueueTrend::Draining => 2,
            QueueTrend::Stable => 3,
            QueueTrend::Growing => 4,
            QueueTrend::FastGrowing => 5,
            QueueTrend::Runaway => 6,
        }
    }

    /// Whether the queue is empty or gets shorter.
    pub fn is_draining(self) -> (r: bool)
        ensures
            r == self.drains(),
    {
        matches!(self, QueueTrend::Starved | QueueTrend::FastDraining | QueueTrend::Draining)
    }

    /// Whether the queue gets longer.
    pub fn is_growing(self) -> (r: bool)
        ensures
            r == self.grows(),
    {
        matches!(self, QueueTrend::Growing | QueueTrend::FastGrowing | QueueTrend::Runaway)
    }
}

/// Different trends have different numbers, and the numbers rise from draining over stable to
/// growing: a trend drains if and only if it comes before stable, and grows if and only if it
/// comes after it.
pub proof fn trend_numbers(a: QueueTrend, b: QueueTrend)
    ensures
        a.number() == b.number() ==> a == b,
        a.drains() <==> a.number() < QueueTrend::Stable.number(),
        a.grows() <==> a.number() > QueueTrend::Stable.number(),
{
}

/// What a link holds and how that develops.
#[derive(Clone, Debug)]
pub struct LinkSnapshot<R> {
    pub index: usize,
    pub len: usize,
    pub trend: QueueTrend,
    pub arrival_rate: R,
    pub drain_rate: R,
    pub net_rate: R,
    pub smoothed_len: R,
}

/// Where a node is between two changes of its number of workers.
#[derive(Clone, Copy, Debug, PartialEq, Eq, Structural)]
pub enum NodeScalingState {
    Eligible,
    Merging,
    Settling,
    BackingOff,
}

/// Why an anchor could not be given what it asks for.
#[derive(Clone, Copy, Debug, PartialEq, Eq, Structural)]
pub enum AnchorPressureReason {
    InputUnderfed,
    OutputBackpressure,
    BudgetPressure,
}

/// What a node does.
#[derive(Clone, Debug)]
pub struct NodeSnapshot<R, D> {
    pub index: usize,
    pub name: String,
    pub input_link: usize,
    pub output_link: usize,
    pub output_links: Vec<usize>,
    pub active_threads: usize,
    pub processed_count: u64,
    pub busy_ratio: R,
    pub service_time: D,
    pub per_worker_throughput: R,
    pub desired_workers: usize,
    pub scaling_state: NodeScalingState,
    pub is_anchor: bool,
    pub thread_policy_kind: NodeThreadPolicyKind,
    pub fixed_thread_count: Option<usize>,
    pub max_thread_count: Option<usize>,
    pub target_queue_seconds: Option<R>,
    pub low_queue_seconds: Option<R>,
    pub backlog_seconds: R,
    pub is_external: bool,
    pub external_input_rate: R,
    pub external_output_rate: R,
}

/// What an anchor does.
#[derive(Clone, Debug)]
pub struct AnchorSnapshot {
    pub node_index: usize,
    pub node_name: String,
    pub active_threads: usize,
    pub last_pressure_reason: Option<AnchorPressureReason>,
}

/// What the whole pipeline does.
#[derive(Clone, Debug)]
pub struct PiperSnapshot<R, D> {
    pub links: Vec<LinkSnapshot<R>>,
    pub nodes: Vec<NodeSnapshot<R, D>>,
    pub anchors: Vec<AnchorSnapshot>,
    pub parked_threads: usize,
    pub total_active_workers: usize,
    pub global_worker_cap: usize,
    pub budget_pressure: bool,
    pub output_backpressure: bool,
    pub shutdown_requested: bool,
    pub abort_requested: bool,
    pub pending_scale_operation: bool,
}

/// Whether every link and every node has its position for its number.
pub open spec fn is_numbered<R, D>(snapshot: PiperSnapshot<R, D>) -> bool {
    &&& snapshot.links@.len() <= usize::MAX
    &&& snapshot.nodes@.len() <= usize::MAX
    &&& snapshot.anchors@.len() <= usize::MAX
    &&& forall|i: int|
        0 <= i < snapshot.links@.len() ==> (#[trigger] snapshot.links@[i]).index == i
    &&& forall|i: int|
        0 <= i < snapshot.nodes@.len() ==> (#[trigger] snapshot.nodes@[i]).index == i
}

} // verus!
