//! What a snapshot shows of a pipeline.

use crate::control::{LinkControl, NodeControl};
use crate::laws::scaling::{rising, total_counts_the_lists, workforce};
use crate::observe::{
    anchor_controls, anchor_nodes, initial_snapshot, positions, update_snapshot, PipelineStatus,
};
use crate::plan::RuntimeNode;
use crate::policy::{NodeThreadPolicyKind, ResolvedThreadPolicy};
use crate::snapshot::{AnchorSnapshot, NodeScalingState, NodeSnapshot, PiperSnapshot, QueueTrend};
use vstd::prelude::*;

verus! {

/// Whether these are all the numbers below `n` of which `p` holds, in rising order.
spec fn picks(chosen: Seq<int>, p: spec_fn(int) -> bool, n: int) -> bool {
    &&& forall|k: int| 0 <= k < chosen.len() ==> 0 <= #[trigger] chosen[k] < n && p(chosen[k])
    &&& forall|a: int, b: int| 0 <= a < b < chosen.len() ==> chosen[a] < chosen[b]
    &&& forall|i: int| 0 <= i < n && #[trigger] p(i) ==> chosen.contains(i)
}

/// Whether these are all the anchors, in the order of their nodes: those of the first `n` nodes of which
/// `p` holds.
pub open spec fn lists_anchors(
    anchors: Seq<AnchorSnapshot>,
    p: spec_fn(int) -> bool,
    n: int,
) -> bool {
    &&& forall|k: int|
        0 <= k < anchors.len() ==> (#[trigger] anchors[k]).node_index < n && p(
            anchors[k].node_index as int,
        )
    &&& forall|a: int, b: int|
        0 <= a < b < anchors.len() ==> anchors[a].node_index < anchors[b].node_index
    &&& forall|i: int|
        0 <= i < n && #[trigger] p(i) ==> exists|k: int|
            0 <= k < anchors.len() && (#[trigger] anchors[k]).node_index == i
}

proof fn anchors_are_listed(
    anchors: Seq<AnchorSnapshot>,
    chosen: Seq<int>,
    p: spec_fn(int) -> bool,
    n: int,
)
    requires
        picks(chosen, p, n),
        anchors.len() == chosen.len(),
        forall|k: int| 0 <= k < chosen.len() ==> (#[trigger] anchors[k]).node_index == chosen[k],
    ensures
        lists_anchors(anchors, p, n),
{
    assert forall|k: int| 0 <= k < anchors.len() implies (#[trigger] anchors[k]).node_index < n && p(
        anchors[k].node_index as int,
    ) by {
        assert(0 <= chosen[k] < n && p(chosen[k]));
    }
    assert forall|i: int| 0 <= i < n && #[trigger] p(i) implies exists|k: int|
        0 <= k < anchors.len() && (#[trigger] anchors[k]).node_index == i by {
        let k = choose|k: int| 0 <= k < chosen.len() && chosen[k] == i;
        assert(anchors[k].node_index == i);
    }
}

proof fn positions_pick(p: spec_fn(int) -> bool, n: nat)
    ensures
        picks(positions(p, n), p, n as int),
    decreases n,
{
    if n > 0 {
        positions_pick(p, (n - 1) as nat);
        let before = positions(p, (n - 1) as nat);
        let all = positions(p, n);
        assert forall|i: int| 0 <= i < n && #[trigger] p(i) implies all.contains(i) by {
            if i < n - 1 {
                let k = choose|k: int| 0 <= k < before.len() && before[k] == i;
                assert(all[k] == i);
            } else {
                assert(all[all.len() - 1] == i);
            }
        }
    }
}

/// Whether what is shown of the thread policy is what the policy says.
pub open spec fn policy_shown<R, D>(shown: NodeSnapshot<R, D>, policy: ResolvedThreadPolicy<R>) -> bool {
    &&& policy matches ResolvedThreadPolicy::Fixed(count) ==> shown.thread_policy_kind
        == NodeThreadPolicyKind::Fixed && shown.fixed_thread_count == Some(count)
    &&& policy matches ResolvedThreadPolicy::Scalable(scale) ==> shown.thread_policy_kind
        == NodeThreadPolicyKind::Scalable && shown.max_thread_count == Some(scale.max_threads)
        && shown.target_queue_seconds == Some(scale.target_queue_seconds) && shown.low_queue_seconds
        == Some(scale.low_queue_seconds)
    &&& policy is ImplicitSupport ==> shown.thread_policy_kind
        == NodeThreadPolicyKind::ImplicitSupport
    &&& !(policy is Fixed) ==> shown.fixed_thread_count is None
    &&& !(policy is Scalable) ==> shown.max_thread_count is None && shown.target_queue_seconds is None
        && shown.low_queue_seconds is None
}

/// Whether the node is shown with its place in the pipeline.
pub open spec fn place_shown<S, A, R, D>(
    shown: NodeSnapshot<R, D>,
    i: int,
    node: RuntimeNode<S, A, R>,
) -> bool {
    &&& shown.index == i
    &&& shown.name@ == node.name@
    &&& shown.input_link == node.input_link
    &&& shown.output_link == node.output_links@[0]
    &&& shown.output_links@ == node.output_links@
    &&& shown.is_external == node.is_external
}

/// A pipeline that has not done anything shows its links and nodes in order, with nothing done.
pub proof fn start_is_shown<S, A, R: Copy, D: Copy>(
    nodes: &Vec<RuntimeNode<S, A, R>>,
    link_count: usize,
    global_worker_cap: usize,
    zero: R,
    no_time: D,
    r: PiperSnapshot<R, D>,
)
    requires
        call_ensures(
            initial_snapshot::<S, A, R, D>,
            (nodes, link_count, global_worker_cap, zero, no_time),
            r,
        ),
    ensures
        r.links@.len() == link_count,
        forall|i: int|
            0 <= i < link_count ==> {
                let shown = #[trigger] r.links@[i];
                &&& shown.index == i
                &&& shown.len == 0
                &&& shown.trend == QueueTrend::Starved
                &&& shown.arrival_rate == zero && shown.drain_rate == zero && shown.net_rate == zero
                    && shown.smoothed_len == zero
            },
        r.nodes@.len() == nodes@.len(),
        forall|i: int|
            0 <= i < nodes@.len() ==> {
                let shown = #[trigger] r.nodes@[i];
                &&& place_shown(shown, i, nodes@[i])
                &&& policy_shown(shown, nodes@[i].thread_policy)
                &&& shown.is_anchor == nodes@[i].is_anchor
                &&& shown.active_threads == 0 && shown.processed_count == 0 && shown.desired_workers
                    == 1
                &&& shown.busy_ratio == zero && shown.per_worker_throughput == zero
                    && shown.backlog_seconds == zero && shown.external_input_rate == zero
                    && shown.external_output_rate == zero
                &&& shown.service_time == no_time
                &&& shown.scaling_state == NodeScalingState::Eligible
            },
        lists_anchors(r.anchors@, |i: int| nodes@[i].is_anchor, nodes@.len() as int),
        forall|k: int|
            0 <= k < r.anchors@.len() ==> {
                let shown = #[trigger] r.anchors@[k];
                &&& shown.node_name@ == nodes@[shown.node_index as int].name@
                &&& shown.active_threads == 0
                &&& shown.last_pressure_reason is None
            },
        r.parked_threads == 0 && r.total_active_workers == 0,
        r.global_worker_cap == global_worker_cap,
        !r.budget_pressure && !r.output_backpressure,
        !r.shutdown_requested && !r.abort_requested && !r.pending_scale_operation,
{
    let chosen = positions(anchor_nodes(nodes@), nodes@.len());
    positions_pick(anchor_nodes(nodes@), nodes@.len());
    anchors_are_listed(r.anchors@, chosen, |i: int| nodes@[i].is_anchor, nodes@.len() as int);
}

/// A snapshot shows, in order, what is known of each link and each node, the anchors among the nodes,
/// how many workers are active, whether there may be more, and whether the end of the pipeline fills up.
pub proof fn pipeline_is_shown<S, A, R: Copy, D: Copy>(
    queue_lens: &Vec<Option<usize>>,
    nodes: &Vec<RuntimeNode<S, A, R>>,
    active_by_node: &Vec<Vec<usize>>,
    link_controls: &Vec<LinkControl<R>>,
    controls: &Vec<NodeControl<R>>,
    service_times: &Vec<D>,
    output_link: usize,
    status: PipelineStatus,
    zero: R,
    r: PiperSnapshot<R, D>,
)
    requires
        call_ensures(
            update_snapshot::<S, A, R, D>,
            (
                queue_lens,
                nodes,
                active_by_node,
                link_controls,
                controls,
                service_times,
                output_link,
                status,
                zero,
            ),
            r,
        ),
    ensures
        r.links@.len() == link_controls@.len(),
        forall|i: int|
            0 <= i < link_controls@.len() ==> {
                let shown = #[trigger] r.links@[i];
                &&& shown.index == i
                &&& queue_lens@[i] is Some ==> shown.len == queue_lens@[i]->0
                &&& queue_lens@[i] is None ==> shown.len == 0
                &&& shown.trend == link_controls@[i].trend
                &&& shown.arrival_rate == link_controls@[i].arrival_rate
                &&& shown.drain_rate == link_controls@[i].drain_rate
                &&& shown.net_rate == link_controls@[i].net_rate
                &&& shown.smoothed_len == link_controls@[i].smoothed_len
            },
        r.nodes@.len() == nodes@.len(),
        forall|i: int|
            0 <= i < nodes@.len() ==> {
                let shown = #[trigger] r.nodes@[i];
                let control = controls@[i];
                let active = active_by_node@[i]@.len();
                &&& place_shown(shown, i, nodes@[i])
                &&& policy_shown(shown, control.thread_policy)
                &&& shown.is_anchor == control.is_anchor
                &&& active >= 1 || !control.is_weighted_branch ==> shown.active_threads == active
                &&& active == 0 && control.is_weighted_branch ==> shown.active_threads == 1
                &&& control.is_weighted_branch ==> shown.desired_workers == 1
                &&& !control.is_weighted_branch ==> shown.desired_workers == control.desired_workers
                &&& shown.processed_count == control.processed_count
                &&& shown.busy_ratio == control.busy_ratio
                &&& shown.service_time == service_times@[i]
                &&& shown.per_worker_throughput == control.per_worker_throughput
                &&& shown.scaling_state == control.scaling_state
                &&& shown.backlog_seconds == control.backlog_seconds
                &&& nodes@[i].is_external ==> shown.external_input_rate
                    == link_controls@[nodes@[i].input_link as int].drain_rate
                    && shown.external_output_rate
                    == link_controls@[nodes@[i].output_links@[0] as int].arrival_rate
                &&& !nodes@[i].is_external ==> shown.external_input_rate == zero
                    && shown.external_output_rate == zero
            },
        lists_anchors(r.anchors@, |i: int| controls@[i].is_anchor, controls@.len() as int),
        forall|k: int|
            0 <= k < r.anchors@.len() ==> {
                let shown = #[trigger] r.anchors@[k];
                let i = shown.node_index as int;
                &&& shown.node_name@ == nodes@[i].name@
                &&& shown.active_threads == active_by_node@[i]@.len()
                &&& shown.last_pressure_reason == controls@[i].last_anchor_pressure_reason
            },
        r.parked_threads == status.parked_threads,
        r.total_active_workers == workforce(active_by_node@).len(),
        r.global_worker_cap == status.global_worker_cap,
        r.budget_pressure <==> workforce(active_by_node@).len() >= status.global_worker_cap,
        r.output_backpressure <==> rising(link_controls@[output_link as int].trend),
        r.shutdown_requested == status.shutdown_requested,
        r.abort_requested == status.abort_requested,
        r.pending_scale_operation == status.pending_scale_operation,
{
    total_counts_the_lists(active_by_node@);
    let chosen = positions(anchor_controls(controls@), controls@.len());
    positions_pick(anchor_controls(controls@), controls@.len());
    anchors_are_listed(r.anchors@, chosen, |i: int| controls@[i].is_anchor, controls@.len() as int);
}

/// Trends are numbered from the most empty to the fullest; those below stable drain, and those above
/// it grow.
pub proof fn trends_are_told_apart(trend: QueueTrend, code: u8, draining: bool, growing: bool)
    requires
        call_ensures(QueueTrend::code, (trend,), code),
        call_ensures(QueueTrend::is_draining, (trend,), draining),
        call_ensures(QueueTrend::is_growing, (trend,), growing),
    ensures
        code == match trend {
            QueueTrend::Starved => 0u8,
            QueueTrend::FastDraining => 1,
            QueueTrend::Draining => 2,
            QueueTrend::Stable => 3,
            QueueTrend::Growing => 4,
            QueueTrend::FastGrowing => 5,
            QueueTrend::Runaway => 6,
        },
        draining <==> code <= 2,
        growing <==> code >= 4,
{
}

} // verus!
