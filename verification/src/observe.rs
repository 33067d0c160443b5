//! Snapshots of a pipeline, from what the supervisor remembers.

use crate::control::{known_len, queue_len_or_zero, LinkControl, NodeControl};
use crate::plan::RuntimeNode;
use crate::policy::{
    fixed_thread_count, larger, low_queue_seconds, max_of, max_thread_count, target_queue_seconds,
    thread_policy_kind, NodeThreadPolicyKind, ResolvedThreadPolicy,
};
use crate::scaling::{active_total, active_worker_count};
use crate::snapshot::{
    is_numbered, AnchorPressureReason, AnchorSnapshot, LinkSnapshot, NodeScalingState, NodeSnapshot,
    PiperSnapshot, QueueTrend,
};
use vstd::prelude::*;

verus! {

/// The numbers below `n` of which `p` holds, in rising order.
pub open spec fn positions(p: spec_fn(int) -> bool, n: nat) -> Seq<int>
    decreases n,
{
    if n == 0 {
        Seq::empty()
    } else {
        let before = positions(p, (n - 1) as nat);
        if p(n - 1) {
            before.push(n - 1)
        } else {
            before
        }
    }
}

/// The nodes that are anchors.
pub open spec fn anchor_nodes<S, A, R>(nodes: Seq<RuntimeNode<S, A, R>>) -> spec_fn(int) -> bool {
    |i: int| nodes[i].is_anchor
}

/// The controls that are those of anchors.
pub open spec fn anchor_controls<R>(controls: Seq<NodeControl<R>>) -> spec_fn(int) -> bool {
    |i: int| controls[i].is_anchor
}

fn copy_links(links: &Vec<usize>) -> (r: Vec<usize>)
    ensures
        r@ == links@,
{
    let mut copy: Vec<usize> = Vec::new();
    for i in 0..links.len()
        invariant
            copy@ == links@.take(i as int),
    {
        copy.push(links[i]);
        assert(links@.take(i + 1).drop_last() == links@.take(i as int));
    }
    assert(links@.take(links@.len() as int) == links@);
    copy
}

/// Whether the snapshot shows a node that has not done anything.
pub open spec fn shows_new_node<S, A, R, D>(
    shown: NodeSnapshot<R, D>,
    i: int,
    node: RuntimeNode<S, A, R>,
    zero: R,
    no_time: D,
) -> bool {
    &&& shown.index == i
    &&& shown.name@ == node.name@
    &&& shown.input_link == node.input_link
    &&& shown.output_link == node.output_links@[0]
    &&& shown.output_links@ == node.output_links@
    &&& shown.active_threads == 0
    &&& shown.processed_count == 0
    &&& shown.busy_ratio == zero
    &&& shown.service_time == no_time
    &&& shown.per_worker_throughput == zero
    &&& shown.desired_workers == 1
    &&& shown.scaling_state == NodeScalingState::Eligible
    &&& shown.is_anchor == node.is_anchor
    &&& shows_policy(shown, node.thread_policy)
    &&& shown.backlog_seconds == zero
    &&& shown.is_external == node.is_external
    &&& shown.external_input_rate == zero
    &&& shown.external_output_rate == zero
}

/// Whether the snapshot shows a node with that thread policy.
pub open spec fn shows_policy<R, D>(shown: NodeSnapshot<R, D>, policy: ResolvedThreadPolicy<R>) -> bool {
    match policy {
        ResolvedThreadPolicy::Fixed(count) => {
            &&& shown.thread_policy_kind == NodeThreadPolicyKind::Fixed
            &&& shown.fixed_thread_count == Some(count)
            &&& shown.max_thread_count is None
            &&& shown.target_queue_seconds is None
            &&& shown.low_queue_seconds is None
        },
        ResolvedThreadPolicy::Scalable(scale) => {
            &&& shown.thread_policy_kind == NodeThreadPolicyKind::Scalable
            &&& shown.fixed_thread_count is None
            &&& shown.max_thread_count == Some(scale.max_threads)
            &&& shown.target_queue_seconds == Some(scale.target_queue_seconds)
            &&& shown.low_queue_seconds == Some(scale.low_queue_seconds)
        },
        ResolvedThreadPolicy::ImplicitSupport => {
            &&& shown.thread_policy_kind == NodeThreadPolicyKind::ImplicitSupport
            &&& shown.fixed_thread_count is None
            &&& shown.max_thread_count is None
            &&& shown.target_queue_seconds is None
            &&& shown.low_queue_seconds is None
        },
    }
}

/// Whether the snapshot shows a pipeline with these nodes that has not done anything.
pub open spec fn shows_start<S, A, R, D>(
    shown: PiperSnapshot<R, D>,
    nodes: Seq<RuntimeNode<S, A, R>>,
    link_count: nat,
    worker_cap: usize,
    zero: R,
    no_time: D,
) -> bool {
    let anchors = positions(anchor_nodes(nodes), nodes.len());
    &&& shown.links@.len() == link_count
    &&& forall|i: int|
        0 <= i < link_count ==> #[trigger] shown.links@[i] == (LinkSnapshot {
            index: i as usize,
            len: 0,
            trend: QueueTrend::Starved,
            arrival_rate: zero,
            drain_rate: zero,
            net_rate: zero,
            smoothed_len: zero,
        })
    &&& shown.nodes@.len() == nodes.len()
    &&& forall|i: int|
        0 <= i < nodes.len() ==> shows_new_node(
            #[trigger] shown.nodes@[i],
            i,
            nodes[i],
            zero,
            no_time,
        )
    &&& shown.anchors@.len() == anchors.len()
    &&& forall|k: int|
        0 <= k < anchors.len() ==> shows_anchor(
            #[trigger] shown.anchors@[k],
            anchors[k],
            nodes[anchors[k]].name@,
            0,
            None,
        )
    &&& shown.parked_threads == 0
    &&& shown.total_active_workers == 0
    &&& shown.global_worker_cap == worker_cap
    &&& !shown.budget_pressure
    &&& !shown.output_backpressure
    &&& !shown.shutdown_requested
    &&& !shown.abort_requested
    &&& !shown.pending_scale_operation
}

/// Whether the snapshot shows an anchor with that name and that many workers.
pub open spec fn shows_anchor(
    shown: AnchorSnapshot,
    i: int,
    name: Seq<char>,
    active: nat,
    reason: Option<AnchorPressureReason>,
) -> bool {
    &&& shown.node_index == i
    &&& shown.node_name@ == name
    &&& shown.active_threads == active
    &&& shown.last_pressure_reason == reason
}

/// The snapshot of a pipeline that has not done anything. `zero` is the quantity nothing, and
/// `no_time` the empty time span.
pub fn initial_snapshot<S, A, R: Copy, D: Copy>(
    nodes: &Vec<RuntimeNode<S, A, R>>,
    link_count: usize,
    global_worker_cap: usize,
    zero: R,
    no_time: D,
) -> (r: PiperSnapshot<R, D>)
    requires
        forall|i: int| 0 <= i < nodes@.len() ==> (#[trigger] nodes@[i]).output_links@.len() >= 1,
    ensures
        shows_start(r, nodes@, link_count as nat, global_worker_cap, zero, no_time),
        is_numbered(r),
{
    let mut links: Vec<LinkSnapshot<R>> = Vec::new();
    for index in 0..link_count
        invariant
            links@.len() == index,
            forall|i: int|
                0 <= i < index ==> #[trigger] links@[i] == (LinkSnapshot {
                    index: i as usize,
                    len: 0,
                    trend: QueueTrend::Starved,
                    arrival_rate: zero,
                    drain_rate: zero,
                    net_rate: zero,
                    smoothed_len: zero,
                }),
    {
        links.push(
            LinkSnapshot {
                index,
                len: 0,
                trend: QueueTrend::Starved,
                arrival_rate: zero,
                drain_rate: zero,
                net_rate: zero,
                smoothed_len: zero,
            },
        );
    }
    let mut shown: Vec<NodeSnapshot<R, D>> = Vec::new();
    let mut anchors: Vec<AnchorSnapshot> = Vec::new();
    let ghost marks = anchor_nodes(nodes@);
    for index in 0..nodes.len()
        invariant
            forall|i: int|
                0 <= i < nodes@.len() ==> (#[trigger] nodes@[i]).output_links@.len() >= 1,
            marks == anchor_nodes(nodes@),
            shown@.len() == index,
            forall|i: int|
                0 <= i < index ==> shows_new_node(
                    #[trigger] shown@[i],
                    i,
                    nodes@[i],
                    zero,
                    no_time,
                ),
            anchors@.len() == positions(marks, index as nat).len(),
            forall|k: int|
                0 <= k < anchors@.len() ==> {
                    let i = positions(marks, index as nat)[k];
                    shows_anchor(#[trigger] anchors@[k], i, nodes@[i].name@, 0, None)
                },
    {
        let node: &RuntimeNode<S, A, R> = &nodes[index];
        shown.push(
            NodeSnapshot {
                index,
                name: node.name.clone(),
                input_link: node.input_link,
                output_link: node.output_links[0],
                output_links: copy_links(&node.output_links),
                active_threads: 0,
                processed_count: 0,
                busy_ratio: zero,
                service_time: no_time,
                per_worker_throughput: zero,
                desired_workers: 1,
                scaling_state: NodeScalingState::Eligible,
                is_anchor: node.is_anchor,
                thread_policy_kind: thread_policy_kind(&node.thread_policy),
                fixed_thread_count: fixed_thread_count(&node.thread_policy),
                max_thread_count: max_thread_count(&node.thread_policy),
                target_queue_seconds: target_queue_seconds(&node.thread_policy),
                low_queue_seconds: low_queue_seconds(&node.thread_policy),
                backlog_seconds: zero,
                is_external: node.is_external,
                external_input_rate: zero,
                external_output_rate: zero,
            },
        );
        assert(marks(index as int) == node.is_anchor);
        if node.is_anchor {
            anchors.push(
                AnchorSnapshot {
                    node_index: index,
                    node_name: node.name.clone(),
                    active_threads: 0,
                    last_pressure_reason: None,
                },
            );
        }
    }
    assert(links@.len() == links.len() && shown@.len() == shown.len());
    assert(anchors@.len() == anchors.len());
    PiperSnapshot {
        links,
        nodes: shown,
        anchors,
        parked_threads: 0,
        total_active_workers: 0,
        global_worker_cap,
        budget_pressure: false,
        output_backpressure: false,
        shutdown_requested: false,
        abort_requested: false,
        pending_scale_operation: false,
    }
}

/// Whether the snapshot shows this of a link.
pub open spec fn shows_link<R>(
    shown: LinkSnapshot<R>,
    i: int,
    queue_len: Option<usize>,
    control: LinkControl<R>,
) -> bool {
    shown == LinkSnapshot {
        index: i as usize,
        len: known_len(queue_len),
        trend: control.trend,
        arrival_rate: control.arrival_rate,
        drain_rate: control.drain_rate,
        net_rate: control.net_rate,
        smoothed_len: control.smoothed_len,
    }
}

/// Whether the snapshot shows this of a node. A branch always shows one wanted worker, and at least
/// one that is active.
pub open spec fn shows_node<S, A, R, D>(
    shown: NodeSnapshot<R, D>,
    i: int,
    node: RuntimeNode<S, A, R>,
    control: NodeControl<R>,
    active: nat,
    links: Seq<LinkControl<R>>,
    service_time: D,
    zero: R,
) -> bool {
    &&& shown.index == i
    &&& shown.name@ == node.name@
    &&& shown.input_link == node.input_link
    &&& shown.output_link == node.output_links@[0]
    &&& shown.output_links@ == node.output_links@
    &&& shown.active_threads == if control.is_weighted_branch {
        larger(active as int, 1)
    } else {
        active as int
    }
    &&& shown.processed_count == control.processed_count
    &&& shown.busy_ratio == control.busy_ratio
    &&& shown.service_time == service_time
    &&& shown.per_worker_throughput == control.per_worker_throughput
    &&& shown.desired_workers == if control.is_weighted_branch {
        1
    } else {
        control.desired_workers
    }
    &&& shown.scaling_state == control.scaling_state
    &&& shown.is_anchor == control.is_anchor
    &&& shows_policy(shown, control.thread_policy)
    &&& shown.backlog_seconds == control.backlog_seconds
    &&& shown.is_external == node.is_external
    &&& shown.external_input_rate == if node.is_external {
        links[node.input_link as int].drain_rate
    } else {
        zero
    }
    &&& shown.external_output_rate == if node.is_external {
        links[node.output_links@[0] as int].arrival_rate
    } else {
        zero
    }
}

fn observe_node<S, A, R: Copy, D: Copy>(
    index: usize,
    node: &RuntimeNode<S, A, R>,
    control: &NodeControl<R>,
    active: usize,
    links: &Vec<LinkControl<R>>,
    service_time: D,
    zero: R,
) -> (r: NodeSnapshot<R, D>)
    requires
        node.output_links@.len() >= 1,
        node.is_external ==> node.input_link < links@.len(),
        node.is_external ==> node.output_links@[0] < links@.len(),
    ensures
        shows_node(
            r,
            index as int,
            *node,
            *control,
            active as nat,
            links@,
            service_time,
            zero,
        ),
{
    let active_threads: usize = if control.is_weighted_branch {
        max_of(active, 1)
    } else {
        active
    };
    let desired_workers: usize = if control.is_weighted_branch {
        1
    } else {
        control.desired_workers
    };
    let external_input_rate: R = if node.is_external {
        links[node.input_link].drain_rate
    } else {
        zero
    };
    let external_output_rate: R = if node.is_external {
        links[node.output_links[0]].arrival_rate
    } else {
        zero
    };
    NodeSnapshot {
        index,
        name: node.name.clone(),
        input_link: node.input_link,
        output_link: node.output_links[0],
        output_links: copy_links(&node.output_links),
        active_threads,
        processed_count: control.processed_count,
        busy_ratio: control.busy_ratio,
        service_time,
        per_worker_throughput: control.per_worker_throughput,
        desired_workers,
        scaling_state: control.scaling_state,
        is_anchor: control.is_anchor,
        thread_policy_kind: thread_policy_kind(&control.thread_policy),
        fixed_thread_count: fixed_thread_count(&control.thread_policy),
        max_thread_count: max_thread_count(&control.thread_policy),
        target_queue_seconds: target_queue_seconds(&control.thread_policy),
        low_queue_seconds: low_queue_seconds(&control.thread_policy),
        backlog_seconds: control.backlog_seconds,
        is_external: node.is_external,
        external_input_rate,
        external_output_rate,
    }
}

/// What the supervisor tells of the whole pipeline when it takes a snapshot.
#[derive(Clone, Copy, Debug)]
pub struct PipelineStatus {
    pub parked_threads: usize,
    pub global_worker_cap: usize,
    pub shutdown_requested: bool,
    pub abort_requested: bool,
    pub pending_scale_operation: bool,
}

/// Takes a snapshot. `queue_lens` is how many items wait on each link, where the link can tell, and
/// `service_times` how long each node takes for an item.
pub fn update_snapshot<S, A, R: Copy, D: Copy>(
    queue_lens: &Vec<Option<usize>>,
    nodes: &Vec<RuntimeNode<S, A, R>>,
    active_by_node: &Vec<Vec<usize>>,
    link_controls: &Vec<LinkControl<R>>,
    controls: &Vec<NodeControl<R>>,
    service_times: &Vec<D>,
    output_link: usize,
    status: PipelineStatus,
    zero: R,
) -> (r: PiperSnapshot<R, D>)
    requires
        queue_lens@.len() == link_controls@.len(),
        output_link < link_controls@.len(),
        nodes@.len() == controls@.len(),
        nodes@.len() == active_by_node@.len(),
        nodes@.len() == service_times@.len(),
        active_total(active_by_node@, active_by_node@.len()) <= usize::MAX,
        forall|i: int|
            0 <= i < nodes@.len() ==> {
                let node = #[trigger] nodes@[i];
                &&& node.output_links@.len() >= 1
                &&& node.is_external ==> node.input_link < link_controls@.len()
                &&& node.is_external ==> node.output_links@[0] < link_controls@.len()
            },
    ensures
        is_numbered(r),
        r.links@.len() == link_controls@.len(),
        forall|i: int|
            0 <= i < link_controls@.len() ==> shows_link(
                #[trigger] r.links@[i],
                i,
                queue_lens@[i],
                link_controls@[i],
            ),
        r.nodes@.len() == nodes@.len(),
        forall|i: int|
            0 <= i < nodes@.len() ==> shows_node(
                #[trigger] r.nodes@[i],
                i,
                nodes@[i],
                controls@[i],
                active_by_node@[i]@.len(),
                link_controls@,
                service_times@[i],
                zero,
            ),
        r.anchors@.len() == positions(anchor_controls(controls@), controls@.len()).len(),
        forall|k: int|
            0 <= k < r.anchors@.len() ==> {
                let i = positions(anchor_controls(controls@), controls@.len())[k];
                shows_anchor(
                    #[trigger] r.anchors@[k],
                    i,
                    nodes@[i].name@,
                    active_by_node@[i]@.len(),
                    controls@[i].last_anchor_pressure_reason,
                )
            },
        r.parked_threads == status.parked_threads,
        r.total_active_workers == active_total(active_by_node@, active_by_node@.len()),
        r.global_worker_cap == status.global_worker_cap,
        r.budget_pressure == (r.total_active_workers >= status.global_worker_cap),
        r.output_backpressure == link_controls@[output_link as int].trend.grows(),
        r.shutdown_requested == status.shutdown_requested,
        r.abort_requested == status.abort_requested,
        r.pending_scale_operation == status.pending_scale_operation,
{
    let mut links: Vec<LinkSnapshot<R>> = Vec::new();
    for index in 0..link_controls.len()
        invariant
            queue_lens@.len() == link_controls@.len(),
            links@.len() == index,
            forall|i: int|
                0 <= i < index ==> shows_link(
                    #[trigger] links@[i],
                    i,
                    queue_lens@[i],
                    link_controls@[i],
                ),
    {
        let control: &LinkControl<R> = &link_controls[index];
        links.push(
            LinkSnapshot {
                index,
                len: queue_len_or_zero(queue_lens[index]),
                trend: control.trend,
                arrival_rate: control.arrival_rate,
                drain_rate: control.drain_rate,
                net_rate: control.net_rate,
                smoothed_len: control.smoothed_len,
            },
        );
    }
    let mut shown: Vec<NodeSnapshot<R, D>> = Vec::new();
    let mut anchors: Vec<AnchorSnapshot> = Vec::new();
    let ghost marks = anchor_controls(controls@);
    for index in 0..nodes.len()
        invariant
            nodes@.len() == controls@.len(),
            nodes@.len() == active_by_node@.len(),
            nodes@.len() == service_times@.len(),
            forall|i: int|
                0 <= i < nodes@.len() ==> {
                    let node = #[trigger] nodes@[i];
                    &&& node.output_links@.len() >= 1
                    &&& node.is_external ==> node.input_link < link_controls@.len()
                    &&& node.is_external ==> node.output_links@[0] < link_controls@.len()
                },
            marks == anchor_controls(controls@),
            shown@.len() == index,
            forall|i: int|
                0 <= i < index ==> shows_node(
                    #[trigger] shown@[i],
                    i,
                    nodes@[i],
                    controls@[i],
                    active_by_node@[i]@.len(),
                    link_controls@,
                    service_times@[i],
                    zero,
                ),
            anchors@.len() == positions(marks, index as nat).len(),
            forall|k: int|
                0 <= k < anchors@.len() ==> {
                    let i = positions(marks, index as nat)[k];
                    shows_anchor(
                        #[trigger] anchors@[k],
                        i,
                        nodes@[i].name@,
                        active_by_node@[i]@.len(),
                        controls@[i].last_anchor_pressure_reason,
                    )
                },
    {
        let active: usize = active_by_node[index].len();
        shown.push(
            observe_node(
                index,
                &nodes[index],
                &controls[index],
                active,
                link_controls,
                service_times[index],
                zero,
            ),
        );
        assert(marks(index as int) == controls@[index as int].is_anchor);
        if controls[index].is_anchor {
            anchors.push(
                AnchorSnapshot {
                    node_index: index,
                    node_name: nodes[index].name.clone(),
                    active_threads: active,
                    last_pressure_reason: controls[index].last_anchor_pressure_reason,
                },
            );
        }
    }
    let total_active_workers: usize = active_worker_count(active_by_node);
    assert(links@.len() == links.len() && shown@.len() == shown.len());
    assert(anchors@.len() == anchors.len());
    PiperSnapshot {
        links,
        nodes: shown,
        anchors,
        parked_threads: status.parked_threads,
        total_active_workers,
        global_worker_cap: status.global_worker_cap,
        budget_pressure: total_active_workers >= status.global_worker_cap,
        output_backpressure: link_controls[output_link].trend.is_growing(),
        shutdown_requested: status.shutdown_requested,
        abort_requested: status.abort_requested,
        pending_scale_operation: status.pending_scale_operation,
    }
}

} // verus!
