//! The workers that a pipeline starts with.

use crate::graph::PipelineGraph;
use crate::plan::{base_workers, RuntimeNode, StartPlan};
use crate::policy::{larger, startup_worker_count, NodeScalePolicy, ResolvedThreadPolicy};
use crate::text::{concat, decimal, decimal_text};
use vstd::prelude::*;

verus! {

/// `i`, `n` times over.
pub open spec fn repeated(i: usize, n: nat) -> Seq<usize> {
    Seq::new(n, |k: int| i)
}

/// For each worker that the first `n` nodes must have, its node.
pub open spec fn base_order<S, A, R>(nodes: Seq<RuntimeNode<S, A, R>>, n: nat) -> Seq<usize>
    decreases n,
{
    if n == 0 {
        Seq::empty()
    } else {
        base_order(nodes, (n - 1) as nat) + repeated(
            (n - 1) as usize,
            nodes[n - 1].starting_workers().0,
        )
    }
}

/// For each worker that the first `n` nodes are given beyond those, its node.
pub open spec fn extra_order<S, A, R>(nodes: Seq<RuntimeNode<S, A, R>>, n: nat) -> Seq<usize>
    decreases n,
{
    if n == 0 {
        Seq::empty()
    } else {
        extra_order(nodes, (n - 1) as nat) + repeated(
            (n - 1) as usize,
            nodes[n - 1].starting_workers().1,
        )
    }
}

/// The first `limit` of these.
pub open spec fn clipped(s: Seq<usize>, limit: int) -> Seq<usize> {
    if s.len() <= limit {
        s
    } else {
        s.take(limit)
    }
}

/// For each worker that the pipeline starts with, in the order in which they start, its node: those
/// that every node must have, and then those beyond while there are fewer than may be.
pub open spec fn starting_order<S, A, R>(nodes: Seq<RuntimeNode<S, A, R>>, worker_cap: usize) -> Seq<
    usize,
> {
    let base = base_order(nodes, nodes.len());
    clipped(base + extra_order(nodes, nodes.len()), larger(worker_cap as int, base.len() as int))
}

/// How many workers the node starts with: those that it must have, and those beyond.
pub fn starting_worker_count<S, A, R>(node: &RuntimeNode<S, A, R>) -> (r: (usize, usize))
    ensures
        (r.0 as nat, r.1 as nat) == node.starting_workers(),
{
    if node.is_external {
        (0, 0)
    } else if node.weighted_branch_config.is_some() {
        (1, 0)
    } else {
        startup_worker_count(&node.thread_policy)
    }
}

/// For each worker that the pipeline starts with, in the order in which they start, its node.
pub fn startup_order<S, A, R>(nodes: &Vec<RuntimeNode<S, A, R>>, global_worker_cap: usize) -> (r: Vec<
    usize,
>)
    ensures
        r@ == starting_order(nodes@, global_worker_cap),
{
    let mut order: Vec<usize> = Vec::new();
    for i in 0..nodes.len()
        invariant
            order@ == base_order(nodes@, i as nat),
    {
        let base: usize = starting_worker_count(&nodes[i]).0;
        let ghost before = order@;
        for k in 0..base
            invariant
                order@ == before + repeated(i, k as nat),
        {
            order.push(i);
            assert(order@ == before + repeated(i, (k + 1) as nat));
        }
    }
    let ghost base = order@;
    let ghost limit = larger(global_worker_cap as int, base.len() as int);
    assert(base == clipped(base + extra_order(nodes@, 0), limit)) by {
        assert(base + extra_order(nodes@, 0) == base);
    }
    for i in 0..nodes.len()
        invariant
            base == base_order(nodes@, nodes@.len()),
            limit == larger(global_worker_cap as int, base.len() as int),
            order@ == clipped(base + extra_order(nodes@, i as nat), limit),
    {
        let extra: usize = starting_worker_count(&nodes[i]).1;
        let ghost before = base + extra_order(nodes@, i as nat);
        assert(before + repeated(i, 0) == before);
        for k in 0..extra
            invariant
                limit == larger(global_worker_cap as int, base.len() as int),
                before.len() >= base.len(),
                order@ == clipped(before + repeated(i, k as nat), limit),
        {
            let ghost so_far = before + repeated(i, k as nat);
            if order.len() < global_worker_cap {
                order.push(i);
            }
            assert(before + repeated(i, (k + 1) as nat) == so_far.push(i));
            assert(order@ == clipped(so_far.push(i), limit));
        }
        assert(base + extra_order(nodes@, (i + 1) as nat) == before + repeated(i, extra as nat));
    }
    order
}

proof fn order_lengths<S, A, R>(nodes: Seq<RuntimeNode<S, A, R>>, n: nat)
    ensures
        base_order(nodes, n).len() + extra_order(nodes, n).len() == base_workers(nodes, n),
    decreases n,
{
    if n > 0 {
        order_lengths(nodes, (n - 1) as nat);
    }
}

/// Where there may be as many workers as the nodes start with, all of them start.
pub proof fn all_start<S, A, R>(nodes: Seq<RuntimeNode<S, A, R>>, worker_cap: usize)
    requires
        worker_cap >= base_workers(nodes, nodes.len()),
    ensures
        starting_order(nodes, worker_cap) == base_order(nodes, nodes.len()) + extra_order(
            nodes,
            nodes.len(),
        ),
        starting_order(nodes, worker_cap).len() == base_workers(nodes, nodes.len()),
{
    order_lengths(nodes, nodes.len());
}

/// All workers that a planned pipeline starts with do start, and they are not more than it may have.
pub proof fn planned_workers_start<In, Out, S, A, R: Copy>(
    plan: StartPlan<S, A, R>,
    graph: PipelineGraph<In, Out, S, A, R>,
    state_node: Option<usize>,
    requested_cap: Option<usize>,
    default_policy: NodeScalePolicy<R>,
    available: usize,
)
    requires
        plan.plans(graph, state_node, requested_cap, default_policy, available),
    ensures
        starting_order(plan.nodes@, plan.global_worker_cap).len() == base_workers(
            plan.nodes@,
            plan.nodes@.len(),
        ),
        starting_order(plan.nodes@, plan.global_worker_cap).len() <= plan.global_worker_cap,
{
    all_start(plan.nodes@, plan.global_worker_cap);
}

proof fn order_within<S, A, R>(nodes: Seq<RuntimeNode<S, A, R>>, n: nat, k: int)
    requires
        n <= nodes.len() <= usize::MAX,
    ensures
        0 <= k < base_order(nodes, n).len() ==> {
            let i = base_order(nodes, n)[k];
            i < n && !nodes[i as int].is_external
        },
        0 <= k < extra_order(nodes, n).len() ==> {
            let i = extra_order(nodes, n)[k];
            i < n && !nodes[i as int].is_external
        },
    decreases n,
{
    if n > 0 {
        order_within(nodes, (n - 1) as nat, k);
    }
}

/// Workers start only at nodes of the pipeline, and at none that is run from outside.
pub proof fn starts_at_managed_nodes<S, A, R>(
    nodes: Seq<RuntimeNode<S, A, R>>,
    worker_cap: usize,
    k: int,
)
    requires
        nodes.len() <= usize::MAX,
        0 <= k < starting_order(nodes, worker_cap).len(),
    ensures
        ({
            let i = starting_order(nodes, worker_cap)[k];
            i < nodes.len() && !nodes[i as int].is_external
        }),
{
    let base = base_order(nodes, nodes.len());
    order_within(nodes, nodes.len(), k);
    order_within(nodes, nodes.len(), k - base.len());
}

/// Whether a worker is kept ready for the node: its number of workers can change.
pub open spec fn keeps_ready<S, A, R>(node: RuntimeNode<S, A, R>) -> bool {
    !node.is_external && node.weighted_branch_config is None && !(node.thread_policy is Fixed)
}

/// How many workers are kept ready for the first `n` nodes.
pub open spec fn ready_count<S, A, R>(nodes: Seq<RuntimeNode<S, A, R>>, n: nat) -> nat
    decreases n,
{
    if n == 0 {
        0
    } else if keeps_ready(nodes[n - 1]) {
        ready_count(nodes, (n - 1) as nat) + 1
    } else {
        ready_count(nodes, (n - 1) as nat)
    }
}

/// How many workers are kept ready: one for each node whose number of workers can change.
pub fn parked_worker_target<S, A, R>(nodes: &Vec<RuntimeNode<S, A, R>>) -> (r: usize)
    ensures
        r == ready_count(nodes@, nodes@.len()),
        r <= nodes@.len(),
{
    let mut target: usize = 0;
    for i in 0..nodes.len()
        invariant
            target == ready_count(nodes@, i as nat),
            target <= i,
    {
        let node: &RuntimeNode<S, A, R> = &nodes[i];
        if !node.is_external && node.weighted_branch_config.is_none() && !matches!(
            node.thread_policy,
            ResolvedThreadPolicy::Fixed(_)
        ) {
            target = target + 1;
        }
    }
    target
}

/// The name of the worker with that number.
pub fn worker_name(index: usize) -> (r: String)
    ensures
        r@ == "piper-worker-"@ + decimal(index as nat),
{
    let number: String = decimal_text(index as u64);
    concat("piper-worker-", number.as_str())
}

} // verus!
