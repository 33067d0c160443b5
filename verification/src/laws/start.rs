//! What is started for a graph, and in which order.

use crate::check::{check_graph, reports_fault, GraphFault};
use crate::error::PiperError;
use crate::graph::PipelineGraph;
use crate::laws::policy::follows_hints;
use crate::plan::{
    base_workers, external_position, plan_start, required_base_workers, RuntimeNode, StartPlan,
};
use crate::policy::NodeScalePolicy;
use crate::startup::{
    base_order, extra_order, parked_worker_target, ready_count, repeated, starting_worker_count,
    startup_order, worker_name,
};
use crate::text::decimal;
use vstd::prelude::*;

verus! {

/// How many workers the node must have when the pipeline starts: none where it is run from outside, one
/// where it is a branch, and otherwise its fixed number, or one.
pub open spec fn must_have<S, A, R>(node: RuntimeNode<S, A, R>) -> nat {
    if node.is_external {
        0
    } else if node.weighted_branch_config is None && node.thread_policy is Fixed {
        node.thread_policy->Fixed_0 as nat
    } else {
        1
    }
}

/// How many workers the node is given beyond those while there is room: what its scale policy begins
/// with beyond the first.
pub open spec fn may_have<S, A, R>(node: RuntimeNode<S, A, R>) -> nat {
    if node.is_external || node.weighted_branch_config is Some || !(node.thread_policy is Scalable)
        || node.thread_policy->Scalable_0.initial_threads == 0 {
        0
    } else {
        (node.thread_policy->Scalable_0.initial_threads - 1) as nat
    }
}

/// A node starts with the workers that it must have, and those that it may have.
pub proof fn nodes_start_with_their_workers<S, A, R>(
    node: &RuntimeNode<S, A, R>,
    r: (usize, usize),
)
    requires
        call_ensures(starting_worker_count::<S, A, R>, (node,), r),
    ensures
        r.0 == must_have(*node),
        r.1 == may_have(*node),
{
}

/// How many workers all these nodes start with.
pub open spec fn starting_total<S, A, R>(nodes: Seq<RuntimeNode<S, A, R>>) -> int {
    nodes.fold_left(0int, |sum: int, node: RuntimeNode<S, A, R>| sum + must_have(node) + may_have(node))
}

proof fn base_is_total<S, A, R>(nodes: Seq<RuntimeNode<S, A, R>>, n: nat)
    requires
        n <= nodes.len(),
    ensures
        base_workers(nodes, n) == starting_total(nodes.take(n as int)),
    decreases n,
{
    if n > 0 {
        base_is_total(nodes, (n - 1) as nat);
        assert(nodes.take(n as int).drop_last() == nodes.take(n - 1));
    }
}

/// The workers that are needed at the start are those that all nodes start with.
pub proof fn all_starting_workers_are_counted<S, A, R>(nodes: &Vec<RuntimeNode<S, A, R>>, r: usize)
    requires
        call_ensures(required_base_workers::<S, A, R>, (nodes,), r),
    ensures
        r == starting_total(nodes@),
{
    base_is_total(nodes@, nodes@.len());
    assert(nodes@.take(nodes@.len() as int) == nodes@);
}

proof fn position_is_last<S, A, R>(nodes: Seq<RuntimeNode<S, A, R>>, n: nat, token: usize)
    requires
        n <= nodes.len() <= usize::MAX,
    ensures
        match external_position(nodes, n, token) {
            Some(i) => i < n && nodes[i as int].external_index == Some(token) && forall|j: int|
                i < j < n ==> (#[trigger] nodes[j]).external_index != Some(token),
            None => forall|j: int|
                0 <= j < n ==> (#[trigger] nodes[j]).external_index != Some(token),
        },
    decreases n,
{
    if n > 0 {
        position_is_last(nodes, (n - 1) as nat, token);
    }
}

/// A graph that passes the checks, and in which no node asks for a fixed number of no workers, is
/// planned as it is: every node keeps its place and what was declared of it, gets the threads that its
/// hints ask for, and gives back states only where the checks say so. Every token leads to its node,
/// and there may be as many workers as were asked for, but enough for every node and for the start.
pub proof fn graphs_are_planned<In, Out, S, A, R: Copy, E>(
    graph: PipelineGraph<In, Out, S, A, R>,
    requested_cap: Option<usize>,
    default_policy: NodeScalePolicy<R>,
    available: usize,
    state_node: Option<usize>,
    r: Result<StartPlan<S, A, R>, PiperError<E>>,
)
    requires
        call_ensures(
            plan_start::<In, Out, S, A, R, E>,
            (graph, requested_cap, default_policy, available),
            r,
        ),
        call_ensures(
            check_graph::<In, Out, S, A, R>,
            (&graph, requested_cap),
            Ok::<Option<usize>, GraphFault>(state_node),
        ),
        forall|i: int|
            0 <= i < graph.nodes@.len() ==> (#[trigger] graph.nodes@[i]).thread_hints.fixed_threads
                != Some(0usize),
    ensures
        r is Ok,
        ({
            let plan = r->Ok_0;
            &&& plan.input_link == graph.input_link
            &&& plan.output_link == graph.output_link
            &&& plan.link_count == graph.link_count
            &&& plan.feeder_links@ == graph.feeder_links@
            &&& plan.return_state_node == state_node
            &&& plan.nodes@.len() == graph.nodes@.len()
        }),
        forall|i: int|
            0 <= i < graph.nodes@.len() ==> {
                let planned = #[trigger] r->Ok_0.nodes@[i];
                let declared = graph.nodes@[i];
                &&& planned.name@ == declared.name@
                &&& planned.stage == declared.stage
                &&& planned.output_acquire == declared.output_acquire_builder
                &&& planned.is_anchor == declared.is_anchor
                &&& follows_hints(
                    planned.thread_policy,
                    declared.is_anchor,
                    declared.thread_hints,
                    default_policy,
                    available,
                )
                &&& planned.input_link == declared.input_link
                &&& planned.output_links@ == declared.output_links@
                &&& planned.weighted_branch_config == declared.weighted_branch_config
                &&& planned.is_external <==> declared.external_index is Some
                &&& planned.external_index == declared.external_index
                &&& planned.return_state_on_exit <==> (state_node is Some && state_node->0 == i)
            },
        r->Ok_0.external_nodes@.len() == graph.external_count,
        forall|token: int|
            0 <= token < graph.external_count ==> match #[trigger] r->Ok_0.external_nodes@[token] {
                Some(i) => i < graph.nodes@.len() && graph.nodes@[i as int].external_index == Some(
                    token as usize,
                ) && forall|j: int|
                    i < j < graph.nodes@.len() ==> (#[trigger] graph.nodes@[j]).external_index
                        != Some(token as usize),
                None => forall|j: int|
                    0 <= j < graph.nodes@.len() ==> (#[trigger] graph.nodes@[j]).external_index
                        != Some(token as usize),
            },
        ({
            let cap = r->Ok_0.global_worker_cap;
            let needed = starting_total(r->Ok_0.nodes@);
            &&& cap >= graph.nodes@.len()
            &&& cap >= needed
            &&& requested_cap matches Some(asked) ==> cap >= asked && (cap == asked || cap
                == graph.nodes@.len() || cap == needed)
            &&& requested_cap is None && 1 <= available && 2 * available <= usize::MAX ==> cap >= 2
                * available && (cap == 2 * available || cap == graph.nodes@.len() || cap == needed)
        }),
{
    assert(graph.nodes@.len() == graph.nodes.len());
    assert forall|i: int| 0 <= i < graph.nodes@.len() implies crate::plan::node_policy(
        #[trigger] graph.nodes@[i],
        default_policy,
        available,
    ) is Some by {}
    assert(crate::plan::all_policies(graph.nodes@, default_policy, available));
    let plan = r->Ok_0;
    base_is_total(plan.nodes@, plan.nodes@.len());
    assert(plan.nodes@.take(plan.nodes@.len() as int) == plan.nodes@);
    assert forall|i: int| 0 <= i < graph.nodes@.len() implies (#[trigger] plan.nodes@[i]).carries_out(
        graph.nodes@[i],
        crate::plan::node_policy(graph.nodes@[i], default_policy, available)->0,
        state_node == Some(i as usize),
    ) by {}
    assert forall|token: int| 0 <= token < graph.external_count implies match
    #[trigger] plan.external_nodes@[token] {
        Some(i) => i < graph.nodes@.len() && graph.nodes@[i as int].external_index == Some(
            token as usize,
        ) && forall|j: int|
            i < j < graph.nodes@.len() ==> (#[trigger] graph.nodes@[j]).external_index != Some(
                token as usize,
            ),
        None => forall|j: int|
            0 <= j < graph.nodes@.len() ==> (#[trigger] graph.nodes@[j]).external_index != Some(
                token as usize,
            ),
    } by {
        let t = token as usize;
        assert(plan.external_nodes@[t as int] == external_position(
            plan.nodes@,
            plan.nodes@.len(),
            t,
        ));
        assert(plan.nodes@.len() == plan.nodes.len());
        position_is_last(plan.nodes@, plan.nodes@.len(), t);
        assert forall|j: int| 0 <= j < graph.nodes@.len() implies (
        #[trigger] graph.nodes@[j]).external_index == plan.nodes@[j].external_index by {}
    }
}

/// A graph that does not pass the checks is not planned, and what is said is what the checks found; one
/// that passes is refused exactly where some node asks for a fixed number of no workers.
pub proof fn bad_graphs_are_not_planned<In, Out, S, A, R: Copy, E>(
    graph: PipelineGraph<In, Out, S, A, R>,
    requested_cap: Option<usize>,
    default_policy: NodeScalePolicy<R>,
    available: usize,
    verdict: Result<Option<usize>, GraphFault>,
    r: Result<StartPlan<S, A, R>, PiperError<E>>,
)
    requires
        call_ensures(
            plan_start::<In, Out, S, A, R, E>,
            (graph, requested_cap, default_policy, available),
            r,
        ),
        call_ensures(check_graph::<In, Out, S, A, R>, (&graph, requested_cap), verdict),
    ensures
        verdict matches Err(fault) ==> (r matches Err(error) && reports_fault(
            error,
            fault,
            graph.nodes@,
        )),
        verdict is Ok ==> (r is Err <==> exists|i: int|
            0 <= i < graph.nodes@.len() && (#[trigger] graph.nodes@[i]).thread_hints.fixed_threads
                == Some(0usize)),
        verdict is Ok && r is Err ==> r->Err_0 is InvalidThreadCount,
{
    if exists|i: int|
        0 <= i < graph.nodes@.len() && (#[trigger] graph.nodes@[i]).thread_hints.fixed_threads
            == Some(0usize) {
        let i = choose|i: int|
            0 <= i < graph.nodes@.len() && (#[trigger] graph.nodes@[i]).thread_hints.fixed_threads
                == Some(0usize);
        assert(crate::plan::node_policy(graph.nodes@[i], default_policy, available) is None);
    } else {
        assert forall|i: int| 0 <= i < graph.nodes@.len() implies crate::plan::node_policy(
            #[trigger] graph.nodes@[i],
            default_policy,
            available,
        ) is Some by {}
    }
}

/// How often `i` stands in the list.
pub open spec fn times(list: Seq<usize>, i: int) -> nat {
    list.filter(|k: usize| k == i).len()
}

/// Whether the list does not fall.
pub open spec fn never_falls(list: Seq<usize>) -> bool {
    forall|a: int, b: int| 0 <= a < b < list.len() ==> list[a] <= list[b]
}

proof fn times_add(a: Seq<usize>, b: Seq<usize>, i: int)
    ensures
        times(a + b, i) == times(a, i) + times(b, i),
{
    let p = |k: usize| k == i;
    Seq::<usize>::filter_distributes_over_add(a, b, p);
}

proof fn times_of_repeated(k: usize, n: nat, i: int)
    ensures
        times(repeated(k, n), i) == if k == i {
            n
        } else {
            0
        },
    decreases n,
{
    let p = |j: usize| j == i;
    reveal(Seq::filter);
    if n > 0 {
        times_of_repeated(k, (n - 1) as nat, i);
        assert(repeated(k, n).drop_last() == repeated(k, (n - 1) as nat));
        assert(repeated(k, n).last() == k);
    }
}

proof fn orders_hold_their_nodes<S, A, R>(nodes: Seq<RuntimeNode<S, A, R>>, n: nat, i: int)
    requires
        n <= nodes.len() <= usize::MAX,
    ensures
        times(base_order(nodes, n), i) == if 0 <= i < n {
            must_have(nodes[i])
        } else {
            0
        },
        times(extra_order(nodes, n), i) == if 0 <= i < n {
            may_have(nodes[i])
        } else {
            0
        },
        never_falls(base_order(nodes, n)),
        never_falls(extra_order(nodes, n)),
        forall|k: int| 0 <= k < base_order(nodes, n).len() ==> #[trigger] base_order(nodes, n)[k] < n,
        forall|k: int|
            0 <= k < extra_order(nodes, n).len() ==> #[trigger] extra_order(nodes, n)[k] < n,
    decreases n,
{
    reveal(Seq::filter);
    if n > 0 {
        let m = (n - 1) as nat;
        orders_hold_their_nodes(nodes, m, i);
        let last = nodes[n - 1].starting_workers();
        times_add(base_order(nodes, m), repeated(m as usize, last.0), i);
        times_add(extra_order(nodes, m), repeated(m as usize, last.1), i);
        times_of_repeated(m as usize, last.0, i);
        times_of_repeated(m as usize, last.1, i);
    }
}

proof fn order_totals<S, A, R>(nodes: Seq<RuntimeNode<S, A, R>>, n: nat)
    requires
        n <= nodes.len(),
    ensures
        base_order(nodes, n).len() + extra_order(nodes, n).len() == starting_total(
            nodes.take(n as int),
        ),
    decreases n,
{
    if n > 0 {
        order_totals(nodes, (n - 1) as nat);
        assert(nodes.take(n as int).drop_last() == nodes.take(n - 1));
    }
}

/// Where there is room for all, every node starts exactly the workers that it must and may have.
pub proof fn every_worker_starts<S, A, R>(
    nodes: &Vec<RuntimeNode<S, A, R>>,
    global_worker_cap: usize,
    i: int,
    r: Vec<usize>,
)
    requires
        call_ensures(startup_order::<S, A, R>, (nodes, global_worker_cap), r),
        global_worker_cap >= starting_total(nodes@),
    ensures
        r@.len() == starting_total(nodes@),
        times(r@, i) == if 0 <= i < nodes@.len() {
            must_have(nodes@[i]) + may_have(nodes@[i])
        } else {
            0
        },
{
    assert(nodes@.len() == nodes.len());
    assert(nodes@.take(nodes@.len() as int) == nodes@);
    order_totals(nodes@, nodes@.len());
    orders_hold_their_nodes(nodes@, nodes@.len(), i);
    times_add(base_order(nodes@, nodes@.len()), extra_order(nodes@, nodes@.len()), i);
}

/// First start the workers that nodes must have, whatever the cap, and then those beyond; each in the
/// order of the nodes.
pub proof fn needed_workers_start_first<S, A, R>(
    nodes: &Vec<RuntimeNode<S, A, R>>,
    global_worker_cap: usize,
    needed: int,
    i: int,
    r: Vec<usize>,
)
    requires
        call_ensures(startup_order::<S, A, R>, (nodes, global_worker_cap), r),
        needed == nodes@.fold_left(
            0int,
            |sum: int, node: RuntimeNode<S, A, R>| sum + must_have(node),
        ),
    ensures
        r@.len() >= needed,
        times(r@.take(needed), i) == if 0 <= i < nodes@.len() {
            must_have(nodes@[i])
        } else {
            0
        },
        never_falls(r@.take(needed)),
        never_falls(r@.skip(needed)),
        times(r@.skip(needed), i) <= if 0 <= i < nodes@.len() {
            may_have(nodes@[i])
        } else {
            0
        },
        r@.len() == starting_total(nodes@) || r@.len() == needed || r@.len() == global_worker_cap,
        r@.len() > needed ==> r@.len() <= global_worker_cap,
        r@.len() < starting_total(nodes@) ==> r@.len() >= global_worker_cap,
{
    assert(nodes@.len() == nodes.len());
    let n = nodes@.len();
    let base = base_order(nodes@, n);
    let extra = extra_order(nodes@, n);
    assert(nodes@.take(n as int) == nodes@);
    order_totals(nodes@, n);
    base_total(nodes@, n);
    orders_hold_their_nodes(nodes@, n, i);
    let rest = r@.skip(needed);
    assert(r@.take(needed) == base);
    assert(rest == extra.take(rest.len() as int));
    let cut = extra.skip(rest.len() as int);
    assert(rest + cut == extra);
    times_add(rest, cut, i);
}

proof fn base_total<S, A, R>(nodes: Seq<RuntimeNode<S, A, R>>, n: nat)
    requires
        n <= nodes.len(),
    ensures
        base_order(nodes, n).len() == nodes.take(n as int).fold_left(
            0int,
            |sum: int, node: RuntimeNode<S, A, R>| sum + must_have(node),
        ),
    decreases n,
{
    if n > 0 {
        base_total(nodes, (n - 1) as nat);
        assert(nodes.take(n as int).drop_last() == nodes.take(n - 1));
    }
}

/// Whether the number of the node's workers can change.
pub open spec fn can_change<S, A, R>(node: RuntimeNode<S, A, R>) -> bool {
    &&& !node.is_external
    &&& node.weighted_branch_config is None
    &&& node.thread_policy is Scalable || node.thread_policy is ImplicitSupport
}

/// One worker is kept ready for each node whose number of workers can change.
pub proof fn one_worker_is_kept_for_each<S, A, R>(nodes: &Vec<RuntimeNode<S, A, R>>, r: usize)
    requires
        call_ensures(parked_worker_target::<S, A, R>, (nodes,), r),
    ensures
        r == nodes@.filter(|node: RuntimeNode<S, A, R>| can_change(node)).len(),
{
    ready_are_filtered(nodes@, nodes@.len());
    assert(nodes@.take(nodes@.len() as int) == nodes@);
}

proof fn ready_are_filtered<S, A, R>(nodes: Seq<RuntimeNode<S, A, R>>, n: nat)
    requires
        n <= nodes.len(),
    ensures
        ready_count(nodes, n) == nodes.take(n as int).filter(
            |node: RuntimeNode<S, A, R>| can_change(node),
        ).len(),
    decreases n,
{
    reveal(Seq::filter);
    if n > 0 {
        ready_are_filtered(nodes, (n - 1) as nat);
        assert(nodes.take(n as int).drop_last() == nodes.take(n - 1));
    }
}

/// Workers are named by their numbers.
pub proof fn workers_are_named(index: usize, r: String)
    requires
        call_ensures(worker_name, (index,), r),
    ensures
        r@ == "piper-worker-"@ + decimal(index as nat),
{
}

} // verus!
