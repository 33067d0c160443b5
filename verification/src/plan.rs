//! From a graph to what has to be started.

use crate::check::{
    check_graph, fault_error, graph_verdict, reports_fault, verdict_within, GraphFault,
};
use crate::config::{FeederLinkConfig, SingleThreadWeightedBranchConfig};
use crate::error::PiperError;
use crate::graph::{GraphNodeSpec, ManagedStage, PipelineGraph};
use crate::policy::{
    resolve_global_worker_cap, resolve_thread_policy, resolved_policy, startup_worker_count,
    startup_workers, worker_cap, NodeScalePolicy, ResolvedThreadPolicy,
};
use std::collections::HashMap;
use vstd::prelude::*;

verus! {

/// A node of a pipeline that runs.
pub struct RuntimeNode<S, A, R> {
    pub name: String,
    pub stage: Option<ManagedStage<S>>,
    pub output_acquire: Option<A>,
    pub is_anchor: bool,
    pub thread_policy: ResolvedThreadPolicy<R>,
    pub input_link: usize,
    pub output_links: Vec<usize>,
    pub weighted_branch_config: Option<SingleThreadWeightedBranchConfig<R>>,
    pub is_external: bool,
    pub external_index: Option<usize>,
    pub return_state_on_exit: bool,
}

/// What has to be started for a graph.
pub struct StartPlan<S, A, R> {
    pub input_link: usize,
    pub output_link: usize,
    pub link_count: usize,
    pub nodes: Vec<RuntimeNode<S, A, R>>,
    /// For each node that is run from outside, in the order of their tokens, its position.
    pub external_nodes: Vec<Option<usize>>,
    pub return_state_node: Option<usize>,
    pub global_worker_cap: usize,
    pub feeder_links: HashMap<usize, FeederLinkConfig>,
}

/// The thread policy of a node, if its hints allow one.
pub open spec fn node_policy<S, A, R>(
    node: GraphNodeSpec<S, A, R>,
    default_policy: NodeScalePolicy<R>,
    available: usize,
) -> Option<ResolvedThreadPolicy<R>> {
    resolved_policy(node.is_anchor, node.thread_hints, default_policy, available)
}

/// Whether every node has a thread policy.
pub open spec fn all_policies<S, A, R>(
    nodes: Seq<GraphNodeSpec<S, A, R>>,
    default_policy: NodeScalePolicy<R>,
    available: usize,
) -> bool {
    forall|i: int|
        0 <= i < nodes.len() ==> node_policy(#[trigger] nodes[i], default_policy, available) is Some
}

impl<S, A, R> RuntimeNode<S, A, R> {
    /// Whether this node carries out `node` under the given policy.
    pub open spec fn carries_out(
        self,
        node: GraphNodeSpec<S, A, R>,
        policy: ResolvedThreadPolicy<R>,
        returns_state: bool,
    ) -> bool {
        &&& self.name@ == node.name@
        &&& self.stage == node.stage
        &&& self.output_acquire == node.output_acquire_builder
        &&& self.is_anchor == node.is_anchor
        &&& self.thread_policy == policy
        &&& self.input_link == node.input_link
        &&& self.output_links@ == node.output_links@
        &&& self.weighted_branch_config == node.weighted_branch_config
        &&& self.is_external == (node.external_index is Some)
        &&& self.external_index == node.external_index
        &&& self.return_state_on_exit == returns_state
    }

    /// How many workers the node starts with: those that it must have, and those beyond.
    pub open spec fn starting_workers(self) -> (nat, nat) {
        if self.is_external {
            (0, 0)
        } else if self.weighted_branch_config is Some {
            (1, 0)
        } else {
            startup_workers(self.thread_policy)
        }
    }
}

/// How many workers the first `n` nodes start with.
pub open spec fn base_workers<S, A, R>(nodes: Seq<RuntimeNode<S, A, R>>, n: nat) -> nat
    decreases n,
{
    if n == 0 {
        0
    } else {
        let count = nodes[n - 1].starting_workers();
        base_workers(nodes, (n - 1) as nat) + count.0 + count.1
    }
}

/// How many workers the first `n` nodes of a graph will start with.
pub open spec fn planned_workers<S, A, R>(
    nodes: Seq<GraphNodeSpec<S, A, R>>,
    n: nat,
    default_policy: NodeScalePolicy<R>,
    available: usize,
) -> nat
    decreases n,
{
    if n == 0 {
        0
    } else {
        let node = nodes[n - 1];
        let rest = planned_workers(nodes, (n - 1) as nat, default_policy, available);
        if node.external_index is Some {
            rest
        } else if node.weighted_branch_config is Some {
            rest + 1
        } else {
            let count = startup_workers(node_policy(node, default_policy, available)->0);
            rest + count.0 + count.1
        }
    }
}

proof fn base_workers_grow<S, A, R>(nodes: Seq<RuntimeNode<S, A, R>>, m: nat, n: nat)
    requires
        m <= n,
    ensures
        base_workers(nodes, m) <= base_workers(nodes, n),
    decreases n,
{
    if m < n {
        base_workers_grow(nodes, m, (n - 1) as nat);
    }
}

/// How many workers the nodes start with.
pub fn required_base_workers<S, A, R>(nodes: &Vec<RuntimeNode<S, A, R>>) -> (r: usize)
    requires
        base_workers(nodes@, nodes@.len()) <= usize::MAX,
    ensures
        r == base_workers(nodes@, nodes@.len()),
{
    let mut total: usize = 0;
    for i in 0..nodes.len()
        invariant
            base_workers(nodes@, nodes@.len()) <= usize::MAX,
            total == base_workers(nodes@, i as nat),
    {
        proof {
            base_workers_grow(nodes@, (i + 1) as nat, nodes@.len());
        }
        if !nodes[i].is_external {
            if nodes[i].weighted_branch_config.is_some() {
                total = total + 1;
            } else {
                let count: (usize, usize) = startup_worker_count(&nodes[i].thread_policy);
                total = total + count.0 + count.1;
            }
        }
    }
    total
}

/// The position of the last of the first `n` nodes that the token numbered `token` stands for.
pub open spec fn external_position<S, A, R>(
    nodes: Seq<RuntimeNode<S, A, R>>,
    n: nat,
    token: usize,
) -> Option<usize>
    decreases n,
{
    if n == 0 {
        None
    } else if nodes[n - 1].external_index == Some(token) {
        Some((n - 1) as usize)
    } else {
        external_position(nodes, (n - 1) as nat, token)
    }
}

fn place_externals<S, A, R>(nodes: &Vec<RuntimeNode<S, A, R>>, count: usize) -> (r: Vec<Option<usize>>)
    requires
        forall|i: int|
            0 <= i < nodes@.len() ==> ((#[trigger] nodes@[i]).external_index matches Some(token)
                ==> token < count),
    ensures
        r@.len() == count,
        forall|token: usize|
            token < count ==> #[trigger] r@[token as int] == external_position(
                nodes@,
                nodes@.len(),
                token,
            ),
{
    let mut places: Vec<Option<usize>> = Vec::new();
    for k in 0..count
        invariant
            places@.len() == k,
            forall|token: int| 0 <= token < k ==> #[trigger] places@[token] is None,
    {
        places.push(None);
    }
    for i in 0..nodes.len()
        invariant
            places@.len() == count,
            forall|i: int|
                0 <= i < nodes@.len() ==> ((#[trigger] nodes@[i]).external_index matches Some(token)
                    ==> token < count),
            forall|token: usize|
                token < count ==> #[trigger] places@[token as int] == external_position(
                    nodes@,
                    i as nat,
                    token,
                ),
    {
        let ghost before = places@;
        if let Some(token) = nodes[i].external_index {
            places.set(token, Some(i));
        }
        assert forall|token: usize| token < count implies #[trigger] places@[token as int]
            == external_position(nodes@, (i + 1) as nat, token) by {
            assert(before[token as int] == external_position(nodes@, i as nat, token));
        }
    }
    places
}

/// Whether the graph can be started: it passes the checks, its tokens are counted, every node
/// has a thread policy, and the workers that it starts with can be counted.
pub open spec fn countable<In, Out, S, A, R>(
    graph: PipelineGraph<In, Out, S, A, R>,
    worker_cap: Option<usize>,
    default_policy: NodeScalePolicy<R>,
    available: usize,
) -> bool {
    graph_verdict(graph, worker_cap) is Ok && all_policies(graph.nodes@, default_policy, available)
        ==> {
        &&& forall|i: int|
            0 <= i < graph.nodes@.len() ==> ((#[trigger] graph.nodes@[i]).external_index matches Some(
                token,
            ) ==> token < graph.external_count)
        &&& planned_workers(graph.nodes@, graph.nodes@.len(), default_policy, available)
            <= usize::MAX
    }
}

impl<S, A, R> StartPlan<S, A, R> {
    /// Whether this is what has to be started for `graph`.
    pub open spec fn plans<In, Out>(
        self,
        graph: PipelineGraph<In, Out, S, A, R>,
        state_node: Option<usize>,
        requested_cap: Option<usize>,
        default_policy: NodeScalePolicy<R>,
        available: usize,
    ) -> bool {
        &&& self.input_link == graph.input_link
        &&& self.output_link == graph.output_link
        &&& self.link_count == graph.link_count
        &&& self.feeder_links@ == graph.feeder_links@
        &&& self.return_state_node == state_node
        &&& self.nodes@.len() == graph.nodes@.len()
        &&& forall|i: int|
            0 <= i < graph.nodes@.len() ==> (#[trigger] self.nodes@[i]).carries_out(
                graph.nodes@[i],
                node_policy(graph.nodes@[i], default_policy, available)->0,
                state_node == Some(i as usize),
            )
        &&& self.external_nodes@.len() == graph.external_count
        &&& forall|token: usize|
            token < graph.external_count ==> #[trigger] self.external_nodes@[token as int]
                == external_position(self.nodes@, self.nodes@.len(), token)
        &&& self.global_worker_cap == worker_cap(
            requested_cap,
            self.nodes@.len() as int,
            base_workers(self.nodes@, self.nodes@.len()) as int,
            available as int,
        )
    }
}

proof fn planned_are_base<S, A, R>(
    nodes: Seq<GraphNodeSpec<S, A, R>>,
    run: Seq<RuntimeNode<S, A, R>>,
    n: nat,
    state_node: Option<usize>,
    default_policy: NodeScalePolicy<R>,
    available: usize,
)
    requires
        n <= nodes.len() == run.len(),
        forall|i: int|
            0 <= i < nodes.len() ==> (#[trigger] run[i]).carries_out(
                nodes[i],
                node_policy(nodes[i], default_policy, available)->0,
                state_node == Some(i as usize),
            ),
    ensures
        base_workers(run, n) == planned_workers(nodes, n, default_policy, available),
    decreases n,
{
    if n > 0 {
        planned_are_base(nodes, run, (n - 1) as nat, state_node, default_policy, available);
        assert(run[n - 1].carries_out(
            nodes[n - 1],
            node_policy(nodes[n - 1], default_policy, available)->0,
            state_node == Some((n - 1) as usize),
        ));
    }
}

/// Plans the start of a graph: checks it, resolves every node's threads, and fixes how many
/// workers there may be. `default_policy` is the scaling of a node that asks for none of its own,
/// and `available` how many threads the machine runs at once.
pub fn plan_start<In, Out, S, A, R: Copy, E>(
    graph: PipelineGraph<In, Out, S, A, R>,
    requested_cap: Option<usize>,
    default_policy: NodeScalePolicy<R>,
    available: usize,
) -> (r: Result<StartPlan<S, A, R>, PiperError<E>>)
    requires
        countable(graph, requested_cap, default_policy, available),
    ensures
        match graph_verdict(graph, requested_cap) {
            Err(fault) => r matches Err(error) && reports_fault(error, fault, graph.nodes@),
            Ok(state_node) => if all_policies(graph.nodes@, default_policy, available) {
                r matches Ok(plan) && plan.plans(
                    graph,
                    state_node,
                    requested_cap,
                    default_policy,
                    available,
                )
            } else {
                r matches Err(error) && error is InvalidThreadCount
            },
        },
{
    let ghost whole = graph;
    let count: usize = graph.nodes.len();
    proof {
        verdict_within(graph, requested_cap);
    }
    let state_node: Option<usize> = match check_graph(&graph, requested_cap) {
        Ok(state_node) => state_node,
        Err(fault) => {
            return Err(fault_error(fault, &graph.nodes));
        },
    };
    let PipelineGraph {
        input_link,
        output_link,
        link_count,
        nodes: declared,
        external_count,
        state_return: _,
        feeder_links,
        marker: _,
    } = graph;
    let mut nodes: Vec<RuntimeNode<S, A, R>> = Vec::new();
    for node in it: declared
        invariant
            whole == graph,
            it.seq() == whole.nodes@,
            whole.nodes@.len() == count,
            nodes@.len() == it.index(),
            graph_verdict(whole, requested_cap) == Ok::<Option<usize>, GraphFault>(state_node),
            forall|i: int|
                0 <= i < it.index() ==> node_policy(
                    #[trigger] whole.nodes@[i],
                    default_policy,
                    available,
                ) is Some,
            forall|i: int|
                0 <= i < it.index() ==> (#[trigger] nodes@[i]).carries_out(
                    whole.nodes@[i],
                    node_policy(whole.nodes@[i], default_policy, available)->0,
                    state_node == Some(i as usize),
                ),
    {
        let i: usize = nodes.len();
        let thread_policy: ResolvedThreadPolicy<R> = match resolve_thread_policy(
            node.is_anchor,
            node.thread_hints,
            default_policy,
            available,
        ) {
            Ok(policy) => policy,
            Err(error) => {
                assert(node_policy(whole.nodes@[i as int], default_policy, available) is None);
                return Err(error);
            },
        };
        let returns_state: bool = match state_node {
            Some(s) => s == i,
            None => false,
        };
        nodes.push(
            RuntimeNode {
                name: node.name,
                stage: node.stage,
                output_acquire: node.output_acquire_builder,
                is_anchor: node.is_anchor,
                thread_policy,
                input_link: node.input_link,
                output_links: node.output_links,
                weighted_branch_config: node.weighted_branch_config,
                is_external: node.external_index.is_some(),
                external_index: node.external_index,
                return_state_on_exit: returns_state,
            },
        );
    }
    proof {
        planned_are_base(
            whole.nodes@,
            nodes@,
            nodes@.len(),
            state_node,
            default_policy,
            available,
        );
    }
    let external_nodes: Vec<Option<usize>> = place_externals(&nodes, external_count);
    let required_base: usize = required_base_workers(&nodes);
    let global_worker_cap: usize = resolve_global_worker_cap(
        requested_cap,
        nodes.len(),
        required_base,
        available,
    );
    Ok(
        StartPlan {
            input_link,
            output_link,
            link_count,
            nodes,
            external_nodes,
            return_state_node: state_node,
            global_worker_cap,
            feeder_links,
        },
    )
}

} // verus!
