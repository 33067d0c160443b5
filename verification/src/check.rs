//! Checks that a graph must pass before it can run.

use crate::config::{FeederLinkConfig, SingleThreadWeightedBranchConfig};
use crate::cycles::{find_cycle, has_cycle, has_edge, is_cycle, is_walk};
use crate::error::{quote_name, quoted, PiperError};
use crate::graph::{GraphNodeSpec, PipelineGraph, StateReturnConfig};
use std::collections::HashMap;
use vstd::prelude::*;

verus! {

broadcast use vstd::std_specs::hash::group_hash_axioms;

/// What is wrong with a graph. Nodes are named by their position.
#[derive(Clone, Copy, Debug, PartialEq, Eq, Structural)]
pub enum GraphFault {
    /// There are no nodes.
    NoNodes,
    /// The input or the output link is not a link of the graph.
    Boundary,
    /// A node uses a link that the graph does not have.
    MissingLink { node: usize },
    /// A branch's target is not a positive finite number.
    BranchTarget { node: usize },
    /// A branch's half life is zero.
    BranchHalfLife { node: usize },
    /// A branch does not have two output links.
    BranchOutputs { node: usize },
    /// An output link of a branch uses a feeder; `link` tells which of the two.
    BranchFeeder { node: usize, link: usize },
    /// A node that is no branch does not have one output link.
    NodeOutputs { node: usize },
    /// Some node feeds itself, directly or through others.
    Cycle,
    /// States are to be given back, but not exactly one node feeds the output.
    StateProducers,
    /// States are to be given back, but the node that feeds the output has no workers of ours.
    StateUnmanaged,
    /// States are to be merged, but the node that feeds the output cannot merge them.
    StateMerge { node: usize },
    /// There is no anchor, and a worker cap of zero was asked for.
    NoWorkers,
}

/// Whether some output link of the node lies outside the graph.
pub open spec fn output_missing<S, A, R>(node: GraphNodeSpec<S, A, R>, link_count: usize) -> bool {
    exists|k: int| 0 <= k < node.output_links@.len() && #[trigger] node.output_links@[k] >= link_count
}

/// What is wrong with the settings of the branch at position `i`.
pub open spec fn branch_fault<R>(
    config: SingleThreadWeightedBranchConfig<R>,
    outputs: Seq<usize>,
    i: usize,
    feeders: Map<usize, FeederLinkConfig>,
) -> Option<GraphFault> {
    if !config.target_is_usable {
        Some(GraphFault::BranchTarget { node: i })
    } else if config.ewma_half_life == 0 {
        Some(GraphFault::BranchHalfLife { node: i })
    } else if outputs.len() != 2 {
        Some(GraphFault::BranchOutputs { node: i })
    } else if feeders.dom().contains(outputs[0]) {
        Some(GraphFault::BranchFeeder { node: i, link: 0 })
    } else if feeders.dom().contains(outputs[1]) {
        Some(GraphFault::BranchFeeder { node: i, link: 1 })
    } else {
        None
    }
}

/// What is wrong with the node at position `i`, taken by itself.
pub open spec fn node_fault<S, A, R>(
    node: GraphNodeSpec<S, A, R>,
    i: usize,
    link_count: usize,
    feeders: Map<usize, FeederLinkConfig>,
) -> Option<GraphFault> {
    if node.input_link >= link_count || output_missing(node, link_count) {
        Some(GraphFault::MissingLink { node: i })
    } else {
        match node.weighted_branch_config {
            Some(config) => branch_fault(config, node.output_links@, i, feeders),
            None => if node.output_links@.len() != 1 {
                Some(GraphFault::NodeOutputs { node: i })
            } else {
                None
            },
        }
    }
}

/// What is wrong with the first faulty node at or after position `i`.
pub open spec fn first_node_fault<S, A, R>(
    nodes: Seq<GraphNodeSpec<S, A, R>>,
    i: nat,
    link_count: usize,
    feeders: Map<usize, FeederLinkConfig>,
) -> Option<GraphFault>
    decreases nodes.len() - i,
{
    if i >= nodes.len() {
        None
    } else {
        match node_fault(nodes[i as int], i as usize, link_count, feeders) {
            Some(fault) => Some(fault),
            None => first_node_fault(nodes, i + 1, link_count, feeders),
        }
    }
}

/// Whether the node at `i` puts items on `link`.
pub open spec fn produces<S, A, R>(nodes: Seq<GraphNodeSpec<S, A, R>>, i: int, link: usize) -> bool {
    0 <= i < nodes.len() && nodes[i].output_links@.contains(link)
}

/// Whether the node at `i` puts items on a link that the node at `j` takes from.
pub open spec fn feeds<S, A, R>(nodes: Seq<GraphNodeSpec<S, A, R>>, i: int, j: int) -> bool {
    0 <= j < nodes.len() && produces(nodes, i, nodes[j].input_link)
}

/// Whether `path` goes from a node over the nodes that each one feeds and comes back to it.
pub open spec fn is_feedback<S, A, R>(nodes: Seq<GraphNodeSpec<S, A, R>>, path: Seq<int>) -> bool {
    &&& path.len() >= 2
    &&& path[0] == path.last()
    &&& forall|k: int| 0 <= k < path.len() - 1 ==> feeds(nodes, #[trigger] path[k], path[k + 1])
}

/// Whether some node feeds itself, directly or through others.
pub open spec fn has_feedback<S, A, R>(nodes: Seq<GraphNodeSpec<S, A, R>>) -> bool {
    exists|path: Seq<int>| is_feedback(nodes, path)
}

/// Whether the node at `i` is the only one that puts items on `link`.
pub open spec fn is_sole_producer<S, A, R>(
    nodes: Seq<GraphNodeSpec<S, A, R>>,
    link: usize,
    i: int,
) -> bool {
    produces(nodes, i, link) && forall|j: int| #[trigger] produces(nodes, j, link) ==> j == i
}

/// Whether the pipeline itself runs the node's code.
pub open spec fn is_managed_node<S, A, R>(node: GraphNodeSpec<S, A, R>) -> bool {
    node.external_index is None && node.weighted_branch_config is None && node.stage is Some
}

/// The node whose states are given back, if any, or why they cannot be.
pub open spec fn state_verdict<S, A, R>(
    nodes: Seq<GraphNodeSpec<S, A, R>>,
    output_link: usize,
    state_return: Option<StateReturnConfig>,
) -> Result<Option<usize>, GraphFault> {
    match state_return {
        None => Ok(None),
        Some(config) => if !(exists|i: int| is_sole_producer(nodes, output_link, i)) {
            Err(GraphFault::StateProducers)
        } else {
            let i = choose|i: int| is_sole_producer(nodes, output_link, i);
            if !is_managed_node(nodes[i]) {
                Err(GraphFault::StateUnmanaged)
            } else if config.require_merge && !nodes[i].stage->0.merges_state {
                Err(GraphFault::StateMerge { node: i as usize })
            } else {
                Ok(Some(i as usize))
            }
        },
    }
}

/// Whether some node is an anchor.
pub open spec fn any_anchor<S, A, R>(nodes: Seq<GraphNodeSpec<S, A, R>>) -> bool {
    exists|i: int| 0 <= i < nodes.len() && (#[trigger] nodes[i]).is_anchor
}

/// Whether the graph can run under the worker cap that was asked for: the node whose states are
/// given back, if any, or else the first fault.
pub open spec fn graph_verdict<In, Out, S, A, R>(
    graph: PipelineGraph<In, Out, S, A, R>,
    worker_cap: Option<usize>,
) -> Result<Option<usize>, GraphFault> {
    let nodes = graph.nodes@;
    if nodes.len() == 0 {
        Err(GraphFault::NoNodes)
    } else if graph.input_link >= graph.link_count || graph.output_link >= graph.link_count {
        Err(GraphFault::Boundary)
    } else {
        match first_node_fault(nodes, 0, graph.link_count, graph.feeder_links@) {
            Some(fault) => Err(fault),
            None => if has_feedback(nodes) {
                Err(GraphFault::Cycle)
            } else {
                match state_verdict(nodes, graph.output_link, graph.state_return) {
                    Err(fault) => Err(fault),
                    Ok(state_node) => if !any_anchor(nodes) && worker_cap == Some(0usize) {
                        Err(GraphFault::NoWorkers)
                    } else {
                        Ok(state_node)
                    },
                }
            },
        }
    }
}

/// Whether `link` is one of `links`.
pub(crate) fn has_link(links: &Vec<usize>, link: usize) -> (r: bool)
    ensures
        r == links@.contains(link),
{
    for k in 0..links.len()
        invariant
            forall|m: int| 0 <= m < k ==> links@[m] != link,
    {
        if links[k] == link {
            assert(links@[k as int] == link);
            return true;
        }
    }
    false
}

/// Checks the settings of the branch at position `i`.
pub fn validate_weighted_branch_config<R>(
    config: &SingleThreadWeightedBranchConfig<R>,
    outputs: &Vec<usize>,
    i: usize,
    feeders: &HashMap<usize, FeederLinkConfig>,
) -> (r: Option<GraphFault>)
    ensures
        r == branch_fault(*config, outputs@, i, feeders@),
{
    if !config.target_is_usable {
        return Some(GraphFault::BranchTarget { node: i });
    }
    if config.ewma_half_life == 0 {
        return Some(GraphFault::BranchHalfLife { node: i });
    }
    if outputs.len() != 2 {
        return Some(GraphFault::BranchOutputs { node: i });
    }
    if feeders.contains_key(&outputs[0]) {
        return Some(GraphFault::BranchFeeder { node: i, link: 0 });
    }
    if feeders.contains_key(&outputs[1]) {
        return Some(GraphFault::BranchFeeder { node: i, link: 1 });
    }
    None
}

fn check_node<S, A, R>(
    node: &GraphNodeSpec<S, A, R>,
    i: usize,
    link_count: usize,
    feeders: &HashMap<usize, FeederLinkConfig>,
) -> (r: Option<GraphFault>)
    ensures
        r == node_fault(*node, i, link_count, feeders@),
{
    if node.input_link >= link_count {
        return Some(GraphFault::MissingLink { node: i });
    }
    for k in 0..node.output_links.len()
        invariant
            forall|m: int| 0 <= m < k ==> #[trigger] node.output_links@[m] < link_count,
    {
        if node.output_links[k] >= link_count {
            assert(node.output_links@[k as int] >= link_count);
            return Some(GraphFault::MissingLink { node: i });
        }
    }
    match &node.weighted_branch_config {
        Some(config) => validate_weighted_branch_config(config, &node.output_links, i, feeders),
        None => {
            if node.output_links.len() != 1 {
                Some(GraphFault::NodeOutputs { node: i })
            } else {
                None
            }
        },
    }
}

proof fn feedback_is_cycle<S, A, R>(nodes: Seq<GraphNodeSpec<S, A, R>>, adjacency: Seq<Vec<usize>>)
    requires
        adjacency.len() == nodes.len(),
        forall|i: int, j: int| #[trigger] has_edge(adjacency, i, j) <==> feeds(nodes, i, j),
    ensures
        has_cycle(adjacency) == has_feedback(nodes),
{
    if has_cycle(adjacency) {
        let path = choose|path: Seq<int>| is_cycle(adjacency, path);
        assert forall|k: int| 0 <= k < path.len() - 1 implies feeds(
            nodes,
            #[trigger] path[k],
            path[k + 1],
        ) by {
            assert(has_edge(adjacency, path[k], path[k + 1]));
        }
        assert(is_feedback(nodes, path));
    }
    if has_feedback(nodes) {
        let path = choose|path: Seq<int>| is_feedback(nodes, path);
        assert forall|k: int| 0 <= k < path.len() - 1 implies has_edge(
            adjacency,
            #[trigger] path[k],
            path[k + 1],
        ) by {
            assert(feeds(nodes, path[k], path[k + 1]));
        }
        assert(is_walk(adjacency, path));
        assert(is_cycle(adjacency, path));
    }
}

/// Whether no node feeds itself, directly or through others.
pub fn validate_graph_is_acyclic<S, A, R>(nodes: &Vec<GraphNodeSpec<S, A, R>>) -> (r: bool)
    ensures
        r == !has_feedback(nodes@),
{
    let n: usize = nodes.len();
    let mut adjacency: Vec<Vec<usize>> = Vec::new();
    for i in 0..n
        invariant
            n == nodes@.len(),
            adjacency@.len() == i,
            is_graph_into(adjacency@, n as int),
            forall|p: int, j: int|
                0 <= p < i ==> (#[trigger] has_edge(adjacency@, p, j) <==> feeds(nodes@, p, j)),
    {
        let mut row: Vec<usize> = Vec::new();
        for j in 0..n
            invariant
                n == nodes@.len(),
                i < n,
                forall|k: int| 0 <= k < row@.len() ==> #[trigger] row@[k] < j,
                forall|c: int|
                    0 <= c < j ==> (feeds(nodes@, i as int, c) <==> #[trigger] row@.contains(
                        c as usize,
                    )),
        {
            let ghost before = row@;
            if has_link(&nodes[i].output_links, nodes[j].input_link) {
                row.push(j);
            }
            assert forall|c: int| 0 <= c < j + 1 implies (feeds(nodes@, i as int, c)
                <==> #[trigger] row@.contains(c as usize)) by {
                if row@.len() > before.len() {
                    assert(row@.drop_last() == before);
                    assert(row@[before.len() as int] == j);
                    if before.contains(c as usize) {
                        let k = choose|k: int| 0 <= k < before.len() && before[k] == c as usize;
                        assert(row@[k] == c as usize);
                    }
                    if row@.contains(c as usize) && c < j {
                        let k = choose|k: int| 0 <= k < row@.len() && row@[k] == c as usize;
                        assert(before[k] == c as usize);
                    }
                } else if c == j && row@.contains(c as usize) {
                    let k = choose|k: int| 0 <= k < row@.len() && row@[k] == c as usize;
                    assert(row@[k] < j);
                }
            }
        }
        let ghost before = adjacency@;
        let ghost done = row@;
        adjacency.push(row);
        assert forall|p: int, j: int| 0 <= p < i + 1 implies (#[trigger] has_edge(
            adjacency@,
            p,
            j,
        ) <==> feeds(nodes@, p, j)) by {
            if p < i {
                assert(adjacency@[p] == before[p]);
                assert(has_edge(adjacency@, p, j) <==> has_edge(before, p, j));
            } else {
                assert(adjacency@[p]@ == done);
                if has_edge(adjacency@, p, j) {
                    let k = choose|k: int|
                        0 <= k < adjacency@[p]@.len() && #[trigger] adjacency@[p]@[k] == j;
                    assert(done[k] == j);
                    assert(done.contains(j as usize));
                }
                if feeds(nodes@, p, j) {
                    assert(done.contains(j as usize));
                    let k = choose|k: int| 0 <= k < done.len() && done[k] == j as usize;
                    assert(adjacency@[p]@[k] == j);
                }
            }
        }
    }
    proof {
        assert forall|i: int, j: int| #[trigger] has_edge(adjacency@, i, j) <==> feeds(
            nodes@,
            i,
            j,
        ) by {}
        feedback_is_cycle(nodes@, adjacency@);
    }
    !find_cycle(&adjacency)
}

spec fn is_graph_into(adjacency: Seq<Vec<usize>>, n: int) -> bool {
    forall|i: int, k: int|
        0 <= i < adjacency.len() && 0 <= k < adjacency[i]@.len() ==> #[trigger] adjacency[i]@[k] < n
}

fn find_state_node<S, A, R>(
    nodes: &Vec<GraphNodeSpec<S, A, R>>,
    output_link: usize,
    state_return: Option<StateReturnConfig>,
) -> (r: Result<Option<usize>, GraphFault>)
    ensures
        r == state_verdict(nodes@, output_link, state_return),
{
    let config: StateReturnConfig = match state_return {
        None => {
            return Ok(None);
        },
        Some(config) => config,
    };
    let mut found: Option<usize> = None;
    for i in 0..nodes.len()
        invariant
            state_return == Some(config),
            match found {
                None => forall|j: int| 0 <= j < i ==> !#[trigger] produces(nodes@, j, output_link),
                Some(p) => p < i && produces(nodes@, p as int, output_link) && forall|j: int|
                    0 <= j < i && #[trigger] produces(nodes@, j, output_link) ==> j == p,
            },
    {
        if has_link(&nodes[i].output_links, output_link) {
            assert(produces(nodes@, i as int, output_link));
            if let Some(p) = found {
                assert(produces(nodes@, p as int, output_link));
                assert(!(exists|m: int| is_sole_producer(nodes@, output_link, m)));
                return Err(GraphFault::StateProducers);
            }
            found = Some(i);
        }
    }
    match found {
        None => {
            assert forall|m: int| !is_sole_producer(nodes@, output_link, m) by {
                assert(!produces(nodes@, m, output_link));
            }
            Err(GraphFault::StateProducers)
        },
        Some(i) => {
            assert(is_sole_producer(nodes@, output_link, i as int));
            let node: &GraphNodeSpec<S, A, R> = &nodes[i];
            if node.external_index.is_some() || node.weighted_branch_config.is_some() {
                return Err(GraphFault::StateUnmanaged);
            }
            match &node.stage {
                None => Err(GraphFault::StateUnmanaged),
                Some(stage) => {
                    if config.require_merge && !stage.merges_state {
                        Err(GraphFault::StateMerge { node: i })
                    } else {
                        Ok(Some(i))
                    }
                },
            }
        },
    }
}

/// Checks a graph. Returns the node whose states are given back, if any, or the first fault.
pub fn check_graph<In, Out, S, A, R>(
    graph: &PipelineGraph<In, Out, S, A, R>,
    worker_cap: Option<usize>,
) -> (r: Result<Option<usize>, GraphFault>)
    ensures
        r == graph_verdict(*graph, worker_cap),
{
    if graph.nodes.len() == 0 {
        return Err(GraphFault::NoNodes);
    }
    if graph.input_link >= graph.link_count || graph.output_link >= graph.link_count {
        return Err(GraphFault::Boundary);
    }
    for i in 0..graph.nodes.len()
        invariant
            first_node_fault(graph.nodes@, 0, graph.link_count, graph.feeder_links@)
                == first_node_fault(graph.nodes@, i as nat, graph.link_count, graph.feeder_links@),
            graph.nodes@.len() > 0,
            graph.input_link < graph.link_count,
            graph.output_link < graph.link_count,
    {
        if let Some(fault) = check_node(
            &graph.nodes[i],
            i,
            graph.link_count,
            &graph.feeder_links,
        ) {
            return Err(fault);
        }
    }
    if !validate_graph_is_acyclic(&graph.nodes) {
        return Err(GraphFault::Cycle);
    }
    let state_node: Option<usize> = match find_state_node(
        &graph.nodes,
        graph.output_link,
        graph.state_return,
    ) {
        Ok(state_node) => state_node,
        Err(fault) => {
            return Err(fault);
        },
    };
    let mut anchored: bool = false;
    for i in 0..graph.nodes.len()
        invariant
            anchored == exists|k: int| 0 <= k < i && (#[trigger] graph.nodes@[k]).is_anchor,
    {
        if graph.nodes[i].is_anchor {
            assert(graph.nodes@[i as int].is_anchor);
            anchored = true;
        }
    }
    match worker_cap {
        Some(cap) => {
            if !anchored && cap == 0 {
                return Err(GraphFault::NoWorkers);
            }
        },
        None => {},
    }
    Ok(state_node)
}

/// Whether `error` tells of `fault` in a graph with these nodes.
pub open spec fn reports_fault<S, A, R, E>(
    error: PiperError<E>,
    fault: GraphFault,
    nodes: Seq<GraphNodeSpec<S, A, R>>,
) -> bool {
    match fault {
        GraphFault::NoNodes => error is NoNodes,
        GraphFault::Boundary => error matches PiperError::InvalidGraph { message } && message@
            == "input or output link is outside the graph"@,
        GraphFault::MissingLink { node } => error matches PiperError::InvalidGraph { message }
            && message@ == quoted("node "@, nodes[node as int].name@, " references a missing link"@),
        GraphFault::BranchTarget { node } => error matches PiperError::InvalidWeightedBranchConfig {
            branch,
            message,
        } && branch@ == nodes[node as int].name@ && message@
            == "target_queue_seconds must be positive and finite"@,
        GraphFault::BranchHalfLife {
            node,
        } => error matches PiperError::InvalidWeightedBranchConfig { branch, message } && branch@
            == nodes[node as int].name@ && message@ == "ewma_half_life must be greater than zero"@,
        GraphFault::BranchOutputs { node } => error matches PiperError::InvalidGraph { message }
            && message@ == quoted(
            "weighted branch "@,
            nodes[node as int].name@,
            " must have exactly two output links"@,
        ),
        GraphFault::BranchFeeder {
            node,
            link,
        } => error matches PiperError::UnsupportedWeightedBranchFeederOutput { branch, link: l }
            && branch@ == nodes[node as int].name@ && l == link,
        GraphFault::NodeOutputs { node } => error matches PiperError::InvalidGraph { message }
            && message@ == quoted(
            "node "@,
            nodes[node as int].name@,
            " must have exactly one output link"@,
        ),
        GraphFault::Cycle => error matches PiperError::InvalidGraph { message } && message@
            == "graph cycles are not supported"@,
        GraphFault::StateProducers => error matches PiperError::InvalidGraph { message } && message@
            == "return_state requires exactly one managed node to feed `output`"@,
        GraphFault::StateUnmanaged => error matches PiperError::InvalidGraph { message } && message@
            == "return_state requires the final output producer to be a managed node"@,
        GraphFault::StateMerge { node } => error matches PiperError::MissingStateMerge { node: n }
            && n@ == nodes[node as int].name@,
        GraphFault::NoWorkers => error matches PiperError::InvalidGraph { message } && message@
            == "graphs without anchor nodes require a finite non-zero worker cap"@,
    }
}

/// Whether the node that `fault` names, if any, is one of `count` nodes.
pub open spec fn fault_within(fault: GraphFault, count: nat) -> bool {
    match fault {
        GraphFault::MissingLink { node } => node < count,
        GraphFault::BranchTarget { node } => node < count,
        GraphFault::BranchHalfLife { node } => node < count,
        GraphFault::BranchOutputs { node } => node < count,
        GraphFault::BranchFeeder { node, link } => node < count,
        GraphFault::NodeOutputs { node } => node < count,
        GraphFault::StateMerge { node } => node < count,
        _ => true,
    }
}

/// The pipeline error that tells of `fault`.
pub fn fault_error<S, A, R, E>(fault: GraphFault, nodes: &Vec<GraphNodeSpec<S, A, R>>) -> (r: PiperError<
    E,
>)
    requires
        fault_within(fault, nodes@.len()),
    ensures
        reports_fault(r, fault, nodes@),
{
    match fault {
        GraphFault::NoNodes => PiperError::NoNodes,
        GraphFault::Boundary => PiperError::InvalidGraph {
            message: "input or output link is outside the graph".to_owned(),
        },
        GraphFault::MissingLink { node } => PiperError::InvalidGraph {
            message: quote_name("node ", nodes[node].name.as_str(), " references a missing link"),
        },
        GraphFault::BranchTarget { node } => PiperError::InvalidWeightedBranchConfig {
            branch: nodes[node].name.clone(),
            message: "target_queue_seconds must be positive and finite".to_owned(),
        },
        GraphFault::BranchHalfLife { node } => PiperError::InvalidWeightedBranchConfig {
            branch: nodes[node].name.clone(),
            message: "ewma_half_life must be greater than zero".to_owned(),
        },
        GraphFault::BranchOutputs { node } => PiperError::InvalidGraph {
            message: quote_name(
                "weighted branch ",
                nodes[node].name.as_str(),
                " must have exactly two output links",
            ),
        },
        GraphFault::BranchFeeder {
            node,
            link,
        } => PiperError::UnsupportedWeightedBranchFeederOutput {
            branch: nodes[node].name.clone(),
            link,
        },
        GraphFault::NodeOutputs { node } => PiperError::InvalidGraph {
            message: quote_name(
                "node ",
                nodes[node].name.as_str(),
                " must have exactly one output link",
            ),
        },
        GraphFault::Cycle => PiperError::InvalidGraph {
            message: "graph cycles are not supported".to_owned(),
        },
        GraphFault::StateProducers => PiperError::InvalidGraph {
            message: "return_state requires exactly one managed node to feed `output`".to_owned(),
        },
        GraphFault::StateUnmanaged => PiperError::InvalidGraph {
            message: "return_state requires the final output producer to be a managed node".to_owned(),
        },
        GraphFault::StateMerge { node } => PiperError::MissingStateMerge {
            node: nodes[node].name.clone(),
        },
        GraphFault::NoWorkers => PiperError::InvalidGraph {
            message: "graphs without anchor nodes require a finite non-zero worker cap".to_owned(),
        },
    }
}

proof fn node_faults_within<S, A, R>(
    nodes: Seq<GraphNodeSpec<S, A, R>>,
    i: nat,
    link_count: usize,
    feeders: Map<usize, FeederLinkConfig>,
)
    requires
        nodes.len() <= usize::MAX,
    ensures
        first_node_fault(nodes, i, link_count, feeders) matches Some(fault) ==> fault_within(
            fault,
            nodes.len(),
        ),
    decreases nodes.len() - i,
{
    if i < nodes.len() && node_fault(nodes[i as int], i as usize, link_count, feeders) is None {
        node_faults_within(nodes, i + 1, link_count, feeders);
    }
}

/// A fault names nodes of the graph only, and the node whose states are given back is one of them.
pub proof fn verdict_within<In, Out, S, A, R>(
    graph: PipelineGraph<In, Out, S, A, R>,
    worker_cap: Option<usize>,
)
    requires
        graph.nodes@.len() <= usize::MAX,
    ensures
        match graph_verdict(graph, worker_cap) {
            Err(fault) => fault_within(fault, graph.nodes@.len()),
            Ok(Some(node)) => node < graph.nodes@.len(),
            Ok(None) => true,
        },
{
    node_faults_within(graph.nodes@, 0, graph.link_count, graph.feeder_links@);
}

proof fn passed_nodes<S, A, R>(
    nodes: Seq<GraphNodeSpec<S, A, R>>,
    i: nat,
    k: int,
    link_count: usize,
    feeders: Map<usize, FeederLinkConfig>,
)
    requires
        nodes.len() <= usize::MAX,
        first_node_fault(nodes, i, link_count, feeders) is None,
        i <= k < nodes.len(),
    ensures
        node_fault(nodes[k], k as usize, link_count, feeders) is None,
    decreases nodes.len() - i,
{
    if i < k {
        passed_nodes(nodes, i + 1, k, link_count, feeders);
    }
}

/// In a graph that passes the checks every link that is used is a link of the graph, a branch has
/// two output links, neither with a feeder, and every other node has one; no node feeds itself,
/// directly or through others.
pub proof fn passed_graph_is_sound<In, Out, S, A, R>(
    graph: PipelineGraph<In, Out, S, A, R>,
    worker_cap: Option<usize>,
)
    requires
        graph.nodes@.len() <= usize::MAX,
        graph_verdict(graph, worker_cap) is Ok,
    ensures
        graph.nodes@.len() > 0,
        graph.input_link < graph.link_count,
        graph.output_link < graph.link_count,
        !has_feedback(graph.nodes@),
        forall|i: int|
            0 <= i < graph.nodes@.len() ==> {
                let node = #[trigger] graph.nodes@[i];
                &&& node.input_link < graph.link_count
                &&& forall|k: int|
                    0 <= k < node.output_links@.len() ==> #[trigger] node.output_links@[k]
                        < graph.link_count
                &&& node.output_links@.len() == if node.weighted_branch_config is Some {
                    2nat
                } else {
                    1nat
                }
                &&& node.weighted_branch_config is Some ==> forall|k: int|
                    0 <= k < 2 ==> !graph.feeder_links@.dom().contains(
                        #[trigger] node.output_links@[k],
                    )
            },
{
    assert forall|i: int| 0 <= i < graph.nodes@.len() implies node_fault(
        #[trigger] graph.nodes@[i],
        i as usize,
        graph.link_count,
        graph.feeder_links@,
    ) is None by {
        passed_nodes(graph.nodes@, 0, i, graph.link_count, graph.feeder_links@);
    }
}

} // verus!
