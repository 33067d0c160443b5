//! Which graphs can run, and what is said of those that cannot.

use crate::check::{
    check_graph, fault_error, first_node_fault, graph_verdict, has_feedback, is_feedback,
    is_sole_producer, node_fault, output_missing, produces, state_verdict,
    validate_graph_is_acyclic, validate_weighted_branch_config, GraphFault,
};
use crate::config::{FeederLinkConfig, SingleThreadWeightedBranchConfig};
use crate::cycles::{
    comes_back, find_cycle, first_cyclic, has_edge, is_cycle, is_walk, leads_to_cycle,
};
use crate::error::PiperError;
use crate::graph::{GraphNodeSpec, PipelineGraph};
use crate::laws::failures::named;
use std::collections::HashMap;
use vstd::prelude::*;

verus! {

/// Whether the node takes from and puts on links of the graph only.
pub open spec fn stays_in_graph<S, A, R>(node: GraphNodeSpec<S, A, R>, link_count: usize) -> bool {
    &&& node.input_link < link_count
    &&& forall|k: int|
        0 <= k < node.output_links@.len() ==> #[trigger] node.output_links@[k] < link_count
}

/// What is wrong with a branch: its target, then its half life, then the number of its outputs, then a
/// feeder on the left and then on the right. `None` where nothing is.
pub open spec fn branch_complaint<R>(
    complaint: Option<GraphFault>,
    config: SingleThreadWeightedBranchConfig<R>,
    outputs: Seq<usize>,
    i: usize,
    feeders: Map<usize, FeederLinkConfig>,
) -> bool {
    let usable = config.target_is_usable;
    let timed = config.ewma_half_life > 0;
    let two = outputs.len() == 2;
    let fed_left = feeders.dom().contains(outputs[0]);
    let fed_right = feeders.dom().contains(outputs[1]);
    &&& complaint == Some(GraphFault::BranchTarget { node: i }) <==> !usable
    &&& complaint == Some(GraphFault::BranchHalfLife { node: i }) <==> usable && !timed
    &&& complaint == Some(GraphFault::BranchOutputs { node: i }) <==> usable && timed && !two
    &&& complaint == Some(GraphFault::BranchFeeder { node: i, link: 0 }) <==> usable && timed && two
        && fed_left
    &&& complaint == Some(GraphFault::BranchFeeder { node: i, link: 1 }) <==> usable && timed && two
        && !fed_left && fed_right
    &&& complaint is None <==> usable && timed && two && !fed_left && !fed_right
}

/// A branch is complained of exactly where something is wrong with it.
pub proof fn branches_are_checked<R>(
    config: &SingleThreadWeightedBranchConfig<R>,
    outputs: &Vec<usize>,
    i: usize,
    feeders: &HashMap<usize, FeederLinkConfig>,
    r: Option<GraphFault>,
)
    requires
        call_ensures(validate_weighted_branch_config::<R>, (config, outputs, i, feeders), r),
    ensures
        branch_complaint(r, *config, outputs@, i, feeders@),
{
}

/// What is wrong with a node by itself: that it leaves the graph, then what is wrong with it as a
/// branch, or that another node does not have one output. `None` where nothing is.
pub open spec fn node_complaint<S, A, R>(
    complaint: Option<GraphFault>,
    node: GraphNodeSpec<S, A, R>,
    i: usize,
    link_count: usize,
    feeders: Map<usize, FeederLinkConfig>,
) -> bool {
    if !stays_in_graph(node, link_count) {
        complaint == Some(GraphFault::MissingLink { node: i })
    } else if node.weighted_branch_config is Some {
        branch_complaint(
            complaint,
            node.weighted_branch_config->0,
            node.output_links@,
            i,
            feeders,
        )
    } else {
        &&& complaint is None <==> node.output_links@.len() == 1
        &&& complaint is Some ==> complaint == Some(GraphFault::NodeOutputs { node: i })
    }
}

/// Whether nothing is wrong with the node by itself.
pub open spec fn is_sound<S, A, R>(
    node: GraphNodeSpec<S, A, R>,
    link_count: usize,
    feeders: Map<usize, FeederLinkConfig>,
) -> bool {
    &&& stays_in_graph(node, link_count)
    &&& node.weighted_branch_config is None ==> node.output_links@.len() == 1
    &&& node.weighted_branch_config matches Some(config) ==> {
        &&& config.target_is_usable
        &&& config.ewma_half_life > 0
        &&& node.output_links@.len() == 2
        &&& !feeders.dom().contains(node.output_links@[0])
        &&& !feeders.dom().contains(node.output_links@[1])
    }
}

proof fn complaints_are_faults<S, A, R>(
    node: GraphNodeSpec<S, A, R>,
    i: usize,
    link_count: usize,
    feeders: Map<usize, FeederLinkConfig>,
)
    ensures
        node_complaint(node_fault(node, i, link_count, feeders), node, i, link_count, feeders),
        node_fault(node, i, link_count, feeders) is None <==> is_sound(node, link_count, feeders),
{
    if output_missing(node, link_count) {
        let k = choose|k: int|
            0 <= k < node.output_links@.len() && #[trigger] node.output_links@[k] >= link_count;
        assert(!stays_in_graph(node, link_count));
    }
    if node.input_link < link_count && !stays_in_graph(node, link_count) {
        let k = choose|k: int|
            0 <= k < node.output_links@.len() && !(#[trigger] node.output_links@[k] < link_count);
        assert(output_missing(node, link_count));
    }
}

proof fn first_fault_is_first<S, A, R>(
    nodes: Seq<GraphNodeSpec<S, A, R>>,
    i: nat,
    k: int,
    link_count: usize,
    feeders: Map<usize, FeederLinkConfig>,
)
    requires
        i <= k <= nodes.len() <= usize::MAX,
        forall|j: int| i <= j < k ==> is_sound(#[trigger] nodes[j], link_count, feeders),
    ensures
        first_node_fault(nodes, i, link_count, feeders) == first_node_fault(
            nodes,
            k as nat,
            link_count,
            feeders,
        ),
    decreases k - i,
{
    if i < k {
        complaints_are_faults(nodes[i as int], i as usize, link_count, feeders);
        assert(is_sound(nodes[i as int], link_count, feeders));
        first_fault_is_first(nodes, i + 1, k, link_count, feeders);
    }
}

/// Whether items go round: the path leads from a node back to it, each node putting items on a link that
/// the next one takes from.
pub open spec fn goes_round<S, A, R>(nodes: Seq<GraphNodeSpec<S, A, R>>, path: Seq<int>) -> bool {
    &&& path.len() >= 2
    &&& path[0] == path[path.len() - 1]
    &&& forall|k: int| 0 <= k < path.len() ==> 0 <= #[trigger] path[k] < nodes.len()
    &&& forall|k: int|
        0 <= k < path.len() - 1 ==> nodes[#[trigger] path[k]].output_links@.contains(
            nodes[path[k + 1]].input_link,
        )
}

proof fn feedback_goes_round<S, A, R>(nodes: Seq<GraphNodeSpec<S, A, R>>, path: Seq<int>)
    ensures
        is_feedback(nodes, path) == goes_round(nodes, path),
{
    if is_feedback(nodes, path) {
        assert forall|k: int| 0 <= k < path.len() implies 0 <= #[trigger] path[k] < nodes.len() by {
            if k < path.len() - 1 {
                assert(crate::check::feeds(nodes, path[k], path[k + 1]));
            } else {
                assert(crate::check::feeds(nodes, path[k - 1], path[k - 1 + 1]));
            }
        }
        assert forall|k: int| 0 <= k < path.len() - 1 implies nodes[#[trigger] path[k]].output_links@
            .contains(nodes[path[k + 1]].input_link) by {
            assert(crate::check::feeds(nodes, path[k], path[k + 1]));
        }
    }
    if goes_round(nodes, path) {
        assert forall|k: int| 0 <= k < path.len() - 1 implies crate::check::feeds(
            nodes,
            #[trigger] path[k],
            path[k + 1],
        ) by {
            assert(0 <= path[k + 1] < nodes.len());
        }
    }
}

/// A graph passes as free of cycles exactly where items do not go round on any path.
pub proof fn cycles_are_found<S, A, R>(nodes: &Vec<GraphNodeSpec<S, A, R>>, path: Seq<int>, r: bool)
    requires
        call_ensures(validate_graph_is_acyclic::<S, A, R>, (nodes,), r),
    ensures
        goes_round(nodes@, path) ==> !r,
        !r ==> exists|p: Seq<int>| goes_round(nodes@, p),
{
    feedback_goes_round(nodes@, path);
    if !r {
        let p = choose|p: Seq<int>| is_feedback(nodes@, p);
        feedback_goes_round(nodes@, p);
    }
}

/// Whether exactly that node puts items on the link.
pub open spec fn alone_fills<S, A, R>(nodes: Seq<GraphNodeSpec<S, A, R>>, i: int, link: usize) -> bool {
    &&& 0 <= i < nodes.len()
    &&& nodes[i].output_links@.contains(link)
    &&& forall|j: int|
        0 <= j < nodes.len() && j != i ==> !(#[trigger] nodes[j]).output_links@.contains(link)
}

proof fn sole_producers_alone_fill<S, A, R>(
    nodes: Seq<GraphNodeSpec<S, A, R>>,
    i: int,
    link: usize,
)
    ensures
        is_sole_producer(nodes, link, i) == alone_fills(nodes, i, link),
{
    if is_sole_producer(nodes, link, i) {
        assert forall|j: int| 0 <= j < nodes.len() && j != i implies !(
        #[trigger] nodes[j]).output_links@.contains(link) by {
            assert(!produces(nodes, j, link));
        }
    }
    if alone_fills(nodes, i, link) {
        assert forall|j: int| #[trigger] produces(nodes, j, link) implies j == i by {}
    }
}

/// Whether the graph has nodes, its ends are links of it, nothing is wrong with any node by itself, and
/// items do not go round.
pub open spec fn hangs_together<In, Out, S, A, R>(graph: PipelineGraph<In, Out, S, A, R>) -> bool {
    &&& graph.nodes@.len() > 0
    &&& graph.input_link < graph.link_count
    &&& graph.output_link < graph.link_count
    &&& forall|i: int|
        0 <= i < graph.nodes@.len() ==> is_sound(
            #[trigger] graph.nodes@[i],
            graph.link_count,
            graph.feeder_links@,
        )
    &&& forall|path: Seq<int>| !goes_round(graph.nodes@, path)
}

/// Whether some node is an anchor or more than no worker was asked for.
pub open spec fn has_workers<In, Out, S, A, R>(
    graph: PipelineGraph<In, Out, S, A, R>,
    cap: Option<usize>,
) -> bool {
    cap != Some(0usize) || exists|i: int|
        0 <= i < graph.nodes@.len() && (#[trigger] graph.nodes@[i]).is_anchor
}

proof fn whole_graphs_pass_to_states<In, Out, S, A, R>(
    graph: PipelineGraph<In, Out, S, A, R>,
    cap: Option<usize>,
)
    requires
        graph.nodes@.len() <= usize::MAX,
        hangs_together(graph),
    ensures
        graph_verdict(graph, cap) == match state_verdict(
            graph.nodes@,
            graph.output_link,
            graph.state_return,
        ) {
            Err(fault) => Err(fault),
            Ok(node) => if has_workers(graph, cap) {
                Ok(node)
            } else {
                Err(GraphFault::NoWorkers)
            },
        },
{
    first_fault_is_first(
        graph.nodes@,
        0,
        graph.nodes@.len() as int,
        graph.link_count,
        graph.feeder_links@,
    );
    if has_feedback(graph.nodes@) {
        let p = choose|p: Seq<int>| is_feedback(graph.nodes@, p);
        feedback_goes_round(graph.nodes@, p);
    }
}

/// A graph without nodes, or whose ends are not links of it, is refused for that.
pub proof fn graphs_need_nodes_and_ends<In, Out, S, A, R>(
    graph: &PipelineGraph<In, Out, S, A, R>,
    cap: Option<usize>,
    r: Result<Option<usize>, GraphFault>,
)
    requires
        call_ensures(check_graph::<In, Out, S, A, R>, (graph, cap), r),
    ensures
        graph.nodes@.len() == 0 ==> r == Err::<Option<usize>, _>(GraphFault::NoNodes),
        graph.nodes@.len() > 0 && (graph.input_link >= graph.link_count || graph.output_link
            >= graph.link_count) ==> r == Err::<Option<usize>, _>(GraphFault::Boundary),
{
}

/// A graph with nodes and ends is refused for the first node with which something is wrong.
pub proof fn first_bad_node_is_told<In, Out, S, A, R>(
    graph: &PipelineGraph<In, Out, S, A, R>,
    cap: Option<usize>,
    k: int,
    r: Result<Option<usize>, GraphFault>,
)
    requires
        call_ensures(check_graph::<In, Out, S, A, R>, (graph, cap), r),
        graph.input_link < graph.link_count,
        graph.output_link < graph.link_count,
        0 <= k < graph.nodes@.len(),
        !is_sound(graph.nodes@[k], graph.link_count, graph.feeder_links@),
        forall|j: int|
            0 <= j < k ==> is_sound(
                #[trigger] graph.nodes@[j],
                graph.link_count,
                graph.feeder_links@,
            ),
    ensures
        r matches Err(fault) && node_complaint(
            Some(fault),
            graph.nodes@[k],
            k as usize,
            graph.link_count,
            graph.feeder_links@,
        ),
{
    assert(graph.nodes@.len() == graph.nodes.len());
    first_fault_is_first(graph.nodes@, 0, k, graph.link_count, graph.feeder_links@);
    complaints_are_faults(
        graph.nodes@[k],
        k as usize,
        graph.link_count,
        graph.feeder_links@,
    );
}

/// A graph in which nothing is wrong with any node by itself is refused where items go round.
pub proof fn cycles_are_refused<In, Out, S, A, R>(
    graph: &PipelineGraph<In, Out, S, A, R>,
    cap: Option<usize>,
    path: Seq<int>,
    r: Result<Option<usize>, GraphFault>,
)
    requires
        call_ensures(check_graph::<In, Out, S, A, R>, (graph, cap), r),
        graph.input_link < graph.link_count,
        graph.output_link < graph.link_count,
        forall|j: int|
            0 <= j < graph.nodes@.len() ==> is_sound(
                #[trigger] graph.nodes@[j],
                graph.link_count,
                graph.feeder_links@,
            ),
        goes_round(graph.nodes@, path),
    ensures
        r == Err::<Option<usize>, _>(GraphFault::Cycle),
{
    assert(graph.nodes@.len() == graph.nodes.len());
    first_fault_is_first(
        graph.nodes@,
        0,
        graph.nodes@.len() as int,
        graph.link_count,
        graph.feeder_links@,
    );
    feedback_goes_round(graph.nodes@, path);
    assert(0 <= path[0] < graph.nodes@.len());
}

/// A graph that hangs together passes where no states are given back and there are workers; without
/// workers it is refused.
pub proof fn whole_graphs_pass<In, Out, S, A, R>(
    graph: &PipelineGraph<In, Out, S, A, R>,
    cap: Option<usize>,
    r: Result<Option<usize>, GraphFault>,
)
    requires
        call_ensures(check_graph::<In, Out, S, A, R>, (graph, cap), r),
        hangs_together(*graph),
        graph.state_return is None,
    ensures
        has_workers(*graph, cap) ==> r == Ok::<_, GraphFault>(None::<usize>),
        !has_workers(*graph, cap) ==> r == Err::<Option<usize>, _>(GraphFault::NoWorkers),
{
    assert(graph.nodes@.len() == graph.nodes.len());
    whole_graphs_pass_to_states(*graph, cap);
}

/// Where states are given back, they are those of the one node that fills the output link: a node that
/// the pipeline runs itself, and whose states can be merged where they have to be.
pub proof fn states_come_from_the_last_node<In, Out, S, A, R>(
    graph: &PipelineGraph<In, Out, S, A, R>,
    cap: Option<usize>,
    i: int,
    r: Result<Option<usize>, GraphFault>,
)
    requires
        call_ensures(check_graph::<In, Out, S, A, R>, (graph, cap), r),
        hangs_together(*graph),
        graph.state_return is Some,
        alone_fills(graph.nodes@, i, graph.output_link),
    ensures
        ({
            let node = graph.nodes@[i];
            let managed = node.external_index is None && node.weighted_branch_config is None
                && node.stage is Some;
            let merges = !graph.state_return->0.require_merge || node.stage->0.merges_state;
            &&& !managed ==> r == Err::<Option<usize>, _>(GraphFault::StateUnmanaged)
            &&& managed && !merges ==> r == Err::<Option<usize>, _>(
                GraphFault::StateMerge { node: i as usize },
            )
            &&& managed && merges && !has_workers(*graph, cap) ==> r == Err::<Option<usize>, _>(
                GraphFault::NoWorkers,
            )
            &&& managed && merges && has_workers(*graph, cap) ==> r == Ok::<_, GraphFault>(
                Some(i as usize),
            )
        }),
{
    assert(graph.nodes@.len() == graph.nodes.len());
    whole_graphs_pass_to_states(*graph, cap);
    sole_producers_alone_fill(graph.nodes@, i, graph.output_link);
    assert(is_sole_producer(graph.nodes@, graph.output_link, i));
    let j = choose|j: int| is_sole_producer(graph.nodes@, graph.output_link, j);
    assert(produces(graph.nodes@, i, graph.output_link));
    assert(j == i);
}

/// Where states are given back but not exactly one node fills the output link, the graph is refused.
pub proof fn states_need_one_last_node<In, Out, S, A, R>(
    graph: &PipelineGraph<In, Out, S, A, R>,
    cap: Option<usize>,
    r: Result<Option<usize>, GraphFault>,
)
    requires
        call_ensures(check_graph::<In, Out, S, A, R>, (graph, cap), r),
        hangs_together(*graph),
        graph.state_return is Some,
        forall|i: int| !#[trigger] alone_fills(graph.nodes@, i, graph.output_link),
    ensures
        r == Err::<Option<usize>, _>(GraphFault::StateProducers),
{
    assert(graph.nodes@.len() == graph.nodes.len());
    whole_graphs_pass_to_states(*graph, cap);
    assert forall|i: int| !is_sole_producer(graph.nodes@, graph.output_link, i) by {
        sole_producers_alone_fill(graph.nodes@, i, graph.output_link);
        assert(!alone_fills(graph.nodes@, i, graph.output_link));
    }
}

/// Each fault is told by its own error, with the name of the node that it lies with.
pub proof fn faults_are_told<S, A, R, E>(
    fault: GraphFault,
    nodes: &Vec<GraphNodeSpec<S, A, R>>,
    r: PiperError<E>,
)
    requires
        call_ensures(fault_error::<S, A, R, E>, (fault, nodes), r),
    ensures
        match fault {
            GraphFault::NoNodes => r is NoNodes,
            GraphFault::Boundary => r matches PiperError::InvalidGraph { message } && message@
                == "input or output link is outside the graph"@,
            GraphFault::MissingLink { node } => r matches PiperError::InvalidGraph { message }
                && message@ == named(
                "node "@,
                nodes@[node as int].name@,
                " references a missing link"@,
            ),
            GraphFault::BranchTarget {
                node,
            } => r matches PiperError::InvalidWeightedBranchConfig { branch, message } && branch@
                == nodes@[node as int].name@ && message@
                == "target_queue_seconds must be positive and finite"@,
            GraphFault::BranchHalfLife {
                node,
            } => r matches PiperError::InvalidWeightedBranchConfig { branch, message } && branch@
                == nodes@[node as int].name@ && message@
                == "ewma_half_life must be greater than zero"@,
            GraphFault::BranchOutputs { node } => r matches PiperError::InvalidGraph { message }
                && message@ == named(
                "weighted branch "@,
                nodes@[node as int].name@,
                " must have exactly two output links"@,
            ),
            GraphFault::BranchFeeder {
                node,
                link,
            } => r matches PiperError::UnsupportedWeightedBranchFeederOutput { branch, link: l }
                && branch@ == nodes@[node as int].name@ && l == link,
            GraphFault::NodeOutputs { node } => r matches PiperError::InvalidGraph { message }
                && message@ == named(
                "node "@,
                nodes@[node as int].name@,
                " must have exactly one output link"@,
            ),
            GraphFault::Cycle => r matches PiperError::InvalidGraph { message } && message@
                == "graph cycles are not supported"@,
            GraphFault::StateProducers => r matches PiperError::InvalidGraph { message } && message@
                == "return_state requires exactly one managed node to feed `output`"@,
            GraphFault::StateUnmanaged => r matches PiperError::InvalidGraph { message } && message@
                == "return_state requires the final output producer to be a managed node"@,
            GraphFault::StateMerge { node } => r matches PiperError::MissingStateMerge { node: n }
                && n@ == nodes@[node as int].name@,
            GraphFault::NoWorkers => r matches PiperError::InvalidGraph { message } && message@
                == "graphs without anchor nodes require a finite non-zero worker cap"@,
        },
{
}

/// A cycle is found in a list of successors exactly where a path along it comes back to where it began.
pub proof fn cycles_come_back(adjacency: &Vec<Vec<usize>>, path: Seq<int>, r: bool)
    requires
        call_ensures(find_cycle, (adjacency,), r),
        path.len() >= 2,
        path[0] == path[path.len() - 1],
        forall|k: int| 0 <= k < path.len() ==> 0 <= #[trigger] path[k] < adjacency@.len(),
        forall|k: int|
            0 <= k < path.len() - 1 ==> adjacency@[#[trigger] path[k]]@.contains(
                path[k + 1] as usize,
            ),
    ensures
        r,
{
    assert(adjacency@.len() == adjacency.len());
    assert forall|k: int| 0 <= k < path.len() - 1 implies crate::cycles::has_edge(
        adjacency@,
        #[trigger] path[k],
        path[k + 1],
    ) by {
        let row = adjacency@[path[k]]@;
        let j = choose|j: int| 0 <= j < row.len() && row[j] == path[k + 1] as usize;
        assert(0 <= path[k + 1] < adjacency@.len());
        assert(row[j] == path[k + 1]);
    }
    assert(crate::cycles::is_walk(adjacency@, path));
    assert(crate::cycles::is_cycle(adjacency@, path));
}

/// A cycle is found only where some path along the list comes back to where it began, and the node that is
/// found first is the first from which a path comes to a node for the second time.
pub proof fn found_cycles_are_there(
    adjacency: &Vec<Vec<usize>>,
    found: bool,
    first: Option<usize>,
    i: int,
    path: Seq<int>,
)
    requires
        call_ensures(find_cycle, (adjacency,), found),
        call_ensures(first_cyclic, (adjacency,), first),
    ensures
        found ==> exists|p: Seq<int>| #[trigger] comes_round(adjacency@, p) && p[0] == p[p.len() - 1],
        first is Some ==> found,
        first matches Some(f) ==> exists|p: Seq<int>| #[trigger] comes_round(adjacency@, p) && p[0] == f,
        0 <= i && comes_round(adjacency@, path) && path[0] == i ==> (first matches Some(f) ==> f <= i),
{
    assert forall|p: Seq<int>| #[trigger] comes_round(adjacency@, p) <==> comes_back(
        adjacency@,
        p,
    ) by {
        rounds_come_back(adjacency@, p);
    }
    if found {
        let p = choose|p: Seq<int>| is_cycle(adjacency@, p);
        assert(p.drop_last()[0] == p.last());
        assert(comes_back(adjacency@, p));
        assert(comes_round(adjacency@, p));
    }
    if let Some(f) = first {
        let p = choose|p: Seq<int>| #[trigger] comes_back(adjacency@, p) && p[0] == f;
        assert(comes_round(adjacency@, p));
        let a = choose|a: int| 0 <= a < p.drop_last().len() && p.drop_last()[a] == p.last();
        let tail = p.skip(a);
        assert forall|k: int| 0 <= k < tail.len() - 1 implies has_edge(
            adjacency@,
            #[trigger] tail[k],
            tail[k + 1],
        ) by {
            assert(has_edge(adjacency@, p[a + k], p[a + k + 1]));
        }
        assert(is_walk(adjacency@, tail));
        assert(is_cycle(adjacency@, tail));
        if 0 <= i && comes_round(adjacency@, path) && path[0] == i && i < f {
            assert(comes_back(adjacency@, path));
            assert(leads_to_cycle(adjacency@, i));
        }
    }
}

/// Whether the path follows the list and comes at its end to a node for the second time.
pub open spec fn comes_round(adjacency: Seq<Vec<usize>>, path: Seq<int>) -> bool {
    &&& path.len() >= 2
    &&& forall|k: int|
        0 <= k < path.len() - 1 ==> 0 <= #[trigger] path[k] < adjacency.len() && exists|j: int|
            0 <= j < adjacency[path[k]]@.len() && #[trigger] adjacency[path[k]]@[j] == path[k + 1]
    &&& exists|a: int| 0 <= a < path.len() - 1 && #[trigger] path[a] == path[path.len() - 1]
}

proof fn rounds_come_back(adjacency: Seq<Vec<usize>>, path: Seq<int>)
    ensures
        comes_round(adjacency, path) <==> comes_back(adjacency, path),
{
    if comes_round(adjacency, path) {
        let a = choose|a: int| 0 <= a < path.len() - 1 && #[trigger] path[a] == path[path.len() - 1];
        assert(path.drop_last()[a] == path.last());
        assert forall|k: int| 0 <= k < path.len() - 1 implies has_edge(
            adjacency,
            #[trigger] path[k],
            path[k + 1],
        ) by {
            assert(0 <= path[k] < adjacency.len());
        }
    }
    if comes_back(adjacency, path) {
        let a = choose|a: int| 0 <= a < path.drop_last().len() && path.drop_last()[a] == path.last();
        assert(path[a] == path[path.len() - 1]);
        assert forall|k: int| 0 <= k < path.len() - 1 implies 0 <= #[trigger] path[k] < adjacency.len()
            && exists|j: int|
            0 <= j < adjacency[path[k]]@.len() && #[trigger] adjacency[path[k]]@[j] == path[k + 1] by {
            assert(has_edge(adjacency, path[k], path[k + 1]));
        }
    }
}

} // verus!
