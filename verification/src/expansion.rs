//! What a declaration of a pipeline stands for.

use crate::expand::{check_named_graph, find_node, graph_fault, node_position, ExpandFault};
use crate::grammar::{
    shown_edges, shown_nodes, DeclsText, Edge, EdgeText, Endpoint, EndpointText,
    NamedNode, NamedNodeKind, NodeDecls, NodeText, PipelineInput,
};
use crate::merging::{declares_merge, deepest, expr_declares_state_merge};
use crate::text::{concat, decimal, decimal_text};
use crate::tokens::{shown_streams, stream_tokens, TokenText};
use crate::wiring::{is_wiring, plan_wiring, WiringPlan};
use vstd::prelude::*;

verus! {

/// What feeds the output by the first `n` edges.
pub open spec fn output_sources(edges: Seq<EdgeText>, n: nat) -> Seq<EndpointText>
    decreases n,
{
    if n == 0 {
        Seq::empty()
    } else {
        let before = output_sources(edges, (n - 1) as nat);
        if edges[n - 1].to.contains(EndpointText::Output) {
            before + edges[n - 1].from
        } else {
            before
        }
    }
}

/// The node whose states are given back: the only one that feeds the output, which must be one whose
/// code the pipeline runs.
pub open spec fn state_node(nodes: Seq<NodeText>, edges: Seq<EdgeText>) -> Result<int, ExpandFault> {
    let sources = output_sources(edges, edges.len());
    if sources.len() != 1 {
        Err(ExpandFault::StateProducers)
    } else {
        match sources[0] {
            EndpointText::Node(name) => match node_position(nodes, name) {
                None => Err(ExpandFault::UnknownNode),
                Some(i) => if nodes[i].kind is Managed {
                    Ok(i)
                } else {
                    Err(ExpandFault::StateUnmanaged)
                },
            },
            _ => Err(ExpandFault::StateUnmanaged),
        }
    }
}

fn feeds_output(edge: &Edge) -> (r: bool)
    ensures
        r == edge@.to.contains(EndpointText::Output),
{
    for i in 0..edge.to.len()
        invariant
            forall|k: int| 0 <= k < i ==> !((#[trigger] edge.to@[k])@ is Output),
    {
        if matches!(edge.to[i], Endpoint::Output) {
            assert(edge@.to[i as int] == EndpointText::Output);
            return true;
        }
    }
    assert forall|k: int| 0 <= k < edge@.to.len() implies edge@.to[k] != EndpointText::Output by {
        assert(!(edge.to@[k]@ is Output));
    }
    false
}

/// Finds the node whose states are given back.
pub fn find_state_node(nodes: &Vec<NamedNode>, edges: &Vec<Edge>) -> (r: Result<usize, ExpandFault>)
    ensures
        match state_node(shown_nodes(nodes@), shown_edges(edges@)) {
            Ok(i) => r matches Ok(n) && n == i && n < nodes@.len(),
            Err(fault) => r == Err::<usize, ExpandFault>(fault),
        },
{
    let ghost all = shown_edges(edges@);
    let mut count: usize = 0;
    let mut only: Option<(usize, usize)> = None;
    for i in 0..edges.len()
        invariant
            all == shown_edges(edges@),
            count <= 1,
            output_sources(all, i as nat).len() == count,
            match only {
                None => count == 0,
                Some((e, k)) => count == 1 && e < i && k < edges@[e as int].from@.len()
                    && output_sources(all, i as nat)[0] == edges@[e as int].from@[k as int]@,
            },
    {
        assert(all[i as int] == edges@[i as int]@);
        assert(all[i as int].from.len() == edges@[i as int].from@.len());
        if feeds_output(&edges[i]) {
            let more: usize = edges[i].from.len();
            if more > 1 || (count == 1 && more > 0) {
                proof {
                    sources_grow(all, (i + 1) as nat, all.len());
                }
                return Err(ExpandFault::StateProducers);
            }
            if more == 1 {
                assert(all[i as int].from[0] == edges@[i as int].from@[0]@);
                count = 1;
                only = Some((i, 0));
            }
        }
    }
    let (e, k): (usize, usize) = match only {
        Some(found) => found,
        None => {
            return Err(ExpandFault::StateProducers);
        },
    };
    match &edges[e].from[k] {
        Endpoint::Node(name) => match find_node(nodes, name.as_str()) {
            Some(i) => {
                assert(shown_nodes(nodes@)[i as int] == nodes@[i as int]@);
                match nodes[i].kind {
                    NamedNodeKind::Managed(_) => Ok(i),
                    _ => Err(ExpandFault::StateUnmanaged),
                }
            },
            None => Err(ExpandFault::UnknownNode),
        },
        _ => Err(ExpandFault::StateUnmanaged),
    }
}

proof fn sources_grow(edges: Seq<EdgeText>, m: nat, n: nat)
    requires
        m <= n,
    ensures
        output_sources(edges, m).len() <= output_sources(edges, n).len(),
    decreases n,
{
    if m < n {
        sources_grow(edges, m, (n - 1) as nat);
    }
}

/// Whether the expression gives a node whose states can be merged.
pub open spec fn run_merges(run: Seq<TokenText>) -> bool {
    declares_merge(run, deepest())
}

/// Whether the states that a graph gives back can be merged, if it gives any back.
pub open spec fn graph_state_merges(nodes: Seq<NodeText>, edges: Seq<EdgeText>) -> Result<
    bool,
    ExpandFault,
> {
    match state_node(nodes, edges) {
        Ok(i) => Ok(run_merges(nodes[i].kind->Managed_0)),
        Err(fault) => Err(fault),
    }
}

/// Whether the states that a graph gives back can be merged.
pub fn named_return_state_mergeable(nodes: &Vec<NamedNode>, edges: &Vec<Edge>) -> (r: Result<
    bool,
    ExpandFault,
>)
    ensures
        r == graph_state_merges(shown_nodes(nodes@), shown_edges(edges@)),
{
    match find_state_node(nodes, edges) {
        Ok(i) => {
            assert(shown_nodes(nodes@)[i as int] == nodes@[i as int]@);
            match &nodes[i].kind {
                NamedNodeKind::Managed(expr) => Ok(expr_declares_state_merge(expr)),
                _ => Err(ExpandFault::StateUnmanaged),
            }
        },
        Err(fault) => Err(fault),
    }
}

/// How the nodes of a declaration are joined.
#[derive(Debug)]
pub enum ExpansionPlan {
    /// Each takes from what the one before it gives: the node at `i` from the link numbered `i`, onto
    /// the next.
    Linear { nodes: usize },
    Named(WiringPlan),
}

/// Whether the plan is that of the declaration.
pub open spec fn is_plan(plan: ExpansionPlan, nodes: DeclsText, graph: Option<Seq<EdgeText>>) -> bool {
    match (nodes, graph) {
        (DeclsText::Linear(runs), None) => plan matches ExpansionPlan::Linear { nodes } && nodes
            == runs.len(),
        (DeclsText::Named(nodes), Some(edges)) => plan matches ExpansionPlan::Named(wiring)
            && is_wiring(wiring, nodes, edges),
        _ => false,
    }
}

/// What is wrong with the nodes of a declaration and their graph.
pub open spec fn plan_fault(nodes: DeclsText, graph: Option<Seq<EdgeText>>, gives_back: bool) -> Option<
    ExpandFault,
> {
    match (nodes, graph) {
        (DeclsText::Linear(_), None) => None,
        (DeclsText::Linear(_), Some(_)) => Some(ExpandFault::GraphWithoutNames),
        (DeclsText::Named(_), None) => Some(ExpandFault::NamesWithoutGraph),
        (DeclsText::Named(nodes), Some(edges)) => if gives_back && state_node(nodes, edges) is Err {
            Some(state_node(nodes, edges)->Err_0)
        } else {
            graph_fault(nodes, edges)
        },
    }
}

/// Whether the states that a declaration gives back can be merged; nothing where it gives none back.
pub open spec fn plan_merges(nodes: DeclsText, graph: Option<Seq<EdgeText>>, gives_back: bool) -> Option<
    bool,
> {
    if !gives_back {
        None
    } else {
        match nodes {
            DeclsText::Linear(runs) => Some(runs.len() > 0 && run_merges(runs.last())),
            DeclsText::Named(nodes) => Some(graph_state_merges(nodes, graph->0)->Ok_0),
        }
    }
}

/// Plans what a declaration of a pipeline stands for: how its nodes are joined, and whether the states
/// that it gives back, if it does, can be merged.
pub fn plan_expansion(pipeline: &PipelineInput) -> (r: Result<
    (ExpansionPlan, Option<bool>),
    ExpandFault,
>)
    ensures
        match plan_fault(pipeline@.nodes, pipeline@.graph, pipeline@.return_state is Some) {
            Some(fault) => r == Err::<(ExpansionPlan, Option<bool>), ExpandFault>(fault),
            None => r matches Ok(found) && is_plan(found.0, pipeline@.nodes, pipeline@.graph)
                && found.1 == plan_merges(
                pipeline@.nodes,
                pipeline@.graph,
                pipeline@.return_state is Some,
            ),
        },
{
    let gives_back: bool = pipeline.return_state.is_some();
    match (&pipeline.nodes, &pipeline.graph) {
        (NodeDecls::Linear(runs), None) => {
            let count: usize = runs.len();
            assert(shown_streams(runs@).len() == count);
            let merges: Option<bool> = if !gives_back {
                None
            } else if count == 0 {
                Some(false)
            } else {
                assert(shown_streams(runs@).last() == stream_tokens(runs@[count - 1]));
                Some(expr_declares_state_merge(&runs[count - 1]))
            };
            Ok((ExpansionPlan::Linear { nodes: count }, merges))
        },
        (NodeDecls::Linear(_), Some(_)) => Err(ExpandFault::GraphWithoutNames),
        (NodeDecls::Named(_), None) => Err(ExpandFault::NamesWithoutGraph),
        (NodeDecls::Named(nodes), Some(edges)) => {
            let merges: Option<bool> = if gives_back {
                match named_return_state_mergeable(nodes, edges) {
                    Ok(merges) => Some(merges),
                    Err(fault) => {
                        return Err(fault);
                    },
                }
            } else {
                None
            };
            if let Some(fault) = check_named_graph(nodes, edges) {
                return Err(fault);
            }
            Ok((ExpansionPlan::Named(plan_wiring(nodes, edges)), merges))
        },
    }
}

/// The name by which the code of a pipeline speaks of the link with that number.
pub fn link_ident(index: usize) -> (r: String)
    ensures
        r@ == "__piper_link_"@ + decimal(index as nat),
{
    let number: String = decimal_text(index as u64);
    concat("__piper_link_", number.as_str())
}

/// The name by which the code of a pipeline speaks of the token of a node that is run from outside.
pub fn external_ident(name: &str) -> (r: String)
    ensures
        r@ == "__piper_external_"@ + name@,
{
    concat("__piper_external_", name)
}

/// The name of what a pipeline with nodes that are run from outside is started as.
pub fn run_ident(name: &str) -> (r: String)
    ensures
        r@ == name@ + "Run"@,
{
    concat(name, "Run")
}

} // verus!
