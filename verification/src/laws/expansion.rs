//! What a declared pipeline stands for.

use crate::construction::{
    expand_linear_graph, expand_named_graph, named_steps, outside_nodes, plan_code, BuildStep,
    PipelineCode, Returned,
};
use crate::expand::{
    around, check_named_graph, dest_fault, dest_key, dests_fault, detect_cycles, edge_fault,
    edges_fault, first_around, goes_around, is_dest, is_source, leads_to, loose_node, named,
    node_position, source_fault, source_key, validate_endpoint, ExpandFault,
};
use crate::expansion::{
    external_ident, find_state_node, link_ident, named_return_state_mergeable, output_sources,
    plan_expansion, run_ident, ExpansionPlan,
};
use crate::grammar::{
    shown_edges, shown_nodes, DeclsText, Edge, EdgeText, Endpoint, EndpointText, NamedNode,
    NodeKindText, NodeText, PipelineInput,
};
use crate::merging::{
    call_declares_state_merge, declares_merge, each_declares, expr_declares_state_merge,
    expr_path_last_ident, look_through,
};
use crate::scaling::first_from_is_first;
use crate::text::decimal;
use crate::tokens::{expr_part, shown_part, stream_tokens, ExprPart, PartText, TokenText};
use crate::wiring::{is_wiring, plan_wiring, WiringPlan};
use proc_macro2::TokenStream;
use vstd::prelude::*;

verus! {

/// Whether a node of that name is declared.
pub open spec fn is_declared(nodes: Seq<NodeText>, name: Seq<char>) -> bool {
    exists|i: int| 0 <= i < nodes.len() && (#[trigger] nodes[i]).name == name
}

/// Whether the node at `i` is the first of its name.
pub open spec fn is_first_named(nodes: Seq<NodeText>, i: int) -> bool {
    &&& 0 <= i < nodes.len()
    &&& forall|j: int| 0 <= j < i ==> (#[trigger] nodes[j]).name != nodes[i].name
}

proof fn positions_are_first(nodes: Seq<NodeText>, name: Seq<char>)
    ensures
        node_position(nodes, name) is None <==> !is_declared(nodes, name),
        node_position(nodes, name) matches Some(i) ==> is_first_named(nodes, i) && nodes[i].name
            == name,
{
    first_from_is_first(named(nodes, name), 0, nodes.len() as int);
    match node_position(nodes, name) {
        None => {
            if is_declared(nodes, name) {
                let i = choose|i: int| 0 <= i < nodes.len() && (#[trigger] nodes[i]).name == name;
                assert(named(nodes, name)(i));
            }
        },
        Some(i) => {
            assert(named(nodes, name)(i));
            assert forall|j: int| 0 <= j < i implies (#[trigger] nodes[j]).name != nodes[i].name by {
                assert(!named(nodes, name)(j));
            }
        },
    }
}

proof fn first_is_position(nodes: Seq<NodeText>, i: int)
    requires
        0 <= i < nodes.len(),
    ensures
        node_position(nodes, nodes[i].name) == Some(i) <==> is_first_named(nodes, i),
{
    positions_are_first(nodes, nodes[i].name);
    assert(is_declared(nodes, nodes[i].name));
    let k = node_position(nodes, nodes[i].name)->0;
    if is_first_named(nodes, i) && k != i {
        if k < i {
            assert(nodes[k].name != nodes[i].name);
        } else {
            assert(nodes[i].name != nodes[k].name);
        }
    }
}

/// What is wrong with an end that an edge begins at. `None` where nothing is.
pub open spec fn source_complaint(
    complaint: Option<ExpandFault>,
    end: EndpointText,
    nodes: Seq<NodeText>,
) -> bool {
    match end {
        EndpointText::Input => complaint is None,
        EndpointText::Output => complaint == Some(ExpandFault::OutputAsSource),
        EndpointText::Node(name) => {
            &&& is_declared(nodes, name) ==> complaint is None
            &&& !is_declared(nodes, name) ==> complaint == Some(ExpandFault::UnknownNode)
        },
    }
}

/// What is wrong with an end that an edge leads to. `None` where nothing is.
pub open spec fn dest_complaint(
    complaint: Option<ExpandFault>,
    end: EndpointText,
    nodes: Seq<NodeText>,
) -> bool {
    match end {
        EndpointText::Input => complaint == Some(ExpandFault::InputAsDestination),
        EndpointText::Output => complaint is None,
        EndpointText::Node(name) => {
            &&& is_declared(nodes, name) ==> complaint is None
            &&& !is_declared(nodes, name) ==> complaint == Some(ExpandFault::UnknownNode)
        },
    }
}

proof fn end_complaints(end: EndpointText, nodes: Seq<NodeText>)
    ensures
        source_complaint(source_fault(end, nodes), end, nodes),
        dest_complaint(dest_fault(end, nodes), end, nodes),
{
    if let EndpointText::Node(name) = end {
        positions_are_first(nodes, name);
    }
}

/// A named end must be declared; the pipeline's own ends need not be.
pub proof fn ends_must_be_declared(
    endpoint: &Endpoint,
    nodes: &Vec<NamedNode>,
    r: Result<(), ExpandFault>,
)
    requires
        call_ensures(validate_endpoint, (endpoint, nodes), r),
    ensures
        r is Err <==> (endpoint@ matches EndpointText::Node(name) && !is_declared(
            shown_nodes(nodes@),
            name,
        )),
        r matches Err(fault) ==> fault == ExpandFault::UnknownNode,
{
    if let EndpointText::Node(name) = endpoint@ {
        positions_are_first(shown_nodes(nodes@), name);
    }
}

/// The key of an end tells which side of what is meant; the output begins nothing, and nothing leads to
/// the input.
pub proof fn ends_have_keys(
    endpoint: &Endpoint,
    source: Result<String, ExpandFault>,
    dest: Result<String, ExpandFault>,
)
    requires
        call_ensures(source_key, (endpoint,), source),
        call_ensures(dest_key, (endpoint,), dest),
    ensures
        match endpoint@ {
            EndpointText::Input => source is Ok && source->Ok_0@ == "input:out"@ && dest == Err::<
                String,
                _,
            >(ExpandFault::InputAsDestination),
            EndpointText::Output => source == Err::<String, _>(ExpandFault::OutputAsSource)
                && dest is Ok && dest->Ok_0@ == "output:in"@,
            EndpointText::Node(name) => source is Ok && source->Ok_0@ == name + ":out"@ && dest is Ok
                && dest->Ok_0@ == name + ":in"@,
        },
{
}

/// Whether nothing is wrong with the end where an edge begins.
pub open spec fn can_begin(end: EndpointText, nodes: Seq<NodeText>) -> bool {
    end is Input || (end matches EndpointText::Node(name) && is_declared(nodes, name))
}

/// Whether nothing is wrong with the end where an edge leads.
pub open spec fn can_end(end: EndpointText, nodes: Seq<NodeText>) -> bool {
    end is Output || (end matches EndpointText::Node(name) && is_declared(nodes, name))
}

/// Whether nothing is wrong with the edge. One that begins nowhere leads nowhere.
pub open spec fn is_good_edge(edge: EdgeText, nodes: Seq<NodeText>) -> bool {
    &&& forall|k: int| 0 <= k < edge.from.len() ==> can_begin(#[trigger] edge.from[k], nodes)
    &&& edge.from.len() > 0 ==> forall|m: int|
        0 <= m < edge.to.len() ==> can_end(#[trigger] edge.to[m], nodes)
}

proof fn dests_are_searched(to: Seq<EndpointText>, k: int, m: int, nodes: Seq<NodeText>)
    requires
        0 <= k <= m <= to.len(),
        forall|j: int| k <= j < m ==> can_end(#[trigger] to[j], nodes),
    ensures
        dests_fault(to, k, nodes) == dests_fault(to, m, nodes),
    decreases m - k,
{
    if k < m {
        end_complaints(to[k], nodes);
        assert(can_end(to[k], nodes));
        dests_are_searched(to, k + 1, m, nodes);
    }
}

proof fn sources_are_searched(edge: EdgeText, k: int, m: int, nodes: Seq<NodeText>)
    requires
        0 <= k <= m <= edge.from.len(),
        forall|j: int| k <= j < m ==> can_begin(#[trigger] edge.from[j], nodes),
        forall|j: int| 0 <= j < edge.to.len() ==> can_end(#[trigger] edge.to[j], nodes),
    ensures
        edge_fault(edge, k, nodes) == edge_fault(edge, m, nodes),
    decreases m - k,
{
    if k < m {
        end_complaints(edge.from[k], nodes);
        assert(can_begin(edge.from[k], nodes));
        dests_are_searched(edge.to, 0, edge.to.len() as int, nodes);
        sources_are_searched(edge, k + 1, m, nodes);
    }
}

proof fn good_edges_have_no_fault(edge: EdgeText, nodes: Seq<NodeText>)
    requires
        is_good_edge(edge, nodes),
    ensures
        edge_fault(edge, 0, nodes) is None,
{
    if edge.from.len() > 0 {
        sources_are_searched(edge, 0, edge.from.len() as int, nodes);
    }
}

pub(crate) proof fn edges_are_searched(edges: Seq<EdgeText>, i: int, n: int, nodes: Seq<NodeText>)
    requires
        0 <= i <= n <= edges.len(),
        forall|j: int| i <= j < n ==> is_good_edge(#[trigger] edges[j], nodes),
    ensures
        edges_fault(edges, i, nodes) == edges_fault(edges, n, nodes),
    decreases n - i,
{
    if i < n {
        assert(is_good_edge(edges[i], nodes));
        good_edges_have_no_fault(edges[i], nodes);
        edges_are_searched(edges, i + 1, n, nodes);
    }
}

/// The first bad edge is told: its first source where that is bad, else its first bad destination, else its
/// first bad source.
pub proof fn first_bad_edge_is_told(
    nodes: &Vec<NamedNode>,
    edges: &Vec<Edge>,
    e: int,
    k: int,
    m: int,
    r: Option<ExpandFault>,
)
    requires
        call_ensures(check_named_graph, (nodes, edges), r),
        0 <= e < edges@.len(),
        forall|j: int|
            0 <= j < e ==> is_good_edge(#[trigger] shown_edges(edges@)[j], shown_nodes(nodes@)),
    ensures
        ({
            let decls = shown_nodes(nodes@);
            let edge = shown_edges(edges@)[e];
            let dests_good = forall|j: int|
                0 <= j < edge.to.len() ==> can_end(#[trigger] edge.to[j], decls);
            &&& edge.from.len() > 0 && !can_begin(edge.from[0], decls) ==> source_complaint(
                r,
                edge.from[0],
                decls,
            )
            &&& edge.from.len() > 0 && can_begin(edge.from[0], decls) && 0 <= m < edge.to.len()
                && !can_end(edge.to[m], decls) && (forall|j: int|
                0 <= j < m ==> can_end(#[trigger] edge.to[j], decls)) ==> dest_complaint(
                r,
                edge.to[m],
                decls,
            )
            &&& dests_good && 0 <= k < edge.from.len() && !can_begin(edge.from[k], decls) && (forall|
                j: int,
            |
                0 <= j < k ==> can_begin(#[trigger] edge.from[j], decls)) ==> source_complaint(
                r,
                edge.from[k],
                decls,
            )
        }),
{
    let decls = shown_nodes(nodes@);
    let all = shown_edges(edges@);
    let edge = all[e];
    edges_are_searched(all, 0, e, decls);
    if edge.from.len() > 0 {
        end_complaints(edge.from[0], decls);
        if can_begin(edge.from[0], decls) && 0 <= m < edge.to.len() && !can_end(edge.to[m], decls)
            && forall|j: int| 0 <= j < m ==> can_end(#[trigger] edge.to[j], decls) {
            end_complaints(edge.to[m], decls);
            dests_are_searched(edge.to, 0, m, decls);
        }
        if (forall|j: int| 0 <= j < edge.to.len() ==> can_end(#[trigger] edge.to[j], decls)) && 0
            <= k < edge.from.len() && !can_begin(edge.from[k], decls) && forall|j: int|
            0 <= j < k ==> can_begin(#[trigger] edge.from[j], decls) {
            end_complaints(edge.from[k], decls);
            sources_are_searched(edge, 0, k, decls);
        }
    }
}

/// Whether some edge begins there.
pub open spec fn begins_some_edge(edges: Seq<EdgeText>, end: EndpointText) -> bool {
    exists|e: int, k: int|
        0 <= e < edges.len() && 0 <= k < edges[e].from.len() && #[trigger] edges[e].from[k] == end
}

/// Whether some edge that begins somewhere leads there.
pub open spec fn ends_some_edge(edges: Seq<EdgeText>, end: EndpointText) -> bool {
    exists|e: int, k: int|
        0 <= e < edges.len() && edges[e].from.len() > 0 && 0 <= k < edges[e].to.len()
            && #[trigger] edges[e].to[k] == end
}

proof fn edges_touch(edges: Seq<EdgeText>, end: EndpointText)
    ensures
        is_source(edges, end) == begins_some_edge(edges, end),
        is_dest(edges, end) == ends_some_edge(edges, end),
{
    if is_source(edges, end) {
        let e = choose|e: int| 0 <= e < edges.len() && (#[trigger] edges[e]).from.contains(end);
        let k = choose|k: int| 0 <= k < edges[e].from.len() && edges[e].from[k] == end;
        assert(edges[e].from[k] == end);
    }
    if begins_some_edge(edges, end) {
        let (e, k) = choose|e: int, k: int|
            0 <= e < edges.len() && 0 <= k < edges[e].from.len() && #[trigger] edges[e].from[k]
                == end;
        assert(edges[e].from.contains(end));
    }
    if is_dest(edges, end) {
        let e = choose|e: int|
            0 <= e < edges.len() && (#[trigger] edges[e]).from.len() > 0 && edges[e].to.contains(end);
        let k = choose|k: int| 0 <= k < edges[e].to.len() && edges[e].to[k] == end;
        assert(edges[e].to[k] == end);
    }
    if ends_some_edge(edges, end) {
        let (e, k) = choose|e: int, k: int|
            0 <= e < edges.len() && edges[e].from.len() > 0 && 0 <= k < edges[e].to.len()
                && #[trigger] edges[e].to[k] == end;
        assert(edges[e].to.contains(end));
    }
}

/// Whether edges lead to the node and from it.
pub open spec fn is_tied(nodes: Seq<NodeText>, edges: Seq<EdgeText>, i: int) -> bool {
    &&& ends_some_edge(edges, EndpointText::Node(nodes[i].name))
    &&& begins_some_edge(edges, EndpointText::Node(nodes[i].name))
}

proof fn loose_nodes_are_searched(nodes: Seq<NodeText>, edges: Seq<EdgeText>, i: int, n: int)
    requires
        0 <= i <= n <= nodes.len(),
        forall|j: int| i <= j < n ==> #[trigger] is_tied(nodes, edges, j),
    ensures
        loose_node(nodes, edges, i) == loose_node(nodes, edges, n),
    decreases n - i,
{
    if i < n {
        assert(is_tied(nodes, edges, i));
        edges_touch(edges, EndpointText::Node(nodes[i].name));
        loose_nodes_are_searched(nodes, edges, i + 1, n);
    }
}

/// Whether some edge leads from the one node to the other, each the first of its name.
pub open spec fn leads_on(nodes: Seq<NodeText>, edges: Seq<EdgeText>, i: int, j: int) -> bool {
    &&& is_first_named(nodes, i)
    &&& is_first_named(nodes, j)
    &&& exists|e: int|
        0 <= e < edges.len() && (#[trigger] edges[e]).from.contains(EndpointText::Node(nodes[i].name))
            && edges[e].to.contains(EndpointText::Node(nodes[j].name))
}

proof fn leading_on(nodes: Seq<NodeText>, edges: Seq<EdgeText>, i: int, j: int)
    ensures
        leads_to(nodes, edges, i, j) == leads_on(nodes, edges, i, j),
{
    if 0 <= i < nodes.len() {
        first_is_position(nodes, i);
    }
    if 0 <= j < nodes.len() {
        first_is_position(nodes, j);
    }
}

/// Whether the path begins at the node, follows edges, and comes to a node for the second time.
pub open spec fn goes_in_a_circle(
    nodes: Seq<NodeText>,
    edges: Seq<EdgeText>,
    path: Seq<int>,
    i: int,
) -> bool {
    &&& path.len() >= 2
    &&& path[0] == i
    &&& forall|k: int|
        0 <= k < path.len() - 1 ==> leads_on(nodes, edges, #[trigger] path[k], path[k + 1])
    &&& exists|a: int| 0 <= a < path.len() - 1 && #[trigger] path[a] == path[path.len() - 1]
}

proof fn circles_are_around(nodes: Seq<NodeText>, edges: Seq<EdgeText>, path: Seq<int>, i: int)
    ensures
        goes_in_a_circle(nodes, edges, path, i) <==> goes_around(nodes, edges, path) && path[0] == i,
{
    assert forall|a: int, b: int| leads_to(nodes, edges, a, b) == #[trigger] leads_on(
        nodes,
        edges,
        a,
        b,
    ) by {
        leading_on(nodes, edges, a, b);
    }
    if goes_in_a_circle(nodes, edges, path, i) {
        let a = choose|a: int| 0 <= a < path.len() - 1 && #[trigger] path[a] == path[path.len() - 1];
        assert(path.drop_last()[a] == path.last());
        assert forall|k: int| 0 <= k < path.len() - 1 implies leads_to(
            nodes,
            edges,
            #[trigger] path[k],
            path[k + 1],
        ) by {
            assert(leads_on(nodes, edges, path[k], path[k + 1]));
        }
    }
    if goes_around(nodes, edges, path) && path[0] == i {
        let a = choose|a: int| 0 <= a < path.drop_last().len() && path.drop_last()[a] == path.last();
        assert(path[a] == path[path.len() - 1]);
        assert forall|k: int| 0 <= k < path.len() - 1 implies leads_on(
            nodes,
            edges,
            #[trigger] path[k],
            path[k + 1],
        ) by {
            assert(leads_to(nodes, edges, path[k], path[k + 1]));
        }
    }
}

/// A graph with good edges must use its input, then its output, then tie every node, the first loose one
/// being told, first for want of an edge to it and then from it.
pub proof fn loose_ends_are_told(
    nodes: &Vec<NamedNode>,
    edges: &Vec<Edge>,
    i: int,
    r: Option<ExpandFault>,
)
    requires
        call_ensures(check_named_graph, (nodes, edges), r),
        forall|j: int|
            0 <= j < edges@.len() ==> is_good_edge(
                #[trigger] shown_edges(edges@)[j],
                shown_nodes(nodes@),
            ),
    ensures
        ({
            let decls = shown_nodes(nodes@);
            let all = shown_edges(edges@);
            let starts = begins_some_edge(all, EndpointText::Input);
            let ends = ends_some_edge(all, EndpointText::Output);
            &&& !starts ==> r == Some(ExpandFault::InputUnused)
            &&& starts && !ends ==> r == Some(ExpandFault::OutputUnused)
            &&& starts && ends && 0 <= i < decls.len() && !is_tied(decls, all, i) && (forall|j: int|
                0 <= j < i ==> #[trigger] is_tied(decls, all, j)) ==> r == Some(
                if !ends_some_edge(all, EndpointText::Node(decls[i].name)) {
                    ExpandFault::NodeWithoutInput { node: i as usize }
                } else {
                    ExpandFault::NodeWithoutOutput { node: i as usize }
                },
            )
        }),
{
    let decls = shown_nodes(nodes@);
    let all = shown_edges(edges@);
    edges_are_searched(all, 0, all.len() as int, decls);
    edges_touch(all, EndpointText::Input);
    edges_touch(all, EndpointText::Output);
    if 0 <= i < decls.len() && !is_tied(decls, all, i) && forall|j: int|
        0 <= j < i ==> #[trigger] is_tied(decls, all, j) {
        loose_nodes_are_searched(decls, all, 0, i);
        edges_touch(all, EndpointText::Node(decls[i].name));
    }
}

/// A graph with good edges, that uses its input and its output and ties every node, is good exactly where
/// no path goes in a circle; otherwise the first node is told from which one does.
pub proof fn circles_are_told(
    nodes: &Vec<NamedNode>,
    edges: &Vec<Edge>,
    i: int,
    path: Seq<int>,
    r: Option<ExpandFault>,
)
    requires
        call_ensures(check_named_graph, (nodes, edges), r),
        forall|j: int|
            0 <= j < edges@.len() ==> is_good_edge(
                #[trigger] shown_edges(edges@)[j],
                shown_nodes(nodes@),
            ),
        begins_some_edge(shown_edges(edges@), EndpointText::Input),
        ends_some_edge(shown_edges(edges@), EndpointText::Output),
        forall|j: int|
            0 <= j < nodes@.len() ==> #[trigger] is_tied(
                shown_nodes(nodes@),
                shown_edges(edges@),
                j,
            ),
    ensures
        (forall|p: Seq<int>, j: int|
            !#[trigger] goes_in_a_circle(shown_nodes(nodes@), shown_edges(edges@), p, j))
            ==> r is None,
        goes_in_a_circle(shown_nodes(nodes@), shown_edges(edges@), path, i) && (forall|
            p: Seq<int>,
            j: int,
        |
            0 <= j < i ==> !#[trigger] goes_in_a_circle(
                shown_nodes(nodes@),
                shown_edges(edges@),
                p,
                j,
            )) ==> r == Some(ExpandFault::Cycle { node: i as usize }),
{
    let decls = shown_nodes(nodes@);
    let all = shown_edges(edges@);
    edges_are_searched(all, 0, all.len() as int, decls);
    edges_touch(all, EndpointText::Input);
    edges_touch(all, EndpointText::Output);
    loose_nodes_are_searched(decls, all, 0, decls.len() as int);
    first_from_is_first(around(decls, all), 0, decls.len() as int);
    assert forall|p: Seq<int>, j: int| #[trigger]
        goes_in_a_circle(decls, all, p, j) == (goes_around(decls, all, p) && p[0] == j) by {
        circles_are_around(decls, all, p, j);
    }
    match first_around(decls, all) {
        Some(f) => {
            assert(around(decls, all)(f));
            let p = choose|p: Seq<int>| #[trigger] goes_around(decls, all, p) && p[0] == f;
            assert(goes_in_a_circle(decls, all, p, f));
            if goes_in_a_circle(decls, all, path, i) {
                assert(goes_around(decls, all, path) && path[0] == i);
                assert(leads_on(decls, all, path[0], path[0int + 1]));
                assert(around(decls, all)(i));
            }
        },
        None => {
            if goes_in_a_circle(decls, all, path, i) {
                assert(goes_around(decls, all, path) && path[0] == i);
                assert(leads_on(decls, all, path[0], path[0int + 1]));
                assert(around(decls, all)(i));
            }
        },
    }
}

/// Everything that leads to the output, edge by edge.
pub open spec fn feeding_output(edges: Seq<EdgeText>) -> Seq<EndpointText> {
    edges.filter(|edge: EdgeText| edge.to.contains(EndpointText::Output)).map_values(
        |edge: EdgeText| edge.from,
    ).flatten()
}

proof fn sources_feed_output(edges: Seq<EdgeText>, n: nat)
    requires
        n <= edges.len(),
    ensures
        output_sources(edges, n) == feeding_output(edges.take(n as int)),
    decreases n,
{
    reveal(Seq::filter);
    let p = |edge: EdgeText| edge.to.contains(EndpointText::Output);
    let f = |edge: EdgeText| edge.from;
    if n > 0 {
        sources_feed_output(edges, (n - 1) as nat);
        let before = edges.take(n - 1);
        assert(edges.take(n as int).drop_last() == before);
        assert(edges.take(n as int).last() == edges[n - 1]);
        if p(edges[n - 1]) {
            let kept = before.filter(p);
            assert(edges.take(n as int).filter(p) == kept.push(edges[n - 1]));
            assert(kept.push(edges[n - 1]).map_values(f) =~= kept.map_values(f).push(
                edges[n - 1].from,
            ));
            kept.map_values(f).lemma_flatten_push(edges[n - 1].from);
        }
    } else {
        assert(edges.take(0).filter(p).map_values(f) =~= Seq::<Seq<EndpointText>>::empty());
        assert(feeding_output(edges.take(0)) =~= Seq::<EndpointText>::empty());
    }
}

/// States come from the only end that feeds the output: a declared node whose code the pipeline runs.
/// Anything else is told.
pub proof fn states_come_from_the_only_feeder(
    nodes: &Vec<NamedNode>,
    edges: &Vec<Edge>,
    r: Result<usize, ExpandFault>,
)
    requires
        call_ensures(find_state_node, (nodes, edges), r),
    ensures
        ({
            let decls = shown_nodes(nodes@);
            let feeding = feeding_output(shown_edges(edges@));
            &&& feeding.len() != 1 ==> r == Err::<usize, _>(ExpandFault::StateProducers)
            &&& feeding.len() == 1 ==> match feeding[0] {
                EndpointText::Node(name) => {
                    &&& !is_declared(decls, name) ==> r == Err::<usize, _>(ExpandFault::UnknownNode)
                    &&& forall|i: int| #[trigger]
                        is_first_named(decls, i) && decls[i].name == name ==> {
                            &&& decls[i].kind is Managed ==> (r matches Ok(found) && found == i)
                            &&& decls[i].kind is External ==> r == Err::<usize, _>(
                                ExpandFault::StateUnmanaged,
                            )
                        }
                },
                _ => r == Err::<usize, _>(ExpandFault::StateUnmanaged),
            }
        }),
{
    let decls = shown_nodes(nodes@);
    let all = shown_edges(edges@);
    sources_feed_output(all, all.len());
    assert(all.take(all.len() as int) == all);
    let feeding = feeding_output(all);
    if feeding.len() == 1 {
        if let EndpointText::Node(name) = feeding[0] {
            positions_are_first(decls, name);
            assert forall|i: int| #[trigger]
                is_first_named(decls, i) && decls[i].name == name implies node_position(
                decls,
                name,
            ) == Some(i) by {
                first_is_position(decls, i);
            }
        }
    }
}

/// The states of a graph can be merged exactly where the node that they come from says so; where there is
/// no such node, that is told.
pub proof fn graph_states_merge_as_declared(
    nodes: &Vec<NamedNode>,
    edges: &Vec<Edge>,
    found: Result<usize, ExpandFault>,
    r: Result<bool, ExpandFault>,
)
    requires
        call_ensures(find_state_node, (nodes, edges), found),
        call_ensures(named_return_state_mergeable, (nodes, edges), r),
    ensures
        found matches Err(fault) ==> r == Err::<bool, _>(fault),
        found matches Ok(i) ==> i < nodes@.len() && (shown_nodes(
            nodes@,
        )[i as int].kind matches NodeKindText::Managed(expr) ==> r == Ok::<bool, ExpandFault>(
            declares_merge(expr, usize::MAX as nat),
        )),
{
}

/// Whether an expression gives a node whose states can be merged is told by what it is: a call gives one
/// where it calls `node_with_state_merge`, by the last name of its path, or where what it calls or one
/// of its arguments gives one; a method call, parentheses, a group, a reference and a try give what is
/// inside. Nothing else gives one.
pub proof fn expressions_declare_merges(tokens: Seq<TokenText>, depth: nat)
    ensures
        !declares_merge(tokens, 0),
        ({
            let deep = declares_merge(tokens, depth + 1);
            match expr_part(tokens) {
                None => !deep,
                Some(PartText::Path(segments)) => !deep,
                Some(PartText::Other) => !deep,
                Some(PartText::MethodCall(receiver, method, args)) => deep == declares_merge(
                    receiver,
                    depth,
                ),
                Some(PartText::Paren(inner)) => deep == declares_merge(inner, depth),
                Some(PartText::Group(inner)) => deep == declares_merge(inner, depth),
                Some(PartText::Reference(inner)) => deep == declares_merge(inner, depth),
                Some(PartText::Try(inner)) => deep == declares_merge(inner, depth),
                Some(PartText::Call(callee, args)) => deep <==> {
                    ||| expr_part(callee) matches Some(PartText::Path(segments)) && segments.len() > 0
                        && segments[segments.len() - 1] == "node_with_state_merge"@
                    ||| declares_merge(callee, depth)
                    ||| exists|i: int|
                        0 <= i < args.len() && #[trigger] declares_merge(args[i], depth)
                },
            }
        }),
{
    if let Some(PartText::Call(callee, args)) = expr_part(tokens) {
        let each = each_declares(args, depth);
        if exists|i: int| 0 <= i < args.len() && #[trigger] declares_merge(args[i], depth) {
            let i = choose|i: int| 0 <= i < args.len() && #[trigger] declares_merge(args[i], depth);
            assert(each[i] == true);
        }
        if each.contains(true) {
            let i = choose|i: int| 0 <= i < each.len() && each[i] == true;
            assert(declares_merge(args[i], depth));
        }
    }
}

/// An expression is looked into as deep as it goes.
pub proof fn expressions_are_looked_into(stream: &TokenStream, r: bool)
    requires
        call_ensures(expr_declares_state_merge, (stream,), r),
    ensures
        r == declares_merge(stream_tokens(*stream), usize::MAX as nat),
{
}

/// A call, by the last name of what is called, and what is known of its parts.
pub proof fn calls_declare_merges(name: &Option<String>, callee: bool, args: &Vec<bool>, r: bool)
    requires
        call_ensures(call_declares_state_merge, (name, callee, args), r),
    ensures
        r <==> (*name is Some && (*name)->0@ == "node_with_state_merge"@) || callee || exists|i: int|
            0 <= i < args@.len() && #[trigger] args@[i],
{
    if exists|i: int| 0 <= i < args@.len() && #[trigger] args@[i] {
        let i = choose|i: int| 0 <= i < args@.len() && #[trigger] args@[i];
        assert(args@[i] == true);
    }
}

/// Nodes in a row are joined one to the next, and their states come from the last; nodes with names need
/// a graph, and only they may have one.
pub proof fn declarations_are_planned(
    pipeline: &PipelineInput,
    r: Result<(ExpansionPlan, Option<bool>), ExpandFault>,
)
    requires
        call_ensures(plan_expansion, (pipeline,), r),
    ensures
        ({
            let shown = pipeline@;
            let gives_back = pipeline.return_state is Some;
            match shown.nodes {
                DeclsText::Linear(runs) => {
                    &&& shown.graph is Some ==> r == Err::<(ExpansionPlan, Option<bool>), _>(
                        ExpandFault::GraphWithoutNames,
                    )
                    &&& shown.graph is None ==> {
                        &&& r matches Ok(planned) && (planned.0 matches ExpansionPlan::Linear {
                            nodes,
                        } && nodes == runs.len())
                        &&& !gives_back ==> r->Ok_0.1 is None
                        &&& gives_back && runs.len() == 0 ==> r->Ok_0.1 == Some(false)
                        &&& gives_back && runs.len() > 0 ==> r->Ok_0.1 == Some(
                            declares_merge(runs[runs.len() - 1], usize::MAX as nat),
                        )
                    }
                },
                DeclsText::Named(nodes) => {
                    &&& shown.graph is None ==> r == Err::<(ExpansionPlan, Option<bool>), _>(
                        ExpandFault::NamesWithoutGraph,
                    )
                    &&& r matches Ok(planned) ==> planned.0 is Named && (planned.1 is Some
                        <==> gives_back)
                },
            }
        }),
{
}

/// A graph of named nodes is refused for the states that it should give back before anything else, and
/// then for what is wrong with it; otherwise it is planned.
pub proof fn named_graphs_are_planned(
    pipeline: &PipelineInput,
    nodes: &Vec<NamedNode>,
    edges: &Vec<Edge>,
    merges: Result<bool, ExpandFault>,
    fault: Option<ExpandFault>,
    r: Result<(ExpansionPlan, Option<bool>), ExpandFault>,
)
    requires
        call_ensures(plan_expansion, (pipeline,), r),
        call_ensures(named_return_state_mergeable, (nodes, edges), merges),
        call_ensures(check_named_graph, (nodes, edges), fault),
        pipeline@.nodes == DeclsText::Named(shown_nodes(nodes@)),
        pipeline@.graph == Some(shown_edges(edges@)),
    ensures
        ({
            let gives_back = pipeline.return_state is Some;
            &&& gives_back && merges is Err ==> r == Err::<(ExpansionPlan, Option<bool>), _>(
                merges->Err_0,
            )
            &&& !(gives_back && merges is Err) && fault is Some ==> r == Err::<
                (ExpansionPlan, Option<bool>),
                _,
            >(fault->0)
            &&& !(gives_back && merges is Err) && fault is None ==> r is Ok && r->Ok_0.1 == (
            if gives_back {
                Some(merges->Ok_0)
            } else {
                None
            })
        }),
{
}

/// The code of nodes in a row begins at the input link, adds each node between its link and the next, and
/// ends at the last.
pub proof fn rows_are_built(count: usize, states: Returned, r: Vec<BuildStep>)
    requires
        call_ensures(expand_linear_graph, (count, states), r),
    ensures
        r@.len() == count + 2,
        r@[0] == (BuildStep::Input { link: 0 }),
        forall|i: int|
            0 <= i < count ==> #[trigger] r@[i + 1] == (BuildStep::AddNode {
                node: i as usize,
                input: i as usize,
                output: (i + 1) as usize,
            }),
        r@[count + 1] == (BuildStep::Finish { output: count, states }),
{
}

/// The code of a graph names every link, the input link as such, adds every node between its links, in
/// order and as what it is, and ends at the output link.
pub proof fn graphs_are_built(
    nodes: &Vec<NamedNode>,
    wiring: &WiringPlan,
    states: Returned,
    r: Vec<BuildStep>,
)
    requires
        call_ensures(expand_named_graph, (nodes, wiring, states), r),
    ensures
        ({
            let count = wiring.link_count as int;
            &&& r@.len() == count + nodes@.len() + 1
            &&& forall|l: int|
                0 <= l < count ==> #[trigger] r@[l] == if l == wiring.input_link {
                    BuildStep::Input { link: l as usize }
                } else {
                    BuildStep::Link { link: l as usize }
                }
            &&& forall|i: int|
                0 <= i < nodes@.len() ==> #[trigger] r@[count + i] == match shown_nodes(
                    nodes@,
                )[i].kind {
                    NodeKindText::Managed(expr) => BuildStep::AddNodeTo {
                        node: i as usize,
                        input: wiring.node_links@[i].0,
                        output: wiring.node_links@[i].1,
                    },
                    NodeKindText::External {
                        input,
                        output,
                        reusable_factory,
                    } => BuildStep::AddExternalNodeTo {
                        node: i as usize,
                        input: wiring.node_links@[i].0,
                        output: wiring.node_links@[i].1,
                        reusable: reusable_factory is Some,
                    },
                }
            &&& r@[count + nodes@.len()] == (BuildStep::Finish {
                output: wiring.output_link,
                states,
            })
        }),
{
    assert(shown_nodes(nodes@).len() == nodes@.len());
}

proof fn outside_nodes_are_listed(nodes: Seq<NodeText>, n: nat)
    requires
        n <= nodes.len() <= usize::MAX,
    ensures
        ({
            let list = outside_nodes(nodes, n);
            &&& forall|k: int|
                0 <= k < list.len() ==> (#[trigger] list[k]) < n && nodes[list[k] as int].kind is External
            &&& forall|a: int, b: int| 0 <= a < b < list.len() ==> list[a] < list[b]
            &&& forall|i: int|
                0 <= i < n && (#[trigger] nodes[i]).kind is External ==> list.contains(i as usize)
        }),
    decreases n,
{
    if n > 0 {
        outside_nodes_are_listed(nodes, (n - 1) as nat);
        let before = outside_nodes(nodes, (n - 1) as nat);
        let list = outside_nodes(nodes, n);
        assert forall|i: int| 0 <= i < n && (#[trigger] nodes[i]).kind is External implies list.contains(
            i as usize,
        ) by {
            if i < n - 1 {
                let k = choose|k: int| 0 <= k < before.len() && before[k] == i as usize;
                assert(list[k] == i as usize);
            } else {
                assert(list[before.len() as int] == i as usize);
            }
        }
    }
}

/// The code of a declaration carries a handle for each node that is run from outside, in order, and gives
/// back nothing where nothing was asked for, one merged state only where the plan says so, and otherwise
/// all of them. What cannot be planned has no code.
pub proof fn code_is_planned(
    pipeline: &PipelineInput,
    plan: Result<(ExpansionPlan, Option<bool>), ExpandFault>,
    r: Result<PipelineCode, ExpandFault>,
)
    requires
        call_ensures(plan_expansion, (pipeline,), plan),
        call_ensures(plan_code, (pipeline,), r),
    ensures
        plan matches Err(fault) ==> r == Err::<PipelineCode, _>(fault),
        plan matches Ok(planned) ==> (r matches Ok(code) && match planned.1 {
            None => code.states == Returned::Nothing,
            Some(false) => code.states == Returned::States,
            Some(true) => code.states == Returned::MergedStates,
        }),
        r matches Ok(code) ==> match pipeline@.nodes {
            DeclsText::Linear(runs) => {
                &&& code.externals@.len() == 0
                &&& runs.len() <= usize::MAX ==> code.steps@.len() == runs.len() + 2
                    && code.steps@[0] == (BuildStep::Input { link: 0 }) && (forall|i: int|
                    0 <= i < runs.len() ==> #[trigger] code.steps@[i + 1] == (BuildStep::AddNode {
                        node: i as usize,
                        input: i as usize,
                        output: (i + 1) as usize,
                    })) && code.steps@[runs.len() as int + 1] == (BuildStep::Finish {
                    output: runs.len() as usize,
                    states: code.states,
                })
            },
            DeclsText::Named(nodes) => nodes.len() <= usize::MAX ==> {
                &&& forall|k: int|
                    0 <= k < code.externals@.len() ==> (#[trigger] code.externals@[k]) < nodes.len()
                        && nodes[code.externals@[k] as int].kind is External
                &&& forall|a: int, b: int|
                    0 <= a < b < code.externals@.len() ==> code.externals@[a] < code.externals@[b]
                &&& forall|i: int|
                    0 <= i < nodes.len() && (#[trigger] nodes[i]).kind is External
                        ==> code.externals@.contains(i as usize)
            },
        },
{
    if let DeclsText::Named(nodes) = pipeline@.nodes {
        if nodes.len() <= usize::MAX {
            outside_nodes_are_listed(nodes, nodes.len());
        }
    }
}

/// The names of generated code tell what they stand for.
pub proof fn generated_names_tell(
    index: usize,
    name: &str,
    link: String,
    external: String,
    run: String,
)
    requires
        call_ensures(link_ident, (index,), link),
        call_ensures(external_ident, (name,), external),
        call_ensures(run_ident, (name,), run),
    ensures
        link@ == "__piper_link_"@ + decimal(index as nat),
        external@ == "__piper_external_"@ + name@,
        run@ == name@ + "Run"@,
{
}

/// Each fault of a declared graph is told by its own words.
pub proof fn graph_faults_are_told(fault: ExpandFault, r: String)
    requires
        call_ensures(ExpandFault::describe, (fault,), r),
    ensures
        r@ == match fault {
            ExpandFault::GraphWithoutNames => "`graph = ...` requires named `nodes = { ... };`"@,
            ExpandFault::NamesWithoutGraph => "named nodes require `graph = { ... };`"@,
            ExpandFault::StateProducers => {
                "return_state requires exactly one managed node to feed `output`"@
            },
            ExpandFault::StateUnmanaged => {
                "return_state requires the final output producer to be a managed node"@
            },
            ExpandFault::UnknownNode => "unknown graph node"@,
            ExpandFault::OutputAsSource => "`output` cannot be used as a graph edge source"@,
            ExpandFault::InputAsDestination => "`input` cannot be used as a graph edge destination"@,
            ExpandFault::InputUnused => "graph must connect `input` to at least one node"@,
            ExpandFault::OutputUnused => "graph must connect at least one node to `output`"@,
            ExpandFault::NodeWithoutInput { node } => "node is missing an input graph edge"@,
            ExpandFault::NodeWithoutOutput { node } => "node is missing an output graph edge"@,
            ExpandFault::Cycle { node } => "graph cycles are not supported"@,
        },
{
}

/// What is looked through gives what is inside it, and the last name of a path is that of its last
/// segment.
pub proof fn expressions_are_looked_through(
    part: ExprPart,
    inner: Option<TokenStream>,
    path: Option<ExprPart>,
    last: Option<String>,
)
    requires
        call_ensures(look_through, (part,), inner),
        call_ensures(expr_path_last_ident, (path,), last),
    ensures
        match part {
            ExprPart::MethodCall(receiver, method, args) => inner is Some && stream_tokens(inner->0)
                == stream_tokens(receiver),
            ExprPart::Paren(inside) => inner is Some && stream_tokens(inner->0) == stream_tokens(
                inside,
            ),
            ExprPart::Group(inside) => inner is Some && stream_tokens(inner->0) == stream_tokens(
                inside,
            ),
            ExprPart::Reference(inside) => inner is Some && stream_tokens(inner->0)
                == stream_tokens(inside),
            ExprPart::Try(inside) => inner is Some && stream_tokens(inner->0) == stream_tokens(
                inside,
            ),
            _ => inner is None,
        },
        match path {
            Some(ExprPart::Path(segments)) => {
                &&& segments@.len() == 0 ==> last is None
                &&& segments@.len() > 0 ==> last is Some && last->0@ == segments@[segments@.len()
                    - 1]@
            },
            _ => last is None,
        },
{
    if let Some(ExprPart::Path(segments)) = path {
        let shown = segments@.map_values(|s: String| s@);
        assert(shown_part(path) == Some(PartText::Path(shown)));
        if segments@.len() > 0 {
            assert(shown.last() == segments@[segments@.len() - 1]@);
        }
    }
}

/// The steps of a named graph's code are those that build the graph as it is wired.
pub proof fn code_builds_the_wired_graph(
    pipeline: &PipelineInput,
    nodes: &Vec<NamedNode>,
    edges: &Vec<Edge>,
    wiring: WiringPlan,
    code: PipelineCode,
    steps: Vec<BuildStep>,
)
    requires
        call_ensures(plan_code, (pipeline,), Ok::<PipelineCode, ExpandFault>(code)),
        pipeline@.nodes == DeclsText::Named(shown_nodes(nodes@)),
        pipeline@.graph == Some(shown_edges(edges@)),
        call_ensures(plan_wiring, (nodes, edges), wiring),
        call_ensures(expand_named_graph, (nodes, &wiring, code.states), steps),
    ensures
        code.steps@ == steps@,
{
    let decls = shown_nodes(nodes@);
    let other = choose|other: WiringPlan|
        is_wiring(other, decls, shown_edges(edges@)) && code.steps@ == #[trigger] named_steps(
            decls,
            other,
            code.states,
        );
    assert(decls.len() == nodes@.len());
    assert forall|i: int| 0 <= i < decls.len() implies other.node_links@[i]
        == #[trigger] wiring.node_links@[i] by {
        let (a, b) = (other.node_links@[i], wiring.node_links@[i]);
        assert(a.0 == b.0 && a.1 == b.1);
    }
    assert(named_steps(decls, other, code.states) =~= named_steps(decls, wiring, code.states));
}

/// The node that is found is the first from which a path goes in a circle; none is found where no path
/// does.
pub proof fn first_circle_is_found(
    nodes: &Vec<NamedNode>,
    edges: &Vec<Edge>,
    i: int,
    path: Seq<int>,
    r: Option<usize>,
)
    requires
        call_ensures(detect_cycles, (nodes, edges), r),
    ensures
        r matches Some(f) ==> exists|p: Seq<int>| #[trigger]
            goes_in_a_circle(shown_nodes(nodes@), shown_edges(edges@), p, f as int),
        goes_in_a_circle(shown_nodes(nodes@), shown_edges(edges@), path, i) ==> (r matches Some(f)
            && f <= i),
{
    let decls = shown_nodes(nodes@);
    let all = shown_edges(edges@);
    first_from_is_first(around(decls, all), 0, decls.len() as int);
    if let Some(f) = r {
        assert(around(decls, all)(f as int));
        let p = choose|p: Seq<int>| #[trigger] goes_around(decls, all, p) && p[0] == f;
        circles_are_around(decls, all, p, f as int);
    }
    if goes_in_a_circle(decls, all, path, i) {
        circles_are_around(decls, all, path, i);
        assert(leads_on(decls, all, path[0], path[0int + 1]));
        assert(around(decls, all)(i));
    }
}

} // verus!
