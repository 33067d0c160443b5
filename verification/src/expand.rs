//! From the declaration of a pipeline to the steps that build it.

use crate::cycles::{comes_back, cycle_is_led_to, first_cyclic, has_edge, leads_to_cycle};
use crate::grammar::{
    shown_edges, shown_ends, shown_nodes, Edge, EdgeText, Endpoint, EndpointText, NamedNode,
    NodeText,
};
use crate::scaling::{first_from, first_from_is_first};
use crate::text::{concat, same};
use vstd::prelude::*;

verus! {

/// What is wrong with the graph of a declaration. Nodes are named by their position.
#[derive(Clone, Copy, Debug, PartialEq, Eq, Structural)]
pub enum ExpandFault {
    GraphWithoutNames,
    NamesWithoutGraph,
    StateProducers,
    StateUnmanaged,
    UnknownNode,
    OutputAsSource,
    InputAsDestination,
    InputUnused,
    OutputUnused,
    NodeWithoutInput { node: usize },
    NodeWithoutOutput { node: usize },
    Cycle { node: usize },
}

/// What is said of a fault.
pub open spec fn fault_text(fault: ExpandFault) -> Seq<char> {
    match fault {
        ExpandFault::GraphWithoutNames => "`graph = ...` requires named `nodes = { ... };`"@,
        ExpandFault::NamesWithoutGraph => "named nodes require `graph = { ... };`"@,
        ExpandFault::StateProducers => {
            "return_state requires exactly one managed node to feed `output`"@
        },
        ExpandFault::StateUnmanaged => {
            "return_state requires the final output producer to be a managed node"@
        },
        ExpandFault::UnknownNode => "unknown graph node"@,
        ExpandFault::OutputAsSource => "`output` cannot be used as a graph edge source"@,
        ExpandFault::InputAsDestination => "`input` cannot be used as a graph edge destination"@,
        ExpandFault::InputUnused => "graph must connect `input` to at least one node"@,
        ExpandFault::OutputUnused => "graph must connect at least one node to `output`"@,
        ExpandFault::NodeWithoutInput { node } => "node is missing an input graph edge"@,
        ExpandFault::NodeWithoutOutput { node } => "node is missing an output graph edge"@,
        ExpandFault::Cycle { node } => "graph cycles are not supported"@,
    }
}

impl ExpandFault {
    /// What is said of the fault.
    pub fn describe(self) -> (r: String)
        ensures
            r@ == fault_text(self),
    {
        match self {
            ExpandFault::GraphWithoutNames => {
                "`graph = ...` requires named `nodes = { ... };`".to_owned()
            },
            ExpandFault::NamesWithoutGraph => "named nodes require `graph = { ... };`".to_owned(),
            ExpandFault::StateProducers => {
                "return_state requires exactly one managed node to feed `output`".to_owned()
            },
            ExpandFault::StateUnmanaged => {
                "return_state requires the final output producer to be a managed node".to_owned()
            },
            ExpandFault::UnknownNode => "unknown graph node".to_owned(),
            ExpandFault::OutputAsSource => {
                "`output` cannot be used as a graph edge source".to_owned()
            },
            ExpandFault::InputAsDestination => {
                "`input` cannot be used as a graph edge destination".to_owned()
            },
            ExpandFault::InputUnused => "graph must connect `input` to at least one node".to_owned(),
            ExpandFault::OutputUnused => {
                "graph must connect at least one node to `output`".to_owned()
            },
            ExpandFault::NodeWithoutInput { node: _ } => {
                "node is missing an input graph edge".to_owned()
            },
            ExpandFault::NodeWithoutOutput { node: _ } => {
                "node is missing an output graph edge".to_owned()
            },
            ExpandFault::Cycle { node: _ } => "graph cycles are not supported".to_owned(),
        }
    }
}

/// The names of nodes.
pub open spec fn names_of(nodes: Seq<NodeText>) -> Seq<Seq<char>> {
    nodes.map_values(|n: NodeText| n.name)
}

fn same_end(a: &Endpoint, b: &Endpoint) -> (r: bool)
    ensures
        r == (a@ == b@),
{
    match (a, b) {
        (Endpoint::Input, Endpoint::Input) => true,
        (Endpoint::Output, Endpoint::Output) => true,
        (Endpoint::Node(x), Endpoint::Node(y)) => same(x.as_str(), y.as_str()),
        _ => false,
    }
}

fn list_has(list: &Vec<Endpoint>, end: &Endpoint) -> (r: bool)
    ensures
        r == shown_ends(list@).contains(end@),
{
    for i in 0..list.len()
        invariant
            forall|k: int| 0 <= k < i ==> (#[trigger] list@[k])@ != end@,
    {
        if same_end(&list[i], end) {
            assert(shown_ends(list@)[i as int] == end@);
            return true;
        }
    }
    assert forall|k: int| 0 <= k < shown_ends(list@).len() implies shown_ends(list@)[k] != end@ by {
        assert(list@[k]@ != end@);
    }
    false
}

/// The nodes with that name.
pub open spec fn named(nodes: Seq<NodeText>, name: Seq<char>) -> spec_fn(int) -> bool {
    |i: int| nodes[i].name == name
}

/// The first node with that name.
pub open spec fn node_position(nodes: Seq<NodeText>, name: Seq<char>) -> Option<int> {
    first_from(named(nodes, name), 0, nodes.len() as int)
}

pub(crate) fn find_node(nodes: &Vec<NamedNode>, name: &str) -> (r: Option<usize>)
    ensures
        match r {
            Some(i) => i < nodes@.len() && node_position(shown_nodes(nodes@), name@) == Some(
                i as int,
            ),
            None => node_position(shown_nodes(nodes@), name@) is None,
        },
{
    let ghost all = shown_nodes(nodes@);
    for i in 0..nodes.len()
        invariant
            all == shown_nodes(nodes@),
            node_position(all, name@) == first_from(
                named(all, name@),
                i as int,
                all.len() as int,
            ),
    {
        assert(named(all, name@)(i as int) == (nodes@[i as int].name@ == name@));
        if same(nodes[i].name.as_str(), name) {
            return Some(i);
        }
    }
    None
}

/// What is wrong with this end as the source of an edge.
pub open spec fn source_fault(end: EndpointText, nodes: Seq<NodeText>) -> Option<ExpandFault> {
    match end {
        EndpointText::Input => None,
        EndpointText::Output => Some(ExpandFault::OutputAsSource),
        EndpointText::Node(name) => if node_position(nodes, name) is None {
            Some(ExpandFault::UnknownNode)
        } else {
            None
        },
    }
}

/// What is wrong with this end as the destination of an edge.
pub open spec fn dest_fault(end: EndpointText, nodes: Seq<NodeText>) -> Option<ExpandFault> {
    match end {
        EndpointText::Input => Some(ExpandFault::InputAsDestination),
        EndpointText::Output => None,
        EndpointText::Node(name) => if node_position(nodes, name) is None {
            Some(ExpandFault::UnknownNode)
        } else {
            None
        },
    }
}

/// Checks that a node that an edge names is declared.
pub fn validate_endpoint(endpoint: &Endpoint, nodes: &Vec<NamedNode>) -> (r: Result<(), ExpandFault>)
    ensures
        match endpoint@ {
            EndpointText::Node(name) => if node_position(shown_nodes(nodes@), name) is None {
                r == Err::<(), ExpandFault>(ExpandFault::UnknownNode)
            } else {
                r is Ok
            },
            _ => r is Ok,
        },
{
    if let Endpoint::Node(name) = endpoint {
        if find_node(nodes, name.as_str()).is_none() {
            return Err(ExpandFault::UnknownNode);
        }
    }
    Ok(())
}

/// The key of what an edge's source puts items on.
pub open spec fn source_text(end: EndpointText) -> Option<Seq<char>> {
    match end {
        EndpointText::Input => Some("input:out"@),
        EndpointText::Output => None,
        EndpointText::Node(name) => Some(name + ":out"@),
    }
}

/// The key of what an edge's destination takes items from.
pub open spec fn dest_text(end: EndpointText) -> Option<Seq<char>> {
    match end {
        EndpointText::Input => None,
        EndpointText::Output => Some("output:in"@),
        EndpointText::Node(name) => Some(name + ":in"@),
    }
}

/// The key of what an edge's source puts items on.
pub fn source_key(endpoint: &Endpoint) -> (r: Result<String, ExpandFault>)
    ensures
        match source_text(endpoint@) {
            Some(text) => r matches Ok(key) && key@ == text,
            None => r == Err::<String, ExpandFault>(ExpandFault::OutputAsSource),
        },
{
    match endpoint {
        Endpoint::Input => Ok("input:out".to_owned()),
        Endpoint::Output => Err(ExpandFault::OutputAsSource),
        Endpoint::Node(name) => Ok(concat(name.as_str(), ":out")),
    }
}

/// The key of what an edge's destination takes items from.
pub fn dest_key(endpoint: &Endpoint) -> (r: Result<String, ExpandFault>)
    ensures
        match dest_text(endpoint@) {
            Some(text) => r matches Ok(key) && key@ == text,
            None => r == Err::<String, ExpandFault>(ExpandFault::InputAsDestination),
        },
{
    match endpoint {
        Endpoint::Input => Err(ExpandFault::InputAsDestination),
        Endpoint::Output => Ok("output:in".to_owned()),
        Endpoint::Node(name) => Ok(concat(name.as_str(), ":in")),
    }
}

/// What is wrong with the first faulty destination from `k` on.
pub open spec fn dests_fault(to: Seq<EndpointText>, k: int, nodes: Seq<NodeText>) -> Option<ExpandFault>
    decreases to.len() - k,
{
    if k >= to.len() {
        None
    } else if dest_fault(to[k], nodes) is Some {
        dest_fault(to[k], nodes)
    } else {
        dests_fault(to, k + 1, nodes)
    }
}

/// What is wrong with the edge, from its source numbered `k` on. Destinations are looked at for each
/// source.
pub open spec fn edge_fault(edge: EdgeText, k: int, nodes: Seq<NodeText>) -> Option<ExpandFault>
    decreases edge.from.len() - k,
{
    if k >= edge.from.len() {
        None
    } else if source_fault(edge.from[k], nodes) is Some {
        source_fault(edge.from[k], nodes)
    } else if dests_fault(edge.to, 0, nodes) is Some {
        dests_fault(edge.to, 0, nodes)
    } else {
        edge_fault(edge, k + 1, nodes)
    }
}

/// What is wrong with the first faulty edge from `i` on.
pub open spec fn edges_fault(edges: Seq<EdgeText>, i: int, nodes: Seq<NodeText>) -> Option<ExpandFault>
    decreases edges.len() - i,
{
    if i >= edges.len() {
        None
    } else if edge_fault(edges[i], 0, nodes) is Some {
        edge_fault(edges[i], 0, nodes)
    } else {
        edges_fault(edges, i + 1, nodes)
    }
}

fn check_dests(to: &Vec<Endpoint>, nodes: &Vec<NamedNode>) -> (r: Option<ExpandFault>)
    ensures
        r == dests_fault(shown_ends(to@), 0, shown_nodes(nodes@)),
{
    for k in 0..to.len()
        invariant
            dests_fault(shown_ends(to@), 0, shown_nodes(nodes@)) == dests_fault(
                shown_ends(to@),
                k as int,
                shown_nodes(nodes@),
            ),
    {
        assert(shown_ends(to@)[k as int] == to@[k as int]@);
        if let Err(fault) = validate_endpoint(&to[k], nodes) {
            return Some(fault);
        }
        if let Err(fault) = dest_key(&to[k]) {
            return Some(fault);
        }
    }
    None
}

fn check_edge(edge: &Edge, nodes: &Vec<NamedNode>) -> (r: Option<ExpandFault>)
    ensures
        r == edge_fault(edge@, 0, shown_nodes(nodes@)),
{
    for k in 0..edge.from.len()
        invariant
            edge_fault(edge@, 0, shown_nodes(nodes@)) == edge_fault(
                edge@,
                k as int,
                shown_nodes(nodes@),
            ),
    {
        assert(edge@.from[k as int] == edge.from@[k as int]@);
        if let Err(fault) = validate_endpoint(&edge.from[k], nodes) {
            return Some(fault);
        }
        if let Err(fault) = source_key(&edge.from[k]) {
            return Some(fault);
        }
        if let Some(fault) = check_dests(&edge.to, nodes) {
            return Some(fault);
        }
    }
    None
}

fn check_edges(edges: &Vec<Edge>, nodes: &Vec<NamedNode>) -> (r: Option<ExpandFault>)
    ensures
        r == edges_fault(shown_edges(edges@), 0, shown_nodes(nodes@)),
{
    for i in 0..edges.len()
        invariant
            edges_fault(shown_edges(edges@), 0, shown_nodes(nodes@)) == edges_fault(
                shown_edges(edges@),
                i as int,
                shown_nodes(nodes@),
            ),
    {
        assert(shown_edges(edges@)[i as int] == edges@[i as int]@);
        if let Some(fault) = check_edge(&edges[i], nodes) {
            return Some(fault);
        }
    }
    None
}

/// Whether some edge begins there.
pub open spec fn is_source(edges: Seq<EdgeText>, end: EndpointText) -> bool {
    exists|i: int| 0 <= i < edges.len() && (#[trigger] edges[i]).from.contains(end)
}

/// Whether some edge that begins somewhere ends there.
pub open spec fn is_dest(edges: Seq<EdgeText>, end: EndpointText) -> bool {
    exists|i: int|
        0 <= i < edges.len() && (#[trigger] edges[i]).from.len() > 0 && edges[i].to.contains(end)
}

fn begins_at(edges: &Vec<Edge>, end: &Endpoint) -> (r: bool)
    ensures
        r == is_source(shown_edges(edges@), end@),
{
    for i in 0..edges.len()
        invariant
            forall|k: int| 0 <= k < i ==> !(#[trigger] shown_edges(edges@)[k]).from.contains(end@),
    {
        assert(shown_edges(edges@)[i as int] == edges@[i as int]@);
        if list_has(&edges[i].from, end) {
            assert(shown_edges(edges@)[i as int].from.contains(end@));
            return true;
        }
    }
    false
}

fn ends_at(edges: &Vec<Edge>, end: &Endpoint) -> (r: bool)
    ensures
        r == is_dest(shown_edges(edges@), end@),
{
    for i in 0..edges.len()
        invariant
            forall|k: int|
                0 <= k < i ==> !((#[trigger] shown_edges(edges@)[k]).from.len() > 0
                    && shown_edges(edges@)[k].to.contains(end@)),
    {
        assert(shown_edges(edges@)[i as int] == edges@[i as int]@);
        assert(shown_edges(edges@)[i as int].from.len() == edges@[i as int].from@.len());
        if edges[i].from.len() > 0 && list_has(&edges[i].to, end) {
            assert(shown_edges(edges@)[i as int].to.contains(end@));
            return true;
        }
    }
    false
}

/// The first node from `i` on that no edge ends or begins at.
pub open spec fn loose_node(nodes: Seq<NodeText>, edges: Seq<EdgeText>, i: int) -> Option<ExpandFault>
    decreases nodes.len() - i,
{
    if i >= nodes.len() {
        None
    } else if !is_dest(edges, EndpointText::Node(nodes[i].name)) {
        Some(ExpandFault::NodeWithoutInput { node: i as usize })
    } else if !is_source(edges, EndpointText::Node(nodes[i].name)) {
        Some(ExpandFault::NodeWithoutOutput { node: i as usize })
    } else {
        loose_node(nodes, edges, i + 1)
    }
}

fn check_nodes(nodes: &Vec<NamedNode>, edges: &Vec<Edge>) -> (r: Option<ExpandFault>)
    ensures
        r == loose_node(shown_nodes(nodes@), shown_edges(edges@), 0),
{
    for i in 0..nodes.len()
        invariant
            loose_node(shown_nodes(nodes@), shown_edges(edges@), 0) == loose_node(
                shown_nodes(nodes@),
                shown_edges(edges@),
                i as int,
            ),
    {
        assert(shown_nodes(nodes@)[i as int] == nodes@[i as int]@);
        let end: Endpoint = Endpoint::Node(nodes[i].name.clone());
        if !ends_at(edges, &end) {
            return Some(ExpandFault::NodeWithoutInput { node: i });
        }
        if !begins_at(edges, &end) {
            return Some(ExpandFault::NodeWithoutOutput { node: i });
        }
    }
    None
}

/// Whether some edge leads from the node at `i` to that at `j`. Of nodes with the same name the first
/// counts.
pub open spec fn leads_to(nodes: Seq<NodeText>, edges: Seq<EdgeText>, i: int, j: int) -> bool {
    &&& 0 <= i < nodes.len()
    &&& 0 <= j < nodes.len()
    &&& node_position(nodes, nodes[i].name) == Some(i)
    &&& node_position(nodes, nodes[j].name) == Some(j)
    &&& has_edge_between(edges, nodes[i].name, nodes[j].name)
}

/// Whether some edge leads from the one node to the other.
pub open spec fn has_edge_between(edges: Seq<EdgeText>, from: Seq<char>, to: Seq<char>) -> bool {
    exists|e: int|
        0 <= e < edges.len() && (#[trigger] edges[e]).from.contains(EndpointText::Node(from))
            && edges[e].to.contains(EndpointText::Node(to))
}

/// Whether the path follows edges and comes back to a node that it came through before.
pub open spec fn goes_around(nodes: Seq<NodeText>, edges: Seq<EdgeText>, path: Seq<int>) -> bool {
    &&& path.len() >= 2
    &&& forall|k: int|
        0 <= k < path.len() - 1 ==> leads_to(nodes, edges, #[trigger] path[k], path[k + 1])
    &&& path.drop_last().contains(path.last())
}

/// Whether a path from the node at `i` comes back to a node that it came through before.
pub open spec fn leads_around(nodes: Seq<NodeText>, edges: Seq<EdgeText>, i: int) -> bool {
    exists|path: Seq<int>| #[trigger] goes_around(nodes, edges, path) && path[0] == i
}

/// The nodes of which `leads_around` holds.
pub open spec fn around(nodes: Seq<NodeText>, edges: Seq<EdgeText>) -> spec_fn(int) -> bool {
    |i: int| leads_around(nodes, edges, i)
}

/// The first node from which a path comes back to a node that it came through before.
pub open spec fn first_around(nodes: Seq<NodeText>, edges: Seq<EdgeText>) -> Option<int> {
    first_from(around(nodes, edges), 0, nodes.len() as int)
}

fn edge_between(edges: &Vec<Edge>, from: &Endpoint, to: &Endpoint) -> (r: bool)
    requires
        from@ is Node,
        to@ is Node,
    ensures
        r == has_edge_between(shown_edges(edges@), from@->Node_0, to@->Node_0),
{
    let ghost all = shown_edges(edges@);
    for e in 0..edges.len()
        invariant
            all == shown_edges(edges@),
            from@ is Node,
            to@ is Node,
            forall|k: int|
                0 <= k < e ==> !((#[trigger] all[k]).from.contains(from@) && all[k].to.contains(
                    to@,
                )),
    {
        assert(all[e as int] == edges@[e as int]@);
        if list_has(&edges[e].from, from) && list_has(&edges[e].to, to) {
            assert(all[e as int].from.contains(from@));
            return true;
        }
    }
    false
}

fn node_successors(nodes: &Vec<NamedNode>, edges: &Vec<Edge>, i: usize) -> (r: Vec<usize>)
    requires
        i < nodes@.len(),
    ensures
        forall|k: int| 0 <= k < r@.len() ==> #[trigger] r@[k] < nodes@.len(),
        forall|j: int|
            0 <= j < nodes@.len() ==> (leads_to(
                shown_nodes(nodes@),
                shown_edges(edges@),
                i as int,
                j,
            ) <==> #[trigger] r@.contains(j as usize)),
{
    let ghost all = shown_nodes(nodes@);
    let ghost links = shown_edges(edges@);
    let count: usize = nodes.len();
    let mut row: Vec<usize> = Vec::new();
    assert(all[i as int] == nodes@[i as int]@);
    let from: Endpoint = Endpoint::Node(nodes[i].name.clone());
    let first: bool = match find_node(nodes, nodes[i].name.as_str()) {
        Some(p) => p == i,
        None => false,
    };
    for j in 0..count
        invariant
            count == nodes@.len(),
            i < count,
            all == shown_nodes(nodes@),
            links == shown_edges(edges@),
            from@ == EndpointText::Node(all[i as int].name),
            first == (node_position(all, all[i as int].name) == Some(i as int)),
            forall|k: int| 0 <= k < row@.len() ==> #[trigger] row@[k] < j,
            forall|c: int|
                0 <= c < j ==> (leads_to(all, links, i as int, c) <==> #[trigger] row@.contains(
                    c as usize,
                )),
    {
        let ghost before = row@;
        assert(all[j as int] == nodes@[j as int]@);
        let to: Endpoint = Endpoint::Node(nodes[j].name.clone());
        let own: bool = match find_node(nodes, nodes[j].name.as_str()) {
            Some(p) => p == j,
            None => false,
        };
        if first && own && edge_between(edges, &from, &to) {
            row.push(j);
        }
        assert forall|c: int| 0 <= c < j + 1 implies (leads_to(all, links, i as int, c)
            <==> #[trigger] row@.contains(c as usize)) by {
            if row@.len() > before.len() {
                assert(row@[before.len() as int] == j);
                if before.contains(c as usize) {
                    let k = choose|k: int| 0 <= k < before.len() && before[k] == c as usize;
                    assert(row@[k] == c as usize);
                }
                if row@.contains(c as usize) && c < j {
                    let k = choose|k: int| 0 <= k < row@.len() && row@[k] == c as usize;
                    assert(before[k] == c as usize);
                }
            } else if c == j && row@.contains(c as usize) {
                let k = choose|k: int| 0 <= k < row@.len() && row@[k] == c as usize;
                assert(row@[k] < j);
            }
        }
    }
    row
}

proof fn around_is_cycle(
    nodes: Seq<NodeText>,
    edges: Seq<EdgeText>,
    adjacency: Seq<Vec<usize>>,
    i: int,
)
    requires
        adjacency.len() == nodes.len(),
        forall|a: int, b: int| #[trigger] has_edge(adjacency, a, b) <==> leads_to(nodes, edges, a, b),
    ensures
        leads_to_cycle(adjacency, i) == leads_around(nodes, edges, i),
{
    if leads_to_cycle(adjacency, i) {
        let path = choose|path: Seq<int>| #[trigger] comes_back(adjacency, path) && path[0] == i;
        assert forall|k: int| 0 <= k < path.len() - 1 implies leads_to(
            nodes,
            edges,
            #[trigger] path[k],
            path[k + 1],
        ) by {
            assert(has_edge(adjacency, path[k], path[k + 1]));
        }
        assert(goes_around(nodes, edges, path));
    }
    if leads_around(nodes, edges, i) {
        let path = choose|path: Seq<int>| #[trigger] goes_around(nodes, edges, path) && path[0] == i;
        assert forall|k: int| 0 <= k < path.len() - 1 implies has_edge(
            adjacency,
            #[trigger] path[k],
            path[k + 1],
        ) by {
            assert(leads_to(nodes, edges, path[k], path[k + 1]));
        }
        assert(comes_back(adjacency, path));
    }
}

/// Looks for the first node from which edges lead around.
pub fn detect_cycles(nodes: &Vec<NamedNode>, edges: &Vec<Edge>) -> (r: Option<usize>)
    ensures
        match r {
            Some(i) => first_around(shown_nodes(nodes@), shown_edges(edges@)) == Some(i as int),
            None => first_around(shown_nodes(nodes@), shown_edges(edges@)) is None,
        },
{
    let ghost all = shown_nodes(nodes@);
    let ghost links = shown_edges(edges@);
    let count: usize = nodes.len();
    let mut adjacency: Vec<Vec<usize>> = Vec::new();
    for i in 0..count
        invariant
            count == nodes@.len(),
            all == shown_nodes(nodes@),
            links == shown_edges(edges@),
            adjacency@.len() == i,
            forall|p: int, k: int|
                0 <= p < i && 0 <= k < adjacency@[p]@.len() ==> #[trigger] adjacency@[p]@[k] < count,
            forall|p: int, j: int|
                0 <= p < i ==> (#[trigger] has_edge(adjacency@, p, j) <==> leads_to(
                    all,
                    links,
                    p,
                    j,
                )),
    {
        let row: Vec<usize> = node_successors(nodes, edges, i);
        let ghost before = adjacency@;
        let ghost done = row@;
        adjacency.push(row);
        assert forall|p: int, j: int| 0 <= p < i + 1 implies (#[trigger] has_edge(
            adjacency@,
            p,
            j,
        ) <==> leads_to(all, links, p, j)) by {
            if p < i {
                assert(adjacency@[p] == before[p]);
                assert(has_edge(adjacency@, p, j) <==> has_edge(before, p, j));
            } else {
                assert(adjacency@[p]@ == done);
                if has_edge(adjacency@, p, j) {
                    let k = choose|k: int|
                        0 <= k < adjacency@[p]@.len() && #[trigger] adjacency@[p]@[k] == j;
                    assert(done[k] == j);
                    assert(done.contains(j as usize));
                }
                if leads_to(all, links, p, j) {
                    assert(done.contains(j as usize));
                    let k = choose|k: int| 0 <= k < done.len() && done[k] == j as usize;
                    assert(adjacency@[p]@[k] == j);
                }
            }
        }
    }
    assert forall|a: int, b: int| #[trigger] has_edge(adjacency@, a, b) <==> leads_to(
        all,
        links,
        a,
        b,
    ) by {}
    let found: Option<usize> = first_cyclic(&adjacency);
    proof {
        cycle_is_led_to(adjacency@);
        first_from_is_first(around(all, links), 0, all.len() as int);
        assert forall|i: int| leads_to_cycle(adjacency@, i) == #[trigger] around(all, links)(
            i,
        ) by {
            around_is_cycle(all, links, adjacency@, i);
        }
        if let Some(i) = found {
            assert(around(all, links)(i as int));
            let f = first_from(around(all, links), 0, all.len() as int)->0;
            if f < i {
                assert(leads_to_cycle(adjacency@, f));
            }
        } else if first_around(all, links) is Some {
            let f = first_around(all, links)->0;
            assert(around(all, links)(f));
            assert(leads_to_cycle(adjacency@, f));
        }
    }
    found
}

/// What is wrong with named nodes and the graph that joins them.
pub open spec fn graph_fault(nodes: Seq<NodeText>, edges: Seq<EdgeText>) -> Option<ExpandFault> {
    if edges_fault(edges, 0, nodes) is Some {
        edges_fault(edges, 0, nodes)
    } else if !is_source(edges, EndpointText::Input) {
        Some(ExpandFault::InputUnused)
    } else if !is_dest(edges, EndpointText::Output) {
        Some(ExpandFault::OutputUnused)
    } else if loose_node(nodes, edges, 0) is Some {
        loose_node(nodes, edges, 0)
    } else {
        match first_around(nodes, edges) {
            Some(i) => Some(ExpandFault::Cycle { node: i as usize }),
            None => None,
        }
    }
}

/// Checks named nodes and the graph that joins them.
pub fn check_named_graph(nodes: &Vec<NamedNode>, edges: &Vec<Edge>) -> (r: Option<ExpandFault>)
    ensures
        r == graph_fault(shown_nodes(nodes@), shown_edges(edges@)),
{
    if let Some(fault) = check_edges(edges, nodes) {
        return Some(fault);
    }
    if !begins_at(edges, &Endpoint::Input) {
        return Some(ExpandFault::InputUnused);
    }
    if !ends_at(edges, &Endpoint::Output) {
        return Some(ExpandFault::OutputUnused);
    }
    if let Some(fault) = check_nodes(nodes, edges) {
        return Some(fault);
    }
    match detect_cycles(nodes, edges) {
        Some(node) => Some(ExpandFault::Cycle { node }),
        None => None,
    }
}

} // verus!
