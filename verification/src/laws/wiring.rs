//! Which links a declared graph has, and what they join.

use crate::expand::{dest_text, edges_fault, source_text};
use crate::grammar::{shown_edges, shown_nodes, Edge, EdgeText, EndpointText, NamedNode, NodeText};
use crate::laws::expansion::{edges_are_searched, is_good_edge};
use crate::text::{text_less, texts_are_ordered};
use crate::union_find::{all_united, are_joined, is_chain, is_pair, Groups, KeyTable};
use crate::wiring::{
    all_pairs, earlier_has_fewer, edge_pairs, group_count, index_is_position, is_keyed, key_pair,
    key_pairs, keys_apart, keys_are_there, link_number, link_of, links_are_what_edges_join,
    plan_wiring, wired, wired_is_wf, with_dests, WiringPlan,
};
use vstd::prelude::*;

verus! {

/// One side of what a link can join: an end of the pipeline, or what a node takes from or puts on.
pub enum Side {
    Input,
    Output,
    Takes(int),
    Gives(int),
}

/// Whether the side is one of a pipeline with these nodes.
pub open spec fn is_side(side: Side, nodes: Seq<NodeText>) -> bool {
    match side {
        Side::Takes(i) => 0 <= i < nodes.len(),
        Side::Gives(i) => 0 <= i < nodes.len(),
        _ => true,
    }
}

/// What the side is called.
pub open spec fn side_name(side: Side, nodes: Seq<NodeText>) -> Seq<char> {
    match side {
        Side::Input => "input:out"@,
        Side::Output => "output:in"@,
        Side::Takes(i) => nodes[i].name + ":in"@,
        Side::Gives(i) => nodes[i].name + ":out"@,
    }
}

/// The link that the plan has for the side.
pub open spec fn side_link(side: Side, plan: WiringPlan) -> int {
    match side {
        Side::Input => plan.input_link as int,
        Side::Output => plan.output_link as int,
        Side::Takes(i) => plan.node_links@[i].0 as int,
        Side::Gives(i) => plan.node_links@[i].1 as int,
    }
}

/// Whether the side of that name is where the edge can begin from the end.
pub open spec fn names_source(name: Seq<char>, end: EndpointText) -> bool {
    match end {
        EndpointText::Input => name == "input:out"@,
        EndpointText::Node(node) => name == node + ":out"@,
        EndpointText::Output => false,
    }
}

/// Whether the side of that name is where the edge can lead to the end.
pub open spec fn names_dest(name: Seq<char>, end: EndpointText) -> bool {
    match end {
        EndpointText::Output => name == "output:in"@,
        EndpointText::Node(node) => name == node + ":in"@,
        EndpointText::Input => false,
    }
}

/// Whether some edge leads from the one side to the other.
pub open spec fn edge_leads(edges: Seq<EdgeText>, a: Seq<char>, b: Seq<char>) -> bool {
    exists|e: int, k: int, m: int|
        0 <= e < edges.len() && 0 <= k < edges[e].from.len() && 0 <= m < edges[e].to.len()
            && names_source(a, #[trigger] edges[e].from[k]) && names_dest(
            b,
            #[trigger] edges[e].to[m],
        )
}

/// Whether each of these sides is joined to the next by an edge, either way.
pub open spec fn edges_join(edges: Seq<EdgeText>, chain: Seq<Seq<char>>) -> bool {
    chain.len() >= 1 && forall|k: int|
        0 <= k < chain.len() - 1 ==> edge_leads(edges, #[trigger] chain[k], chain[k + 1])
            || edge_leads(edges, chain[k + 1], chain[k])
}

/// Whether edges join the two sides, directly or by way of others.
pub open spec fn is_joined(edges: Seq<EdgeText>, a: Seq<char>, b: Seq<char>) -> bool {
    exists|chain: Seq<Seq<char>>|
        #[trigger] edges_join(edges, chain) && chain[0] == a && chain[chain.len() - 1] == b
}

proof fn edge_pairs_are_those(edge: EdgeText, n: nat, p: int)
    requires
        n <= edge.from.len(),
        0 <= p < edge_pairs(edge, n).len(),
    ensures
        exists|k: int, m: int|
            0 <= k < n && 0 <= m < edge.to.len() && edge_pairs(edge, n)[p] == (
                #[trigger] edge.from[k],
                #[trigger] edge.to[m],
            ),
    decreases n,
{
    let before = edge_pairs(edge, (n - 1) as nat);
    if p < before.len() {
        edge_pairs_are_those(edge, (n - 1) as nat, p);
        let (k, m) = choose|k: int, m: int|
            0 <= k < n - 1 && 0 <= m < edge.to.len() && before[p] == (
                #[trigger] edge.from[k],
                #[trigger] edge.to[m],
            );
        assert(edge_pairs(edge, n)[p] == (edge.from[k], edge.to[m]));
    } else {
        let m = p - before.len();
        assert(edge_pairs(edge, n)[p] == with_dests(edge.from[n - 1], edge.to)[m]);
        assert(edge_pairs(edge, n)[p] == (edge.from[n - 1], edge.to[m]));
    }
}

proof fn pairs_are_of_edges(edges: Seq<EdgeText>, n: nat, p: int)
    requires
        n <= edges.len(),
        0 <= p < all_pairs(edges, n).len(),
    ensures
        exists|e: int, k: int, m: int|
            0 <= e < n && 0 <= k < edges[e].from.len() && 0 <= m < edges[e].to.len() && all_pairs(
                edges,
                n,
            )[p] == (#[trigger] edges[e].from[k], #[trigger] edges[e].to[m]),
    decreases n,
{
    let before = all_pairs(edges, (n - 1) as nat);
    if p < before.len() {
        pairs_are_of_edges(edges, (n - 1) as nat, p);
        let (e, k, m) = choose|e: int, k: int, m: int|
            0 <= e < n - 1 && 0 <= k < edges[e].from.len() && 0 <= m < edges[e].to.len()
                && before[p] == (#[trigger] edges[e].from[k], #[trigger] edges[e].to[m]);
        assert(all_pairs(edges, n)[p] == (edges[e].from[k], edges[e].to[m]));
    } else {
        let edge = edges[n - 1];
        let q = p - before.len();
        edge_pairs_are_those(edge, edge.from.len(), q);
        assert(all_pairs(edges, n)[p] == edge_pairs(edge, edge.from.len())[q]);
        let (k, m) = choose|k: int, m: int|
            0 <= k < edge.from.len() && 0 <= m < edge.to.len() && edge_pairs(
                edge,
                edge.from.len(),
            )[q] == (#[trigger] edge.from[k], #[trigger] edge.to[m]);
        assert(all_pairs(edges, n)[p] == (edges[n - 1].from[k], edges[n - 1].to[m]));
    }
}

proof fn edge_pair_is_there(edge: EdgeText, n: nat, k: int, m: int)
    requires
        0 <= k < n <= edge.from.len(),
        0 <= m < edge.to.len(),
    ensures
        exists|p: int|
            0 <= p < edge_pairs(edge, n).len() && #[trigger] edge_pairs(edge, n)[p] == (
                edge.from[k],
                edge.to[m],
            ),
    decreases n,
{
    let before = edge_pairs(edge, (n - 1) as nat);
    if k < n - 1 {
        edge_pair_is_there(edge, (n - 1) as nat, k, m);
        let p = choose|p: int|
            0 <= p < before.len() && #[trigger] before[p] == (edge.from[k], edge.to[m]);
        assert(edge_pairs(edge, n)[p] == (edge.from[k], edge.to[m]));
    } else {
        let p = before.len() + m;
        assert(edge_pairs(edge, n)[p] == with_dests(edge.from[k], edge.to)[m]);
    }
}

proof fn pair_is_there(edges: Seq<EdgeText>, n: nat, e: int, k: int, m: int)
    requires
        0 <= e < n <= edges.len(),
        0 <= k < edges[e].from.len(),
        0 <= m < edges[e].to.len(),
    ensures
        exists|p: int|
            0 <= p < all_pairs(edges, n).len() && #[trigger] all_pairs(edges, n)[p] == (
                edges[e].from[k],
                edges[e].to[m],
            ),
    decreases n,
{
    let before = all_pairs(edges, (n - 1) as nat);
    if e < n - 1 {
        pair_is_there(edges, (n - 1) as nat, e, k, m);
        let p = choose|p: int|
            0 <= p < before.len() && #[trigger] before[p] == (edges[e].from[k], edges[e].to[m]);
        assert(all_pairs(edges, n)[p] == (edges[e].from[k], edges[e].to[m]));
    } else {
        let edge = edges[e];
        edge_pair_is_there(edge, edge.from.len(), k, m);
        let q = choose|q: int|
            0 <= q < edge_pairs(edge, edge.from.len()).len() && #[trigger] edge_pairs(
                edge,
                edge.from.len(),
            )[q] == (edge.from[k], edge.to[m]);
        assert(all_pairs(edges, n)[before.len() + q] == (edge.from[k], edge.to[m]));
    }
}

/// The keys, and where they are joined.
spec fn key_joins(nodes: Seq<NodeText>, edges: Seq<EdgeText>) -> Seq<(int, int)> {
    key_pairs(keys_apart(nodes, nodes.len()).keys, all_pairs(edges, edges.len()))
}

proof fn pairs_lead(nodes: Seq<NodeText>, edges: Seq<EdgeText>, x: int, y: int)
    requires
        edges_fault(edges, 0, nodes) is None,
        0 <= x < keys_apart(nodes, nodes.len()).keys.len(),
        0 <= y < keys_apart(nodes, nodes.len()).keys.len(),
    ensures
        ({
            let keys = keys_apart(nodes, nodes.len()).keys;
            let joins = key_joins(nodes, edges);
            (exists|p: int| 0 <= p < joins.len() && #[trigger] joins[p] == (x, y)) <==> edge_leads(
                edges,
                keys[x],
                keys[y],
            )
        }),
{
    let keys = keys_apart(nodes, nodes.len()).keys;
    let ends = all_pairs(edges, edges.len());
    let joins = key_joins(nodes, edges);
    wired_is_wf(nodes, edges);
    keys_are_there(nodes, nodes.len());
    if exists|p: int| 0 <= p < joins.len() && #[trigger] joins[p] == (x, y) {
        let p = choose|p: int| 0 <= p < joins.len() && #[trigger] joins[p] == (x, y);
        assert(joins[p] == key_pair(keys, ends[p]));
        assert(is_keyed(keys, ends[p]));
        pairs_are_of_edges(edges, edges.len(), p);
        let (e, k, m) = choose|e: int, k: int, m: int|
            0 <= e < edges.len() && 0 <= k < edges[e].from.len() && 0 <= m < edges[e].to.len()
                && ends[p] == (#[trigger] edges[e].from[k], #[trigger] edges[e].to[m]);
        assert(keys[x] == source_text(ends[p].0)->0);
        assert(keys[y] == dest_text(ends[p].1)->0);
        assert(names_source(keys[x], edges[e].from[k]));
        assert(names_dest(keys[y], edges[e].to[m]));
    }
    if edge_leads(edges, keys[x], keys[y]) {
        let (e, k, m) = choose|e: int, k: int, m: int|
            0 <= e < edges.len() && 0 <= k < edges[e].from.len() && 0 <= m < edges[e].to.len()
                && names_source(keys[x], #[trigger] edges[e].from[k]) && names_dest(
                keys[y],
                #[trigger] edges[e].to[m],
            );
        pair_is_there(edges, edges.len(), e, k, m);
        let p = choose|p: int|
            0 <= p < ends.len() && #[trigger] ends[p] == (edges[e].from[k], edges[e].to[m]);
        index_is_position(keys, keys[x], x);
        index_is_position(keys, keys[y], y);
        assert(joins[p] == key_pair(keys, ends[p]));
        assert(joins[p] == (x, y));
    }
}

proof fn chains_join(nodes: Seq<NodeText>, edges: Seq<EdgeText>, a: int, b: int)
    requires
        edges_fault(edges, 0, nodes) is None,
        0 <= a < keys_apart(nodes, nodes.len()).keys.len(),
        0 <= b < keys_apart(nodes, nodes.len()).keys.len(),
    ensures
        ({
            let keys = keys_apart(nodes, nodes.len()).keys;
            let joins = key_joins(nodes, edges);
            are_joined(joins, joins.len(), a, b) <==> is_joined(edges, keys[a], keys[b])
        }),
{
    let keys = keys_apart(nodes, nodes.len()).keys;
    let joins = key_joins(nodes, edges);
    let n = joins.len();
    wired_is_wf(nodes, edges);
    keys_are_there(nodes, nodes.len());
    let ends = all_pairs(edges, edges.len());
    assert forall|p: int| 0 <= p < n implies 0 <= (#[trigger] joins[p]).0 < keys.len() && 0
        <= joins[p].1 < keys.len() by {
        assert(is_keyed(keys, ends[p]));
    }
    if are_joined(joins, n, a, b) {
        let chain = choose|chain: Seq<int>|
            #[trigger] is_chain(joins, n, chain) && chain[0] == a && chain.last() == b;
        assert forall|k: int| 0 <= k < chain.len() implies 0 <= #[trigger] chain[k] < keys.len() by {
            if k < chain.len() - 1 {
                assert(is_pair(joins, n, chain[k], chain[k + 1]));
            } else if k > 0 {
                assert(is_pair(joins, n, chain[k - 1], chain[k - 1 + 1]));
            }
        }
        let texts = Seq::new(chain.len(), |k: int| keys[chain[k]]);
        assert forall|k: int| 0 <= k < texts.len() - 1 implies edge_leads(
            edges,
            #[trigger] texts[k],
            texts[k + 1],
        ) || edge_leads(edges, texts[k + 1], texts[k]) by {
            assert(is_pair(joins, n, chain[k], chain[k + 1]));
            pairs_lead(nodes, edges, chain[k], chain[k + 1]);
            pairs_lead(nodes, edges, chain[k + 1], chain[k]);
        }
        assert(edges_join(edges, texts));
        assert(texts[0] == keys[a] && texts[texts.len() - 1] == keys[b]);
    }
    if is_joined(edges, keys[a], keys[b]) {
        let texts = choose|texts: Seq<Seq<char>>|
            #[trigger] edges_join(edges, texts) && texts[0] == keys[a] && texts[texts.len() - 1]
                == keys[b];
        sides_are_keyed(nodes, edges, texts, keys[a]);
        let chain = Seq::new(texts.len(), |k: int| keys.index_of(texts[k]));
        assert forall|k: int| 0 <= k < chain.len() - 1 implies is_pair(
            joins,
            n,
            #[trigger] chain[k],
            chain[k + 1],
        ) by {
            assert(keys.contains(texts[k]) && keys.contains(texts[k + 1]));
            assert(edge_leads(edges, texts[k], texts[k + 1]) || edge_leads(
                edges,
                texts[k + 1],
                texts[k],
            ));
            pairs_lead(nodes, edges, chain[k], chain[k + 1]);
            pairs_lead(nodes, edges, chain[k + 1], chain[k]);
        }
        index_is_position(keys, keys[a], a);
        index_is_position(keys, keys[b], b);
        assert(is_chain(joins, n, chain));
        assert(chain[0] == a && chain.last() == b);
    }
}

proof fn led_sides_are_keyed(nodes: Seq<NodeText>, edges: Seq<EdgeText>, a: Seq<char>, b: Seq<char>)
    requires
        edges_fault(edges, 0, nodes) is None,
        edge_leads(edges, a, b),
    ensures
        keys_apart(nodes, nodes.len()).keys.contains(a),
        keys_apart(nodes, nodes.len()).keys.contains(b),
{
    wired_is_wf(nodes, edges);
    let ends = all_pairs(edges, edges.len());
    let (e, k, m) = choose|e: int, k: int, m: int|
        0 <= e < edges.len() && 0 <= k < edges[e].from.len() && 0 <= m < edges[e].to.len()
            && names_source(a, #[trigger] edges[e].from[k]) && names_dest(
            b,
            #[trigger] edges[e].to[m],
        );
    pair_is_there(edges, edges.len(), e, k, m);
    let p = choose|p: int|
        0 <= p < ends.len() && #[trigger] ends[p] == (edges[e].from[k], edges[e].to[m]);
    assert(is_keyed(keys_apart(nodes, nodes.len()).keys, ends[p]));
}

proof fn sides_are_keyed(
    nodes: Seq<NodeText>,
    edges: Seq<EdgeText>,
    texts: Seq<Seq<char>>,
    first: Seq<char>,
)
    requires
        edges_fault(edges, 0, nodes) is None,
        edges_join(edges, texts),
        texts[0] == first,
        keys_apart(nodes, nodes.len()).keys.contains(first),
    ensures
        forall|k: int|
            0 <= k < texts.len() ==> keys_apart(nodes, nodes.len()).keys.contains(
                #[trigger] texts[k],
            ),
{
    assert forall|k: int| 0 <= k < texts.len() implies keys_apart(nodes, nodes.len()).keys.contains(
        #[trigger] texts[k],
    ) by {
        if k > 0 {
            let j = k - 1;
            assert(edge_leads(edges, texts[j], texts[j + 1]) || edge_leads(
                edges,
                texts[j + 1],
                texts[j],
            ));
            if edge_leads(edges, texts[j], texts[j + 1]) {
                led_sides_are_keyed(nodes, edges, texts[j], texts[j + 1]);
            } else {
                led_sides_are_keyed(nodes, edges, texts[j + 1], texts[j]);
            }
        }
    }
}

proof fn side_links_are_numbers(
    nodes: Seq<NodeText>,
    edges: Seq<EdgeText>,
    plan: WiringPlan,
    side: Side,
) -> (at: int)
    requires
        edges_fault(edges, 0, nodes) is None,
        crate::wiring::is_wiring(plan, nodes, edges),
        is_side(side, nodes),
    ensures
        0 <= at < keys_apart(nodes, nodes.len()).keys.len(),
        keys_apart(nodes, nodes.len()).keys[at] == side_name(side, nodes),
        side_link(side, plan) == link_number(wired(nodes, edges), at),
{
    let keys = keys_apart(nodes, nodes.len()).keys;
    wired_is_wf(nodes, edges);
    keys_are_there(nodes, nodes.len());
    if let Side::Takes(i) = side {
        assert(keys.contains(nodes[i].name + ":in"@));
        assert(plan.node_links@[i].0 == link_of(wired(nodes, edges), nodes[i].name + ":in"@));
    }
    if let Side::Gives(i) = side {
        assert(keys.contains(nodes[i].name + ":out"@));
        assert(plan.node_links@[i].1 == link_of(wired(nodes, edges), nodes[i].name + ":out"@));
    }
    assert(keys.contains(side_name(side, nodes)));
    keys.index_of(side_name(side, nodes))
}

/// Two sides of a graph with good edges have the same link exactly where edges join them, directly or by
/// way of others.
pub proof fn links_join_what_edges_join(
    nodes: &Vec<NamedNode>,
    edges: &Vec<Edge>,
    a: Side,
    b: Side,
    r: WiringPlan,
)
    requires
        call_ensures(plan_wiring, (nodes, edges), r),
        forall|j: int|
            0 <= j < edges@.len() ==> is_good_edge(
                #[trigger] shown_edges(edges@)[j],
                shown_nodes(nodes@),
            ),
        is_side(a, shown_nodes(nodes@)),
        is_side(b, shown_nodes(nodes@)),
    ensures
        r.node_links@.len() == nodes@.len(),
        side_link(a, r) < r.link_count,
        side_link(a, r) == side_link(b, r) <==> is_joined(
            shown_edges(edges@),
            side_name(a, shown_nodes(nodes@)),
            side_name(b, shown_nodes(nodes@)),
        ),
{
    let decls = shown_nodes(nodes@);
    let all = shown_edges(edges@);
    edges_are_searched(all, 0, all.len() as int, decls);
    let x = side_links_are_numbers(decls, all, r, a);
    let y = side_links_are_numbers(decls, all, r, b);
    links_are_what_edges_join(decls, all, x, y);
    chains_join(decls, all, x, y);
    wired_is_wf(decls, all);
}

/// What an edge begins at and what it leads to have the same link.
pub proof fn edges_lead_over_links(
    nodes: &Vec<NamedNode>,
    edges: &Vec<Edge>,
    a: Side,
    b: Side,
    r: WiringPlan,
)
    requires
        call_ensures(plan_wiring, (nodes, edges), r),
        forall|j: int|
            0 <= j < edges@.len() ==> is_good_edge(
                #[trigger] shown_edges(edges@)[j],
                shown_nodes(nodes@),
            ),
        is_side(a, shown_nodes(nodes@)),
        is_side(b, shown_nodes(nodes@)),
        edge_leads(
            shown_edges(edges@),
            side_name(a, shown_nodes(nodes@)),
            side_name(b, shown_nodes(nodes@)),
        ),
    ensures
        side_link(a, r) == side_link(b, r),
{
    let decls = shown_nodes(nodes@);
    let all = shown_edges(edges@);
    let chain = seq![side_name(a, decls), side_name(b, decls)];
    assert forall|k: int| 0 <= k < chain.len() - 1 implies edge_leads(
        all,
        #[trigger] chain[k],
        chain[k + 1],
    ) || edge_leads(all, chain[k + 1], chain[k]) by {}
    assert(edges_join(all, chain));
    links_join_what_edges_join(nodes, edges, a, b, r);
}

proof fn every_key_is_a_side(nodes: Seq<NodeText>, n: nat, i: int)
    requires
        n <= nodes.len(),
        0 <= i < keys_apart(nodes, n).keys.len(),
    ensures
        exists|side: Side| is_side(side, nodes) && keys_apart(nodes, n).keys[i] == #[trigger] side_name(
            side,
            nodes,
        ),
    decreases n,
{
    if n == 0 {
        if keys_apart(nodes, n).keys[i] == "input:out"@ {
            assert(keys_apart(nodes, n).keys[i] == side_name(Side::Input, nodes));
        } else {
            assert(keys_apart(nodes, n).keys[i] == side_name(Side::Output, nodes));
        }
    } else {
        let before = keys_apart(nodes, (n - 1) as nat);
        if i < before.keys.len() {
            every_key_is_a_side(nodes, (n - 1) as nat, i);
            assert(keys_apart(nodes, n).keys[i] == before.keys[i]);
        } else if keys_apart(nodes, n).keys[i] == nodes[n - 1].name + ":in"@ {
            assert(keys_apart(nodes, n).keys[i] == side_name(Side::Takes(n - 1), nodes));
        } else {
            assert(keys_apart(nodes, n).keys[i] == side_name(Side::Gives(n - 1), nodes));
        }
    }
}

spec fn stands(groups: Groups, n: nat) -> Set<int> {
    vstd::set_lib::set_int_range(0, n as int).filter(|i: int| groups.roots[i] == i)
}

proof fn groups_are_those_that_stand(groups: Groups, n: nat)
    requires
        n <= groups.roots.len(),
    ensures
        stands(groups, n).finite(),
        stands(groups, n).len() == group_count(groups, n),
    decreases n,
{
    vstd::set_lib::lemma_int_range(0, n as int);
    if n > 0 {
        groups_are_those_that_stand(groups, (n - 1) as nat);
        let before = stands(groups, (n - 1) as nat);
        if groups.roots[n - 1] == n - 1 {
            assert(stands(groups, n) =~= before.insert(n - 1));
            assert(!before.contains(n - 1));
        } else {
            assert(stands(groups, n) =~= before);
        }
    } else {
        assert(stands(groups, n) =~= Set::<int>::empty());
    }
}

/// Links are numbered without a gap: each number below the count is the link of some side.
pub proof fn links_are_numbered_without_gaps(
    nodes: &Vec<NamedNode>,
    edges: &Vec<Edge>,
    link: int,
    r: WiringPlan,
)
    requires
        call_ensures(plan_wiring, (nodes, edges), r),
        forall|j: int|
            0 <= j < edges@.len() ==> is_good_edge(
                #[trigger] shown_edges(edges@)[j],
                shown_nodes(nodes@),
            ),
        0 <= link < r.link_count,
    ensures
        exists|side: Side| #[trigger] is_side(side, shown_nodes(nodes@)) && side_link(side, r) == link,
{
    let decls = shown_nodes(nodes@);
    let all = shown_edges(edges@);
    edges_are_searched(all, 0, all.len() as int, decls);
    wired_is_wf(decls, all);
    keys_are_there(decls, decls.len());
    let groups = wired(decls, all);
    let n = groups.keys.len();
    let roots = stands(groups, n);
    groups_are_those_that_stand(groups, n);
    let f = |i: int| link_number(groups, i) as int;
    let count = r.link_count as int;
    let numbers = vstd::set_lib::set_int_range(0, count);
    vstd::set_lib::lemma_int_range(0, count);
    vstd::set_lib::lemma_int_range(0, n as int);
    let used = roots.map(f);
    assert forall|x: int, y: int| roots.contains(x) && roots.contains(y) && #[trigger] f(x)
        == #[trigger] f(y) implies x == y by {
        if x != y {
            assert(groups.keys[x] != groups.keys[y]);
            texts_are_ordered(groups.keys[x], groups.keys[y], groups.keys[x]);
            if text_less(groups.keys[x], groups.keys[y]) {
                earlier_has_fewer(groups, x, y, n);
            } else {
                earlier_has_fewer(groups, y, x, n);
            }
        }
    }
    assert forall|x: int| #[trigger] used.contains(x) implies numbers.contains(x) by {
        let i = choose|i: int| roots.contains(i) && #[trigger] f(i) == x;
        links_are_what_edges_join(decls, all, i, i);
    }
    vstd::set_lib::lemma_map_size(roots, used, f);
    vstd::set_lib::lemma_len_subset(used, numbers);
    assert(used.subset_of(numbers));
    vstd::set_lib::lemma_subset_equality(used, numbers);
    assert(used.contains(link));
    let i = choose|i: int| roots.contains(i) && #[trigger] f(i) == link;
    every_key_is_a_side(decls, decls.len(), i);
    let side = choose|side: Side|
        is_side(side, decls) && keys_apart(decls, decls.len()).keys[i] == #[trigger] side_name(
            side,
            decls,
        );
    let at = side_links_are_numbers(decls, all, r, side);
    index_is_position(groups.keys, groups.keys[i], i);
    index_is_position(groups.keys, groups.keys[i], at);
    assert(is_side(side, decls));
}

/// Names are found where they are, and joining two names makes one group of both: what stood for the left
/// one stands for all of it. No other group changes, and no name.
pub proof fn names_are_joined(
    table: &mut KeyTable,
    left: usize,
    right: usize,
    i: int,
)
    requires
        call_ensures(KeyTable::union, (table, left, right), ()),
        0 <= i < old(table)@.roots.len(),
    ensures
        final(table)@.keys == old(table)@.keys,
        old(table)@.roots[i] == old(table)@.roots[right as int] ==> final(table)@.roots[i] == old(
            table,
        )@.roots[left as int],
        old(table)@.roots[i] != old(table)@.roots[right as int] ==> final(table)@.roots[i] == old(
            table,
        )@.roots[i],
{
}

/// Links are numbered by the names that stand for them, in the order of texts.
pub proof fn links_are_numbered_by_name(
    nodes: Seq<NodeText>,
    edges: Seq<EdgeText>,
    a: int,
    b: int,
)
    requires
        edges_fault(edges, 0, nodes) is None,
        0 <= a < keys_apart(nodes, nodes.len()).keys.len(),
        0 <= b < keys_apart(nodes, nodes.len()).keys.len(),
    ensures
        ({
            let groups = wired(nodes, edges);
            link_number(groups, a) < link_number(groups, b) <==> text_less(
                groups.keys[groups.roots[a]],
                groups.keys[groups.roots[b]],
            )
        }),
{
    let groups = wired(nodes, edges);
    wired_is_wf(nodes, edges);
    let (ra, rb) = (groups.roots[a], groups.roots[b]);
    assert(groups.roots[ra] == ra && groups.roots[rb] == rb);
    texts_are_ordered(groups.keys[ra], groups.keys[rb], groups.keys[ra]);
    if ra != rb {
        assert(groups.keys[ra] != groups.keys[rb]);
        if text_less(groups.keys[ra], groups.keys[rb]) {
            earlier_has_fewer(groups, ra, rb, groups.keys.len());
        } else {
            earlier_has_fewer(groups, rb, ra, groups.keys.len());
        }
    }
}

/// A name is added behind the others unless it is there, in a group of its own; it is found where it is,
/// and so is what stands for its group, which to look for changes nothing.
pub proof fn names_are_entered(
    adding: &mut KeyTable,
    looking: &mut KeyTable,
    key: &str,
    at: Option<usize>,
    i: usize,
    root: usize,
)
    requires
        call_ensures(KeyTable::insert_key, (adding, key), ()),
        call_ensures(KeyTable::position, (&*old(adding), key), at),
        call_ensures(KeyTable::find, (looking, i), root),
    ensures
        at is Some <==> old(adding)@.keys.contains(key@),
        at matches Some(k) ==> old(adding)@.keys[k as int] == key@,
        at is Some ==> final(adding)@ == old(adding)@,
        at is None ==> final(adding)@.keys == old(adding)@.keys.push(key@) && final(adding)@.roots
            == old(adding)@.roots.push(old(adding)@.keys.len() as int),
        final(looking)@ == old(looking)@,
        root == old(looking)@.roots[i as int],
{
}

/// Names are joined pair by pair, in the order of the pairs, the first of a pair standing for both.
pub proof fn pairs_are_joined_in_order(groups: Groups, pairs: Seq<(int, int)>, n: nat, i: int)
    requires
        n < pairs.len(),
        0 <= i < groups.roots.len(),
        all_united(groups, pairs, n).roots.len() == groups.roots.len(),
    ensures
        all_united(groups, pairs, 0) == groups,
        ({
            let before = all_united(groups, pairs, n);
            let after = all_united(groups, pairs, n + 1);
            let (left, right) = pairs[n as int];
            &&& after.keys == before.keys
            &&& after.roots.len() == before.roots.len()
            &&& before.roots[i] == before.roots[right] ==> after.roots[i] == before.roots[left]
            &&& before.roots[i] != before.roots[right] ==> after.roots[i] == before.roots[i]
        }),
{
}

/// The pairs that a graph joins come edge by edge, source by source and destination by destination, from
/// the source's side to the destination's.
pub proof fn edges_are_joined_in_order(
    nodes: Seq<NodeText>,
    edges: Seq<EdgeText>,
    e: int,
    k: int,
    m: int,
)
    requires
        0 <= e < edges.len(),
        0 <= k < edges[e].from.len(),
        0 <= m < edges[e].to.len(),
    ensures
        wired(nodes, edges) == all_united(
            keys_apart(nodes, nodes.len()),
            key_pairs(keys_apart(nodes, nodes.len()).keys, all_pairs(edges, edges.len())),
            all_pairs(edges, edges.len()).len(),
        ),
        ({
            let at = all_pairs(edges, e as nat).len() + k * edges[e].to.len() + m;
            &&& at < all_pairs(edges, edges.len()).len()
            &&& all_pairs(edges, edges.len())[at] == (edges[e].from[k], edges[e].to[m])
        }),
{
    let edge = edges[e];
    edge_pair_places(edge, edge.from.len(), k, m);
    all_pairs_begin(edges, (e + 1) as nat, edges.len());
    let before = all_pairs(edges, e as nat);
    let own = edge_pairs(edge, edge.from.len());
    assert(all_pairs(edges, (e + 1) as nat) == before + own);
    let at = before.len() + k * edge.to.len() + m;
    assert(all_pairs(edges, (e + 1) as nat)[at] == own[k * edge.to.len() + m]);
    assert(all_pairs(edges, edges.len()).take(all_pairs(edges, (e + 1) as nat).len() as int)[at]
        == own[k * edge.to.len() + m]);
}

proof fn all_pairs_begin(edges: Seq<EdgeText>, m: nat, n: nat)
    requires
        m <= n <= edges.len(),
    ensures
        all_pairs(edges, m).len() <= all_pairs(edges, n).len(),
        all_pairs(edges, n).take(all_pairs(edges, m).len() as int) == all_pairs(edges, m),
    decreases n - m,
{
    if m < n {
        all_pairs_begin(edges, m, (n - 1) as nat);
        let (a, b, c) = (
            all_pairs(edges, m),
            all_pairs(edges, (n - 1) as nat),
            all_pairs(edges, n),
        );
        assert(c.take(a.len() as int) =~= b.take(a.len() as int));
    } else {
        assert(all_pairs(edges, n).take(all_pairs(edges, n).len() as int) =~= all_pairs(edges, n));
    }
}

proof fn edge_pair_places(edge: EdgeText, n: nat, k: int, m: int)
    requires
        n <= edge.from.len(),
        0 <= m < edge.to.len(),
    ensures
        edge_pairs(edge, n).len() == n * edge.to.len(),
        0 <= k < n ==> {
            let at = k * edge.to.len() + m;
            &&& 0 <= at < edge_pairs(edge, n).len()
            &&& edge_pairs(edge, n)[at] == (edge.from[k], edge.to[m])
        },
    decreases n,
{
    let width = edge.to.len() as int;
    if n > 0 {
        edge_pair_places(edge, (n - 1) as nat, k, m);
        let before = edge_pairs(edge, (n - 1) as nat);
        assert(n * width == (n - 1) * width + width) by (nonlinear_arith);
        assert(edge_pairs(edge, n).len() == n * width);
        if 0 <= k < n {
            let at = k * width + m;
            if k < n - 1 {
                assert(edge_pairs(edge, n)[at] == before[at]);
            } else {
                assert(before.len() == k * width);
                assert(edge_pairs(edge, n)[at] == with_dests(edge.from[k], edge.to)[m]);
            }
        }
    } else {
        assert(n * width == 0) by (nonlinear_arith)
            requires
                n == 0,
        ;
    }
}

} // verus!
