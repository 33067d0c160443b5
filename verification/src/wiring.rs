//! Which links a graph of named nodes has, and which of them each node uses.

use crate::expand::{
    dest_fault, dest_key, dest_text, dests_fault, edge_fault, edges_fault, node_position,
    source_fault, source_key, source_text, named,
};
use crate::grammar::{
    shown_edges, shown_ends, shown_nodes, Edge, EdgeText, Endpoint, EndpointText, NamedNode,
    NodeText,
};
use crate::scaling::first_from_is_first;
use crate::text::{concat, less, text_less, texts_are_ordered};
use crate::union_find::{all_united, are_joined, groups_are_joined_names, Groups, KeyTable};
use vstd::prelude::*;

verus! {

/// The keys of the pipeline's ends and of both sides of the first `n` nodes, each in a group of its own.
pub open spec fn keys_apart(nodes: Seq<NodeText>, n: nat) -> Groups
    decreases n,
{
    if n == 0 {
        (Groups { keys: Seq::empty(), roots: Seq::empty() }).with_key("input:out"@).with_key(
            "output:in"@,
        )
    } else {
        keys_apart(nodes, (n - 1) as nat).with_key(nodes[n - 1].name + ":in"@).with_key(
            nodes[n - 1].name + ":out"@,
        )
    }
}

/// Whether each key is in a group of its own.
pub open spec fn is_apart(groups: Groups) -> bool {
    groups.wf() && forall|i: int|
        0 <= i < groups.roots.len() ==> #[trigger] groups.roots[i] == i
}

proof fn with_key_stays_apart(groups: Groups, key: Seq<char>)
    requires
        is_apart(groups),
    ensures
        is_apart(groups.with_key(key)),
        groups.with_key(key).keys.contains(key),
        forall|k: Seq<char>| #[trigger] groups.keys.contains(k) ==> groups.with_key(
            key,
        ).keys.contains(k),
{
    let next = groups.with_key(key);
    if !groups.keys.contains(key) {
        assert(next.keys[groups.keys.len() as int] == key);
        assert forall|k: Seq<char>| #[trigger] groups.keys.contains(k) implies next.keys.contains(
            k,
        ) by {
            let i = choose|i: int| 0 <= i < groups.keys.len() && groups.keys[i] == k;
            assert(next.keys[i] == k);
        }
        assert forall|i: int| 0 <= i < next.roots.len() implies #[trigger] next.roots[i] == i by {
            if i < groups.roots.len() {
                assert(groups.roots[i] == i);
            }
        }
    }
}

pub(crate) proof fn keys_are_there(nodes: Seq<NodeText>, n: nat)
    requires
        n <= nodes.len(),
    ensures
        is_apart(keys_apart(nodes, n)),
        keys_apart(nodes, n).keys.contains("input:out"@),
        keys_apart(nodes, n).keys.contains("output:in"@),
        forall|i: int|
            0 <= i < n ==> keys_apart(nodes, n).keys.contains(
                (#[trigger] nodes[i]).name + ":in"@,
            ) && keys_apart(nodes, n).keys.contains(nodes[i].name + ":out"@),
    decreases n,
{
    if n == 0 {
        let empty = Groups { keys: Seq::<Seq<char>>::empty(), roots: Seq::<int>::empty() };
        assert(is_apart(empty));
        with_key_stays_apart(empty, "input:out"@);
        with_key_stays_apart(empty.with_key("input:out"@), "output:in"@);
    } else {
        keys_are_there(nodes, (n - 1) as nat);
        let before = keys_apart(nodes, (n - 1) as nat);
        let half = before.with_key(nodes[n - 1].name + ":in"@);
        with_key_stays_apart(before, nodes[n - 1].name + ":in"@);
        with_key_stays_apart(half, nodes[n - 1].name + ":out"@);
        assert forall|i: int| 0 <= i < n implies keys_apart(nodes, n).keys.contains(
            (#[trigger] nodes[i]).name + ":in"@,
        ) && keys_apart(nodes, n).keys.contains(nodes[i].name + ":out"@) by {
            if i < n - 1 {
                assert(before.keys.contains(nodes[i].name + ":in"@));
                assert(before.keys.contains(nodes[i].name + ":out"@));
            }
            assert(half.keys.contains(nodes[n - 1].name + ":in"@));
        }
    }
}

fn make_table(nodes: &Vec<NamedNode>) -> (r: KeyTable)
    ensures
        r.wf(),
        r@ == keys_apart(shown_nodes(nodes@), nodes@.len()),
{
    let mut table: KeyTable = KeyTable::new();
    table.insert_key("input:out");
    table.insert_key("output:in");
    for i in 0..nodes.len()
        invariant
            table.wf(),
            table@ == keys_apart(shown_nodes(nodes@), i as nat),
    {
        assert(shown_nodes(nodes@)[i as int] == nodes@[i as int]@);
        let input: String = concat(nodes[i].name.as_str(), ":in");
        let output: String = concat(nodes[i].name.as_str(), ":out");
        table.insert_key(input.as_str());
        table.insert_key(output.as_str());
    }
    table
}

/// The source with each of these destinations.
pub open spec fn with_dests(from: EndpointText, to: Seq<EndpointText>) -> Seq<
    (EndpointText, EndpointText),
> {
    Seq::new(to.len(), |i: int| (from, to[i]))
}

/// The first `k` sources of the edge, each with each destination.
pub open spec fn edge_pairs(edge: EdgeText, k: nat) -> Seq<(EndpointText, EndpointText)>
    decreases k,
{
    if k == 0 {
        Seq::empty()
    } else {
        edge_pairs(edge, (k - 1) as nat) + with_dests(edge.from[k - 1], edge.to)
    }
}

/// The sources of the first `n` edges, each with each destination of its edge.
pub open spec fn all_pairs(edges: Seq<EdgeText>, n: nat) -> Seq<(EndpointText, EndpointText)>
    decreases n,
{
    if n == 0 {
        Seq::empty()
    } else {
        all_pairs(edges, (n - 1) as nat) + edge_pairs(edges[n - 1], edges[n - 1].from.len())
    }
}

/// Where the keys of a source and a destination are.
pub open spec fn key_pair(keys: Seq<Seq<char>>, pair: (EndpointText, EndpointText)) -> (int, int) {
    (keys.index_of(source_text(pair.0)->0), keys.index_of(dest_text(pair.1)->0))
}

/// Where the keys of sources and destinations are.
pub open spec fn key_pairs(keys: Seq<Seq<char>>, pairs: Seq<(EndpointText, EndpointText)>) -> Seq<
    (int, int),
> {
    pairs.map_values(|p: (EndpointText, EndpointText)| key_pair(keys, p))
}

/// Whether the keys of both are there.
pub open spec fn is_keyed(keys: Seq<Seq<char>>, pair: (EndpointText, EndpointText)) -> bool {
    &&& source_text(pair.0) matches Some(key) && keys.contains(key)
    &&& dest_text(pair.1) matches Some(key) && keys.contains(key)
}

/// The numbers of these pairs.
pub open spec fn as_ints(pairs: Seq<(usize, usize)>) -> Seq<(int, int)> {
    pairs.map_values(|p: (usize, usize)| (p.0 as int, p.1 as int))
}

proof fn position_is_named(nodes: Seq<NodeText>, name: Seq<char>)
    requires
        node_position(nodes, name) is Some,
    ensures
        exists|i: int| 0 <= i < nodes.len() && (#[trigger] nodes[i]).name == name,
{
    first_from_is_first(named(nodes, name), 0, nodes.len() as int);
    let i = node_position(nodes, name)->0;
    assert(named(nodes, name)(i));
    assert(nodes[i].name == name);
}

proof fn faultless_dest(to: Seq<EndpointText>, j: int, k: int, nodes: Seq<NodeText>)
    requires
        dests_fault(to, j, nodes) is None,
        0 <= j <= k < to.len(),
    ensures
        dest_fault(to[k], nodes) is None,
    decreases k - j,
{
    if j < k {
        faultless_dest(to, j + 1, k, nodes);
    }
}

proof fn faultless_source(edge: EdgeText, j: int, k: int, nodes: Seq<NodeText>)
    requires
        edge_fault(edge, j, nodes) is None,
        0 <= j <= k < edge.from.len(),
    ensures
        source_fault(edge.from[k], nodes) is None,
        dests_fault(edge.to, 0, nodes) is None,
    decreases k - j,
{
    if j < k {
        faultless_source(edge, j + 1, k, nodes);
    }
}

proof fn faultless_edge(edges: Seq<EdgeText>, j: int, i: int, nodes: Seq<NodeText>)
    requires
        edges_fault(edges, j, nodes) is None,
        0 <= j <= i < edges.len(),
    ensures
        edge_fault(edges[i], 0, nodes) is None,
    decreases i - j,
{
    if j < i {
        faultless_edge(edges, j + 1, i, nodes);
    }
}

proof fn faultless_is_keyed(
    edges: Seq<EdgeText>,
    nodes: Seq<NodeText>,
    i: int,
    k: int,
    m: int,
)
    requires
        edges_fault(edges, 0, nodes) is None,
        0 <= i < edges.len(),
        0 <= k < edges[i].from.len(),
        0 <= m < edges[i].to.len(),
    ensures
        is_keyed(keys_apart(nodes, nodes.len()).keys, (edges[i].from[k], edges[i].to[m])),
{
    keys_are_there(nodes, nodes.len());
    faultless_edge(edges, 0, i, nodes);
    faultless_source(edges[i], 0, k, nodes);
    faultless_dest(edges[i].to, 0, m, nodes);
    if let EndpointText::Node(name) = edges[i].from[k] {
        position_is_named(nodes, name);
    }
    if let EndpointText::Node(name) = edges[i].to[m] {
        position_is_named(nodes, name);
    }
}

pub(crate) proof fn index_is_position(keys: Seq<Seq<char>>, key: Seq<char>, i: int)
    requires
        keys.no_duplicates(),
        0 <= i < keys.len(),
        keys[i] == key,
    ensures
        keys.index_of(key) == i,
{
    assert(keys.contains(key));
    let j = keys.index_of(key);
    assert(0 <= j < keys.len() && keys[j] == key);
}

fn find_source(table: &KeyTable, end: &Endpoint) -> (r: usize)
    requires
        table.wf(),
        table@.keys.no_duplicates(),
        source_text(end@) matches Some(key) && table@.keys.contains(key),
    ensures
        r == table@.keys.index_of(source_text(end@)->0),
        r < table@.keys.len(),
{
    match source_key(end) {
        Ok(key) => match table.position(key.as_str()) {
            Some(i) => {
                proof {
                    index_is_position(table@.keys, key@, i as int);
                }
                i
            },
            None => 0,
        },
        Err(_) => 0,
    }
}

fn find_dest(table: &KeyTable, end: &Endpoint) -> (r: usize)
    requires
        table.wf(),
        table@.keys.no_duplicates(),
        dest_text(end@) matches Some(key) && table@.keys.contains(key),
    ensures
        r == table@.keys.index_of(dest_text(end@)->0),
        r < table@.keys.len(),
{
    match dest_key(end) {
        Ok(key) => match table.position(key.as_str()) {
            Some(i) => {
                proof {
                    index_is_position(table@.keys, key@, i as int);
                }
                i
            },
            None => 0,
        },
        Err(_) => 0,
    }
}

/// Whether each pair is one of positions in a table with that many names.
pub open spec fn pairs_within(pairs: Seq<(usize, usize)>, count: nat) -> bool {
    forall|i: int| 0 <= i < pairs.len() ==> (#[trigger] pairs[i]).0 < count && pairs[i].1 < count
}

fn push_dests(pairs: &mut Vec<(usize, usize)>, table: &KeyTable, from: &Endpoint, to: &Vec<Endpoint>)
    requires
        table.wf(),
        table@.keys.no_duplicates(),
        forall|m: int|
            0 <= m < to@.len() ==> is_keyed(table@.keys, (from@, (#[trigger] to@[m])@)),
        pairs_within(old(pairs)@, table@.keys.len()),
    ensures
        as_ints(final(pairs)@) == as_ints(old(pairs)@) + key_pairs(
            table@.keys,
            with_dests(from@, shown_ends(to@)),
        ),
        pairs_within(final(pairs)@, table@.keys.len()),
{
    let ghost keys = table@.keys;
    let ghost ends = shown_ends(to@);
    for m in 0..to.len()
        invariant
            table.wf(),
            keys == table@.keys,
            keys.no_duplicates(),
            ends == shown_ends(to@),
            forall|m: int| 0 <= m < to@.len() ==> is_keyed(keys, (from@, (#[trigger] to@[m])@)),
            pairs@.len() == old(pairs)@.len() + m,
            forall|k: int|
                0 <= k < old(pairs)@.len() ==> #[trigger] pairs@[k] == old(pairs)@[k],
            forall|k: int|
                0 <= k < m ==> (
                (#[trigger] pairs@[old(pairs)@.len() + k]).0 as int,
                pairs@[old(pairs)@.len() + k].1 as int,
                ) == key_pair(keys, (from@, ends[k])),
            pairs_within(pairs@, keys.len()),
    {
        assert(is_keyed(keys, (from@, to@[m as int]@)));
        let ghost held = pairs@;
        pairs.push((find_source(table, from), find_dest(table, &to[m])));
        assert forall|k: int| 0 <= k < m + 1 implies (
        (#[trigger] pairs@[old(pairs)@.len() + k]).0 as int,
        pairs@[old(pairs)@.len() + k].1 as int,
        ) == key_pair(keys, (from@, ends[k])) by {
            if k < m {
                assert(held[old(pairs)@.len() + k] == pairs@[old(pairs)@.len() + k]);
            }
        }
    }
    let ghost expected = as_ints(old(pairs)@) + key_pairs(keys, with_dests(from@, ends));
    assert forall|k: int| 0 <= k < expected.len() implies #[trigger] as_ints(pairs@)[k]
        == expected[k] by {
        if k >= old(pairs)@.len() {
            let j = k - old(pairs)@.len();
            assert(pairs@[old(pairs)@.len() + j].0 as int == key_pair(keys, (from@, ends[j])).0);
        }
    }
    assert(as_ints(pairs@) == expected);
}

proof fn key_pairs_append(
    keys: Seq<Seq<char>>,
    a: Seq<(EndpointText, EndpointText)>,
    b: Seq<(EndpointText, EndpointText)>,
)
    ensures
        key_pairs(keys, a + b) == key_pairs(keys, a) + key_pairs(keys, b),
{
    assert(key_pairs(keys, a + b) =~= key_pairs(keys, a) + key_pairs(keys, b));
}

fn push_edge(pairs: &mut Vec<(usize, usize)>, table: &KeyTable, edge: &Edge)
    requires
        table.wf(),
        table@.keys.no_duplicates(),
        forall|k: int, m: int|
            0 <= k < edge.from@.len() && 0 <= m < edge.to@.len() ==> is_keyed(
                table@.keys,
                ((#[trigger] edge.from@[k])@, (#[trigger] edge.to@[m])@),
            ),
        pairs_within(old(pairs)@, table@.keys.len()),
    ensures
        as_ints(final(pairs)@) == as_ints(old(pairs)@) + key_pairs(
            table@.keys,
            edge_pairs(edge@, edge@.from.len()),
        ),
        pairs_within(final(pairs)@, table@.keys.len()),
{
    let ghost keys = table@.keys;
    let ghost base = as_ints(pairs@);
    assert(base + key_pairs(keys, edge_pairs(edge@, 0)) == base);
    for k in 0..edge.from.len()
        invariant
            table.wf(),
            keys == table@.keys,
            keys.no_duplicates(),
            forall|k: int, m: int|
                0 <= k < edge.from@.len() && 0 <= m < edge.to@.len() ==> is_keyed(
                    keys,
                    ((#[trigger] edge.from@[k])@, (#[trigger] edge.to@[m])@),
                ),
            as_ints(pairs@) == base + key_pairs(keys, edge_pairs(edge@, k as nat)),
            pairs_within(pairs@, keys.len()),
    {
        assert(edge@.from[k as int] == edge.from@[k as int]@);
        push_dests(pairs, table, &edge.from[k], &edge.to);
        proof {
            let done = edge_pairs(edge@, k as nat);
            let more = with_dests(edge@.from[k as int], edge@.to);
            key_pairs_append(keys, done, more);
            assert(as_ints(pairs@) == base + (key_pairs(keys, done) + key_pairs(keys, more)));
        }
    }
    assert(edge@.from.len() == edge.from@.len());
}

fn list_pairs(table: &KeyTable, nodes: &Vec<NamedNode>, edges: &Vec<Edge>) -> (r: Vec<(usize, usize)>)
    requires
        table.wf(),
        table@ == keys_apart(shown_nodes(nodes@), nodes@.len()),
        edges_fault(shown_edges(edges@), 0, shown_nodes(nodes@)) is None,
    ensures
        as_ints(r@) == key_pairs(
            table@.keys,
            all_pairs(shown_edges(edges@), edges@.len()),
        ),
        pairs_within(r@, table@.keys.len()),
{
    let ghost keys = table@.keys;
    let ghost all = shown_edges(edges@);
    let ghost decls = shown_nodes(nodes@);
    let mut pairs: Vec<(usize, usize)> = Vec::new();
    proof {
        keys_are_there(decls, decls.len());
    }
    assert(as_ints(pairs@) == key_pairs(keys, all_pairs(all, 0)));
    for i in 0..edges.len()
        invariant
            table.wf(),
            keys == table@.keys,
            keys.no_duplicates(),
            all == shown_edges(edges@),
            decls == shown_nodes(nodes@),
            table@ == keys_apart(decls, decls.len()),
            edges_fault(all, 0, decls) is None,
            as_ints(pairs@) == key_pairs(keys, all_pairs(all, i as nat)),
            pairs_within(pairs@, keys.len()),
    {
        let edge: &Edge = &edges[i];
        assert(all[i as int] == edge@);
        assert forall|k: int, m: int|
            0 <= k < edge.from@.len() && 0 <= m < edge.to@.len() implies is_keyed(
            keys,
            ((#[trigger] edge.from@[k])@, (#[trigger] edge.to@[m])@),
        ) by {
            faultless_is_keyed(all, decls, i as int, k, m);
            assert(all[i as int].from[k] == edge.from@[k]@);
            assert(all[i as int].to[m] == edge.to@[m]@);
        }
        push_edge(&mut pairs, table, edge);
        proof {
            key_pairs_append(
                keys,
                all_pairs(all, i as nat),
                edge_pairs(all[i as int], all[i as int].from.len()),
            );
        }
    }
    pairs
}

/// The keys of a graph, those that edges join in one group each.
pub open spec fn wired(nodes: Seq<NodeText>, edges: Seq<EdgeText>) -> Groups {
    let apart = keys_apart(nodes, nodes.len());
    let pairs = key_pairs(apart.keys, all_pairs(edges, edges.len()));
    all_united(apart, pairs, pairs.len())
}

/// How many of the first `n` keys stand for their group and come before `key`.
pub open spec fn groups_before(groups: Groups, key: Seq<char>, n: nat) -> nat
    decreases n,
{
    if n == 0 {
        0
    } else {
        groups_before(groups, key, (n - 1) as nat) + if groups.roots[n - 1] == n - 1 && text_less(
            groups.keys[n - 1],
            key,
        ) {
            1nat
        } else {
            0nat
        }
    }
}

/// How many of the first `n` keys stand for their group.
pub open spec fn group_count(groups: Groups, n: nat) -> nat
    decreases n,
{
    if n == 0 {
        0
    } else {
        group_count(groups, (n - 1) as nat) + if groups.roots[n - 1] == n - 1 {
            1nat
        } else {
            0nat
        }
    }
}

/// The number of the link of the key at `i`: links are numbered by the order of what stands for their
/// groups.
pub open spec fn link_number(groups: Groups, i: int) -> nat {
    groups_before(groups, groups.keys[groups.roots[i]], groups.keys.len())
}

/// The number of the link of that key.
pub open spec fn link_of(groups: Groups, key: Seq<char>) -> nat {
    link_number(groups, groups.keys.index_of(key))
}

/// Which links a graph has, and which of them each node uses.
#[derive(Debug)]
pub struct WiringPlan {
    pub link_count: usize,
    pub input_link: usize,
    pub output_link: usize,
    /// For each node, the link that it takes items from and the one that it puts them on.
    pub node_links: Vec<(usize, usize)>,
}

/// Whether the plan is that of the graph.
pub open spec fn is_wiring(plan: WiringPlan, nodes: Seq<NodeText>, edges: Seq<EdgeText>) -> bool {
    let groups = wired(nodes, edges);
    &&& plan.link_count == group_count(groups, groups.keys.len())
    &&& plan.input_link == link_of(groups, "input:out"@)
    &&& plan.output_link == link_of(groups, "output:in"@)
    &&& plan.node_links@.len() == nodes.len()
    &&& forall|i: int|
        0 <= i < nodes.len() ==> {
            let links = #[trigger] plan.node_links@[i];
            &&& links.0 == link_of(groups, nodes[i].name + ":in"@)
            &&& links.1 == link_of(groups, nodes[i].name + ":out"@)
        }
}

fn list_roots(table: &mut KeyTable) -> (r: Vec<usize>)
    requires
        old(table).wf(),
    ensures
        final(table).wf(),
        final(table)@ == old(table)@,
        r@.len() == old(table)@.keys.len(),
        forall|i: int| 0 <= i < r@.len() ==> #[trigger] r@[i] == old(table)@.roots[i],
{
    let count: usize = table.len();
    let mut roots: Vec<usize> = Vec::new();
    for i in 0..count
        invariant
            table.wf(),
            table@ == old(table)@,
            count == table@.keys.len(),
            roots@.len() == i,
            forall|k: int| 0 <= k < i ==> #[trigger] roots@[k] == old(table)@.roots[k],
    {
        roots.push(table.find(i));
    }
    roots
}

fn number_link(table: &KeyTable, roots: &Vec<usize>, i: usize) -> (r: usize)
    requires
        table.wf(),
        table@.wf(),
        i < table@.keys.len(),
        roots@.len() == table@.keys.len(),
        forall|k: int| 0 <= k < roots@.len() ==> #[trigger] roots@[k] == table@.roots[k],
    ensures
        r == link_number(table@, i as int),
{
    let count: usize = table.len();
    let mut before: usize = 0;
    assert(table@.roots[i as int] == roots@[i as int]);
    let own: &str = table.key(roots[i]);
    for k in 0..count
        invariant
            table.wf(),
            count == table@.keys.len(),
            roots@.len() == count,
            forall|k: int| 0 <= k < roots@.len() ==> #[trigger] roots@[k] == table@.roots[k],
            own@ == table@.keys[table@.roots[i as int]],
            before == groups_before(table@, own@, k as nat),
            before <= k,
    {
        if roots[k] == k && less(table.key(k), own) {
            before = before + 1;
        }
    }
    before
}

fn count_links(roots: &Vec<usize>, groups: Ghost<Groups>) -> (r: usize)
    requires
        roots@.len() == groups@.keys.len(),
        forall|k: int| 0 <= k < roots@.len() ==> #[trigger] roots@[k] == groups@.roots[k],
    ensures
        r == group_count(groups@, groups@.keys.len()),
{
    let mut total: usize = 0;
    for k in 0..roots.len()
        invariant
            roots@.len() == groups@.keys.len(),
            forall|k: int| 0 <= k < roots@.len() ==> #[trigger] roots@[k] == groups@.roots[k],
            total == group_count(groups@, k as nat),
            total <= k,
    {
        if roots[k] == k {
            total = total + 1;
        }
    }
    total
}

fn number_key(table: &KeyTable, roots: &Vec<usize>, key: &str) -> (r: usize)
    requires
        table.wf(),
        table@.wf(),
        table@.keys.contains(key@),
        roots@.len() == table@.keys.len(),
        forall|k: int| 0 <= k < roots@.len() ==> #[trigger] roots@[k] == table@.roots[k],
    ensures
        r == link_of(table@, key@),
{
    match table.position(key) {
        Some(i) => {
            proof {
                index_is_position(table@.keys, key@, i as int);
            }
            number_link(table, roots, i)
        },
        None => 0,
    }
}

pub(crate) proof fn wired_is_wf(nodes: Seq<NodeText>, edges: Seq<EdgeText>)
    requires
        edges_fault(edges, 0, nodes) is None,
    ensures
        wired(nodes, edges).wf(),
        wired(nodes, edges).keys == keys_apart(nodes, nodes.len()).keys,
        forall|k: int|
            0 <= k < all_pairs(edges, edges.len()).len() ==> is_keyed(
                keys_apart(nodes, nodes.len()).keys,
                #[trigger] all_pairs(edges, edges.len())[k],
            ),
{
    let apart = keys_apart(nodes, nodes.len());
    keys_are_there(nodes, nodes.len());
    pairs_are_keyed(nodes, edges, edges.len());
    let ends = all_pairs(edges, edges.len());
    let pairs = key_pairs(apart.keys, ends);
    assert forall|k: int| 0 <= k < pairs.len() implies 0 <= (#[trigger] pairs[k]).0
        < apart.keys.len() && 0 <= pairs[k].1 < apart.keys.len() by {
        assert(is_keyed(apart.keys, ends[k]));
    }
    let input = apart.keys.index_of("input:out"@);
    groups_are_joined_names(apart, pairs, pairs.len(), input, input);
}

proof fn pairs_are_keyed(nodes: Seq<NodeText>, edges: Seq<EdgeText>, n: nat)
    requires
        edges_fault(edges, 0, nodes) is None,
        n <= edges.len(),
    ensures
        forall|k: int|
            0 <= k < all_pairs(edges, n).len() ==> is_keyed(
                keys_apart(nodes, nodes.len()).keys,
                #[trigger] all_pairs(edges, n)[k],
            ),
    decreases n,
{
    if n > 0 {
        pairs_are_keyed(nodes, edges, (n - 1) as nat);
        edge_pairs_are_keyed(nodes, edges, n - 1, edges[n - 1].from.len());
        let before = all_pairs(edges, (n - 1) as nat);
        assert forall|k: int| 0 <= k < all_pairs(edges, n).len() implies is_keyed(
            keys_apart(nodes, nodes.len()).keys,
            #[trigger] all_pairs(edges, n)[k],
        ) by {
            if k < before.len() {
                assert(all_pairs(edges, n)[k] == before[k]);
            } else {
                assert(all_pairs(edges, n)[k] == edge_pairs(
                    edges[n - 1],
                    edges[n - 1].from.len(),
                )[k - before.len()]);
            }
        }
    }
}

proof fn edge_pairs_are_keyed(nodes: Seq<NodeText>, edges: Seq<EdgeText>, i: int, n: nat)
    requires
        edges_fault(edges, 0, nodes) is None,
        0 <= i < edges.len(),
        n <= edges[i].from.len(),
    ensures
        forall|k: int|
            0 <= k < edge_pairs(edges[i], n).len() ==> is_keyed(
                keys_apart(nodes, nodes.len()).keys,
                #[trigger] edge_pairs(edges[i], n)[k],
            ),
    decreases n,
{
    if n > 0 {
        edge_pairs_are_keyed(nodes, edges, i, (n - 1) as nat);
        let before = edge_pairs(edges[i], (n - 1) as nat);
        assert forall|k: int| 0 <= k < edge_pairs(edges[i], n).len() implies is_keyed(
            keys_apart(nodes, nodes.len()).keys,
            #[trigger] edge_pairs(edges[i], n)[k],
        ) by {
            if k < before.len() {
                assert(edge_pairs(edges[i], n)[k] == before[k]);
            } else {
                let m = k - before.len();
                faultless_is_keyed(edges, nodes, i, n - 1, m);
                assert(edge_pairs(edges[i], n)[k] == (edges[i].from[n - 1], edges[i].to[m]));
            }
        }
    }
}

/// Finds out which links a graph has, and which of them each node uses.
pub fn plan_wiring(nodes: &Vec<NamedNode>, edges: &Vec<Edge>) -> (r: WiringPlan)
    requires
        edges_fault(shown_edges(edges@), 0, shown_nodes(nodes@)) is None,
    ensures
        is_wiring(r, shown_nodes(nodes@), shown_edges(edges@)),
{
    let ghost decls = shown_nodes(nodes@);
    let ghost all = shown_edges(edges@);
    let mut table: KeyTable = make_table(nodes);
    let ghost apart = table@;
    let pairs: Vec<(usize, usize)> = list_pairs(&table, nodes, edges);
    let ghost joins = as_ints(pairs@);
    let total: usize = pairs.len();
    for k in 0..total
        invariant
            table.wf(),
            total == pairs@.len(),
            joins == as_ints(pairs@),
            pairs_within(pairs@, apart.keys.len()),
            table@.keys.len() == apart.keys.len(),
            table@ == all_united(apart, joins, k as nat),
    {
        let pair: (usize, usize) = pairs[k];
        assert(joins[k as int] == (pair.0 as int, pair.1 as int));
        table.union(pair.0, pair.1);
    }
    assert(joins.len() == pairs@.len());
    assert(table@ == wired(decls, all));
    proof {
        wired_is_wf(decls, all);
        keys_are_there(decls, decls.len());
    }
    let roots: Vec<usize> = list_roots(&mut table);
    let mut node_links: Vec<(usize, usize)> = Vec::new();
    for i in 0..nodes.len()
        invariant
            table.wf(),
            table@.wf(),
            table@ == wired(decls, all),
            decls == shown_nodes(nodes@),
            roots@.len() == table@.keys.len(),
            forall|k: int| 0 <= k < roots@.len() ==> #[trigger] roots@[k] == table@.roots[k],
            forall|k: int|
                0 <= k < decls.len() ==> table@.keys.contains((#[trigger] decls[k]).name + ":in"@)
                    && table@.keys.contains(decls[k].name + ":out"@),
            node_links@.len() == i,
            forall|k: int|
                0 <= k < i ==> {
                    let links = #[trigger] node_links@[k];
                    &&& links.0 == link_of(table@, decls[k].name + ":in"@)
                    &&& links.1 == link_of(table@, decls[k].name + ":out"@)
                },
    {
        assert(decls[i as int] == nodes@[i as int]@);
        let input: String = concat(nodes[i].name.as_str(), ":in");
        let output: String = concat(nodes[i].name.as_str(), ":out");
        node_links.push(
            (
                number_key(&table, &roots, input.as_str()),
                number_key(&table, &roots, output.as_str()),
            ),
        );
    }
    WiringPlan {
        link_count: count_links(&roots, Ghost(table@)),
        input_link: number_key(&table, &roots, "input:out"),
        output_link: number_key(&table, &roots, "output:in"),
        node_links,
    }
}

pub(crate) proof fn earlier_has_fewer(groups: Groups, a: int, b: int, n: nat)
    requires
        groups.wf(),
        n <= groups.keys.len(),
        0 <= a < groups.keys.len(),
        groups.roots[a] == a,
        text_less(groups.keys[a], groups.keys[b]),
    ensures
        groups_before(groups, groups.keys[a], n) + if a < n {
            1nat
        } else {
            0nat
        } <= groups_before(groups, groups.keys[b], n),
    decreases n,
{
    if n > 0 {
        earlier_has_fewer(groups, a, b, (n - 1) as nat);
        texts_are_ordered(groups.keys[n - 1], groups.keys[a], groups.keys[b]);
        texts_are_ordered(groups.keys[a], groups.keys[a], groups.keys[a]);
    }
}

proof fn fewer_before_than_all(groups: Groups, i: int, n: nat)
    requires
        groups.wf(),
        n <= groups.keys.len(),
        0 <= i < groups.keys.len(),
        groups.roots[i] == i,
    ensures
        groups_before(groups, groups.keys[i], n) + if i < n {
            1nat
        } else {
            0nat
        } <= group_count(groups, n),
    decreases n,
{
    if n > 0 {
        fewer_before_than_all(groups, i, (n - 1) as nat);
        texts_are_ordered(groups.keys[i], groups.keys[i], groups.keys[i]);
    }
}

/// Two sides of nodes, or ends of the pipeline, have the same link if and only if edges join them,
/// directly or by way of others; and the links are numbered from zero up without going beyond their
/// count.
pub proof fn links_are_what_edges_join(
    nodes: Seq<NodeText>,
    edges: Seq<EdgeText>,
    a: int,
    b: int,
)
    requires
        edges_fault(edges, 0, nodes) is None,
        0 <= a < keys_apart(nodes, nodes.len()).keys.len(),
        0 <= b < keys_apart(nodes, nodes.len()).keys.len(),
    ensures
        ({
            let groups = wired(nodes, edges);
            let pairs = key_pairs(
                keys_apart(nodes, nodes.len()).keys,
                all_pairs(edges, edges.len()),
            );
            &&& link_number(groups, a) == link_number(groups, b) <==> are_joined(
                pairs,
                pairs.len(),
                a,
                b,
            )
            &&& link_number(groups, a) < group_count(groups, groups.keys.len())
        }),
{
    let apart = keys_apart(nodes, nodes.len());
    let groups = wired(nodes, edges);
    let ends = all_pairs(edges, edges.len());
    let pairs = key_pairs(apart.keys, ends);
    wired_is_wf(nodes, edges);
    keys_are_there(nodes, nodes.len());
    assert forall|k: int| 0 <= k < pairs.len() implies 0 <= (#[trigger] pairs[k]).0
        < apart.keys.len() && 0 <= pairs[k].1 < apart.keys.len() by {
        assert(is_keyed(apart.keys, ends[k]));
    }
    groups_are_joined_names(apart, pairs, pairs.len(), a, b);
    let ra = groups.roots[a];
    let rb = groups.roots[b];
    assert(groups.roots[ra] == ra && groups.roots[rb] == rb);
    let n = groups.keys.len();
    if ra != rb {
        assert(groups.keys[ra] != groups.keys[rb]);
        texts_are_ordered(groups.keys[ra], groups.keys[rb], groups.keys[ra]);
        if text_less(groups.keys[ra], groups.keys[rb]) {
            earlier_has_fewer(groups, ra, rb, n);
        } else {
            earlier_has_fewer(groups, rb, ra, n);
        }
    }
    fewer_before_than_all(groups, ra, n);
}

/// The links of a plan are among those that it counts.
pub proof fn links_are_counted(plan: WiringPlan, nodes: Seq<NodeText>, edges: Seq<EdgeText>)
    requires
        edges_fault(edges, 0, nodes) is None,
        is_wiring(plan, nodes, edges),
    ensures
        plan.input_link < plan.link_count,
        plan.output_link < plan.link_count,
        forall|i: int|
            0 <= i < nodes.len() ==> (#[trigger] plan.node_links@[i]).0 < plan.link_count
                && plan.node_links@[i].1 < plan.link_count,
{
    let groups = wired(nodes, edges);
    wired_is_wf(nodes, edges);
    keys_are_there(nodes, nodes.len());
    let input = groups.keys.index_of("input:out"@);
    let output = groups.keys.index_of("output:in"@);
    links_are_what_edges_join(nodes, edges, input, input);
    links_are_what_edges_join(nodes, edges, output, output);
    assert forall|i: int| 0 <= i < nodes.len() implies (#[trigger] plan.node_links@[i]).0
        < plan.link_count && plan.node_links@[i].1 < plan.link_count by {
        assert(groups.keys.contains(nodes[i].name + ":in"@));
        let from = groups.keys.index_of(nodes[i].name + ":in"@);
        let to = groups.keys.index_of(nodes[i].name + ":out"@);
        links_are_what_edges_join(nodes, edges, from, from);
        links_are_what_edges_join(nodes, edges, to, to);
    }
}

} // verus!
