//! Search for a cycle in a directed graph.

use vstd::prelude::*;

verus! {

/// Whether the graph has an edge from `i` to `j`. Node `i`'s successors are listed in `adjacency[i]`.
pub open spec fn has_edge(adjacency: Seq<Vec<usize>>, i: int, j: int) -> bool {
    0 <= i < adjacency.len() && exists|k: int|
        0 <= k < adjacency[i]@.len() && #[trigger] adjacency[i]@[k] == j
}

/// Whether each node of `path` has an edge to the next.
pub open spec fn is_walk(adjacency: Seq<Vec<usize>>, path: Seq<int>) -> bool {
    forall|k: int| 0 <= k < path.len() - 1 ==> has_edge(adjacency, #[trigger] path[k], path[k + 1])
}

/// Whether `path` leaves a node and comes back to it.
pub open spec fn is_cycle(adjacency: Seq<Vec<usize>>, path: Seq<int>) -> bool {
    path.len() >= 2 && is_walk(adjacency, path) && path[0] == path.last()
}

/// Whether some walk through the graph comes back to where it began.
pub open spec fn has_cycle(adjacency: Seq<Vec<usize>>) -> bool {
    exists|path: Seq<int>| is_cycle(adjacency, path)
}

/// Whether `path` is a walk whose last node is one that it came through before.
pub open spec fn comes_back(adjacency: Seq<Vec<usize>>, path: Seq<int>) -> bool {
    path.len() >= 2 && is_walk(adjacency, path) && path.drop_last().contains(path.last())
}

/// Whether some walk from `i` comes back to a node that it came through before.
pub open spec fn leads_to_cycle(adjacency: Seq<Vec<usize>>, i: int) -> bool {
    exists|path: Seq<int>| #[trigger] comes_back(adjacency, path) && path[0] == i
}

/// Whether every listed successor is a node of the graph.
pub open spec fn is_graph(adjacency: Seq<Vec<usize>>) -> bool {
    forall|i: int, k: int|
        0 <= i < adjacency.len() && 0 <= k < adjacency[i]@.len() ==> #[trigger] adjacency[i]@[k]
            < adjacency.len()
}

/// Whether the marked nodes are closed under edges and every edge between them lowers the rank.
spec fn ranks(
    adjacency: Seq<Vec<usize>>,
    marked: Seq<bool>,
    rank: spec_fn(int) -> int,
    bound: int,
) -> bool {
    &&& forall|u: int| 0 <= u < marked.len() && marked[u] ==> 0 <= #[trigger] rank(u) < bound
    &&& forall|u: int, v: int|
        0 <= u < marked.len() && marked[u] && #[trigger] has_edge(adjacency, u, v) ==> 0 <= v
            < marked.len() && marked[v] && rank(v) < rank(u)
}

spec fn ranked(adjacency: Seq<Vec<usize>>, marked: Seq<bool>) -> bool {
    exists|rank: spec_fn(int) -> int, bound: int| ranks(adjacency, marked, rank, bound)
}

spec fn on_stack(temporary: Seq<bool>, stack: Seq<int>) -> bool {
    &&& stack.no_duplicates()
    &&& forall|k: int| 0 <= k < stack.len() ==> 0 <= #[trigger] stack[k] < temporary.len()
    &&& forall|u: int| 0 <= u < temporary.len() ==> (#[trigger] temporary[u] <==> stack.contains(u))
}

spec fn grows(before: Seq<bool>, after: Seq<bool>) -> bool {
    &&& before.len() == after.len()
    &&& forall|u: int| 0 <= u < before.len() && before[u] ==> #[trigger] after[u]
}

spec fn apart(temporary: Seq<bool>, permanent: Seq<bool>) -> bool {
    forall|u: int| 0 <= u < temporary.len() && temporary[u] ==> !#[trigger] permanent[u]
}

proof fn bounded_distinct(s: Seq<int>, n: int)
    requires
        s.no_duplicates(),
        n >= 0,
        forall|k: int| 0 <= k < s.len() ==> 0 <= #[trigger] s[k] < n,
    ensures
        s.len() <= n,
{
    s.unique_seq_to_set();
    let all = vstd::set_lib::set_int_range(0, n);
    vstd::set_lib::lemma_int_range(0, n);
    assert(s.to_set().subset_of(all)) by {
        assert forall|x: int| s.to_set().contains(x) implies all.contains(x) by {
            let k = choose|k: int| 0 <= k < s.len() && s[k] == x;
            assert(0 <= s[k] < n);
        }
    }
    vstd::set_lib::lemma_len_subset(s.to_set(), all);
}

proof fn walk_lowers_rank(
    adjacency: Seq<Vec<usize>>,
    marked: Seq<bool>,
    rank: spec_fn(int) -> int,
    bound: int,
    path: Seq<int>,
    k: int,
)
    requires
        ranks(adjacency, marked, rank, bound),
        is_walk(adjacency, path),
        0 <= k < path.len(),
        0 <= path[0] < marked.len(),
        marked[path[0]],
    ensures
        0 <= path[k] < marked.len(),
        marked[path[k]],
        rank(path[k]) <= rank(path[0]) - k,
    decreases k,
{
    if k > 0 {
        walk_lowers_rank(adjacency, marked, rank, bound, path, k - 1);
        assert(has_edge(adjacency, path[k - 1], path[(k - 1) + 1]));
    }
}

/// Depth-first search from `node`. `temporary` marks the nodes between the root of the search and
/// `node`, `permanent` those that are known to lead to no cycle. Returns whether a cycle was found.
fn visit(
    node: usize,
    adjacency: &Vec<Vec<usize>>,
    temporary: &mut Vec<bool>,
    permanent: &mut Vec<bool>,
    Ghost(stack): Ghost<Seq<int>>,
) -> (found: bool)
    requires
        is_graph(adjacency@),
        node < adjacency@.len(),
        old(temporary)@.len() == adjacency@.len(),
        old(permanent)@.len() == adjacency@.len(),
        on_stack(old(temporary)@, stack),
        is_walk(adjacency@, stack),
        stack.len() > 0 ==> has_edge(adjacency@, stack.last(), node as int),
        apart(old(temporary)@, old(permanent)@),
        ranked(adjacency@, old(permanent)@),
    ensures
        found ==> leads_to_cycle(adjacency@, stack.push(node as int)[0]),
        !found ==> {
            &&& final(temporary)@ == old(temporary)@
            &&& grows(old(permanent)@, final(permanent)@)
            &&& final(permanent)@[node as int]
            &&& apart(final(temporary)@, final(permanent)@)
            &&& ranked(adjacency@, final(permanent)@)
        },
    decreases adjacency@.len() - stack.len(),
{
    if permanent[node] {
        return false;
    }
    if temporary[node] {
        proof {
            let path = stack.push(node as int);
            assert forall|k: int| 0 <= k < path.len() - 1 implies has_edge(
                adjacency@,
                #[trigger] path[k],
                path[k + 1],
            ) by {
                if k < path.len() - 2 {
                    assert(path[k] == stack[k]);
                    assert(path[k + 1] == stack[k + 1]);
                } else {
                    assert(path[k] == stack.last());
                }
            }
            assert(path.drop_last() == stack);
            assert(comes_back(adjacency@, path));
        }
        return true;
    }
    let ghost deeper = stack.push(node as int);
    proof {
        assert(!stack.contains(node as int));
        assert forall|u: int| 0 <= u < temporary@.len() implies (temporary@.update(
            node as int,
            true,
        )[u] <==> #[trigger] deeper.contains(u)) by {
            if stack.contains(u) {
                let m = choose|m: int| 0 <= m < stack.len() && stack[m] == u;
                assert(deeper[m] == u);
            }
            if u == node {
                assert(deeper[stack.len() as int] == u);
            }
            if deeper.contains(u) && u != node {
                let m = choose|m: int| 0 <= m < deeper.len() && deeper[m] == u;
                assert(stack[m] == u);
            }
        }
        bounded_distinct(deeper, adjacency@.len() as int);
        assert forall|k: int| 0 <= k < deeper.len() - 1 implies has_edge(
            adjacency@,
            #[trigger] deeper[k],
            deeper[k + 1],
        ) by {
            if k < stack.len() - 1 {
                assert(deeper[k] == stack[k]);
                assert(deeper[k + 1] == stack[k + 1]);
            }
        }
    }
    temporary.set(node, true);
    let ghost marked_temporary = temporary@;
    let count: usize = adjacency[node].len();
    for i in 0..count
        invariant
            is_graph(adjacency@),
            node < adjacency@.len(),
            count == adjacency@[node as int]@.len(),
            stack.len() < adjacency@.len(),
            deeper == stack.push(node as int),
            on_stack(marked_temporary, deeper),
            is_walk(adjacency@, deeper),
            temporary@ == marked_temporary,
            marked_temporary.len() == adjacency@.len(),
            permanent@.len() == adjacency@.len(),
            grows(old(permanent)@, permanent@),
            apart(temporary@, permanent@),
            ranked(adjacency@, permanent@),
            forall|k: int| 0 <= k < i ==> permanent@[#[trigger] adjacency@[node as int]@[k] as int],
    {
        let child: usize = adjacency[node][i];
        assert(adjacency@[node as int]@[i as int] == child);
        assert(has_edge(adjacency@, node as int, child as int));
        if visit(child, adjacency, temporary, permanent, Ghost(deeper)) {
            assert(deeper.push(child as int)[0] == deeper[0]);
            return true;
        }
    }
    proof {
        let (rank, bound) = choose|rank: spec_fn(int) -> int, bound: int|
            ranks(adjacency@, permanent@, rank, bound);
        let top = if bound < 0 {
            0
        } else {
            bound
        };
        let next = |u: int|
            if u == node {
                top
            } else {
                rank(u)
            };
        let after = permanent@.update(node as int, true);
        assert(!permanent@[node as int]) by {
            assert(deeper[stack.len() as int] == node);
            assert(temporary@[node as int]);
        }
        assert forall|u: int, v: int|
            0 <= u < after.len() && after[u] && #[trigger] has_edge(adjacency@, u, v) implies 0 <= v
            < after.len() && after[v] && next(v) < next(u) by {
            if u == node {
                let k = choose|k: int|
                    0 <= k < adjacency@[u]@.len() && #[trigger] adjacency@[u]@[k] == v;
                assert(permanent@[adjacency@[node as int]@[k] as int]);
                assert(0 <= rank(v) < bound);
            } else {
                assert(permanent@[u]);
                assert(permanent@[v]);
            }
        }
        assert forall|u: int| 0 <= u < after.len() && after[u] implies 0 <= #[trigger] next(u)
            < top + 1 by {
            if u != node {
                assert(0 <= rank(u) < bound);
            }
        }
        assert(ranks(adjacency@, after, next, top + 1));
        assert forall|u: int| 0 <= u < old(temporary)@.len() implies (#[trigger] old(
            temporary,
        )@[u] <==> temporary@.update(node as int, false)[u]) by {}
        assert(temporary@.update(node as int, false) == old(temporary)@);
    }
    temporary.set(node, false);
    permanent.set(node, true);
    false
}

proof fn marked_leads_to_no_cycle(adjacency: Seq<Vec<usize>>, marked: Seq<bool>, i: int)
    requires
        ranked(adjacency, marked),
        0 <= i < marked.len(),
        marked[i],
    ensures
        !leads_to_cycle(adjacency, i),
{
    if leads_to_cycle(adjacency, i) {
        let path = choose|path: Seq<int>| #[trigger] comes_back(adjacency, path) && path[0] == i;
        let (rank, bound) = choose|rank: spec_fn(int) -> int, bound: int|
            ranks(adjacency, marked, rank, bound);
        let last = path.len() - 1;
        let m = choose|m: int| 0 <= m < path.drop_last().len() && path.drop_last()[m] == path.last();
        let tail = path.skip(m);
        assert(path[m] == path[last]);
        walk_lowers_rank(adjacency, marked, rank, bound, path, m);
        assert forall|k: int| 0 <= k < tail.len() - 1 implies has_edge(
            adjacency,
            #[trigger] tail[k],
            tail[k + 1],
        ) by {
            assert(has_edge(adjacency, path[m + k], path[m + k + 1]));
        }
        walk_lowers_rank(adjacency, marked, rank, bound, tail, last - m);
        assert(tail[last - m] == path[last]);
    }
}

/// A graph has a cycle if and only if some node leads to one.
pub proof fn cycle_is_led_to(adjacency: Seq<Vec<usize>>)
    ensures
        has_cycle(adjacency) <==> exists|i: int|
            0 <= i < adjacency.len() && #[trigger] leads_to_cycle(adjacency, i),
{
    if has_cycle(adjacency) {
        let path = choose|path: Seq<int>| is_cycle(adjacency, path);
        assert(path.drop_last()[0] == path.last());
        assert(comes_back(adjacency, path));
        assert(has_edge(adjacency, path[0], path[0int + 1]));
        assert(leads_to_cycle(adjacency, path[0]));
    }
    if exists|i: int| 0 <= i < adjacency.len() && #[trigger] leads_to_cycle(adjacency, i) {
        let i = choose|i: int| 0 <= i < adjacency.len() && #[trigger] leads_to_cycle(adjacency, i);
        let path = choose|path: Seq<int>| #[trigger] comes_back(adjacency, path) && path[0] == i;
        let m = choose|m: int| 0 <= m < path.drop_last().len() && path.drop_last()[m] == path.last();
        let tail = path.skip(m);
        assert forall|k: int| 0 <= k < tail.len() - 1 implies has_edge(
            adjacency,
            #[trigger] tail[k],
            tail[k + 1],
        ) by {
            assert(has_edge(adjacency, path[m + k], path[m + k + 1]));
        }
        assert(tail[0] == path.last());
        assert(is_cycle(adjacency, tail));
    }
}

/// The first node that leads to a cycle, if there is one.
pub fn first_cyclic(adjacency: &Vec<Vec<usize>>) -> (r: Option<usize>)
    requires
        is_graph(adjacency@),
    ensures
        match r {
            Some(i) => i < adjacency@.len() && leads_to_cycle(adjacency@, i as int) && forall|k: int|
                0 <= k < i ==> !#[trigger] leads_to_cycle(adjacency@, k),
            None => !has_cycle(adjacency@),
        },
{
    let n: usize = adjacency.len();
    let mut temporary: Vec<bool> = vec![false; n];
    let mut permanent: Vec<bool> = vec![false; n];
    proof {
        let rank = |u: int| 0int;
        assert(ranks(adjacency@, permanent@, rank, 0));
    }
    let ghost empty = Seq::<int>::empty();
    for i in 0..n
        invariant
            n == adjacency@.len(),
            is_graph(adjacency@),
            temporary@ == Seq::new(n as nat, |k: int| false),
            permanent@.len() == n,
            ranked(adjacency@, permanent@),
            empty == Seq::<int>::empty(),
            forall|k: int| 0 <= k < i ==> #[trigger] permanent@[k],
            forall|k: int| 0 <= k < i ==> !#[trigger] leads_to_cycle(adjacency@, k),
    {
        assert(on_stack(temporary@, empty));
        let ghost before = permanent@;
        if visit(i, adjacency, &mut temporary, &mut permanent, Ghost(empty)) {
            assert(empty.push(i as int)[0] == i);
            return Some(i);
        }
        assert forall|k: int| 0 <= k < i + 1 implies #[trigger] permanent@[k] by {
            if k < i {
                assert(before[k]);
            }
        }
        proof {
            marked_leads_to_no_cycle(adjacency@, permanent@, i as int);
        }
    }
    proof {
        cycle_is_led_to(adjacency@);
    }
    None
}

/// Whether the graph has a cycle.
pub fn find_cycle(adjacency: &Vec<Vec<usize>>) -> (found: bool)
    requires
        is_graph(adjacency@),
    ensures
        found == has_cycle(adjacency@),
{
    proof {
        cycle_is_led_to(adjacency@);
    }
    first_cyclic(adjacency).is_some()
}

} // verus!
