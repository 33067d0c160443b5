//! How graphs are built.

use crate::config::{FeederLinkConfig, SingleThreadWeightedBranchConfig};
use crate::graph::{
    anchor, default_node_name, node, node_with_state_merge, ExternalNodeToken, GraphLink,
    GraphNodeSpec, NodeSpec, PipelineGraph, PipelineGraphBuilder, PipelineGraphWithState,
    WeightedBranchLinks,
};
use crate::policy::{NodeScalePolicy, ThreadPolicyHints};
use vstd::prelude::*;

verus! {

/// Whether nothing was asked for the threads of a node.
pub open spec fn asks_nothing<R>(hints: ThreadPolicyHints<R>) -> bool {
    &&& hints.fixed_threads is None
    &&& hints.max_threads is None
    &&& hints.initial_threads is None
    &&& hints.scale_policy is None
}

/// A new node has its name and its code, and nothing is asked for it; whether states can be merged is
/// all that tells the two ways to make one apart.
pub proof fn new_nodes_ask_nothing<In, Out, S, A, R>(
    name: String,
    stage: S,
    plain: NodeSpec<In, Out, S, A, R>,
    merging: NodeSpec<In, Out, S, A, R>,
)
    requires
        call_ensures(node::<In, Out, S, A, R>, (name, stage), plain),
        call_ensures(node_with_state_merge::<In, Out, S, A, R>, (name, stage), merging),
    ensures
        plain.name == name && merging.name == name,
        plain.stage.handle == stage && merging.stage.handle == stage,
        !plain.stage.merges_state && merging.stage.merges_state,
        plain.output_acquire_builder is None && merging.output_acquire_builder is None,
        !plain.is_anchor && !merging.is_anchor,
        asks_nothing(plain.thread_hints) && asks_nothing(merging.thread_hints),
{
}

/// Each wish for a node is remembered beside all that is known of it.
pub proof fn wishes_are_remembered<In, Out, S, A, R>(
    spec: NodeSpec<In, Out, S, A, R>,
    builder: A,
    policy: NodeScalePolicy<R>,
    initial: usize,
    max: usize,
    reusing: NodeSpec<In, Out, S, A, R>,
    scaled: NodeSpec<In, Out, S, A, R>,
    ranged: NodeSpec<In, Out, S, A, R>,
    bounded: NodeSpec<In, Out, S, A, R>,
    begun: NodeSpec<In, Out, S, A, R>,
    fixed: NodeSpec<In, Out, S, A, R>,
    anchored: NodeSpec<In, Out, S, A, R>,
)
    requires
        call_ensures(NodeSpec::<In, Out, S, A, R>::with_reusable_output, (spec, builder), reusing),
        call_ensures(NodeSpec::<In, Out, S, A, R>::with_scale_policy, (spec, policy), scaled),
        call_ensures(NodeSpec::<In, Out, S, A, R>::scalable_threads, (spec, initial, max), ranged),
        call_ensures(NodeSpec::<In, Out, S, A, R>::max_threads, (spec, max), bounded),
        call_ensures(NodeSpec::<In, Out, S, A, R>::initial_threads, (spec, initial), begun),
        call_ensures(NodeSpec::<In, Out, S, A, R>::fixed_threads, (spec, max), fixed),
        call_ensures(anchor::<In, Out, S, A, R>, (spec,), anchored),
    ensures
        reusing == (NodeSpec { output_acquire_builder: Some(builder), ..spec }),
        scaled == (NodeSpec {
            thread_hints: ThreadPolicyHints { scale_policy: Some(policy), ..spec.thread_hints },
            ..spec
        }),
        bounded == (NodeSpec {
            thread_hints: ThreadPolicyHints { max_threads: Some(max), ..spec.thread_hints },
            ..spec
        }),
        begun == (NodeSpec {
            thread_hints: ThreadPolicyHints {
                initial_threads: Some(initial),
                ..spec.thread_hints
            },
            ..spec
        }),
        ranged == (NodeSpec {
            thread_hints: ThreadPolicyHints {
                initial_threads: Some(initial),
                max_threads: Some(max),
                ..spec.thread_hints
            },
            ..spec
        }),
        fixed == (NodeSpec {
            thread_hints: ThreadPolicyHints { fixed_threads: Some(max), ..spec.thread_hints },
            ..spec
        }),
        anchored == (NodeSpec { is_anchor: true, ..spec }),
{
}

proof fn separators_are_searched(s: Seq<char>, end: int)
    requires
        0 <= end <= s.len(),
        forall|i: int| end <= i && i + 1 < s.len() ==> !(#[trigger] s[i] == ':' && s[i + 1] == ':'),
    ensures
        ({
            let rest = crate::graph::after_last_separator(s, end);
            let start = s.len() - rest.len();
            &&& 0 <= start
            &&& rest == s.skip(start)
            &&& start == 0 || start >= 2 && s[start - 1] == ':' && s[start - 2] == ':'
            &&& forall|i: int|
                start <= i && i + 1 < s.len() ==> !(#[trigger] s[i] == ':' && s[i + 1] == ':')
        }),
    decreases end,
{
    if end > 0 && !crate::graph::separator_at(s, end - 1) {
        assert forall|i: int| end - 1 <= i && i + 1 < s.len() implies !(#[trigger] s[i] == ':' && s[i + 1]
            == ':') by {
            if i == end - 1 {
                assert(!crate::graph::separator_at(s, i));
            }
        }
        separators_are_searched(s, end - 1);
    } else if end <= 0 {
        assert(s.skip(0) == s);
    }
}

/// A node without a name is called by what follows the last path separator of its type, or by the whole
/// path where there is none.
pub proof fn nodes_are_called_by_their_type(type_path: &str, r: String)
    requires
        call_ensures(default_node_name, (type_path,), r),
    ensures
        ({
            let start = type_path@.len() - r@.len();
            &&& 0 <= start
            &&& r@ == type_path@.skip(start)
            &&& start == 0 || start >= 2 && type_path@[start - 1] == ':' && type_path@[start - 2]
                == ':'
            &&& forall|i: int|
                start <= i && i + 1 < type_path@.len() ==> !(#[trigger] type_path@[i] == ':' && type_path@[i
                    + 1] == ':')
        }),
{
    separators_are_searched(type_path@, type_path@.len() as int);
}

/// A new graph has one link, its input, and no nodes.
pub proof fn graphs_begin_with_their_input<In, S, A, R>(
    r: PipelineGraphBuilder<In, S, A, R>,
    input: GraphLink<In>,
)
    requires
        call_ensures(PipelineGraphBuilder::<In, S, A, R>::new, (), r),
        call_ensures(PipelineGraphBuilder::<In, S, A, R>::input, (&r,), input),
    ensures
        r.links() == 1,
        r.declared().len() == 0,
        r.externals() == 0,
        r.feeders().dom().is_empty(),
        input.number() == 0,
{
    assert(r.feeders().dom() == Set::<usize>::empty());
}

/// A new link has the next number, and nothing else changes.
pub proof fn links_are_counted_up<In, S, A, R, T>(
    builder: &mut PipelineGraphBuilder<In, S, A, R>,
    r: GraphLink<T>,
)
    requires
        call_ensures(PipelineGraphBuilder::<In, S, A, R>::link::<T>, (builder,), r),
    ensures
        r.number() == old(builder).links(),
        final(builder).links() == old(builder).links() + 1,
        final(builder).declared() == old(builder).declared(),
        final(builder).externals() == old(builder).externals(),
        final(builder).feeders() == old(builder).feeders(),
{
}

/// Whether the graph has one more node at the end, that many more links and external nodes, and is
/// otherwise as before.
pub open spec fn one_node_more<In, S, A, R>(
    before: PipelineGraphBuilder<In, S, A, R>,
    after: PipelineGraphBuilder<In, S, A, R>,
    links: int,
    externals: int,
) -> bool {
    &&& after.links() == before.links() + links
    &&& after.externals() == before.externals() + externals
    &&& after.feeders() == before.feeders()
    &&& after.declared().len() == before.declared().len() + 1
    &&& forall|i: int|
        0 <= i < before.declared().len() ==> #[trigger] after.declared()[i] == before.declared()[i]
}

proof fn last_is_new<S, A, R>(before: Seq<GraphNodeSpec<S, A, R>>, after: Seq<GraphNodeSpec<S, A, R>>)
    requires
        after.len() == before.len() + 1,
        after.drop_last() == before,
    ensures
        forall|i: int| 0 <= i < before.len() ==> #[trigger] after[i] == before[i],
{
    assert forall|i: int| 0 <= i < before.len() implies #[trigger] after[i] == before[i] by {
        assert(after.drop_last()[i] == before[i]);
    }
}

/// Whether the node is what its declaration says, between these links.
pub open spec fn is_as_declared<NodeIn, NodeOut, S, A, R>(
    added: GraphNodeSpec<S, A, R>,
    spec: NodeSpec<NodeIn, NodeOut, S, A, R>,
    input: usize,
    output: usize,
) -> bool {
    &&& added.name == spec.name
    &&& added.stage == Some(spec.stage)
    &&& added.output_acquire_builder == spec.output_acquire_builder
    &&& added.is_anchor == spec.is_anchor
    &&& added.thread_hints == spec.thread_hints
    &&& added.input_link == input
    &&& added.output_links@.len() == 1
    &&& added.output_links@[0] == output
    &&& added.weighted_branch_config is None
    &&& added.external_index is None
}

/// A node that is added takes from its input link and puts on its output link, which is a new one
/// where none was given, and keeps all that was declared of it.
pub proof fn nodes_are_added<In, S, A, R, NodeIn, NodeOut>(
    builder: &mut PipelineGraphBuilder<In, S, A, R>,
    other: &mut PipelineGraphBuilder<In, S, A, R>,
    input: GraphLink<NodeIn>,
    stage: NodeSpec<NodeIn, NodeOut, S, A, R>,
    output: GraphLink<NodeOut>,
    r: GraphLink<NodeOut>,
)
    requires
        call_ensures(
            PipelineGraphBuilder::<In, S, A, R>::add_node::<NodeIn, NodeOut>,
            (builder, input, stage),
            r,
        ),
        call_ensures(
            PipelineGraphBuilder::<In, S, A, R>::add_node_to::<NodeIn, NodeOut>,
            (other, input, stage, output),
            (),
        ),
    ensures
        one_node_more(*old(builder), *final(builder), 1, 0),
        r.number() == old(builder).links(),
        is_as_declared(final(builder).declared().last(), stage, input.number(), r.number()),
        one_node_more(*old(other), *final(other), 0, 0),
        is_as_declared(final(other).declared().last(), stage, input.number(), output.number()),
{
    last_is_new(old(builder).declared(), final(builder).declared());
    last_is_new(old(other).declared(), final(other).declared());
}

/// Whether the node is a branch with these settings, between these links.
pub open spec fn is_as_branched<S, A, R>(
    added: GraphNodeSpec<S, A, R>,
    name: String,
    config: SingleThreadWeightedBranchConfig<R>,
    input: usize,
    left: usize,
    right: usize,
) -> bool {
    &&& added.name == name
    &&& added.stage is None
    &&& added.output_acquire_builder is None
    &&& !added.is_anchor
    &&& asks_nothing(added.thread_hints)
    &&& added.input_link == input
    &&& added.output_links@.len() == 2
    &&& added.output_links@[0] == left
    &&& added.output_links@[1] == right
    &&& added.weighted_branch_config == Some(config)
    &&& added.external_index is None
}

/// A branch that is added takes from its input link and puts on its left and its right link, which are
/// new ones where none were given.
pub proof fn branches_are_added<In, S, A, R, T>(
    builder: &mut PipelineGraphBuilder<In, S, A, R>,
    other: &mut PipelineGraphBuilder<In, S, A, R>,
    input: GraphLink<T>,
    name: String,
    left: GraphLink<T>,
    right: GraphLink<T>,
    config: SingleThreadWeightedBranchConfig<R>,
    r: WeightedBranchLinks<T>,
)
    requires
        call_ensures(
            PipelineGraphBuilder::<In, S, A, R>::add_single_thread_weighted_branch::<T>,
            (builder, input, name, config),
            r,
        ),
        call_ensures(
            PipelineGraphBuilder::<In, S, A, R>::add_single_thread_weighted_branch_to::<T>,
            (other, input, name, left, right, config),
            (),
        ),
    ensures
        one_node_more(*old(builder), *final(builder), 2, 0),
        r.left.number() == old(builder).links(),
        r.right.number() == old(builder).links() + 1,
        is_as_branched(
            final(builder).declared().last(),
            name,
            config,
            input.number(),
            r.left.number(),
            r.right.number(),
        ),
        one_node_more(*old(other), *final(other), 0, 0),
        is_as_branched(
            final(other).declared().last(),
            name,
            config,
            input.number(),
            left.number(),
            right.number(),
        ),
{
    last_is_new(old(builder).declared(), final(builder).declared());
    last_is_new(old(other).declared(), final(other).declared());
}

/// Whether the node is run from outside under that token, between these links.
pub open spec fn is_run_from_outside<S, A, R>(
    added: GraphNodeSpec<S, A, R>,
    name: String,
    builder: Option<A>,
    token: int,
    input: usize,
    output: usize,
) -> bool {
    &&& added.name == name
    &&& added.stage is None
    &&& added.output_acquire_builder == builder
    &&& !added.is_anchor
    &&& asks_nothing(added.thread_hints)
    &&& added.input_link == input
    &&& added.output_links@.len() == 1
    &&& added.output_links@[0] == output
    &&& added.weighted_branch_config is None
    &&& added.external_index is Some
    &&& added.external_index->0 == token
}

/// A node that is run from outside gets the next token, and stands between its links, of which the
/// second is a new one where none was given.
pub proof fn external_nodes_are_added<In, S, A, R, ExtIn, ExtOut>(
    builder: &mut PipelineGraphBuilder<In, S, A, R>,
    other: &mut PipelineGraphBuilder<In, S, A, R>,
    input: GraphLink<ExtIn>,
    name: String,
    output: GraphLink<ExtOut>,
    r: (GraphLink<ExtOut>, ExternalNodeToken<ExtIn, ExtOut>),
    token: ExternalNodeToken<ExtIn, ExtOut>,
)
    requires
        call_ensures(
            PipelineGraphBuilder::<In, S, A, R>::add_external_node::<ExtIn, ExtOut>,
            (builder, input, name),
            r,
        ),
        call_ensures(
            PipelineGraphBuilder::<In, S, A, R>::add_external_node_to::<ExtIn, ExtOut>,
            (other, input, name, output),
            token,
        ),
    ensures
        one_node_more(*old(builder), *final(builder), 1, 1),
        r.0.number() == old(builder).links(),
        r.1.number() == old(builder).externals(),
        is_run_from_outside(
            final(builder).declared().last(),
            name,
            None,
            r.1.number() as int,
            input.number(),
            r.0.number(),
        ),
        one_node_more(*old(other), *final(other), 0, 1),
        token.number() == old(other).externals(),
        is_run_from_outside(
            final(other).declared().last(),
            name,
            None,
            token.number() as int,
            input.number(),
            output.number(),
        ),
{
    last_is_new(old(builder).declared(), final(builder).declared());
    last_is_new(old(other).declared(), final(other).declared());
}

/// A node that is run from outside and reuses its outputs is added like any other, with what makes them.
pub proof fn reusing_external_nodes_are_added<In, S, A, R, ExtIn, ExtOut>(
    builder: &mut PipelineGraphBuilder<In, S, A, R>,
    other: &mut PipelineGraphBuilder<In, S, A, R>,
    input: GraphLink<ExtIn>,
    name: String,
    output: GraphLink<ExtOut>,
    factory: A,
    r: (GraphLink<ExtOut>, ExternalNodeToken<ExtIn, ExtOut>),
    token: ExternalNodeToken<ExtIn, ExtOut>,
)
    requires
        call_ensures(
            PipelineGraphBuilder::<In, S, A, R>::add_external_node_with_reusable_output::<
                ExtIn,
                ExtOut,
            >,
            (builder, input, name, factory),
            r,
        ),
        call_ensures(
            PipelineGraphBuilder::<In, S, A, R>::add_external_node_to_with_reusable_output::<
                ExtIn,
                ExtOut,
            >,
            (other, input, name, output, factory),
            token,
        ),
    ensures
        one_node_more(*old(builder), *final(builder), 1, 1),
        r.0.number() == old(builder).links(),
        r.1.number() == old(builder).externals(),
        is_run_from_outside(
            final(builder).declared().last(),
            name,
            Some(factory),
            r.1.number() as int,
            input.number(),
            r.0.number(),
        ),
        one_node_more(*old(other), *final(other), 0, 1),
        token.number() == old(other).externals(),
        is_run_from_outside(
            final(other).declared().last(),
            name,
            Some(factory),
            token.number() as int,
            input.number(),
            output.number(),
        ),
{
    last_is_new(old(builder).declared(), final(builder).declared());
    last_is_new(old(other).declared(), final(other).declared());
}

/// A link that is given a feeder has that one from then on, and no other link's changes.
pub proof fn feeders_are_given<In, S, A, R, T>(
    builder: &mut PipelineGraphBuilder<In, S, A, R>,
    link: GraphLink<T>,
    config: FeederLinkConfig,
)
    requires
        call_ensures(
            PipelineGraphBuilder::<In, S, A, R>::feeder_link::<T>,
            (builder, link, config),
            (),
        ),
    ensures
        final(builder).feeders().contains_pair(link.number(), config),
        forall|l: usize|
            l != link.number() ==> (#[trigger] final(builder).feeders().dom().contains(l)
                <==> old(builder).feeders().dom().contains(l)),
        forall|l: usize|
            l != link.number() && old(builder).feeders().dom().contains(l)
                ==> #[trigger] final(builder).feeders()[l] == old(builder).feeders()[l],
        final(builder).links() == old(builder).links(),
        final(builder).declared() == old(builder).declared(),
        final(builder).externals() == old(builder).externals(),
{
}

/// Whether the graph is what was built, with that output link: a link of it, whether or not it was
/// asked for before.
pub open spec fn is_as_built<In, Out, S, A, R>(
    graph: PipelineGraph<In, Out, S, A, R>,
    builder: PipelineGraphBuilder<In, S, A, R>,
    output: usize,
) -> bool {
    &&& graph.input_link == 0
    &&& graph.output_link == output
    &&& graph.link_count > output
    &&& graph.link_count >= builder.links()
    &&& graph.link_count == builder.links() || graph.link_count == output + 1
    &&& graph.nodes@ == builder.declared()
    &&& graph.external_count == builder.externals()
    &&& graph.feeder_links@ == builder.feeders()
}

/// A finished graph is what was built. States are given back only where that was asked for, and have
/// to be merged only where that was.
pub proof fn graphs_are_finished<In, S, A, R, Out, State>(
    builder: PipelineGraphBuilder<In, S, A, R>,
    output: GraphLink<Out>,
    plain: PipelineGraph<In, Out, S, A, R>,
    stateful: PipelineGraphWithState<In, Out, State, S, A, R>,
    merging: PipelineGraphWithState<In, Out, State, S, A, R>,
)
    requires
        call_ensures(
            PipelineGraphBuilder::<In, S, A, R>::finish::<Out>,
            (builder, output),
            plain,
        ),
        call_ensures(
            PipelineGraphBuilder::<In, S, A, R>::finish_with_state::<Out, State>,
            (builder, output),
            stateful,
        ),
        call_ensures(
            PipelineGraphBuilder::<In, S, A, R>::finish_with_merged_state::<Out, State>,
            (builder, output),
            merging,
        ),
    ensures
        is_as_built(plain, builder, output.number()),
        is_as_built(stateful.graph, builder, output.number()),
        is_as_built(merging.graph, builder, output.number()),
        plain.state_return is None,
        stateful.graph.state_return is Some && !stateful.graph.state_return->0.require_merge,
        merging.graph.state_return is Some && merging.graph.state_return->0.require_merge,
{
}

} // verus!
