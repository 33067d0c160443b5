//! Building of pipeline graphs.
//!
//! A graph is made of numbered links and of nodes that take items from one link and put items on
//! one or more others. `S` is the handle by which the runtime knows a node's code and `A` the
//! handle of its output factory; the graph only carries them.

use crate::config::{FeederLinkConfig, SingleThreadWeightedBranchConfig};
use crate::policy::{larger, max_of, NodeScalePolicy, ThreadPolicyHints};
use core::marker::PhantomData;
use std::collections::HashMap;
use vstd::prelude::*;

verus! {

broadcast use vstd::std_specs::hash::group_hash_axioms;

/// A link of a graph that carries items of type `T`.
#[derive(Debug)]
pub struct GraphLink<T> {
    index: usize,
    marker: PhantomData<T>,
}

impl<T> Clone for GraphLink<T> {
    fn clone(&self) -> (r: Self)
        ensures
            r == *self,
    {
        *self
    }
}

impl<T> Copy for GraphLink<T> {

}

impl<T> GraphLink<T> {
    /// The number of the link.
    pub closed spec fn number(self) -> usize {
        self.index
    }

    /// The number of the link.
    pub fn index(self) -> (r: usize)
        ensures
            r == self.number(),
    {
        self.index
    }
}

/// The claim to the handle of one external node.
#[derive(Debug)]
pub struct ExternalNodeToken<In, Out> {
    index: usize,
    marker: PhantomData<(In, Out)>,
}

impl<In, Out> Clone for ExternalNodeToken<In, Out> {
    fn clone(&self) -> (r: Self)
        ensures
            r == *self,
    {
        *self
    }
}

impl<In, Out> Copy for ExternalNodeToken<In, Out> {

}

impl<In, Out> ExternalNodeToken<In, Out> {
    /// The position of the node among the external nodes.
    pub closed spec fn number(self) -> usize {
        self.index
    }

    /// The position of the node among the external nodes.
    pub fn index(self) -> (r: usize)
        ensures
            r == self.number(),
    {
        self.index
    }
}

/// The two output links of a weighted branch.
#[derive(Debug)]
pub struct WeightedBranchLinks<T> {
    pub left: GraphLink<T>,
    pub right: GraphLink<T>,
}

/// A node's code, and whether the states of two of its workers can be merged into one.
#[derive(Clone, Copy, Debug)]
pub struct ManagedStage<S> {
    pub handle: S,
    pub merges_state: bool,
}

/// A node that is not yet part of a graph.
#[derive(Debug)]
pub struct NodeSpec<In, Out, S, A, R> {
    pub name: String,
    pub stage: ManagedStage<S>,
    pub output_acquire_builder: Option<A>,
    pub is_anchor: bool,
    pub thread_hints: ThreadPolicyHints<R>,
    pub marker: PhantomData<(In, Out)>,
}

/// Whether nothing is asked for a node's threads.
pub open spec fn no_hints<R>(hints: ThreadPolicyHints<R>) -> bool {
    hints.fixed_threads is None && hints.max_threads is None && hints.initial_threads is None
        && hints.scale_policy is None
}

impl<In, Out, S, A, R> NodeSpec<In, Out, S, A, R> {
    /// The same node with a factory of reusable outputs.
    pub fn with_reusable_output(self, builder: A) -> (r: Self)
        ensures
            r == (NodeSpec { output_acquire_builder: Some(builder), ..self }),
    {
        let mut spec: Self = self;
        spec.output_acquire_builder = Some(builder);
        spec
    }

    /// The same node with a scale policy.
    pub fn with_scale_policy(self, policy: NodeScalePolicy<R>) -> (r: Self)
        ensures
            r == (NodeSpec {
                thread_hints: ThreadPolicyHints { scale_policy: Some(policy), ..self.thread_hints },
                ..self
            }),
    {
        let mut spec: Self = self;
        spec.thread_hints.scale_policy = Some(policy);
        spec
    }

    /// The same node with an initial and a largest number of threads.
    pub fn scalable_threads(self, initial_threads: usize, max_threads: usize) -> (r: Self)
        ensures
            r == (NodeSpec {
                thread_hints: ThreadPolicyHints {
                    initial_threads: Some(initial_threads),
                    max_threads: Some(max_threads),
                    ..self.thread_hints
                },
                ..self
            }),
    {
        let mut spec: Self = self;
        spec.thread_hints.initial_threads = Some(initial_threads);
        spec.thread_hints.max_threads = Some(max_threads);
        spec
    }

    /// The same node with a largest number of threads.
    pub fn max_threads(self, max_threads: usize) -> (r: Self)
        ensures
            r == (NodeSpec {
                thread_hints: ThreadPolicyHints {
                    max_threads: Some(max_threads),
                    ..self.thread_hints
                },
                ..self
            }),
    {
        let mut spec: Self = self;
        spec.thread_hints.max_threads = Some(max_threads);
        spec
    }

    /// The same node with an initial number of threads.
    pub fn initial_threads(self, initial_threads: usize) -> (r: Self)
        ensures
            r == (NodeSpec {
                thread_hints: ThreadPolicyHints {
                    initial_threads: Some(initial_threads),
                    ..self.thread_hints
                },
                ..self
            }),
    {
        let mut spec: Self = self;
        spec.thread_hints.initial_threads = Some(initial_threads);
        spec
    }

    /// The same node with a number of threads that never changes.
    pub fn fixed_threads(self, fixed_threads: usize) -> (r: Self)
        ensures
            r == (NodeSpec {
                thread_hints: ThreadPolicyHints {
                    fixed_threads: Some(fixed_threads),
                    ..self.thread_hints
                },
                ..self
            }),
    {
        let mut spec: Self = self;
        spec.thread_hints.fixed_threads = Some(fixed_threads);
        spec
    }
}

/// A node with the given name and code, and no further wishes.
pub fn node<In, Out, S, A, R>(name: String, stage: S) -> (r: NodeSpec<In, Out, S, A, R>)
    ensures
        r.name == name,
        r.stage == (ManagedStage { handle: stage, merges_state: false }),
        r.output_acquire_builder is None,
        !r.is_anchor,
        no_hints(r.thread_hints),
{
    NodeSpec {
        name,
        stage: ManagedStage { handle: stage, merges_state: false },
        output_acquire_builder: None,
        is_anchor: false,
        thread_hints: ThreadPolicyHints::none(),
        marker: PhantomData,
    }
}

/// A node like `node` makes, whose workers' states can be merged.
pub fn node_with_state_merge<In, Out, S, A, R>(name: String, stage: S) -> (r: NodeSpec<
    In,
    Out,
    S,
    A,
    R,
>)
    ensures
        r.name == name,
        r.stage == (ManagedStage { handle: stage, merges_state: true }),
        r.output_acquire_builder is None,
        !r.is_anchor,
        no_hints(r.thread_hints),
{
    NodeSpec {
        name,
        stage: ManagedStage { handle: stage, merges_state: true },
        output_acquire_builder: None,
        is_anchor: false,
        thread_hints: ThreadPolicyHints::none(),
        marker: PhantomData,
    }
}

/// The same node, marked as one that the rest of the pipeline is to keep busy.
pub fn anchor<In, Out, S, A, R>(spec: NodeSpec<In, Out, S, A, R>) -> (r: NodeSpec<In, Out, S, A, R>)
    ensures
        r == (NodeSpec { is_anchor: true, ..spec }),
{
    let mut spec: NodeSpec<In, Out, S, A, R> = spec;
    spec.is_anchor = true;
    spec
}

/// Whether a path separator, two colons, stands at position `i` of `s`.
pub open spec fn separator_at(s: Seq<char>, i: int) -> bool {
    0 <= i && i + 1 < s.len() && s[i] == ':' && s[i + 1] == ':'
}

/// What follows the last path separator before position `end`, or all of `s`.
pub open spec fn after_last_separator(s: Seq<char>, end: int) -> Seq<char>
    decreases end,
{
    if end <= 0 {
        s
    } else if separator_at(s, end - 1) {
        s.skip(end + 1)
    } else {
        after_last_separator(s, end - 1)
    }
}

/// The last segment of a type's path: the name of a node that was not given one.
pub fn default_node_name(type_path: &str) -> (r: String)
    ensures
        r@ == after_last_separator(type_path@, type_path@.len() as int),
{
    let n: usize = type_path.unicode_len();
    let mut i: usize = n;
    while i > 0
        invariant
            i <= n,
            n == type_path@.len(),
            after_last_separator(type_path@, n as int) == after_last_separator(
                type_path@,
                i as int,
            ),
        decreases i,
    {
        if i < n && type_path.get_char(i - 1) == ':' && type_path.get_char(i) == ':' {
            let rest: &str = type_path.substring_char(i + 1, n);
            assert(rest@ == type_path@.skip(i + 1));
            return rest.to_owned();
        }
        i = i - 1;
    }
    type_path.to_owned()
}

/// A node of a graph.
#[derive(Debug)]
pub struct GraphNodeSpec<S, A, R> {
    pub name: String,
    pub stage: Option<ManagedStage<S>>,
    pub output_acquire_builder: Option<A>,
    pub is_anchor: bool,
    pub thread_hints: ThreadPolicyHints<R>,
    pub input_link: usize,
    pub output_links: Vec<usize>,
    pub weighted_branch_config: Option<SingleThreadWeightedBranchConfig<R>>,
    pub external_index: Option<usize>,
}

impl<S, A, R> GraphNodeSpec<S, A, R> {
    /// Whether this is the node that `spec` describes, between the two links.
    pub open spec fn is_managed<In, Out>(
        self,
        spec: NodeSpec<In, Out, S, A, R>,
        input: usize,
        output: usize,
    ) -> bool {
        &&& self.name == spec.name
        &&& self.stage == Some(spec.stage)
        &&& self.output_acquire_builder == spec.output_acquire_builder
        &&& self.is_anchor == spec.is_anchor
        &&& self.thread_hints == spec.thread_hints
        &&& self.input_link == input
        &&& self.output_links@ == seq![output]
        &&& self.weighted_branch_config is None
        &&& self.external_index is None
    }

    /// Whether this is a weighted branch between the given links.
    pub open spec fn is_branch(
        self,
        name: String,
        config: SingleThreadWeightedBranchConfig<R>,
        input: usize,
        left: usize,
        right: usize,
    ) -> bool {
        &&& self.name == name
        &&& self.stage is None
        &&& self.output_acquire_builder is None
        &&& !self.is_anchor
        &&& no_hints(self.thread_hints)
        &&& self.input_link == input
        &&& self.output_links@ == seq![left, right]
        &&& self.weighted_branch_config == Some(config)
        &&& self.external_index is None
    }

    /// Whether this is the external node of the given position between the two links.
    pub open spec fn is_outside_node(
        self,
        name: String,
        builder: Option<A>,
        position: nat,
        input: usize,
        output: usize,
    ) -> bool {
        &&& self.name == name
        &&& self.stage is None
        &&& self.output_acquire_builder == builder
        &&& !self.is_anchor
        &&& no_hints(self.thread_hints)
        &&& self.input_link == input
        &&& self.output_links@ == seq![output]
        &&& self.weighted_branch_config is None
        &&& self.external_index matches Some(e) && e == position
    }
}

/// Whether the external nodes are numbered apart and below `count`.
pub open spec fn externals_numbered<S, A, R>(nodes: Seq<GraphNodeSpec<S, A, R>>, count: nat) -> bool {
    &&& forall|i: int|
        0 <= i < nodes.len() && (#[trigger] nodes[i]).external_index is Some
            ==> nodes[i].external_index->0 < count
    &&& forall|i: int, j: int|
        0 <= i < j < nodes.len() && (#[trigger] nodes[i]).external_index is Some && (
        #[trigger] nodes[j]).external_index is Some ==> nodes[i].external_index
            != nodes[j].external_index
}

/// Whether the states of the workers of the last node are given back, and whether they have to be
/// mergeable.
#[derive(Clone, Copy, Debug, PartialEq, Eq, Structural)]
pub struct StateReturnConfig {
    pub require_merge: bool,
}

/// A finished graph.
#[derive(Debug)]
pub struct PipelineGraph<In, Out, S, A, R> {
    pub input_link: usize,
    pub output_link: usize,
    pub link_count: usize,
    pub nodes: Vec<GraphNodeSpec<S, A, R>>,
    pub external_count: usize,
    pub state_return: Option<StateReturnConfig>,
    pub feeder_links: HashMap<usize, FeederLinkConfig>,
    pub marker: PhantomData<(In, Out)>,
}

/// A finished graph whose last node gives back the states of its workers.
#[derive(Debug)]
pub struct PipelineGraphWithState<In, Out, State, S, A, R> {
    pub graph: PipelineGraph<In, Out, S, A, R>,
    pub marker: PhantomData<State>,
}

/// A graph under construction.
#[derive(Debug)]
pub struct PipelineGraphBuilder<In, S, A, R> {
    link_count: usize,
    nodes: Vec<GraphNodeSpec<S, A, R>>,
    external_count: usize,
    feeder_links: HashMap<usize, FeederLinkConfig>,
    marker: PhantomData<In>,
}

impl<In, S, A, R> PipelineGraphBuilder<In, S, A, R> {
    /// The number of links so far.
    pub closed spec fn links(&self) -> nat {
        self.link_count as nat
    }

    /// The nodes so far.
    pub closed spec fn declared(&self) -> Seq<GraphNodeSpec<S, A, R>> {
        self.nodes@
    }

    /// The number of external nodes so far.
    pub closed spec fn externals(&self) -> nat {
        self.external_count as nat
    }

    /// The links that use a feeder so far.
    pub closed spec fn feeders(&self) -> Map<usize, FeederLinkConfig> {
        self.feeder_links@
    }

    /// There is an input link, and the external nodes are numbered in the order they came.
    pub open spec fn wf(&self) -> bool {
        self.links() >= 1 && externals_numbered(self.declared(), self.externals())
    }

    /// Whether `self` is `before` with `count` more links.
    pub open spec fn has_more_links(&self, before: &Self, count: nat) -> bool {
        &&& self.links() == before.links() + count
        &&& self.declared() == before.declared()
        &&& self.externals() == before.externals()
        &&& self.feeders() == before.feeders()
    }

    /// Whether `self` is `before` with `count` more links and one more node.
    pub open spec fn has_one_more_node(&self, before: &Self, count: nat) -> bool {
        &&& self.links() == before.links() + count
        &&& self.declared().len() == before.declared().len() + 1
        &&& self.declared().drop_last() == before.declared()
        &&& self.feeders() == before.feeders()
    }

    /// A graph with its input link and nothing else.
    pub fn new() -> (r: Self)
        ensures
            r.wf(),
            r.links() == 1,
            r.declared() == Seq::<GraphNodeSpec<S, A, R>>::empty(),
            r.externals() == 0,
            r.feeders() == Map::<usize, FeederLinkConfig>::empty(),
    {
        PipelineGraphBuilder {
            link_count: 1,
            nodes: Vec::new(),
            external_count: 0,
            feeder_links: HashMap::new(),
            marker: PhantomData,
        }
    }

    /// The input link of the graph.
    pub fn input(&self) -> (r: GraphLink<In>)
        ensures
            r.number() == 0,
    {
        GraphLink { index: 0, marker: PhantomData }
    }

    /// A new link.
    pub fn link<T>(&mut self) -> (r: GraphLink<T>)
        requires
            old(self).links() < usize::MAX,
        ensures
            final(self).has_more_links(&*old(self), 1),
            r.number() == old(self).links(),
            old(self).wf() ==> final(self).wf(),
    {
        let index: usize = self.link_count;
        self.link_count = self.link_count + 1;
        GraphLink { index, marker: PhantomData }
    }

    /// Adds a node that takes from `input` and puts on a new link, which is returned.
    pub fn add_node<NodeIn, NodeOut>(
        &mut self,
        input: GraphLink<NodeIn>,
        stage: NodeSpec<NodeIn, NodeOut, S, A, R>,
    ) -> (r: GraphLink<NodeOut>)
        requires
            old(self).links() < usize::MAX,
        ensures
            final(self).has_one_more_node(&*old(self), 1),
            final(self).externals() == old(self).externals(),
            r.number() == old(self).links(),
            final(self).declared().last().is_managed(stage, input.number(), r.number()),
            old(self).wf() ==> final(self).wf(),
    {
        let output: GraphLink<NodeOut> = self.link();
        self.add_node_to(input, stage, output);
        output
    }

    /// Adds a node between two links.
    pub fn add_node_to<NodeIn, NodeOut>(
        &mut self,
        input: GraphLink<NodeIn>,
        stage: NodeSpec<NodeIn, NodeOut, S, A, R>,
        output: GraphLink<NodeOut>,
    )
        ensures
            final(self).has_one_more_node(&*old(self), 0),
            final(self).externals() == old(self).externals(),
            final(self).declared().last().is_managed(stage, input.number(), output.number()),
            old(self).wf() ==> final(self).wf(),
    {
        let output_links: Vec<usize> = vec![output.index];
        assert(output_links@ == seq![output.index]);
        self.nodes.push(
            GraphNodeSpec {
                name: stage.name,
                stage: Some(stage.stage),
                output_acquire_builder: stage.output_acquire_builder,
                is_anchor: stage.is_anchor,
                thread_hints: stage.thread_hints,
                input_link: input.index,
                output_links,
                weighted_branch_config: None,
                external_index: None,
            },
        );
        proof {
            assert(self.declared().drop_last() == old(self).declared());
            self.numbering_kept(&*old(self));
        }
    }

    proof fn numbering_kept(&self, before: &Self)
        requires
            self.has_one_more_node(before, 0),
            self.externals() == before.externals(),
            self.declared().last().external_index is None,
        ensures
            before.wf() ==> self.wf(),
    {
        assert forall|i: int| 0 <= i < before.declared().len() implies #[trigger] self.declared()[i]
            == before.declared()[i] by {
            assert(self.declared().drop_last()[i] == before.declared()[i]);
        }
    }

    /// Adds a weighted branch that divides the items of `input` between two new links, which are
    /// returned.
    pub fn add_single_thread_weighted_branch<T>(
        &mut self,
        input: GraphLink<T>,
        name: String,
        config: SingleThreadWeightedBranchConfig<R>,
    ) -> (r: WeightedBranchLinks<T>)
        requires
            old(self).links() + 1 < usize::MAX,
        ensures
            final(self).has_one_more_node(&*old(self), 2),
            final(self).externals() == old(self).externals(),
            r.left.number() == old(self).links(),
            r.right.number() == old(self).links() + 1,
            final(self).declared().last().is_branch(
                name,
                config,
                input.number(),
                r.left.number(),
                r.right.number(),
            ),
            old(self).wf() ==> final(self).wf(),
    {
        let left: GraphLink<T> = self.link();
        let right: GraphLink<T> = self.link();
        self.add_single_thread_weighted_branch_to(input, name, left, right, config);
        WeightedBranchLinks { left, right }
    }

    /// Adds a weighted branch between the given links.
    pub fn add_single_thread_weighted_branch_to<T>(
        &mut self,
        input: GraphLink<T>,
        name: String,
        left: GraphLink<T>,
        right: GraphLink<T>,
        config: SingleThreadWeightedBranchConfig<R>,
    )
        ensures
            final(self).has_one_more_node(&*old(self), 0),
            final(self).externals() == old(self).externals(),
            final(self).declared().last().is_branch(
                name,
                config,
                input.number(),
                left.number(),
                right.number(),
            ),
            old(self).wf() ==> final(self).wf(),
    {
        let output_links: Vec<usize> = vec![left.index, right.index];
        assert(output_links@ == seq![left.index, right.index]);
        self.nodes.push(
            GraphNodeSpec {
                name,
                stage: None,
                output_acquire_builder: None,
                is_anchor: false,
                thread_hints: ThreadPolicyHints::none(),
                input_link: input.index,
                output_links,
                weighted_branch_config: Some(config),
                external_index: None,
            },
        );
        proof {
            assert(self.declared().drop_last() == old(self).declared());
            self.numbering_kept(&*old(self));
        }
    }

    fn push_outside_node(&mut self, input: usize, name: String, output: usize, builder: Option<A>) -> (r:
        usize)
        requires
            old(self).externals() < usize::MAX,
        ensures
            final(self).has_one_more_node(&*old(self), 0),
            final(self).externals() == old(self).externals() + 1,
            r == old(self).externals(),
            final(self).declared().last().is_outside_node(
                name,
                builder,
                old(self).externals(),
                input,
                output,
            ),
            old(self).wf() ==> final(self).wf(),
    {
        let position: usize = self.external_count;
        self.external_count = self.external_count + 1;
        let output_links: Vec<usize> = vec![output];
        assert(output_links@ == seq![output]);
        self.nodes.push(
            GraphNodeSpec {
                name,
                stage: None,
                output_acquire_builder: builder,
                is_anchor: false,
                thread_hints: ThreadPolicyHints::none(),
                input_link: input,
                output_links,
                weighted_branch_config: None,
                external_index: Some(position),
            },
        );
        assert(self.declared().drop_last() == old(self).declared());
        assert forall|i: int| 0 <= i < old(self).declared().len() implies self.declared()[i]
            == #[trigger] old(self).declared()[i] by {}
        position
    }

    /// Adds an external node that takes from `input` and puts on a new link. Returns that link and
    /// the claim to the node's handle.
    pub fn add_external_node<ExtIn, ExtOut>(&mut self, input: GraphLink<ExtIn>, name: String) -> (r:
        (GraphLink<ExtOut>, ExternalNodeToken<ExtIn, ExtOut>))
        requires
            old(self).links() < usize::MAX,
            old(self).externals() < usize::MAX,
        ensures
            final(self).has_one_more_node(&*old(self), 1),
            final(self).externals() == old(self).externals() + 1,
            r.0.number() == old(self).links(),
            r.1.number() == old(self).externals(),
            final(self).declared().last().is_outside_node(
                name,
                None,
                old(self).externals(),
                input.number(),
                r.0.number(),
            ),
            old(self).wf() ==> final(self).wf(),
    {
        let output: GraphLink<ExtOut> = self.link();
        let token: ExternalNodeToken<ExtIn, ExtOut> = self.add_external_node_to(
            input,
            name,
            output,
        );
        (output, token)
    }

    /// Adds an external node between two links. Returns the claim to the node's handle.
    pub fn add_external_node_to<ExtIn, ExtOut>(
        &mut self,
        input: GraphLink<ExtIn>,
        name: String,
        output: GraphLink<ExtOut>,
    ) -> (r: ExternalNodeToken<ExtIn, ExtOut>)
        requires
            old(self).externals() < usize::MAX,
        ensures
            final(self).has_one_more_node(&*old(self), 0),
            final(self).externals() == old(self).externals() + 1,
            r.number() == old(self).externals(),
            final(self).declared().last().is_outside_node(
                name,
                None,
                old(self).externals(),
                input.number(),
                output.number(),
            ),
            old(self).wf() ==> final(self).wf(),
    {
        let index: usize = self.push_outside_node(input.index, name, output.index, None);
        ExternalNodeToken { index, marker: PhantomData }
    }

    /// Adds an external node with a factory of reusable outputs, which takes from `input` and puts
    /// on a new link. Returns that link and the claim to the node's handle.
    pub fn add_external_node_with_reusable_output<ExtIn, ExtOut>(
        &mut self,
        input: GraphLink<ExtIn>,
        name: String,
        builder: A,
    ) -> (r: (GraphLink<ExtOut>, ExternalNodeToken<ExtIn, ExtOut>))
        requires
            old(self).links() < usize::MAX,
            old(self).externals() < usize::MAX,
        ensures
            final(self).has_one_more_node(&*old(self), 1),
            final(self).externals() == old(self).externals() + 1,
            r.0.number() == old(self).links(),
            r.1.number() == old(self).externals(),
            final(self).declared().last().is_outside_node(
                name,
                Some(builder),
                old(self).externals(),
                input.number(),
                r.0.number(),
            ),
            old(self).wf() ==> final(self).wf(),
    {
        let output: GraphLink<ExtOut> = self.link();
        let token: ExternalNodeToken<ExtIn, ExtOut> =
            self.add_external_node_to_with_reusable_output(input, name, output, builder);
        (output, token)
    }

    /// Adds an external node with a factory of reusable outputs between two links. Returns the
    /// claim to the node's handle.
    pub fn add_external_node_to_with_reusable_output<ExtIn, ExtOut>(
        &mut self,
        input: GraphLink<ExtIn>,
        name: String,
        output: GraphLink<ExtOut>,
        builder: A,
    ) -> (r: ExternalNodeToken<ExtIn, ExtOut>)
        requires
            old(self).externals() < usize::MAX,
        ensures
            final(self).has_one_more_node(&*old(self), 0),
            final(self).externals() == old(self).externals() + 1,
            r.number() == old(self).externals(),
            final(self).declared().last().is_outside_node(
                name,
                Some(builder),
                old(self).externals(),
                input.number(),
                output.number(),
            ),
            old(self).wf() ==> final(self).wf(),
    {
        let index: usize = self.push_outside_node(input.index, name, output.index, Some(builder));
        ExternalNodeToken { index, marker: PhantomData }
    }

    /// Makes `link` hand its items out through a feeder.
    pub fn feeder_link<T>(&mut self, link: GraphLink<T>, config: FeederLinkConfig)
        ensures
            final(self).links() == old(self).links(),
            final(self).declared() == old(self).declared(),
            final(self).externals() == old(self).externals(),
            final(self).feeders() == old(self).feeders().insert(link.number(), config),
            old(self).wf() ==> final(self).wf(),
    {
        self.feeder_links.insert(link.index(), config);
    }

    /// The finished graph with the given output link.
    pub fn finish<Out>(self, output: GraphLink<Out>) -> (r: PipelineGraph<In, Out, S, A, R>)
        requires
            output.number() < usize::MAX,
        ensures
            r.input_link == 0,
            r.output_link == output.number(),
            r.link_count == larger(self.links() as int, output.number() + 1),
            r.nodes@ == self.declared(),
            r.external_count == self.externals(),
            r.state_return is None,
            r.feeder_links@ == self.feeders(),
    {
        PipelineGraph {
            input_link: 0,
            output_link: output.index,
            link_count: max_of(self.link_count, output.index + 1),
            nodes: self.nodes,
            external_count: self.external_count,
            state_return: None,
            feeder_links: self.feeder_links,
            marker: PhantomData,
        }
    }

    /// The finished graph with the given output link, whose last node gives back its states.
    pub fn finish_with_state<Out, State>(self, output: GraphLink<Out>) -> (r: PipelineGraphWithState<
        In,
        Out,
        State,
        S,
        A,
        R,
    >)
        requires
            output.number() < usize::MAX,
        ensures
            r.graph.input_link == 0,
            r.graph.output_link == output.number(),
            r.graph.link_count == larger(self.links() as int, output.number() + 1),
            r.graph.nodes@ == self.declared(),
            r.graph.external_count == self.externals(),
            r.graph.state_return == Some(StateReturnConfig { require_merge: false }),
            r.graph.feeder_links@ == self.feeders(),
    {
        let mut graph: PipelineGraph<In, Out, S, A, R> = self.finish(output);
        graph.state_return = Some(StateReturnConfig { require_merge: false });
        PipelineGraphWithState { graph, marker: PhantomData }
    }

    /// The finished graph with the given output link, whose last node gives back its states and
    /// can merge them into one.
    pub fn finish_with_merged_state<Out, State>(self, output: GraphLink<Out>) -> (r:
        PipelineGraphWithState<In, Out, State, S, A, R>)
        requires
            output.number() < usize::MAX,
        ensures
            r.graph.input_link == 0,
            r.graph.output_link == output.number(),
            r.graph.link_count == larger(self.links() as int, output.number() + 1),
            r.graph.nodes@ == self.declared(),
            r.graph.external_count == self.externals(),
            r.graph.state_return == Some(StateReturnConfig { require_merge: true }),
            r.graph.feeder_links@ == self.feeders(),
    {
        let mut graph: PipelineGraph<In, Out, S, A, R> = self.finish(output);
        graph.state_return = Some(StateReturnConfig { require_merge: true });
        PipelineGraphWithState { graph, marker: PhantomData }
    }
}

impl<In, S, A, R> Default for PipelineGraphBuilder<In, S, A, R> {
    /// A graph with its input link and nothing else.
    fn default() -> (r: Self)
        ensures
            r.wf(),
            r.links() == 1,
            r.declared() == Seq::<GraphNodeSpec<S, A, R>>::empty(),
            r.externals() == 0,
            r.feeders() == Map::<usize, FeederLinkConfig>::empty(),
    {
        Self::new()
    }
}

} // verus!
