//! The calls that build the graph of a declared pipeline.

use crate::expand::{edges_fault, ExpandFault};
use crate::expansion::{plan_expansion, plan_fault, plan_merges, ExpansionPlan};
use crate::grammar::{
    shown_nodes, DeclsText, EdgeText, NamedNode, NamedNodeKind, NodeDecls, NodeKindText,
    NodeText, PipelineInput,
};
use crate::tokens::shown_streams;
use crate::wiring::{is_wiring, links_are_counted, WiringPlan};
use vstd::prelude::*;

verus! {

/// What a pipeline gives back of the states of its last node.
#[derive(Clone, Copy, Debug, PartialEq, Eq, Structural)]
pub enum Returned {
    Nothing,
    /// The states one by one.
    States,
    /// The states one by one, or all of them merged into one.
    MergedStates,
}

/// What is given back where the states can be merged or not.
pub open spec fn returned(merges: Option<bool>) -> Returned {
    match merges {
        None => Returned::Nothing,
        Some(false) => Returned::States,
        Some(true) => Returned::MergedStates,
    }
}

/// One call on the builder of a graph. Links go by their numbers, nodes by their places in the
/// declaration.
#[derive(Clone, Copy, Debug, PartialEq, Eq, Structural)]
pub enum BuildStep {
    /// Names the link where items come in.
    Input { link: usize },
    /// Names a new link.
    Link { link: usize },
    /// Adds the node and names a new link for what it gives.
    AddNode { node: usize, input: usize, output: usize },
    /// Adds the node between two links.
    AddNodeTo { node: usize, input: usize, output: usize },
    /// Adds a node that is run from outside between two links.
    AddExternalNodeTo { node: usize, input: usize, output: usize, reusable: bool },
    /// Ends the graph at that link.
    Finish { output: usize, states: Returned },
}

impl BuildStep {
    /// Whether the step names the link.
    pub open spec fn declares(self, number: usize) -> bool {
        match self {
            BuildStep::Input { link } => link == number,
            BuildStep::Link { link } => link == number,
            BuildStep::AddNode { node, input, output } => output == number,
            _ => false,
        }
    }

    /// Whether the step speaks of the link as of one that has a name.
    pub open spec fn uses(self, number: usize) -> bool {
        match self {
            BuildStep::AddNode { node, input, output } => input == number,
            BuildStep::AddNodeTo { node, input, output } => input == number || output == number,
            BuildStep::AddExternalNodeTo { node, input, output, reusable } => input == number
                || output == number,
            BuildStep::Finish { output, states } => output == number,
            _ => false,
        }
    }
}

/// The step that adds the node at `i` of those that stand one after the other.
pub open spec fn linear_step(i: int) -> BuildStep {
    BuildStep::AddNode { node: i as usize, input: i as usize, output: (i + 1) as usize }
}

/// The steps for `count` nodes that stand one after the other.
pub open spec fn linear_steps(count: nat, states: Returned) -> Seq<BuildStep> {
    seq![BuildStep::Input { link: 0 }] + Seq::new(count, |i: int| linear_step(i)) + seq![
        BuildStep::Finish { output: count as usize, states },
    ]
}

/// The step that names the link numbered `i`.
pub open spec fn link_step(i: int, input_link: usize) -> BuildStep {
    if i == input_link {
        BuildStep::Input { link: i as usize }
    } else {
        BuildStep::Link { link: i as usize }
    }
}

/// The step that adds the node at `i` between its links.
pub open spec fn node_step(node: NodeText, i: int, links: (usize, usize)) -> BuildStep {
    match node.kind {
        NodeKindText::Managed(expr) => BuildStep::AddNodeTo {
            node: i as usize,
            input: links.0,
            output: links.1,
        },
        NodeKindText::External { input, output, reusable_factory } => {
            BuildStep::AddExternalNodeTo {
                node: i as usize,
                input: links.0,
                output: links.1,
                reusable: reusable_factory is Some,
            }
        },
    }
}

/// The steps for named nodes that are wired like that: links first, nodes in the order of their
/// declaration next.
pub open spec fn named_steps(nodes: Seq<NodeText>, wiring: WiringPlan, states: Returned) -> Seq<
    BuildStep,
> {
    Seq::new(wiring.link_count as nat, |i: int| link_step(i, wiring.input_link)) + Seq::new(
        nodes.len(),
        |i: int| node_step(nodes[i], i, wiring.node_links@[i]),
    ) + seq![BuildStep::Finish { output: wiring.output_link, states }]
}

/// The steps for nodes that stand one after the other.
pub fn expand_linear_graph(count: usize, states: Returned) -> (r: Vec<BuildStep>)
    ensures
        r@ == linear_steps(count as nat, states),
{
    let mut steps: Vec<BuildStep> = Vec::new();
    steps.push(BuildStep::Input { link: 0 });
    for i in 0..count
        invariant
            steps@ == seq![BuildStep::Input { link: 0 }] + Seq::new(
                i as nat,
                |k: int| linear_step(k),
            ),
    {
        steps.push(BuildStep::AddNode { node: i, input: i, output: i + 1 });
        assert(steps@ =~= seq![BuildStep::Input { link: 0 }] + Seq::new(
            (i + 1) as nat,
            |k: int| linear_step(k),
        ));
    }
    steps.push(BuildStep::Finish { output: count, states });
    steps
}

/// The steps for named nodes.
pub fn expand_named_graph(nodes: &Vec<NamedNode>, wiring: &WiringPlan, states: Returned) -> (r: Vec<
    BuildStep,
>)
    requires
        wiring.node_links@.len() == nodes@.len(),
    ensures
        r@ == named_steps(shown_nodes(nodes@), *wiring, states),
{
    let ghost decls = shown_nodes(nodes@);
    let count: usize = wiring.link_count;
    let ghost links = Seq::new(count as nat, |k: int| link_step(k, wiring.input_link));
    let mut steps: Vec<BuildStep> = Vec::new();
    for i in 0..count
        invariant
            steps@ == Seq::new(i as nat, |k: int| link_step(k, wiring.input_link)),
    {
        if i == wiring.input_link {
            steps.push(BuildStep::Input { link: i });
        } else {
            steps.push(BuildStep::Link { link: i });
        }
        assert(steps@ =~= Seq::new((i + 1) as nat, |k: int| link_step(k, wiring.input_link)));
    }
    for i in 0..nodes.len()
        invariant
            decls == shown_nodes(nodes@),
            wiring.node_links@.len() == nodes@.len(),
            steps@ == links + Seq::new(
                i as nat,
                |k: int| node_step(decls[k], k, wiring.node_links@[k]),
            ),
    {
        assert(decls[i as int] == nodes@[i as int]@);
        let (input, output): (usize, usize) = wiring.node_links[i];
        match &nodes[i].kind {
            NamedNodeKind::Managed(_) => {
                steps.push(BuildStep::AddNodeTo { node: i, input, output });
            },
            NamedNodeKind::External { input: _, output: _, reusable_factory } => {
                let reusable: bool = reusable_factory.is_some();
                steps.push(BuildStep::AddExternalNodeTo { node: i, input, output, reusable });
            },
        }
        assert(steps@ =~= links + Seq::new(
            (i + 1) as nat,
            |k: int| node_step(decls[k], k, wiring.node_links@[k]),
        ));
    }
    steps.push(BuildStep::Finish { output: wiring.output_link, states });
    steps
}

/// Which of the first `n` nodes are run from outside.
pub open spec fn outside_nodes(nodes: Seq<NodeText>, n: nat) -> Seq<usize>
    decreases n,
{
    if n == 0 {
        Seq::empty()
    } else {
        let before = outside_nodes(nodes, (n - 1) as nat);
        if nodes[n - 1].kind is External {
            before.push((n - 1) as usize)
        } else {
            before
        }
    }
}

/// What a declared pipeline is made of.
#[derive(Debug)]
pub struct PipelineCode {
    /// The calls that build its graph.
    pub steps: Vec<BuildStep>,
    /// The nodes that are run from outside. Where there are any, a running pipeline carries a handle
    /// for each.
    pub externals: Vec<usize>,
    /// What it gives back when it ends.
    pub states: Returned,
}

/// What is made of a declaration without a fault.
pub open spec fn is_code(
    code: PipelineCode,
    nodes: DeclsText,
    graph: Option<Seq<EdgeText>>,
    gives_back: bool,
) -> bool {
    &&& code.states == returned(plan_merges(nodes, graph, gives_back))
    &&& match nodes {
        DeclsText::Linear(runs) => {
            &&& code.steps@ == linear_steps(runs.len(), code.states)
            &&& code.externals@.len() == 0
        },
        DeclsText::Named(nodes) => {
            &&& exists|wiring: WiringPlan|
                is_wiring(wiring, nodes, graph->0) && code.steps@ == #[trigger] named_steps(
                    nodes,
                    wiring,
                    code.states,
                )
            &&& code.externals@ == outside_nodes(nodes, nodes.len())
        },
    }
}

fn list_outside(nodes: &Vec<NamedNode>) -> (r: Vec<usize>)
    ensures
        r@ == outside_nodes(shown_nodes(nodes@), nodes@.len()),
{
    let mut found: Vec<usize> = Vec::new();
    for i in 0..nodes.len()
        invariant
            found@ == outside_nodes(shown_nodes(nodes@), i as nat),
    {
        assert(shown_nodes(nodes@)[i as int] == nodes@[i as int]@);
        if let NamedNodeKind::External { .. } = nodes[i].kind {
            found.push(i);
        }
    }
    found
}

/// Plans the code of a declared pipeline.
pub fn plan_code(pipeline: &PipelineInput) -> (r: Result<PipelineCode, ExpandFault>)
    ensures
        match plan_fault(pipeline@.nodes, pipeline@.graph, pipeline@.return_state is Some) {
            Some(fault) => r == Err::<PipelineCode, ExpandFault>(fault),
            None => r matches Ok(code) && is_code(
                code,
                pipeline@.nodes,
                pipeline@.graph,
                pipeline@.return_state is Some,
            ),
        },
{
    let (plan, merges): (ExpansionPlan, Option<bool>) = match plan_expansion(pipeline) {
        Ok(planned) => planned,
        Err(fault) => {
            return Err(fault);
        },
    };
    let states: Returned = match merges {
        None => Returned::Nothing,
        Some(false) => Returned::States,
        Some(true) => Returned::MergedStates,
    };
    match (&pipeline.nodes, plan) {
        (NodeDecls::Linear(runs), _) => {
            assert(shown_streams(runs@).len() == runs@.len());
            Ok(
                PipelineCode {
                    steps: expand_linear_graph(runs.len(), states),
                    externals: Vec::new(),
                    states,
                },
            )
        },
        (NodeDecls::Named(nodes), ExpansionPlan::Named(wiring)) => {
            assert(shown_nodes(nodes@).len() == nodes@.len());
            let steps: Vec<BuildStep> = expand_named_graph(nodes, &wiring, states);
            Ok(PipelineCode { steps, externals: list_outside(nodes), states })
        },
        (NodeDecls::Named(_), ExpansionPlan::Linear { .. }) => {
            assert(false);
            Err(ExpandFault::NamesWithoutGraph)
        },
    }
}

/// Every link that a step speaks of was named by an earlier step.
pub proof fn links_are_named_before_use(
    code: PipelineCode,
    nodes: DeclsText,
    graph: Option<Seq<EdgeText>>,
    gives_back: bool,
    i: int,
    link: usize,
)
    requires
        plan_fault(nodes, graph, gives_back) is None,
        is_code(code, nodes, graph, gives_back),
        nodes is Linear ==> nodes->Linear_0.len() <= usize::MAX,
        0 <= i < code.steps@.len(),
        code.steps@[i].uses(link),
    ensures
        exists|j: int| 0 <= j < i && (#[trigger] code.steps@[j]).declares(link),
{
    let steps = code.steps@;
    match nodes {
        DeclsText::Linear(runs) => {
            let count = runs.len();
            if i <= count {
                assert(steps[i] == linear_step(i - 1));
            }
            assert(link < i);
            if link == 0 {
                assert(steps[0].declares(link));
            } else {
                assert(steps[link as int] == linear_step(link - 1));
                assert(steps[link as int].declares(link));
            }
        },
        DeclsText::Named(nodes) => {
            let wiring = choose|wiring: WiringPlan|
                is_wiring(wiring, nodes, graph->0) && code.steps@ == #[trigger] named_steps(
                    nodes,
                    wiring,
                    code.states,
                );
            assert(edges_fault(graph->0, 0, nodes) is None);
            links_are_counted(wiring, nodes, graph->0);
            let count = wiring.link_count as int;
            if i < count {
                assert(steps[i] == link_step(i, wiring.input_link));
            } else if i < count + nodes.len() {
                assert(steps[i] == node_step(
                    nodes[i - count],
                    i - count,
                    wiring.node_links@[i - count],
                ));
            }
            assert(link < count);
            assert(steps[link as int] == link_step(link as int, wiring.input_link));
            assert(steps[link as int].declares(link));
        },
    }
}

/// A pipeline can be asked for one merged state only where it gives states back and its last node
/// can merge them.
pub proof fn merged_states_can_be_merged(
    code: PipelineCode,
    nodes: DeclsText,
    graph: Option<Seq<EdgeText>>,
    gives_back: bool,
)
    requires
        is_code(code, nodes, graph, gives_back),
    ensures
        code.states is MergedStates <==> plan_merges(nodes, graph, gives_back) == Some(true),
        code.states is Nothing <==> !gives_back,
{
}

} // verus!
