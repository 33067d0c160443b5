//! The description of a pipeline at the head of its telemetry log.

use crate::check::has_link;
use crate::policy::NodeThreadPolicyKind;
use crate::scaling::first_from;
use crate::snapshot::{AnchorSnapshot, LinkSnapshot, NodeSnapshot, PiperSnapshot};
use crate::text::{concat, concat3, decimal, decimal_text, join, joined, same, texts};
use vstd::prelude::*;

verus! {

/// A node in the description.
#[derive(Clone, Debug)]
pub struct ManifestNode {
    pub id: String,
    pub index: usize,
    pub name: String,
    pub input_link: String,
    pub output_link: String,
    pub output_links: Vec<String>,
    pub is_anchor: bool,
    pub thread_policy_kind: String,
    pub is_external: bool,
}

/// A link in the description.
#[derive(Clone, Debug)]
pub struct ManifestLink {
    pub id: String,
    pub index: usize,
    pub kind: String,
    pub label: String,
    pub producers: Vec<String>,
    pub consumers: Vec<String>,
}

/// An anchor in the description.
#[derive(Clone, Debug)]
pub struct ManifestAnchor {
    pub id: String,
    pub index: usize,
    pub name: String,
}

/// A column of the log in the description.
#[derive(Clone, Debug)]
pub struct ManifestMetric {
    pub column: String,
    pub object_id: String,
    pub object_kind: String,
    pub category: String,
    pub metric: String,
    pub label: String,
    pub unit: Option<String>,
}

/// The description of a pipeline.
#[derive(Clone, Debug)]
pub struct TelemetryLogManifest {
    pub version: u32,
    pub format: String,
    pub links: Vec<ManifestLink>,
    pub nodes: Vec<ManifestNode>,
    pub anchors: Vec<ManifestAnchor>,
    pub metrics: Vec<ManifestMetric>,
}

/// The texts of a column.
pub struct MetricText {
    pub column: Seq<char>,
    pub object_id: Seq<char>,
    pub object_kind: Seq<char>,
    pub category: Seq<char>,
    pub metric: Seq<char>,
    pub label: Seq<char>,
    pub unit: Option<Seq<char>>,
}

impl View for ManifestMetric {
    type V = MetricText;

    open spec fn view(&self) -> MetricText {
        MetricText {
            column: self.column@,
            object_id: self.object_id@,
            object_kind: self.object_kind@,
            category: self.category@,
            metric: self.metric@,
            label: self.label@,
            unit: match self.unit {
                Some(unit) => Some(unit@),
                None => None,
            },
        }
    }
}

/// The texts of columns.
pub open spec fn metric_texts(metrics: Seq<ManifestMetric>) -> Seq<MetricText> {
    metrics.map_values(|m: ManifestMetric| m@)
}

/// What a link is called.
pub open spec fn link_id(index: usize) -> Seq<char> {
    "link"@ + decimal(index as nat)
}

/// What a node is called.
pub open spec fn node_id(index: usize) -> Seq<char> {
    "node"@ + decimal(index as nat)
}

/// What an anchor is called.
pub open spec fn anchor_id(index: usize) -> Seq<char> {
    "anchor"@ + decimal(index as nat)
}

/// What a link is called.
pub fn link_object_id(index: usize) -> (r: String)
    ensures
        r@ == link_id(index),
{
    let number: String = decimal_text(index as u64);
    concat("link", number.as_str())
}

/// What a node is called.
pub fn node_object_id(index: usize) -> (r: String)
    ensures
        r@ == node_id(index),
{
    let number: String = decimal_text(index as u64);
    concat("node", number.as_str())
}

/// What an anchor is called.
pub fn anchor_object_id(index: usize) -> (r: String)
    ensures
        r@ == anchor_id(index),
{
    let number: String = decimal_text(index as u64);
    concat("anchor", number.as_str())
}

/// The name of a kind of thread policy.
pub open spec fn policy_kind_text(kind: NodeThreadPolicyKind) -> Seq<char> {
    match kind {
        NodeThreadPolicyKind::Fixed => "Fixed"@,
        NodeThreadPolicyKind::Scalable => "Scalable"@,
        NodeThreadPolicyKind::ImplicitSupport => "ImplicitSupport"@,
    }
}

/// The name of a kind of thread policy.
pub fn policy_kind_name(kind: NodeThreadPolicyKind) -> (r: String)
    ensures
        r@ == policy_kind_text(kind),
{
    match kind {
        NodeThreadPolicyKind::Fixed => "Fixed".to_owned(),
        NodeThreadPolicyKind::Scalable => "Scalable".to_owned(),
        NodeThreadPolicyKind::ImplicitSupport => "ImplicitSupport".to_owned(),
    }
}

/// What these links are called.
pub open spec fn link_ids(links: Seq<usize>) -> Seq<Seq<char>> {
    links.map_values(|i: usize| link_id(i))
}

fn link_object_ids(links: &Vec<usize>) -> (r: Vec<String>)
    ensures
        texts(r@) == link_ids(links@),
{
    let mut ids: Vec<String> = Vec::new();
    for i in 0..links.len()
        invariant
            ids@.len() == i,
            forall|k: int| 0 <= k < i ==> (#[trigger] ids@[k])@ == link_id(links@[k]),
    {
        ids.push(link_object_id(links[i]));
    }
    assert(texts(ids@) == link_ids(links@));
    ids
}

/// Whether the entry describes the node.
pub open spec fn describes_node<R, D>(entry: ManifestNode, node: NodeSnapshot<R, D>) -> bool {
    &&& entry.id@ == node_id(node.index)
    &&& entry.index == node.index
    &&& entry.name@ == node.name@
    &&& entry.input_link@ == link_id(node.input_link)
    &&& entry.output_link@ == link_id(node.output_link)
    &&& texts(entry.output_links@) == link_ids(node.output_links@)
    &&& entry.is_anchor == node.is_anchor
    &&& entry.thread_policy_kind@ == policy_kind_text(node.thread_policy_kind)
    &&& entry.is_external == node.is_external
}

fn describe_nodes<R, D>(nodes: &Vec<NodeSnapshot<R, D>>) -> (r: Vec<ManifestNode>)
    ensures
        r@.len() == nodes@.len(),
        forall|i: int| 0 <= i < nodes@.len() ==> describes_node(#[trigger] r@[i], nodes@[i]),
{
    let mut entries: Vec<ManifestNode> = Vec::new();
    for i in 0..nodes.len()
        invariant
            entries@.len() == i,
            forall|k: int| 0 <= k < i ==> describes_node(#[trigger] entries@[k], nodes@[k]),
    {
        let node: &NodeSnapshot<R, D> = &nodes[i];
        entries.push(
            ManifestNode {
                id: node_object_id(node.index),
                index: node.index,
                name: node.name.clone(),
                input_link: link_object_id(node.input_link),
                output_link: link_object_id(node.output_link),
                output_links: link_object_ids(&node.output_links),
                is_anchor: node.is_anchor,
                thread_policy_kind: policy_kind_name(node.thread_policy_kind),
                is_external: node.is_external,
            },
        );
    }
    entries
}

/// How often `link` is among the first `n` of these links.
pub open spec fn occurrences(links: Seq<usize>, n: nat, link: usize) -> nat
    decreases n,
{
    if n == 0 {
        0
    } else {
        occurrences(links, (n - 1) as nat, link) + if links[n - 1] == link {
            1nat
        } else {
            0nat
        }
    }
}

/// The text, `n` times over.
pub open spec fn copies(text: Seq<char>, n: nat) -> Seq<Seq<char>> {
    Seq::new(n, |i: int| text)
}

/// Which of the first `n` nodes put items on the link, each as often as it does.
pub open spec fn feeding_ids<R, D>(nodes: Seq<NodeSnapshot<R, D>>, n: nat, link: usize) -> Seq<Seq<char>>
    decreases n,
{
    if n == 0 {
        Seq::empty()
    } else {
        let node = nodes[n - 1];
        feeding_ids(nodes, (n - 1) as nat, link) + copies(
            node_id(node.index),
            occurrences(node.output_links@, node.output_links@.len(), link),
        )
    }
}

/// What puts items on the link: the nodes that do, but the pipeline's input on its input link.
pub open spec fn producer_ids<R, D>(
    nodes: Seq<NodeSnapshot<R, D>>,
    link: usize,
    input_link: usize,
) -> Seq<Seq<char>> {
    if link == input_link {
        seq!["input"@]
    } else {
        feeding_ids(nodes, nodes.len(), link)
    }
}

/// Which of the first `n` nodes take items from the link.
pub open spec fn taking_ids<R, D>(nodes: Seq<NodeSnapshot<R, D>>, n: nat, link: usize) -> Seq<Seq<char>>
    decreases n,
{
    if n == 0 {
        Seq::empty()
    } else {
        let before = taking_ids(nodes, (n - 1) as nat, link);
        if nodes[n - 1].input_link == link {
            before.push(node_id(nodes[n - 1].index))
        } else {
            before
        }
    }
}

/// The nodes that are called so.
pub open spec fn called<R, D>(nodes: Seq<NodeSnapshot<R, D>>, id: Seq<char>) -> spec_fn(int) -> bool {
    |i: int| node_id(nodes[i].index) == id
}

/// Whether the node that is called so puts items on the pipeline's output link.
pub open spec fn feeds_output<R, D>(
    nodes: Seq<NodeSnapshot<R, D>>,
    id: Seq<char>,
    output_link: usize,
) -> bool {
    first_from(called(nodes, id), 0, nodes.len() as int) matches Some(i)
        && nodes[i].output_links@.contains(output_link)
}

/// What takes items from the link: the nodes that do, but the pipeline's output on its output link.
/// Where several produce for one node that feeds the output, the output stands for that node.
pub open spec fn consumer_ids<R, D>(
    nodes: Seq<NodeSnapshot<R, D>>,
    link: usize,
    input_link: usize,
    output_link: usize,
) -> Seq<Seq<char>> {
    let takers = taking_ids(nodes, nodes.len(), link);
    if link == output_link {
        seq!["output"@]
    } else if producer_ids(nodes, link, input_link).len() > 1 && takers.len() == 1 && feeds_output(
        nodes,
        takers[0],
        output_link,
    ) {
        seq!["output"@]
    } else {
        takers
    }
}

fn one_text(text: &str) -> (r: Vec<String>)
    ensures
        texts(r@) == seq![text@],
{
    let mut list: Vec<String> = Vec::new();
    list.push(text.to_owned());
    assert(texts(list@) == seq![text@]);
    list
}

fn find_producers<R, D>(nodes: &Vec<NodeSnapshot<R, D>>, link: usize, input_link: usize) -> (r: Vec<
    String,
>)
    ensures
        texts(r@) == producer_ids(nodes@, link, input_link),
{
    if link == input_link {
        return one_text("input");
    }
    let mut ids: Vec<String> = Vec::new();
    assert(texts(ids@) == Seq::<Seq<char>>::empty());
    for i in 0..nodes.len()
        invariant
            texts(ids@) == feeding_ids(nodes@, i as nat, link),
    {
        let node: &NodeSnapshot<R, D> = &nodes[i];
        let ghost before = texts(ids@);
        assert(before + copies(node_id(node.index), 0) == before);
        for k in 0..node.output_links.len()
            invariant
                texts(ids@) == before + copies(
                    node_id(node.index),
                    occurrences(node.output_links@, k as nat, link),
                ),
        {
            if node.output_links[k] == link {
                let ghost held = ids@;
                ids.push(node_object_id(node.index));
                assert(texts(ids@) == texts(held).push(node_id(node.index)));
                assert(texts(ids@) == before + copies(
                    node_id(node.index),
                    occurrences(node.output_links@, (k + 1) as nat, link),
                ));
            }
        }
    }
    ids
}

fn find_takers<R, D>(nodes: &Vec<NodeSnapshot<R, D>>, link: usize) -> (r: Vec<String>)
    ensures
        texts(r@) == taking_ids(nodes@, nodes@.len(), link),
{
    let mut ids: Vec<String> = Vec::new();
    assert(texts(ids@) == Seq::<Seq<char>>::empty());
    for i in 0..nodes.len()
        invariant
            texts(ids@) == taking_ids(nodes@, i as nat, link),
    {
        if nodes[i].input_link == link {
            let ghost held = ids@;
            ids.push(node_object_id(nodes[i].index));
            assert(texts(ids@) == texts(held).push(node_id(nodes@[i as int].index)));
        }
    }
    ids
}

fn node_feeds_output<R, D>(nodes: &Vec<NodeSnapshot<R, D>>, id: &str, output_link: usize) -> (r: bool)
    ensures
        r == feeds_output(nodes@, id@, output_link),
{
    for i in 0..nodes.len()
        invariant
            first_from(called(nodes@, id@), 0, nodes@.len() as int) == first_from(
                called(nodes@, id@),
                i as int,
                nodes@.len() as int,
            ),
    {
        let own: String = node_object_id(nodes[i].index);
        assert(called(nodes@, id@)(i as int) == (own@ == id@));
        if same(own.as_str(), id) {
            return has_link(&nodes[i].output_links, output_link);
        }
    }
    false
}

fn find_consumers<R, D>(
    nodes: &Vec<NodeSnapshot<R, D>>,
    link: usize,
    output_link: usize,
    producers: &Vec<String>,
    input_link: Ghost<usize>,
) -> (r: Vec<String>)
    requires
        texts(producers@) == producer_ids(nodes@, link, input_link@),
    ensures
        texts(r@) == consumer_ids(nodes@, link, input_link@, output_link),
{
    if link == output_link {
        return one_text("output");
    }
    let takers: Vec<String> = find_takers(nodes, link);
    assert(texts(takers@).len() == takers@.len());
    assert(texts(producers@).len() == producers@.len());
    if producers.len() > 1 && takers.len() == 1 {
        assert(texts(takers@)[0] == takers@[0]@);
        if node_feeds_output(nodes, takers[0].as_str(), output_link) {
            return one_text("output");
        }
    }
    takers
}

/// What kind of link it is, with that many producers and consumers.
pub open spec fn link_kind(
    link: usize,
    input_link: usize,
    output_link: usize,
    producers: nat,
    consumers: nat,
) -> Seq<char> {
    if link == input_link {
        "input"@
    } else if link == output_link {
        "output"@
    } else if producers == 1 && consumers > 1 {
        "fork"@
    } else if producers > 1 && consumers == 1 {
        "join"@
    } else if producers > 1 && consumers > 1 {
        "fork_join"@
    } else {
        "internal"@
    }
}

/// What kind of link it is.
pub fn manifest_link_kind(
    link_index: usize,
    input_link: usize,
    output_link: usize,
    producers: &Vec<String>,
    consumers: &Vec<String>,
) -> (r: &'static str)
    ensures
        r@ == link_kind(link_index, input_link, output_link, producers@.len(), consumers@.len()),
{
    if link_index == input_link {
        return "input";
    }
    if link_index == output_link {
        return "output";
    }
    let producer_count: usize = producers.len();
    let consumer_count: usize = consumers.len();
    if producer_count == 1 && consumer_count > 1 {
        "fork"
    } else if producer_count > 1 && consumer_count == 1 {
        "join"
    } else if producer_count > 1 && consumer_count > 1 {
        "fork_join"
    } else {
        "internal"
    }
}

/// The entries with that id.
pub open spec fn entered_as(nodes: Seq<ManifestNode>, id: Seq<char>) -> spec_fn(int) -> bool {
    |i: int| nodes[i].id@ == id
}

/// The name by which labels speak of what is called so: the node's name where there is one.
pub open spec fn name_of(id: Seq<char>, nodes: Seq<ManifestNode>) -> Seq<char> {
    if id == "input"@ {
        "input"@
    } else if id == "output"@ {
        "output"@
    } else {
        match first_from(entered_as(nodes, id), 0, nodes.len() as int) {
            Some(i) => nodes[i].name@,
            None => id,
        }
    }
}

/// The name by which labels speak of what is called so.
pub fn manifest_node_name(stage_id: &str, stages: &Vec<ManifestNode>) -> (r: String)
    ensures
        r@ == name_of(stage_id@, stages@),
{
    if same(stage_id, "input") {
        return "input".to_owned();
    }
    if same(stage_id, "output") {
        return "output".to_owned();
    }
    for i in 0..stages.len()
        invariant
            stage_id@ != "input"@,
            stage_id@ != "output"@,
            first_from(entered_as(stages@, stage_id@), 0, stages@.len() as int) == first_from(
                entered_as(stages@, stage_id@),
                i as int,
                stages@.len() as int,
            ),
    {
        assert(entered_as(stages@, stage_id@)(i as int) == (stages@[i as int].id@ == stage_id@));
        if same(stages[i].id.as_str(), stage_id) {
            return stages[i].name.clone();
        }
    }
    stage_id.to_owned()
}

/// The names by which labels speak of what is called so.
pub open spec fn names_of(ids: Seq<Seq<char>>, nodes: Seq<ManifestNode>) -> Seq<Seq<char>> {
    ids.map_values(|id: Seq<char>| name_of(id, nodes))
}

/// A list of names in a label: a single name by itself, others in braces.
pub open spec fn list_text(ids: Seq<Seq<char>>, nodes: Seq<ManifestNode>) -> Seq<char> {
    if ids.len() == 1 {
        name_of(ids[0], nodes)
    } else {
        "{"@ + joined(names_of(ids, nodes), ", "@) + "}"@
    }
}

/// A list of names in a label.
pub fn format_manifest_node_list(ids: &Vec<String>, stages: &Vec<ManifestNode>) -> (r: String)
    ensures
        r@ == list_text(texts(ids@), stages@),
{
    let mut names: Vec<String> = Vec::new();
    for i in 0..ids.len()
        invariant
            names@.len() == i,
            forall|k: int|
                0 <= k < i ==> (#[trigger] names@[k])@ == name_of(ids@[k]@, stages@),
    {
        names.push(manifest_node_name(ids[i].as_str(), stages));
    }
    assert(texts(ids@).len() == ids@.len());
    if names.len() == 1 {
        assert(texts(ids@)[0] == ids@[0]@);
        return names[0].clone();
    }
    assert(texts(names@) == names_of(texts(ids@), stages@));
    let inner: String = join(&names, ", ");
    concat3("{", inner.as_str(), "}")
}

/// Whether a label of that kind has the producer and the consumer that it names.
pub open spec fn can_be_labelled(kind: Seq<char>, producers: nat, consumers: nat) -> bool {
    let lists_producers = kind == "output"@ || kind == "join"@ || kind == "fork_join"@;
    let lists_consumers = kind == "input"@ || kind == "fork"@ || kind == "fork_join"@;
    &&& kind == "input"@ || lists_producers || producers >= 1
    &&& kind == "output"@ || lists_consumers || consumers >= 1
}

/// The label of a link of that kind.
pub open spec fn link_label(
    kind: Seq<char>,
    producers: Seq<Seq<char>>,
    consumers: Seq<Seq<char>>,
    nodes: Seq<ManifestNode>,
) -> Seq<char> {
    if kind == "input"@ {
        "input -> "@ + list_text(consumers, nodes)
    } else if kind == "output"@ {
        list_text(producers, nodes) + " -> output"@
    } else if kind == "fork"@ {
        name_of(producers[0], nodes) + " -> "@ + list_text(consumers, nodes)
    } else if kind == "join"@ {
        list_text(producers, nodes) + " -> "@ + name_of(consumers[0], nodes)
    } else if kind == "fork_join"@ {
        list_text(producers, nodes) + " -> "@ + list_text(consumers, nodes)
    } else {
        name_of(producers[0], nodes) + " -> "@ + name_of(consumers[0], nodes)
    }
}

/// The label of a link of that kind.
pub fn manifest_link_label(
    kind: &str,
    producers: &Vec<String>,
    consumers: &Vec<String>,
    stages: &Vec<ManifestNode>,
) -> (r: String)
    requires
        can_be_labelled(kind@, producers@.len(), consumers@.len()),
    ensures
        r@ == link_label(kind@, texts(producers@), texts(consumers@), stages@),
{
    assert(producers@.len() > 0 ==> texts(producers@)[0] == producers@[0]@);
    assert(consumers@.len() > 0 ==> texts(consumers@)[0] == consumers@[0]@);
    if same(kind, "input") {
        let right: String = format_manifest_node_list(consumers, stages);
        return concat("input -> ", right.as_str());
    }
    if same(kind, "output") {
        let left: String = format_manifest_node_list(producers, stages);
        return concat(left.as_str(), " -> output");
    }
    let lists_producers: bool = same(kind, "join") || same(kind, "fork_join");
    let lists_consumers: bool = same(kind, "fork") || same(kind, "fork_join");
    proof {
        reveal_strlit("join");
        reveal_strlit("fork");
        reveal_strlit("fork_join");
        assert("join"@[0] != "fork"@[0]);
        assert("join"@.len() != "fork_join"@.len());
        assert("fork"@.len() != "fork_join"@.len());
    }
    let left: String = if lists_producers {
        format_manifest_node_list(producers, stages)
    } else {
        manifest_node_name(producers[0].as_str(), stages)
    };
    let right: String = if lists_consumers {
        format_manifest_node_list(consumers, stages)
    } else {
        manifest_node_name(consumers[0].as_str(), stages)
    };
    concat3(left.as_str(), " -> ", right.as_str())
}

/// Whether the entry describes the link.
pub open spec fn describes_link<R, D>(
    entry: ManifestLink,
    link: LinkSnapshot<R>,
    nodes: Seq<NodeSnapshot<R, D>>,
    entries: Seq<ManifestNode>,
    input_link: usize,
    output_link: usize,
) -> bool {
    let producers = producer_ids(nodes, link.index, input_link);
    let consumers = consumer_ids(nodes, link.index, input_link, output_link);
    &&& entry.id@ == link_id(link.index)
    &&& entry.index == link.index
    &&& entry.kind@ == link_kind(
        link.index,
        input_link,
        output_link,
        producers.len(),
        consumers.len(),
    )
    &&& entry.label@ == link_label(entry.kind@, producers, consumers, entries)
    &&& texts(entry.producers@) == producers
    &&& texts(entry.consumers@) == consumers
}

/// Whether something puts items on the link and something takes them, as far as that is not the
/// pipeline's own user.
pub open spec fn is_connected<R, D>(
    link: LinkSnapshot<R>,
    nodes: Seq<NodeSnapshot<R, D>>,
    input_link: usize,
    output_link: usize,
) -> bool {
    link.index == input_link || link.index == output_link || (producer_ids(
        nodes,
        link.index,
        input_link,
    ).len() >= 1 && consumer_ids(nodes, link.index, input_link, output_link).len() >= 1)
}

/// Whether all of these are links of a pipeline with that many.
pub open spec fn all_within(links: Seq<usize>, count: nat) -> bool {
    forall|i: int| 0 <= i < links.len() ==> #[trigger] links[i] < count
}

/// Whether only links that are shown are spoken of.
pub open spec fn keeps_to_links<R, D>(snapshot: PiperSnapshot<R, D>, input_link: usize) -> bool {
    let count = snapshot.links@.len();
    &&& input_link < count
    &&& forall|i: int| 0 <= i < count ==> (#[trigger] snapshot.links@[i]).index < count
    &&& forall|i: int|
        0 <= i < snapshot.nodes@.len() ==> (#[trigger] snapshot.nodes@[i]).input_link < count
            && all_within(snapshot.nodes@[i].output_links@, count)
}

/// Whether the pipeline can be described: it speaks only of its own links, and each link inside it
/// has something at both ends.
pub open spec fn can_be_described<R, D>(
    snapshot: PiperSnapshot<R, D>,
    input_link: usize,
    output_link: usize,
) -> bool {
    &&& keeps_to_links(snapshot, input_link)
    &&& forall|i: int|
        0 <= i < snapshot.links@.len() ==> is_connected(
            #[trigger] snapshot.links@[i],
            snapshot.nodes@,
            input_link,
            output_link,
        )
}

fn links_are_within(links: &Vec<usize>, count: usize) -> (r: bool)
    ensures
        r == all_within(links@, count as nat),
{
    for i in 0..links.len()
        invariant
            forall|k: int| 0 <= k < i ==> #[trigger] links@[k] < count,
    {
        if links[i] >= count {
            return false;
        }
    }
    true
}

fn snapshot_keeps_to_links<R, D>(snapshot: &PiperSnapshot<R, D>, input_link: usize) -> (r: bool)
    ensures
        r == keeps_to_links(*snapshot, input_link),
{
    let count: usize = snapshot.links.len();
    if input_link >= count {
        return false;
    }
    for i in 0..count
        invariant
            count == snapshot.links@.len(),
            forall|k: int| 0 <= k < i ==> (#[trigger] snapshot.links@[k]).index < count,
    {
        if snapshot.links[i].index >= count {
            return false;
        }
    }
    for i in 0..snapshot.nodes.len()
        invariant
            count == snapshot.links@.len(),
            forall|k: int|
                0 <= k < i ==> (#[trigger] snapshot.nodes@[k]).input_link < count && all_within(
                    snapshot.nodes@[k].output_links@,
                    count as nat,
                ),
    {
        if snapshot.nodes[i].input_link >= count || !links_are_within(
            &snapshot.nodes[i].output_links,
            count,
        ) {
            assert(!(snapshot.nodes@[i as int].input_link < count && all_within(
                snapshot.nodes@[i as int].output_links@,
                count as nat,
            )));
            return false;
        }
    }
    true
}

/// Whether the pipeline can be described.
pub fn manifest_can_be_built<R, D>(
    snapshot: &PiperSnapshot<R, D>,
    input_link: usize,
    output_link: usize,
) -> (r: bool)
    ensures
        r == can_be_described(*snapshot, input_link, output_link),
{
    if !snapshot_keeps_to_links(snapshot, input_link) {
        return false;
    }
    for i in 0..snapshot.links.len()
        invariant
            keeps_to_links(*snapshot, input_link),
            forall|k: int|
                0 <= k < i ==> is_connected(
                    #[trigger] snapshot.links@[k],
                    snapshot.nodes@,
                    input_link,
                    output_link,
                ),
    {
        let index: usize = snapshot.links[i].index;
        let producers: Vec<String> = find_producers(&snapshot.nodes, index, input_link);
        let consumers: Vec<String> = find_consumers(
            &snapshot.nodes,
            index,
            output_link,
            &producers,
            Ghost(input_link),
        );
        assert(texts(producers@).len() == producers@.len());
        assert(texts(consumers@).len() == consumers@.len());
        if index != input_link && index != output_link && (producers.len() == 0 || consumers.len()
            == 0) {
            assert(!is_connected(
                snapshot.links@[i as int],
                snapshot.nodes@,
                input_link,
                output_link,
            ));
            return false;
        }
    }
    true
}

proof fn connected_can_be_labelled(
    link: usize,
    input_link: usize,
    output_link: usize,
    producers: nat,
    consumers: nat,
)
    requires
        link == input_link || link == output_link || producers >= 1 && consumers >= 1,
    ensures
        can_be_labelled(
            link_kind(link, input_link, output_link, producers, consumers),
            producers,
            consumers,
        ),
{
}

fn describe_links<R, D>(
    snapshot: &PiperSnapshot<R, D>,
    entries: &Vec<ManifestNode>,
    input_link: usize,
    output_link: usize,
) -> (r: Vec<ManifestLink>)
    requires
        can_be_described(*snapshot, input_link, output_link),
    ensures
        r@.len() == snapshot.links@.len(),
        forall|i: int|
            0 <= i < snapshot.links@.len() ==> describes_link(
                #[trigger] r@[i],
                snapshot.links@[i],
                snapshot.nodes@,
                entries@,
                input_link,
                output_link,
            ),
{
    let mut described: Vec<ManifestLink> = Vec::new();
    for i in 0..snapshot.links.len()
        invariant
            can_be_described(*snapshot, input_link, output_link),
            described@.len() == i,
            forall|k: int|
                0 <= k < i ==> describes_link(
                    #[trigger] described@[k],
                    snapshot.links@[k],
                    snapshot.nodes@,
                    entries@,
                    input_link,
                    output_link,
                ),
    {
        let index: usize = snapshot.links[i].index;
        let producers: Vec<String> = find_producers(&snapshot.nodes, index, input_link);
        let consumers: Vec<String> = find_consumers(
            &snapshot.nodes,
            index,
            output_link,
            &producers,
            Ghost(input_link),
        );
        assert(texts(producers@).len() == producers@.len());
        assert(texts(consumers@).len() == consumers@.len());
        assert(is_connected(
            snapshot.links@[i as int],
            snapshot.nodes@,
            input_link,
            output_link,
        ));
        let kind: &'static str = manifest_link_kind(
            index,
            input_link,
            output_link,
            &producers,
            &consumers,
        );
        proof {
            connected_can_be_labelled(
                index,
                input_link,
                output_link,
                producers@.len(),
                consumers@.len(),
            );
        }
        let label: String = manifest_link_label(kind, &producers, &consumers, entries);
        described.push(
            ManifestLink {
                id: link_object_id(index),
                index,
                kind: kind.to_owned(),
                label,
                producers,
                consumers,
            },
        );
    }
    described
}

/// Whether the entry describes the anchor at that position.
pub open spec fn describes_anchor(entry: ManifestAnchor, i: int, anchor: AnchorSnapshot) -> bool {
    &&& entry.id@ == anchor_id(i as usize)
    &&& entry.index == i
    &&& entry.name@ == anchor.node_name@
}

fn describe_anchors(anchors: &Vec<AnchorSnapshot>) -> (r: Vec<ManifestAnchor>)
    ensures
        r@.len() == anchors@.len(),
        forall|i: int|
            0 <= i < anchors@.len() ==> describes_anchor(#[trigger] r@[i], i, anchors@[i]),
{
    let mut entries: Vec<ManifestAnchor> = Vec::new();
    for index in 0..anchors.len()
        invariant
            entries@.len() == index,
            forall|k: int|
                0 <= k < index ==> describes_anchor(#[trigger] entries@[k], k, anchors@[k]),
    {
        entries.push(
            ManifestAnchor {
                id: anchor_object_id(index),
                index,
                name: anchors[index].node_name.clone(),
            },
        );
    }
    entries
}

/// Adds a column.
pub fn push_manifest_metric(
    metrics: &mut Vec<ManifestMetric>,
    column: String,
    object_id: String,
    object_kind: &str,
    category: &str,
    metric: &str,
    label: &str,
    unit: Option<&str>,
)
    ensures
        metric_texts(final(metrics)@) == metric_texts(old(metrics)@).push(
            (MetricText {
                column: column@,
                object_id: object_id@,
                object_kind: object_kind@,
                category: category@,
                metric: metric@,
                label: label@,
                unit: match unit {
                    Some(unit) => Some(unit@),
                    None => None,
                },
            }),
        ),
{
    metrics.push(
        ManifestMetric {
            column,
            object_id,
            object_kind: object_kind.to_owned(),
            category: category.to_owned(),
            metric: metric.to_owned(),
            label: label.to_owned(),
            unit: match unit {
                Some(unit) => Some(unit.to_owned()),
                None => None,
            },
        },
    );
    assert(metric_texts(metrics@) == metric_texts(old(metrics)@).push(metrics@.last()@));
}

/// A column on the whole pipeline.
pub open spec fn pipeline_metric(metric: Seq<char>, label: Seq<char>) -> MetricText {
    MetricText {
        column: metric,
        object_id: "pipeline"@,
        object_kind: "pipeline"@,
        category: "Pipeline"@,
        metric,
        label,
        unit: None,
    }
}

/// The column of an object's metric.
pub open spec fn column_of(id: Seq<char>, metric: Seq<char>) -> Seq<char> {
    id + "_"@ + metric
}

/// A column on a link.
pub open spec fn link_metric(
    index: usize,
    metric: Seq<char>,
    label: Seq<char>,
    unit: Option<Seq<char>>,
) -> MetricText {
    MetricText {
        column: column_of(link_id(index), metric),
        object_id: link_id(index),
        object_kind: "link"@,
        category: "Links"@,
        metric,
        label,
        unit,
    }
}

/// A column on a node.
pub open spec fn node_metric(
    index: usize,
    category: Seq<char>,
    metric: Seq<char>,
    label: Seq<char>,
    unit: Option<Seq<char>>,
) -> MetricText {
    MetricText {
        column: column_of(node_id(index), metric),
        object_id: node_id(index),
        object_kind: "node"@,
        category,
        metric,
        label,
        unit,
    }
}

/// A column on an anchor.
pub open spec fn anchor_metric(index: usize, metric: Seq<char>, label: Seq<char>) -> MetricText {
    MetricText {
        column: column_of(anchor_id(index), metric),
        object_id: anchor_id(index),
        object_kind: "anchor"@,
        category: "Anchors"@,
        metric,
        label,
        unit: None,
    }
}

/// The columns on the whole pipeline.
pub open spec fn pipeline_metrics() -> Seq<MetricText> {
    seq![
        pipeline_metric("shutdown_requested"@, "shutdown requested"@),
        pipeline_metric("abort_requested"@, "abort requested"@),
        pipeline_metric("pending_scale_operation"@, "pending scale operation"@),
        pipeline_metric("parked_threads"@, "parked threads"@),
        pipeline_metric("total_active_workers"@, "active workers"@),
        pipeline_metric("global_worker_cap"@, "global worker cap"@),
        pipeline_metric("budget_pressure"@, "budget pressure"@),
        pipeline_metric("output_backpressure"@, "output backpressure"@),
    ]
}

/// The columns on a link.
pub open spec fn metrics_of_link(index: usize) -> Seq<MetricText> {
    seq![
        link_metric(index, "len"@, "queue length"@, None),
        link_metric(index, "trend"@, "queue trend"@, None),
        link_metric(index, "arrival_rate"@, "arrival rate"@, Some("items/s"@)),
        link_metric(index, "drain_rate"@, "drain rate"@, Some("items/s"@)),
        link_metric(index, "net_rate"@, "net rate"@, Some("items/s"@)),
        link_metric(index, "smoothed_len"@, "smoothed length"@, None),
    ]
}

/// The columns that every node has.
pub open spec fn common_node_metrics(index: usize) -> Seq<MetricText> {
    let c = "Nodes"@;
    seq![
        node_metric(index, c, "active_threads"@, "active threads"@, None),
        node_metric(index, c, "processed_count"@, "processed count"@, None),
        node_metric(index, c, "busy_ratio"@, "busy ratio"@, None),
        node_metric(index, c, "service_time_ms"@, "service time"@, Some("ms"@)),
        node_metric(
            index,
            c,
            "per_worker_throughput"@,
            "per-worker throughput"@,
            Some("items/s"@),
        ),
        node_metric(index, c, "desired_workers"@, "desired workers"@, None),
        node_metric(index, c, "scaling_state"@, "scaling state"@, None),
        node_metric(index, c, "thread_policy_kind"@, "thread policy"@, None),
        node_metric(index, c, "fixed_thread_count"@, "fixed threads"@, None),
        node_metric(index, c, "max_thread_count"@, "max threads"@, None),
        node_metric(index, c, "target_queue_seconds"@, "target queue seconds"@, Some("s"@)),
        node_metric(index, c, "low_queue_seconds"@, "low queue seconds"@, Some("s"@)),
        node_metric(index, c, "backlog_seconds"@, "backlog seconds"@, Some("s"@)),
    ]
}

/// The columns that a node has which is run from outside, besides.
pub open spec fn external_node_metrics(index: usize) -> Seq<MetricText> {
    let c = "External"@;
    seq![
        node_metric(index, c, "external_input_rate"@, "external input rate"@, Some("items/s"@)),
        node_metric(index, c, "external_output_rate"@, "external output rate"@, Some("items/s"@)),
    ]
}

/// The columns on a node.
pub open spec fn metrics_of_node<R, D>(node: NodeSnapshot<R, D>) -> Seq<MetricText> {
    if node.is_external {
        common_node_metrics(node.index) + external_node_metrics(node.index)
    } else {
        common_node_metrics(node.index)
    }
}

/// The columns on an anchor.
pub open spec fn metrics_of_anchor(index: usize) -> Seq<MetricText> {
    seq![
        anchor_metric(index, "active_threads"@, "active threads"@),
        anchor_metric(index, "last_pressure_reason"@, "last pressure reason"@),
    ]
}

/// The columns on the first `n` links.
pub open spec fn link_metrics<R>(links: Seq<LinkSnapshot<R>>, n: nat) -> Seq<MetricText>
    decreases n,
{
    if n == 0 {
        Seq::empty()
    } else {
        link_metrics(links, (n - 1) as nat) + metrics_of_link(links[n - 1].index)
    }
}

/// The columns on the first `n` nodes.
pub open spec fn node_metrics<R, D>(nodes: Seq<NodeSnapshot<R, D>>, n: nat) -> Seq<MetricText>
    decreases n,
{
    if n == 0 {
        Seq::empty()
    } else {
        node_metrics(nodes, (n - 1) as nat) + metrics_of_node(nodes[n - 1])
    }
}

/// The columns on the first `n` anchors.
pub open spec fn anchor_metrics(n: nat) -> Seq<MetricText>
    decreases n,
{
    if n == 0 {
        Seq::empty()
    } else {
        anchor_metrics((n - 1) as nat) + metrics_of_anchor((n - 1) as usize)
    }
}

/// The columns on a pipeline: those on the whole of it, on its links, on its nodes, on its anchors.
pub open spec fn all_metrics<R, D>(snapshot: PiperSnapshot<R, D>) -> Seq<MetricText> {
    pipeline_metrics() + link_metrics(snapshot.links@, snapshot.links@.len()) + node_metrics(
        snapshot.nodes@,
        snapshot.nodes@.len(),
    ) + anchor_metrics(snapshot.anchors@.len())
}

fn push_pipeline_metric(metrics: &mut Vec<ManifestMetric>, metric: &str, label: &str)
    ensures
        metric_texts(final(metrics)@) == metric_texts(old(metrics)@).push(
            pipeline_metric(metric@, label@),
        ),
{
    push_manifest_metric(
        metrics,
        metric.to_owned(),
        "pipeline".to_owned(),
        "pipeline",
        "Pipeline",
        metric,
        label,
        None,
    );
}

fn column_name(id: &str, metric: &str) -> (r: String)
    ensures
        r@ == column_of(id@, metric@),
{
    concat3(id, "_", metric)
}

fn push_link_metric(
    metrics: &mut Vec<ManifestMetric>,
    index: usize,
    metric: &str,
    label: &str,
    unit: Option<&str>,
)
    ensures
        metric_texts(final(metrics)@) == metric_texts(old(metrics)@).push(
            link_metric(
                index,
                metric@,
                label@,
                match unit {
                    Some(unit) => Some(unit@),
                    None => None,
                },
            ),
        ),
{
    let id: String = link_object_id(index);
    let column: String = column_name(id.as_str(), metric);
    push_manifest_metric(metrics, column, id, "link", "Links", metric, label, unit);
}

fn push_node_metric(
    metrics: &mut Vec<ManifestMetric>,
    index: usize,
    category: &str,
    metric: &str,
    label: &str,
    unit: Option<&str>,
)
    ensures
        metric_texts(final(metrics)@) == metric_texts(old(metrics)@).push(
            node_metric(
                index,
                category@,
                metric@,
                label@,
                match unit {
                    Some(unit) => Some(unit@),
                    None => None,
                },
            ),
        ),
{
    let id: String = node_object_id(index);
    let column: String = column_name(id.as_str(), metric);
    push_manifest_metric(metrics, column, id, "node", category, metric, label, unit);
}

fn push_anchor_metric(metrics: &mut Vec<ManifestMetric>, index: usize, metric: &str, label: &str)
    ensures
        metric_texts(final(metrics)@) == metric_texts(old(metrics)@).push(
            anchor_metric(index, metric@, label@),
        ),
{
    let id: String = anchor_object_id(index);
    let column: String = column_name(id.as_str(), metric);
    push_manifest_metric(metrics, column, id, "anchor", "Anchors", metric, label, None);
}

fn push_pipeline_metrics(metrics: &mut Vec<ManifestMetric>)
    ensures
        metric_texts(final(metrics)@) == metric_texts(old(metrics)@) + pipeline_metrics(),
{
    push_pipeline_metric(metrics, "shutdown_requested", "shutdown requested");
    push_pipeline_metric(metrics, "abort_requested", "abort requested");
    push_pipeline_metric(metrics, "pending_scale_operation", "pending scale operation");
    push_pipeline_metric(metrics, "parked_threads", "parked threads");
    push_pipeline_metric(metrics, "total_active_workers", "active workers");
    push_pipeline_metric(metrics, "global_worker_cap", "global worker cap");
    push_pipeline_metric(metrics, "budget_pressure", "budget pressure");
    push_pipeline_metric(metrics, "output_backpressure", "output backpressure");
    assert(metric_texts(metrics@) == metric_texts(old(metrics)@) + pipeline_metrics());
}

fn push_link_metrics(metrics: &mut Vec<ManifestMetric>, index: usize)
    ensures
        metric_texts(final(metrics)@) == metric_texts(old(metrics)@) + metrics_of_link(index),
{
    push_link_metric(metrics, index, "len", "queue length", None);
    push_link_metric(metrics, index, "trend", "queue trend", None);
    push_link_metric(metrics, index, "arrival_rate", "arrival rate", Some("items/s"));
    push_link_metric(metrics, index, "drain_rate", "drain rate", Some("items/s"));
    push_link_metric(metrics, index, "net_rate", "net rate", Some("items/s"));
    push_link_metric(metrics, index, "smoothed_len", "smoothed length", None);
    assert(metric_texts(metrics@) == metric_texts(old(metrics)@) + metrics_of_link(index));
}

fn push_node_metrics(metrics: &mut Vec<ManifestMetric>, index: usize)
    ensures
        metric_texts(final(metrics)@) == metric_texts(old(metrics)@) + common_node_metrics(index),
{
    let c: &str = "Nodes";
    push_node_metric(metrics, index, c, "active_threads", "active threads", None);
    push_node_metric(metrics, index, c, "processed_count", "processed count", None);
    push_node_metric(metrics, index, c, "busy_ratio", "busy ratio", None);
    push_node_metric(metrics, index, c, "service_time_ms", "service time", Some("ms"));
    push_node_metric(
        metrics,
        index,
        c,
        "per_worker_throughput",
        "per-worker throughput",
        Some("items/s"),
    );
    push_node_metric(metrics, index, c, "desired_workers", "desired workers", None);
    push_node_metric(metrics, index, c, "scaling_state", "scaling state", None);
    push_node_metric(metrics, index, c, "thread_policy_kind", "thread policy", None);
    push_node_metric(metrics, index, c, "fixed_thread_count", "fixed threads", None);
    push_node_metric(metrics, index, c, "max_thread_count", "max threads", None);
    push_node_metric(
        metrics,
        index,
        c,
        "target_queue_seconds",
        "target queue seconds",
        Some("s"),
    );
    push_node_metric(metrics, index, c, "low_queue_seconds", "low queue seconds", Some("s"));
    push_node_metric(metrics, index, c, "backlog_seconds", "backlog seconds", Some("s"));
    assert(metric_texts(metrics@) == metric_texts(old(metrics)@) + common_node_metrics(index));
}

fn push_external_node_metrics(metrics: &mut Vec<ManifestMetric>, index: usize)
    ensures
        metric_texts(final(metrics)@) == metric_texts(old(metrics)@) + external_node_metrics(index),
{
    push_node_metric(
        metrics,
        index,
        "External",
        "external_input_rate",
        "external input rate",
        Some("items/s"),
    );
    push_node_metric(
        metrics,
        index,
        "External",
        "external_output_rate",
        "external output rate",
        Some("items/s"),
    );
    assert(metric_texts(metrics@) == metric_texts(old(metrics)@) + external_node_metrics(index));
}

fn push_anchor_metrics(metrics: &mut Vec<ManifestMetric>, index: usize)
    ensures
        metric_texts(final(metrics)@) == metric_texts(old(metrics)@) + metrics_of_anchor(index),
{
    push_anchor_metric(metrics, index, "active_threads", "active threads");
    push_anchor_metric(metrics, index, "last_pressure_reason", "last pressure reason");
    assert(metric_texts(metrics@) == metric_texts(old(metrics)@) + metrics_of_anchor(index));
}

fn list_metrics<R, D>(snapshot: &PiperSnapshot<R, D>) -> (r: Vec<ManifestMetric>)
    ensures
        metric_texts(r@) == all_metrics(*snapshot),
{
    let mut metrics: Vec<ManifestMetric> = Vec::new();
    push_pipeline_metrics(&mut metrics);
    let ghost base = metric_texts(metrics@);
    assert(base == pipeline_metrics());
    for i in 0..snapshot.links.len()
        invariant
            metric_texts(metrics@) == base + link_metrics(snapshot.links@, i as nat),
    {
        push_link_metrics(&mut metrics, snapshot.links[i].index);
        assert(metric_texts(metrics@) == base + link_metrics(snapshot.links@, (i + 1) as nat));
    }
    let ghost base = metric_texts(metrics@);
    for i in 0..snapshot.nodes.len()
        invariant
            metric_texts(metrics@) == base + node_metrics(snapshot.nodes@, i as nat),
    {
        push_node_metrics(&mut metrics, snapshot.nodes[i].index);
        if snapshot.nodes[i].is_external {
            push_external_node_metrics(&mut metrics, snapshot.nodes[i].index);
        }
        assert(metric_texts(metrics@) == base + node_metrics(snapshot.nodes@, (i + 1) as nat));
    }
    let ghost base = metric_texts(metrics@);
    for i in 0..snapshot.anchors.len()
        invariant
            metric_texts(metrics@) == base + anchor_metrics(i as nat),
    {
        push_anchor_metrics(&mut metrics, i);
        assert(metric_texts(metrics@) == base + anchor_metrics((i + 1) as nat));
    }
    metrics
}

/// Whether the manifest describes the pipeline of the snapshot.
pub open spec fn describes<R, D>(
    manifest: TelemetryLogManifest,
    snapshot: PiperSnapshot<R, D>,
    input_link: usize,
    output_link: usize,
) -> bool {
    &&& manifest.version == 2
    &&& manifest.format@ == "piper-telemetry-log-v2"@
    &&& manifest.nodes@.len() == snapshot.nodes@.len()
    &&& forall|i: int|
        0 <= i < snapshot.nodes@.len() ==> describes_node(
            #[trigger] manifest.nodes@[i],
            snapshot.nodes@[i],
        )
    &&& manifest.links@.len() == snapshot.links@.len()
    &&& forall|i: int|
        0 <= i < snapshot.links@.len() ==> describes_link(
            #[trigger] manifest.links@[i],
            snapshot.links@[i],
            snapshot.nodes@,
            manifest.nodes@,
            input_link,
            output_link,
        )
    &&& manifest.anchors@.len() == snapshot.anchors@.len()
    &&& forall|i: int|
        0 <= i < snapshot.anchors@.len() ==> describes_anchor(
            #[trigger] manifest.anchors@[i],
            i,
            snapshot.anchors@[i],
        )
    &&& metric_texts(manifest.metrics@) == all_metrics(snapshot)
}

/// Describes the pipeline of the snapshot.
pub fn build_telemetry_manifest<R, D>(
    snapshot: &PiperSnapshot<R, D>,
    input_link: usize,
    output_link: usize,
) -> (r: TelemetryLogManifest)
    requires
        can_be_described(*snapshot, input_link, output_link),
    ensures
        describes(r, *snapshot, input_link, output_link),
{
    let nodes: Vec<ManifestNode> = describe_nodes(&snapshot.nodes);
    let links: Vec<ManifestLink> = describe_links(snapshot, &nodes, input_link, output_link);
    TelemetryLogManifest {
        version: 2,
        format: "piper-telemetry-log-v2".to_owned(),
        links,
        nodes,
        anchors: describe_anchors(&snapshot.anchors),
        metrics: list_metrics(snapshot),
    }
}

} // verus!
