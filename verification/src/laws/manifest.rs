//! How a telemetry log describes the pipeline that it is of.

use crate::laws::telemetry::kind_name;
use crate::manifest::{
    anchor_object_id, build_telemetry_manifest, copies, feeding_ids, format_manifest_node_list,
    link_object_id, manifest_can_be_built, manifest_link_kind, manifest_link_label,
    manifest_node_name, metric_texts, node_object_id, occurrences, policy_kind_name,
    push_manifest_metric, taking_ids, ManifestMetric, ManifestNode, MetricText,
    TelemetryLogManifest,
};
use crate::policy::NodeThreadPolicyKind;
use crate::scaling::first_from_is_first;
use crate::snapshot::{LinkSnapshot, NodeSnapshot, PiperSnapshot};
use crate::text::{decimal, joined, texts};
use vstd::prelude::*;

verus! {

/// What the object of that kind and number is called.
pub open spec fn numbered(kind: Seq<char>, index: int) -> Seq<char> {
    kind + decimal(index as nat)
}

/// Links, nodes and anchors are called by their kinds and numbers, and thread policies by their kinds.
pub proof fn objects_are_called_by_number(
    index: usize,
    kind: NodeThreadPolicyKind,
    link: String,
    node: String,
    anchor: String,
    policy: String,
)
    requires
        call_ensures(link_object_id, (index,), link),
        call_ensures(node_object_id, (index,), node),
        call_ensures(anchor_object_id, (index,), anchor),
        call_ensures(policy_kind_name, (kind,), policy),
    ensures
        link@ == numbered("link"@, index as int),
        node@ == numbered("node"@, index as int),
        anchor@ == numbered("anchor"@, index as int),
        policy@ == kind_name(kind),
{
}

/// A link is the input's or the output's; otherwise it forks where one node puts items on it and several
/// take them, joins where several put and one takes, does both where several do both, and is else a
/// plain one.
pub proof fn links_have_their_kind(
    link_index: usize,
    input_link: usize,
    output_link: usize,
    producers: &Vec<String>,
    consumers: &Vec<String>,
    r: &'static str,
)
    requires
        call_ensures(
            manifest_link_kind,
            (link_index, input_link, output_link, producers, consumers),
            r,
        ),
    ensures
        ({
            let inner = link_index != input_link && link_index != output_link;
            let (p, c) = (producers@.len(), consumers@.len());
            &&& link_index == input_link ==> r@ == "input"@
            &&& link_index != input_link && link_index == output_link ==> r@ == "output"@
            &&& inner && p == 1 && c >= 2 ==> r@ == "fork"@
            &&& inner && p >= 2 && c == 1 ==> r@ == "join"@
            &&& inner && p >= 2 && c >= 2 ==> r@ == "fork_join"@
            &&& inner && (p == 0 || c == 0 || (p == 1 && c == 1)) ==> r@ == "internal"@
        }),
{
}

/// Whether labels speak so of what is called that: the pipeline's ends by themselves, a node by its name,
/// and anything else by what it is called.
pub open spec fn spoken_of(text: Seq<char>, id: Seq<char>, nodes: Seq<ManifestNode>) -> bool {
    &&& id == "input"@ || id == "output"@ ==> text == id
    &&& id != "input"@ && id != "output"@ ==> {
        &&& forall|i: int|
            0 <= i < nodes.len() && (#[trigger] nodes[i]).id@ == id && (forall|j: int|
                0 <= j < i ==> (#[trigger] nodes[j]).id@ != id) ==> text == nodes[i].name@
        &&& (forall|i: int| 0 <= i < nodes.len() ==> (#[trigger] nodes[i]).id@ != id) ==> text == id
    }
}

proof fn names_are_spoken(id: Seq<char>, nodes: Seq<ManifestNode>)
    ensures
        spoken_of(crate::manifest::name_of(id, nodes), id, nodes),
{
    let p = crate::manifest::entered_as(nodes, id);
    first_from_is_first(p, 0, nodes.len() as int);
    let text = crate::manifest::name_of(id, nodes);
    assert forall|i: int|
        0 <= i < nodes.len() && (#[trigger] nodes[i]).id@ == id && (forall|j: int|
            0 <= j < i ==> (#[trigger] nodes[j]).id@ != id) && id != "input"@ && id
            != "output"@ implies text == nodes[i].name@ by {
        assert(p(i));
        let f = crate::scaling::first_from(p, 0, nodes.len() as int)->0;
        assert(p(f));
        if f < i {
            assert(nodes[f].id@ != id);
        }
    }
    if forall|i: int| 0 <= i < nodes.len() ==> (#[trigger] nodes[i]).id@ != id {
        if let Some(f) = crate::scaling::first_from(p, 0, nodes.len() as int) {
            assert(p(f));
            assert(nodes[f].id@ != id);
        }
    }
}

/// A label speaks of one by its name.
pub proof fn labels_speak_by_name(stage_id: &str, stages: &Vec<ManifestNode>, r: String)
    requires
        call_ensures(manifest_node_name, (stage_id, stages), r),
    ensures
        spoken_of(r@, stage_id@, stages@),
{
    names_are_spoken(stage_id@, stages@);
}

/// A label lists several in braces with commas between, in order, and one by itself.
pub proof fn labels_list_in_braces(
    ids: &Vec<String>,
    stages: &Vec<ManifestNode>,
    names: Seq<Seq<char>>,
    r: String,
)
    requires
        call_ensures(format_manifest_node_list, (ids, stages), r),
        names.len() == ids@.len(),
        forall|i: int|
            0 <= i < ids@.len() ==> #[trigger] names[i] == crate::manifest::name_of(
                ids@[i]@,
                stages@,
            ),
    ensures
        ids@.len() == 1 ==> r@ == names[0],
        ids@.len() != 1 ==> r@ == "{"@ + joined(names, ", "@) + "}"@,
{
    assert(texts(ids@).len() == ids@.len());
    assert(crate::manifest::names_of(texts(ids@), stages@) =~= names);
}

/// The label of a link leads from what puts items on it, to what takes them: the input and the output by
/// themselves, several as a list, and one by its name.
pub proof fn labels_lead_from_producers_to_consumers(
    kind: &str,
    producers: &Vec<String>,
    consumers: &Vec<String>,
    stages: &Vec<ManifestNode>,
    from: String,
    to: String,
    r: String,
)
    requires
        call_ensures(manifest_link_label, (kind, producers, consumers, stages), r),
        call_ensures(format_manifest_node_list, (producers, stages), from),
        call_ensures(format_manifest_node_list, (consumers, stages), to),
    ensures
        kind@ == "input"@ ==> r@ == "input -> "@ + to@,
        kind@ == "output"@ ==> r@ == from@ + " -> output"@,
        kind@ == "fork"@ && producers@.len() == 1 ==> r@ == from@ + " -> "@ + to@,
        kind@ == "join"@ && consumers@.len() == 1 ==> r@ == from@ + " -> "@ + to@,
        kind@ == "fork_join"@ ==> r@ == from@ + " -> "@ + to@,
        kind@ == "internal"@ && producers@.len() == 1 && consumers@.len() == 1 ==> r@ == from@
            + " -> "@ + to@,
{
    reveal_strlit("input");
    reveal_strlit("output");
    reveal_strlit("fork");
    reveal_strlit("join");
    reveal_strlit("fork_join");
    reveal_strlit("internal");
    assert("input"@.len() == 5 && "output"@.len() == 6 && "fork"@.len() == 4 && "join"@.len() == 4
        && "fork_join"@.len() == 9 && "internal"@.len() == 8);
    assert("fork"@[0] != "join"@[0]);
    assert(texts(producers@).len() == producers@.len());
    assert(texts(consumers@).len() == consumers@.len());
}

/// The nodes that take from the link, in order.
pub open spec fn takers<R, D>(nodes: Seq<NodeSnapshot<R, D>>, link: usize) -> Seq<Seq<char>> {
    nodes.filter(|node: NodeSnapshot<R, D>| node.input_link == link).map_values(
        |node: NodeSnapshot<R, D>| numbered("node"@, node.index as int),
    )
}

/// How often the link is among these.
pub open spec fn times_listed(links: Seq<usize>, link: usize) -> nat {
    links.filter(|l: usize| l == link).len()
}

/// What the node is called, as often as it puts items on the link.
pub open spec fn feeder<R, D>(node: NodeSnapshot<R, D>, link: usize) -> Seq<Seq<char>> {
    Seq::new(
        times_listed(node.output_links@, link),
        |i: int| numbered("node"@, node.index as int),
    )
}

/// The nodes that put items on the link, in order, each as often as it does.
pub open spec fn feeders<R, D>(nodes: Seq<NodeSnapshot<R, D>>, link: usize) -> Seq<Seq<char>> {
    nodes.map_values(|node: NodeSnapshot<R, D>| feeder(node, link)).flatten()
}

proof fn occurrences_are_filtered(links: Seq<usize>, n: nat, link: usize)
    requires
        n <= links.len(),
    ensures
        occurrences(links, n, link) == times_listed(links.take(n as int), link),
    decreases n,
{
    reveal(Seq::filter);
    if n > 0 {
        occurrences_are_filtered(links, (n - 1) as nat, link);
        assert(links.take(n as int).drop_last() == links.take(n - 1));
    }
}

proof fn taking_are_takers<R, D>(nodes: Seq<NodeSnapshot<R, D>>, n: nat, link: usize)
    requires
        n <= nodes.len(),
    ensures
        taking_ids(nodes, n, link) == takers(nodes.take(n as int), link),
    decreases n,
{
    reveal(Seq::filter);
    let p = |node: NodeSnapshot<R, D>| node.input_link == link;
    let f = |node: NodeSnapshot<R, D>| numbered("node"@, node.index as int);
    if n > 0 {
        taking_are_takers(nodes, (n - 1) as nat, link);
        assert(nodes.take(n as int).drop_last() == nodes.take(n - 1));
        assert(nodes.take(n as int).last() == nodes[n - 1]);
        let kept = nodes.take(n - 1).filter(p);
        if p(nodes[n - 1]) {
            assert(nodes.take(n as int).filter(p) == kept.push(nodes[n - 1]));
            assert(kept.push(nodes[n - 1]).map_values(f) =~= kept.map_values(f).push(
                f(nodes[n - 1]),
            ));
        }
        assert(taking_ids(nodes, n, link) =~= takers(nodes.take(n as int), link));
    } else {
        assert(taking_ids(nodes, n, link) =~= takers(nodes.take(n as int), link));
    }
}

proof fn feeding_are_feeders<R, D>(nodes: Seq<NodeSnapshot<R, D>>, n: nat, link: usize)
    requires
        n <= nodes.len(),
    ensures
        feeding_ids(nodes, n, link) == feeders(nodes.take(n as int), link),
    decreases n,
{
    let g = |node: NodeSnapshot<R, D>| feeder(node, link);
    if n > 0 {
        feeding_are_feeders(nodes, (n - 1) as nat, link);
        let node = nodes[n - 1];
        let before = nodes.take(n - 1);
        assert(nodes.take(n as int).map_values(g) =~= before.map_values(g).push(g(node)));
        before.map_values(g).lemma_flatten_push(g(node));
        occurrences_are_filtered(node.output_links@, node.output_links@.len(), link);
        assert(node.output_links@.take(node.output_links@.len() as int) == node.output_links@);
        assert(g(node) =~= copies(
            numbered("node"@, node.index as int),
            occurrences(node.output_links@, node.output_links@.len(), link),
        ));
    } else {
        assert(nodes.take(0).map_values(g).len() == 0);
        assert(feeding_ids(nodes, 0, link) =~= feeders(nodes.take(0), link));
    }
}

proof fn lists_are_those<R, D>(nodes: Seq<NodeSnapshot<R, D>>, link: usize)
    ensures
        taking_ids(nodes, nodes.len(), link) == takers(nodes, link),
        feeding_ids(nodes, nodes.len(), link) == feeders(nodes, link),
{
    taking_are_takers(nodes, nodes.len(), link);
    feeding_are_feeders(nodes, nodes.len(), link);
    assert(nodes.take(nodes.len() as int) == nodes);
}

/// The description has an entry for every node, every link and every anchor, in order, with what each is
/// called and what is known of it.
pub proof fn every_object_is_described<R, D>(
    snapshot: &PiperSnapshot<R, D>,
    input_link: usize,
    output_link: usize,
    i: int,
    r: TelemetryLogManifest,
)
    requires
        call_ensures(build_telemetry_manifest::<R, D>, (snapshot, input_link, output_link), r),
    ensures
        r.version == 2,
        r.format@ == "piper-telemetry-log-v2"@,
        r.nodes@.len() == snapshot.nodes@.len(),
        r.links@.len() == snapshot.links@.len(),
        r.anchors@.len() == snapshot.anchors@.len(),
        0 <= i < snapshot.nodes@.len() ==> {
            let entry = r.nodes@[i];
            let node = snapshot.nodes@[i];
            &&& entry.id@ == numbered("node"@, node.index as int)
            &&& entry.index == node.index
            &&& entry.name@ == node.name@
            &&& entry.input_link@ == numbered("link"@, node.input_link as int)
            &&& entry.output_link@ == numbered("link"@, node.output_link as int)
            &&& entry.output_links@.len() == node.output_links@.len()
            &&& forall|k: int|
                0 <= k < node.output_links@.len() ==> (#[trigger] entry.output_links@[k])@
                    == numbered("link"@, node.output_links@[k] as int)
            &&& entry.is_anchor == node.is_anchor
            &&& entry.thread_policy_kind@ == kind_name(node.thread_policy_kind)
            &&& entry.is_external == node.is_external
        },
        0 <= i < snapshot.anchors@.len() ==> {
            let entry = r.anchors@[i];
            &&& entry.id@ == numbered("anchor"@, i)
            &&& entry.index == i
            &&& entry.name@ == snapshot.anchors@[i].node_name@
        },
        0 <= i < snapshot.links@.len() ==> {
            let entry = r.links@[i];
            let link = snapshot.links@[i].index;
            let from = texts(entry.producers@);
            let to = texts(entry.consumers@);
            &&& entry.id@ == numbered("link"@, link as int)
            &&& entry.index == link
            &&& link == input_link ==> from == seq!["input"@]
            &&& link != input_link ==> from == feeders(snapshot.nodes@, link)
            &&& link == output_link ==> to == seq!["output"@]
            &&& link != output_link && (from.len() <= 1 || takers(snapshot.nodes@, link).len() != 1)
                ==> to == takers(snapshot.nodes@, link)
            &&& to == takers(snapshot.nodes@, link) || to == seq!["output"@]
        },
{
    if 0 <= i < snapshot.nodes@.len() {
        let entry = r.nodes@[i];
        let node = snapshot.nodes@[i];
        assert(crate::manifest::describes_node(entry, node));
        assert(texts(entry.output_links@).len() == entry.output_links@.len());
        assert forall|k: int| 0 <= k < node.output_links@.len() implies (
        #[trigger] entry.output_links@[k])@ == numbered("link"@, node.output_links@[k] as int) by {
            assert(texts(entry.output_links@)[k] == entry.output_links@[k]@);
        }
    }
    if 0 <= i < snapshot.anchors@.len() {
        assert(crate::manifest::describes_anchor(r.anchors@[i], i, snapshot.anchors@[i]));
    }
    if 0 <= i < snapshot.links@.len() {
        assert(crate::manifest::describes_link(
            r.links@[i],
            snapshot.links@[i],
            snapshot.nodes@,
            r.nodes@,
            input_link,
            output_link,
        ));
        lists_are_those(snapshot.nodes@, snapshot.links@[i].index);
    }
}

/// A link between several nodes and one that feeds the output is described as one to the output; where
/// that one does not feed it, as one to that node.
pub proof fn joins_before_the_output_lead_to_it<R, D>(
    snapshot: &PiperSnapshot<R, D>,
    input_link: usize,
    output_link: usize,
    i: int,
    taker: int,
    r: TelemetryLogManifest,
)
    requires
        call_ensures(build_telemetry_manifest::<R, D>, (snapshot, input_link, output_link), r),
        0 <= i < snapshot.links@.len(),
        snapshot.links@[i].index != input_link,
        snapshot.links@[i].index != output_link,
        feeders(snapshot.nodes@, snapshot.links@[i].index).len() >= 2,
        0 <= taker < snapshot.nodes@.len(),
        takers(snapshot.nodes@, snapshot.links@[i].index) == seq![
            numbered("node"@, snapshot.nodes@[taker].index as int),
        ],
        forall|j: int|
            0 <= j < snapshot.nodes@.len() && j != taker ==> (#[trigger] snapshot.nodes@[j]).index
                != snapshot.nodes@[taker].index,
    ensures
        ({
            let to = texts(r.links@[i].consumers@);
            let fed = snapshot.nodes@[taker].output_links@.contains(output_link);
            &&& fed ==> to == seq!["output"@]
            &&& !fed ==> to == seq![numbered("node"@, snapshot.nodes@[taker].index as int)]
        }),
{
    let nodes = snapshot.nodes@;
    let link = snapshot.links@[i].index;
    let id = numbered("node"@, nodes[taker].index as int);
    assert(crate::manifest::describes_link(
        r.links@[i],
        snapshot.links@[i],
        nodes,
        r.nodes@,
        input_link,
        output_link,
    ));
    lists_are_those(nodes, link);
    let p = crate::manifest::called(nodes, id);
    first_from_is_first(p, 0, nodes.len() as int);
    assert(p(taker));
    let f = crate::scaling::first_from(p, 0, nodes.len() as int)->0;
    assert(p(f));
    let (a, b) = (nodes[f].index as nat, nodes[taker].index as nat);
    assert(("node"@ + decimal(a)).skip("node"@.len() as int) == decimal(a));
    assert(("node"@ + decimal(b)).skip("node"@.len() as int) == decimal(b));
    crate::text::decimal_injective(a, b);
    assert(f == taker);
    assert(takers(nodes, link)[0] == id);
}

/// The kind and the label of a link's entry are those of its producers and consumers.
pub proof fn entries_are_labelled<R, D>(
    snapshot: &PiperSnapshot<R, D>,
    input_link: usize,
    output_link: usize,
    i: int,
    r: TelemetryLogManifest,
    kind: &'static str,
    label: String,
)
    requires
        call_ensures(build_telemetry_manifest::<R, D>, (snapshot, input_link, output_link), r),
        0 <= i < snapshot.links@.len(),
        call_ensures(
            manifest_link_kind,
            (
                snapshot.links@[i].index,
                input_link,
                output_link,
                &r.links@[i].producers,
                &r.links@[i].consumers,
            ),
            kind,
        ),
        call_ensures(
            manifest_link_label,
            (kind, &r.links@[i].producers, &r.links@[i].consumers, &r.nodes),
            label,
        ),
    ensures
        r.links@[i].kind@ == kind@,
        r.links@[i].label@ == label@,
{
    assert(crate::manifest::describes_link(
        r.links@[i],
        snapshot.links@[i],
        snapshot.nodes@,
        r.nodes@,
        input_link,
        output_link,
    ));
    assert(texts(r.links@[i].producers@).len() == r.links@[i].producers@.len());
    assert(texts(r.links@[i].consumers@).len() == r.links@[i].consumers@.len());
}

/// A column of the whole pipeline.
pub open spec fn whole(metric: Seq<char>, label: Seq<char>) -> MetricText {
    MetricText {
        column: metric,
        object_id: "pipeline"@,
        object_kind: "pipeline"@,
        category: "Pipeline"@,
        metric,
        label,
        unit: None,
    }
}

/// A column of one object.
pub open spec fn part(
    kind: Seq<char>,
    index: int,
    category: Seq<char>,
    metric: Seq<char>,
    label: Seq<char>,
    unit: Option<Seq<char>>,
) -> MetricText {
    MetricText {
        column: numbered(kind, index) + "_"@ + metric,
        object_id: numbered(kind, index),
        object_kind: kind,
        category,
        metric,
        label,
        unit,
    }
}

/// The columns of a link.
pub open spec fn columns_of_link(l: int) -> Seq<MetricText> {
    seq![
        part("link"@, l, "Links"@, "len"@, "queue length"@, None),
        part("link"@, l, "Links"@, "trend"@, "queue trend"@, None),
        part("link"@, l, "Links"@, "arrival_rate"@, "arrival rate"@, Some("items/s"@)),
        part("link"@, l, "Links"@, "drain_rate"@, "drain rate"@, Some("items/s"@)),
        part("link"@, l, "Links"@, "net_rate"@, "net rate"@, Some("items/s"@)),
        part("link"@, l, "Links"@, "smoothed_len"@, "smoothed length"@, None),
    ]
}

/// The columns of a node. One that is run from outside has two more.
pub open spec fn columns_of_node(n: int, is_external: bool) -> Seq<MetricText> {
    let each = seq![
        part("node"@, n, "Nodes"@, "active_threads"@, "active threads"@, None),
        part("node"@, n, "Nodes"@, "processed_count"@, "processed count"@, None),
        part("node"@, n, "Nodes"@, "busy_ratio"@, "busy ratio"@, None),
        part("node"@, n, "Nodes"@, "service_time_ms"@, "service time"@, Some("ms"@)),
        part(
            "node"@,
            n,
            "Nodes"@,
            "per_worker_throughput"@,
            "per-worker throughput"@,
            Some("items/s"@),
        ),
        part("node"@, n, "Nodes"@, "desired_workers"@, "desired workers"@, None),
        part("node"@, n, "Nodes"@, "scaling_state"@, "scaling state"@, None),
        part("node"@, n, "Nodes"@, "thread_policy_kind"@, "thread policy"@, None),
        part("node"@, n, "Nodes"@, "fixed_thread_count"@, "fixed threads"@, None),
        part("node"@, n, "Nodes"@, "max_thread_count"@, "max threads"@, None),
        part("node"@, n, "Nodes"@, "target_queue_seconds"@, "target queue seconds"@, Some("s"@)),
        part("node"@, n, "Nodes"@, "low_queue_seconds"@, "low queue seconds"@, Some("s"@)),
        part("node"@, n, "Nodes"@, "backlog_seconds"@, "backlog seconds"@, Some("s"@)),
    ];
    let outside = seq![
        part(
            "node"@,
            n,
            "External"@,
            "external_input_rate"@,
            "external input rate"@,
            Some("items/s"@),
        ),
        part(
            "node"@,
            n,
            "External"@,
            "external_output_rate"@,
            "external output rate"@,
            Some("items/s"@),
        ),
    ];
    if is_external {
        each + outside
    } else {
        each
    }
}

/// The columns of an anchor.
pub open spec fn columns_of_anchor(a: int) -> Seq<MetricText> {
    seq![
        part("anchor"@, a, "Anchors"@, "active_threads"@, "active threads"@, None),
        part("anchor"@, a, "Anchors"@, "last_pressure_reason"@, "last pressure reason"@, None),
    ]
}

/// The columns of the whole pipeline.
pub open spec fn columns_of_pipeline() -> Seq<MetricText> {
    seq![
        whole("shutdown_requested"@, "shutdown requested"@),
        whole("abort_requested"@, "abort requested"@),
        whole("pending_scale_operation"@, "pending scale operation"@),
        whole("parked_threads"@, "parked threads"@),
        whole("total_active_workers"@, "active workers"@),
        whole("global_worker_cap"@, "global worker cap"@),
        whole("budget_pressure"@, "budget pressure"@),
        whole("output_backpressure"@, "output backpressure"@),
    ]
}

proof fn link_columns_add<R>(links: Seq<LinkSnapshot<R>>, n: nat)
    requires
        n <= links.len(),
    ensures
        crate::manifest::link_metrics(links, n) == links.take(n as int).map_values(
            |link: LinkSnapshot<R>| columns_of_link(link.index as int),
        ).flatten(),
    decreases n,
{
    let f = |link: LinkSnapshot<R>| columns_of_link(link.index as int);
    if n > 0 {
        link_columns_add(links, (n - 1) as nat);
        let before = links.take(n - 1).map_values(f);
        assert(links.take(n as int).map_values(f) =~= before.push(f(links[n - 1])));
        before.lemma_flatten_push(f(links[n - 1]));
        assert(crate::manifest::metrics_of_link(links[n - 1].index) =~= f(links[n - 1]));
    } else {
        assert(links.take(0).map_values(f).len() == 0);
        assert(crate::manifest::link_metrics(links, 0) =~= links.take(0).map_values(f).flatten());
    }
}

proof fn node_columns_add<R, D>(nodes: Seq<NodeSnapshot<R, D>>, n: nat)
    requires
        n <= nodes.len(),
    ensures
        crate::manifest::node_metrics(nodes, n) == nodes.take(n as int).map_values(
            |node: NodeSnapshot<R, D>| columns_of_node(node.index as int, node.is_external),
        ).flatten(),
    decreases n,
{
    let f = |node: NodeSnapshot<R, D>| columns_of_node(node.index as int, node.is_external);
    if n > 0 {
        node_columns_add(nodes, (n - 1) as nat);
        let before = nodes.take(n - 1).map_values(f);
        let node = nodes[n - 1];
        assert(nodes.take(n as int).map_values(f) =~= before.push(f(node)));
        before.lemma_flatten_push(f(node));
        assert(crate::manifest::metrics_of_node(node) =~= f(node));
    } else {
        assert(nodes.take(0).map_values(f).len() == 0);
        assert(crate::manifest::node_metrics(nodes, 0) =~= nodes.take(0).map_values(f).flatten());
    }
}

proof fn anchor_columns_add(n: nat)
    requires
        n <= usize::MAX,
    ensures
        crate::manifest::anchor_metrics(n) == Seq::new(n, |i: int| columns_of_anchor(i)).flatten(),
    decreases n,
{
    if n > 0 {
        anchor_columns_add((n - 1) as nat);
        let before = Seq::new((n - 1) as nat, |i: int| columns_of_anchor(i));
        assert(Seq::new(n, |i: int| columns_of_anchor(i)) =~= before.push(columns_of_anchor(n - 1)));
        before.lemma_flatten_push(columns_of_anchor(n - 1));
        assert(crate::manifest::metrics_of_anchor((n - 1) as usize) =~= columns_of_anchor(n - 1));
    } else {
        assert(Seq::new(0, |i: int| columns_of_anchor(i)).len() == 0);
        assert(crate::manifest::anchor_metrics(0) =~= Seq::new(
            0,
            |i: int| columns_of_anchor(i),
        ).flatten());
    }
}

/// The columns of a log are those of the whole pipeline, and then those of each link, each node and each
/// anchor, in order.
pub proof fn every_column_is_listed<R, D>(
    snapshot: &PiperSnapshot<R, D>,
    input_link: usize,
    output_link: usize,
    r: TelemetryLogManifest,
)
    requires
        call_ensures(build_telemetry_manifest::<R, D>, (snapshot, input_link, output_link), r),
    ensures
        r.metrics@.map_values(|m: ManifestMetric| m@) == columns_of_pipeline()
            + snapshot.links@.map_values(
            |link: LinkSnapshot<R>| columns_of_link(link.index as int),
        ).flatten() + snapshot.nodes@.map_values(
            |node: NodeSnapshot<R, D>| columns_of_node(node.index as int, node.is_external),
        ).flatten() + Seq::new(
            snapshot.anchors@.len(),
            |i: int| columns_of_anchor(i),
        ).flatten(),
{
    assert(snapshot.anchors@.len() == snapshot.anchors.len());
    link_columns_add(snapshot.links@, snapshot.links@.len());
    node_columns_add(snapshot.nodes@, snapshot.nodes@.len());
    anchor_columns_add(snapshot.anchors@.len());
    assert(snapshot.links@.take(snapshot.links@.len() as int) == snapshot.links@);
    assert(snapshot.nodes@.take(snapshot.nodes@.len() as int) == snapshot.nodes@);
    assert(crate::manifest::pipeline_metrics() =~= columns_of_pipeline());
    assert(r.metrics@.map_values(|m: ManifestMetric| m@) =~= metric_texts(r.metrics@));
}

/// A pipeline can be described where it speaks of its own links only and each link inside it has
/// something at both ends.
pub proof fn connected_pipelines_can_be_described<R, D>(
    snapshot: &PiperSnapshot<R, D>,
    input_link: usize,
    output_link: usize,
    r: bool,
)
    requires
        call_ensures(manifest_can_be_built::<R, D>, (snapshot, input_link, output_link), r),
        forall|i: int|
            0 <= i < snapshot.links@.len() ==> {
                let link = #[trigger] snapshot.links@[i];
                &&& link.index < snapshot.links@.len()
                &&& link.index == input_link || link.index == output_link || (feeders(
                    snapshot.nodes@,
                    link.index,
                ).len() >= 1 && takers(snapshot.nodes@, link.index).len() >= 1)
            },
        forall|i: int|
            0 <= i < snapshot.nodes@.len() ==> (#[trigger] snapshot.nodes@[i]).input_link
                < snapshot.links@.len(),
        forall|i: int, k: int|
            0 <= i < snapshot.nodes@.len() && 0 <= k < snapshot.nodes@[i].output_links@.len()
                ==> #[trigger] snapshot.nodes@[i].output_links@[k] < snapshot.links@.len(),
    ensures
        r <==> input_link < snapshot.links@.len(),
{
    let nodes = snapshot.nodes@;
    if input_link < snapshot.links@.len() {
        assert forall|i: int| 0 <= i < nodes.len() implies (#[trigger] nodes[i]).input_link
            < snapshot.links@.len() && crate::manifest::all_within(
            nodes[i].output_links@,
            snapshot.links@.len(),
        ) by {}
        assert forall|i: int| 0 <= i < snapshot.links@.len() implies crate::manifest::is_connected(
            #[trigger] snapshot.links@[i],
            nodes,
            input_link,
            output_link,
        ) by {
            lists_are_those(nodes, snapshot.links@[i].index);
        }
    }
}

/// A column is added behind the others, with what it was given.
pub proof fn columns_are_added(
    metrics: &mut Vec<ManifestMetric>,
    column: String,
    object_id: String,
    object_kind: &str,
    category: &str,
    metric: &str,
    label: &str,
    unit: Option<&str>,
)
    requires
        call_ensures(
            push_manifest_metric,
            (metrics, column, object_id, object_kind, category, metric, label, unit),
            (),
        ),
    ensures
        final(metrics)@.len() == old(metrics)@.len() + 1,
        ({
            let added = final(metrics)@[old(metrics)@.len() as int]@;
            &&& added.column == column@
            &&& added.object_id == object_id@
            &&& added.object_kind == object_kind@
            &&& added.category == category@
            &&& added.metric == metric@
            &&& added.label == label@
            &&& unit is Some <==> added.unit is Some
            &&& unit is Some ==> added.unit->0 == unit->0@
        }),
        forall|i: int|
            0 <= i < old(metrics)@.len() ==> (#[trigger] final(metrics)@[i])@ == old(metrics)@[i]@,
{
    let before = metric_texts(old(metrics)@);
    let after = metric_texts(final(metrics)@);
    assert(after.len() == before.len() + 1);
    assert(after[before.len() as int] == final(metrics)@[before.len() as int]@);
    assert forall|i: int| 0 <= i < old(metrics)@.len() implies (#[trigger] final(metrics)@[i])@
        == old(metrics)@[i]@ by {
        assert(after[i] == before[i]);
    }
}

} // verus!
