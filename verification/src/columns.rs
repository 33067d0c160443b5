//! The columns of a log are told apart by their heads.

use crate::manifest::{
    all_metrics, anchor_metrics, column_of, common_node_metrics, external_node_metrics, link_metrics,
    metrics_of_anchor, metrics_of_link, metrics_of_node, node_metrics, pipeline_metrics, MetricText,
};
use crate::snapshot::{is_numbered, LinkSnapshot, NodeSnapshot, PiperSnapshot};
use crate::telemetry::{addressed, column_leads_back, header_fields};
use crate::text::decimal;
use vstd::prelude::*;

verus! {

/// Whether no two of the columns have the same head.
pub open spec fn are_distinct(metrics: Seq<MetricText>) -> bool {
    forall|a: int, b: int|
        0 <= a < b < metrics.len() ==> (#[trigger] metrics[a]).column != (
        #[trigger] metrics[b]).column
}

/// Whether all columns are on objects whose names begin so, and whose numbers are below `n`.
spec fn are_below(metrics: Seq<MetricText>, prefix: Seq<char>, n: nat) -> bool {
    forall|k: int|
        0 <= k < metrics.len() ==> prefix.is_prefix_of((#[trigger] metrics[k]).column) && (addressed(
            metrics[k].column,
            prefix,
        ) matches Some((i, metric)) && i < n)
}

/// Whether these are columns of one object, each of another metric.
spec fn are_of(metrics: Seq<MetricText>, prefix: Seq<char>, index: usize) -> bool {
    &&& forall|k: int|
        0 <= k < metrics.len() ==> (#[trigger] metrics[k]).column == column_of(
            prefix + decimal(index as nat),
            metrics[k].metric,
        )
    &&& forall|a: int, b: int|
        0 <= a < b < metrics.len() ==> (#[trigger] metrics[a]).metric != (
        #[trigger] metrics[b]).metric
}

proof fn one_more_object(
    before: Seq<MetricText>,
    metrics: Seq<MetricText>,
    prefix: Seq<char>,
    index: usize,
)
    requires
        are_distinct(before),
        are_below(before, prefix, index as nat),
        are_of(metrics, prefix, index),
    ensures
        are_distinct(before + metrics),
        are_below(before + metrics, prefix, index as nat + 1),
{
    let all = before + metrics;
    assert forall|k: int| 0 <= k < metrics.len() implies addressed(
        (#[trigger] metrics[k]).column,
        prefix,
    ) == Some((index as nat, metrics[k].metric)) && prefix.is_prefix_of(metrics[k].column) by {
        column_leads_back(prefix, index, metrics[k].metric);
        assert(metrics[k].column == prefix + (decimal(index as nat) + "_"@ + metrics[k].metric));
    }
    assert forall|k: int| 0 <= k < all.len() implies prefix.is_prefix_of((#[trigger] all[k]).column)
        && (addressed(all[k].column, prefix) matches Some((i, metric)) && i < index as nat + 1) by {
        if k < before.len() {
            assert(all[k] == before[k]);
        } else {
            assert(all[k] == metrics[k - before.len()]);
        }
    }
    assert forall|a: int, b: int| 0 <= a < b < all.len() implies (#[trigger] all[a]).column != (
    #[trigger] all[b]).column by {
        if b < before.len() {
            assert(all[a] == before[a] && all[b] == before[b]);
        } else {
            assert(all[b] == metrics[b - before.len()]);
            if a < before.len() {
                assert(all[a] == before[a]);
            } else {
                assert(all[a] == metrics[a - before.len()]);
            }
        }
    }
}

proof fn link_columns(index: usize)
    ensures
        are_of(metrics_of_link(index), "link"@, index),
        metrics_of_link(index).len() == 6,
{
    reveal_strlit("len");
    reveal_strlit("trend");
    reveal_strlit("arrival_rate");
    reveal_strlit("drain_rate");
    reveal_strlit("net_rate");
    reveal_strlit("smoothed_len");
    assert("arrival_rate"@[0] != "smoothed_len"@[0]);
}

proof fn node_columns<R, D>(node: NodeSnapshot<R, D>)
    ensures
        are_of(metrics_of_node(node), "node"@, node.index),
        metrics_of_node(node).len() == if node.is_external {
            15nat
        } else {
            13nat
        },
{
    reveal_strlit("active_threads");
    reveal_strlit("processed_count");
    reveal_strlit("busy_ratio");
    reveal_strlit("service_time_ms");
    reveal_strlit("per_worker_throughput");
    reveal_strlit("desired_workers");
    reveal_strlit("scaling_state");
    reveal_strlit("thread_policy_kind");
    reveal_strlit("fixed_thread_count");
    reveal_strlit("max_thread_count");
    reveal_strlit("target_queue_seconds");
    reveal_strlit("low_queue_seconds");
    reveal_strlit("backlog_seconds");
    reveal_strlit("external_input_rate");
    reveal_strlit("external_output_rate");
    assert("processed_count"@[0] != "service_time_ms"@[0]);
    assert("processed_count"@[0] != "desired_workers"@[0]);
    assert("processed_count"@[0] != "backlog_seconds"@[0]);
    assert("service_time_ms"@[0] != "desired_workers"@[0]);
    assert("service_time_ms"@[0] != "backlog_seconds"@[0]);
    assert("desired_workers"@[0] != "backlog_seconds"@[0]);
    assert("thread_policy_kind"@[0] != "fixed_thread_count"@[0]);
    assert("target_queue_seconds"@[0] != "external_output_rate"@[0]);
    let common = common_node_metrics(node.index);
    let external = external_node_metrics(node.index);
    assert(are_of(common, "node"@, node.index));
    assert(are_of(external, "node"@, node.index));
    let all = common + external;
    assert forall|k: int| 0 <= k < all.len() implies (#[trigger] all[k]).column == column_of(
        "node"@ + decimal(node.index as nat),
        all[k].metric,
    ) by {
        if k < common.len() {
            assert(all[k] == common[k]);
        } else {
            assert(all[k] == external[k - common.len()]);
        }
    }
    assert forall|a: int, b: int| 0 <= a < b < all.len() implies (#[trigger] all[a]).metric != (
    #[trigger] all[b]).metric by {
        if b < common.len() {
            assert(all[a] == common[a] && all[b] == common[b]);
        } else if a < common.len() {
            assert(all[a] == common[a] && all[b] == external[b - common.len()]);
        } else {
            assert(all[a] == external[a - common.len()] && all[b] == external[b - common.len()]);
        }
    }
}

proof fn anchor_columns(index: usize)
    ensures
        are_of(metrics_of_anchor(index), "anchor"@, index),
        metrics_of_anchor(index).len() == 2,
{
    reveal_strlit("active_threads");
    reveal_strlit("last_pressure_reason");
}

proof fn links_apart<R>(links: Seq<LinkSnapshot<R>>, n: nat)
    requires
        n <= links.len() <= usize::MAX,
        forall|i: int| 0 <= i < links.len() ==> (#[trigger] links[i]).index == i,
    ensures
        are_distinct(link_metrics(links, n)),
        are_below(link_metrics(links, n), "link"@, n),
        link_metrics(links, n).len() == 6 * n,
    decreases n,
{
    if n > 0 {
        links_apart(links, (n - 1) as nat);
        link_columns(links[n - 1].index);
        one_more_object(
            link_metrics(links, (n - 1) as nat),
            metrics_of_link(links[n - 1].index),
            "link"@,
            links[n - 1].index,
        );
    }
}

/// How many of the first `n` nodes are run from outside.
pub open spec fn external_count<R, D>(nodes: Seq<NodeSnapshot<R, D>>, n: nat) -> nat
    decreases n,
{
    if n == 0 {
        0
    } else {
        external_count(nodes, (n - 1) as nat) + if nodes[n - 1].is_external {
            1nat
        } else {
            0nat
        }
    }
}

proof fn nodes_apart<R, D>(nodes: Seq<NodeSnapshot<R, D>>, n: nat)
    requires
        n <= nodes.len() <= usize::MAX,
        forall|i: int| 0 <= i < nodes.len() ==> (#[trigger] nodes[i]).index == i,
    ensures
        are_distinct(node_metrics(nodes, n)),
        are_below(node_metrics(nodes, n), "node"@, n),
        node_metrics(nodes, n).len() == 13 * n + 2 * external_count(nodes, n),
    decreases n,
{
    if n > 0 {
        nodes_apart(nodes, (n - 1) as nat);
        node_columns(nodes[n - 1]);
        one_more_object(
            node_metrics(nodes, (n - 1) as nat),
            metrics_of_node(nodes[n - 1]),
            "node"@,
            nodes[n - 1].index,
        );
    }
}

proof fn anchors_apart(n: nat)
    requires
        n <= usize::MAX,
    ensures
        are_distinct(anchor_metrics(n)),
        are_below(anchor_metrics(n), "anchor"@, n),
        anchor_metrics(n).len() == 2 * n,
    decreases n,
{
    if n > 0 {
        anchors_apart((n - 1) as nat);
        anchor_columns((n - 1) as usize);
        one_more_object(
            anchor_metrics((n - 1) as nat),
            metrics_of_anchor((n - 1) as usize),
            "anchor"@,
            (n - 1) as usize,
        );
    }
}

/// Whether the head is one of those on the whole pipeline, or of the time.
spec fn is_global(column: Seq<char>) -> bool {
    column == "elapsed_ms"@ || exists|k: int|
        0 <= k < pipeline_metrics().len() && (#[trigger] pipeline_metrics()[k]).column == column
}

proof fn global_columns()
    ensures
        are_distinct(pipeline_metrics()),
        pipeline_metrics().len() == 8,
        forall|k: int|
            0 <= k < pipeline_metrics().len() ==> (#[trigger] pipeline_metrics()[k]).column
                != "elapsed_ms"@,
{
    reveal_strlit("elapsed_ms");
    reveal_strlit("shutdown_requested");
    reveal_strlit("abort_requested");
    reveal_strlit("pending_scale_operation");
    reveal_strlit("parked_threads");
    reveal_strlit("total_active_workers");
    reveal_strlit("global_worker_cap");
    reveal_strlit("budget_pressure");
    reveal_strlit("output_backpressure");
    let metrics = pipeline_metrics();
    assert(metrics[0].column.len() == 18);
    assert(metrics[1].column.len() == 15 && metrics[1].column[0] == 'a');
    assert(metrics[2].column.len() == 23);
    assert(metrics[3].column.len() == 14);
    assert(metrics[4].column.len() == 20);
    assert(metrics[5].column.len() == 17);
    assert(metrics[6].column.len() == 15 && metrics[6].column[0] == 'b');
    assert(metrics[7].column.len() == 19);
}

proof fn object_columns_are_not_global(column: Seq<char>)
    requires
        "link"@.is_prefix_of(column) || "node"@.is_prefix_of(column) || "anchor"@.is_prefix_of(
            column,
        ),
    ensures
        !is_global(column),
{
    reveal_strlit("link");
    reveal_strlit("node");
    reveal_strlit("anchor");
    reveal_strlit("elapsed_ms");
    reveal_strlit("shutdown_requested");
    reveal_strlit("abort_requested");
    reveal_strlit("pending_scale_operation");
    reveal_strlit("parked_threads");
    reveal_strlit("total_active_workers");
    reveal_strlit("global_worker_cap");
    reveal_strlit("budget_pressure");
    reveal_strlit("output_backpressure");
    if "link"@.is_prefix_of(column) {
        assert(column[0] == "link"@[0]);
    } else if "node"@.is_prefix_of(column) {
        assert(column[0] == "node"@[0]);
    } else {
        assert(column[0] == "anchor"@[0]);
        assert(column[1] == "anchor"@[1]);
    }
    assert forall|k: int| 0 <= k < pipeline_metrics().len() implies (
    #[trigger] pipeline_metrics()[k]).column != column by {
        let global = pipeline_metrics()[k].column;
        assert(global[0] != column[0] || global[1] != column[1]);
    }
}

/// What kind of object a column is on.
spec fn kind_of(column: Seq<char>) -> int {
    if "link"@.is_prefix_of(column) {
        1
    } else if "node"@.is_prefix_of(column) {
        2
    } else if "anchor"@.is_prefix_of(column) {
        3
    } else {
        0
    }
}

/// Whether all columns are on objects of that kind.
spec fn are_kind(metrics: Seq<MetricText>, low: int, high: int) -> bool {
    forall|k: int| 0 <= k < metrics.len() ==> low <= kind_of((#[trigger] metrics[k]).column) <= high
}

proof fn kinds_apart(before: Seq<MetricText>, metrics: Seq<MetricText>, kind: int)
    requires
        are_distinct(before),
        are_distinct(metrics),
        are_kind(before, 0, kind - 1),
        are_kind(metrics, kind, kind),
        0 <= kind,
    ensures
        are_distinct(before + metrics),
        are_kind(before + metrics, 0, kind),
{
    let all = before + metrics;
    assert forall|k: int| 0 <= k < all.len() implies 0 <= kind_of((#[trigger] all[k]).column) <= kind by {
        if k < before.len() {
            assert(all[k] == before[k]);
        } else {
            assert(all[k] == metrics[k - before.len()]);
        }
    }
    assert forall|a: int, b: int| 0 <= a < b < all.len() implies (#[trigger] all[a]).column != (
    #[trigger] all[b]).column by {
        if b < before.len() {
            assert(all[a] == before[a] && all[b] == before[b]);
        } else {
            assert(all[b] == metrics[b - before.len()]);
            if a < before.len() {
                assert(all[a] == before[a]);
            } else {
                assert(all[a] == metrics[a - before.len()]);
            }
        }
    }
}

proof fn objects_have_their_kind(column: Seq<char>)
    ensures
        "node"@.is_prefix_of(column) ==> kind_of(column) == 2,
        "anchor"@.is_prefix_of(column) ==> kind_of(column) == 3,
{
    reveal_strlit("link");
    reveal_strlit("node");
    reveal_strlit("anchor");
    if "link"@.is_prefix_of(column) {
        assert(column[0] == "link"@[0]);
    }
    if "node"@.is_prefix_of(column) {
        assert(column[0] == "node"@[0]);
    }
    if "anchor"@.is_prefix_of(column) {
        assert(column[0] == "anchor"@[0]);
    }
}

/// No two columns of a log have the same head, and there are as many as the pipeline, its links, its
/// nodes and its anchors have, besides that of the time.
pub proof fn heads_are_distinct<R, D>(snapshot: PiperSnapshot<R, D>)
    requires
        is_numbered(snapshot),
    ensures
        are_distinct(all_metrics(snapshot)),
        header_fields(all_metrics(snapshot)).no_duplicates(),
        all_metrics(snapshot).len() == 8 + 6 * snapshot.links@.len() + 13 * snapshot.nodes@.len() + 2
            * external_count(snapshot.nodes@, snapshot.nodes@.len()) + 2 * snapshot.anchors@.len(),
{
    let links = link_metrics(snapshot.links@, snapshot.links@.len());
    let nodes = node_metrics(snapshot.nodes@, snapshot.nodes@.len());
    let anchors = anchor_metrics(snapshot.anchors@.len());
    let global = pipeline_metrics();
    let all = all_metrics(snapshot);
    global_columns();
    links_apart(snapshot.links@, snapshot.links@.len());
    nodes_apart(snapshot.nodes@, snapshot.nodes@.len());
    anchors_apart(snapshot.anchors@.len());
    assert(are_kind(global, 0, 0)) by {
        assert forall|k: int| 0 <= k < global.len() implies kind_of((#[trigger] global[k]).column) == 0 by {
            assert(is_global(global[k].column));
            if kind_of(global[k].column) != 0 {
                object_columns_are_not_global(global[k].column);
            }
        }
    }
    assert(are_kind(nodes, 2, 2)) by {
        assert forall|k: int| 0 <= k < nodes.len() implies kind_of((#[trigger] nodes[k]).column) == 2 by {
            objects_have_their_kind(nodes[k].column);
        }
    }
    assert(are_kind(anchors, 3, 3)) by {
        assert forall|k: int| 0 <= k < anchors.len() implies kind_of((#[trigger] anchors[k]).column)
            == 3 by {
            objects_have_their_kind(anchors[k].column);
        }
    }
    kinds_apart(global, links, 1);
    kinds_apart(global + links, nodes, 2);
    kinds_apart(global + links + nodes, anchors, 3);
    assert(all == global + links + nodes + anchors);
    let heads = header_fields(all);
    assert forall|k: int| 0 <= k < all.len() implies (#[trigger] all[k]).column != "elapsed_ms"@ by {
        if k < global.len() {
            assert(all[k] == global[k]);
        } else {
            assert(is_global("elapsed_ms"@));
            if k < global.len() + links.len() {
                assert(all[k] == links[k - global.len()]);
            } else if k < global.len() + links.len() + nodes.len() {
                assert(all[k] == nodes[k - global.len() - links.len()]);
            } else {
                assert(all[k] == anchors[k - global.len() - links.len() - nodes.len()]);
            }
            object_columns_are_not_global(all[k].column);
        }
    }
    assert forall|a: int, b: int| 0 <= a < heads.len() && 0 <= b < heads.len() && a != b implies heads[a]
        != heads[b] by {
        if a > 0 {
            assert(heads[a] == all[a - 1].column);
        }
        if b > 0 {
            assert(heads[b] == all[b - 1].column);
        }
    }
}

} // verus!
