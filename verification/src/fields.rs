//! The fields of a log's lines can be read back.

use crate::manifest::{
    all_metrics, anchor_metrics, column_of, describes, link_metrics, metric_texts, metrics_of_anchor,
    metrics_of_link, metrics_of_node, node_metrics, pipeline_metrics, MetricText, TelemetryLogManifest,
};
use crate::scaling::{first_from, first_from_is_first};
use crate::snapshot::{LinkSnapshot, NodeSnapshot, PiperSnapshot};
use crate::telemetry::{
    addressed, column_value, header_fields, link_value, node_value, numbered_links, numbered_nodes,
    pipeline_value, row_fields,
};
use crate::text::{decimal, decimal_reads_back, is_digit, joined};
use vstd::prelude::*;

verus! {

/// Whether the character is not in the text.
pub open spec fn lacks(text: Seq<char>, c: char) -> bool {
    forall|i: int| 0 <= i < text.len() ==> #[trigger] text[i] != c
}

/// Whether the character separates the fields of a line, or the lines.
pub open spec fn separates(c: char) -> bool {
    c == ',' || c == '\n'
}

/// The pieces of a text between those places where the character is.
pub open spec fn pieces(text: Seq<char>, c: char) -> Seq<Seq<char>>
    decreases text.len(),
{
    if text.len() == 0 {
        seq![text]
    } else {
        let before = pieces(text.drop_last(), c);
        if text.last() == c {
            before.push(Seq::empty())
        } else {
            before.drop_last().push(before.last().push(text.last()))
        }
    }
}

proof fn one_piece(text: Seq<char>, c: char)
    requires
        lacks(text, c),
    ensures
        pieces(text, c) == seq![text],
    decreases text.len(),
{
    if text.len() > 0 {
        one_piece(text.drop_last(), c);
        assert(text.last() != c);
        assert(text.drop_last().push(text.last()) == text);
        assert(pieces(text, c) == seq![text]);
    }
}

proof fn one_more_piece(before: Seq<char>, last: Seq<char>, c: char)
    requires
        lacks(last, c),
    ensures
        pieces(before + seq![c] + last, c) == pieces(before, c).push(last),
    decreases last.len(),
{
    let whole = before + seq![c] + last;
    if last.len() == 0 {
        assert(whole.drop_last() == before);
        assert(last == Seq::<char>::empty());
    } else {
        one_more_piece(before, last.drop_last(), c);
        assert(whole.drop_last() == before + seq![c] + last.drop_last());
        assert(whole.last() == last.last());
        assert(last.drop_last().push(last.last()) == last);
        let shorter = pieces(before, c).push(last.drop_last());
        assert(shorter.drop_last() == pieces(before, c));
    }
}

proof fn joined_parts(parts: Seq<Seq<char>>, c: char)
    requires
        parts.len() > 0,
        forall|k: int| 0 <= k < parts.len() ==> lacks(#[trigger] parts[k], c),
    ensures
        pieces(joined(parts, seq![c]), c) == parts,
    decreases parts.len(),
{
    if parts.len() == 1 {
        one_piece(parts[0], c);
        assert(seq![parts[0]] == parts);
    } else {
        let before = parts.drop_last();
        assert forall|k: int| 0 <= k < before.len() implies lacks(#[trigger] before[k], c) by {
            assert(lacks(parts[k], c));
        }
        joined_parts(before, c);
        assert(lacks(parts.last(), c));
        one_more_piece(joined(before, seq![c]), parts.last(), c);
        assert(before.push(parts.last()) == parts);
    }
}

/// Fields that hold no comma are read back from their line by splitting it at commas.
pub proof fn fields_read_back(fields: Seq<Seq<char>>)
    requires
        fields.len() > 0,
        forall|k: int| 0 <= k < fields.len() ==> lacks(#[trigger] fields[k], ','),
    ensures
        pieces(joined(fields, ","@), ',') == fields,
{
    reveal_strlit(",");
    assert(","@ == seq![',']);
    joined_parts(fields, ',');
}

proof fn heads_lack(c: char)
    requires
        separates(c),
    ensures
        lacks("elapsed_ms"@, c),
        lacks("shutdown_requested"@, c),
        lacks("abort_requested"@, c),
        lacks("pending_scale_operation"@, c),
        lacks("parked_threads"@, c),
        lacks("total_active_workers"@, c),
        lacks("global_worker_cap"@, c),
        lacks("budget_pressure"@, c),
        lacks("output_backpressure"@, c),
        lacks("link"@, c),
        lacks("node"@, c),
        lacks("anchor"@, c),
        lacks("_"@, c),
        lacks("len"@, c),
        lacks("trend"@, c),
        lacks("arrival_rate"@, c),
        lacks("drain_rate"@, c),
        lacks("net_rate"@, c),
        lacks("smoothed_len"@, c),
        lacks("active_threads"@, c),
        lacks("processed_count"@, c),
        lacks("busy_ratio"@, c),
        lacks("service_time_ms"@, c),
        lacks("per_worker_throughput"@, c),
        lacks("desired_workers"@, c),
        lacks("scaling_state"@, c),
        lacks("thread_policy_kind"@, c),
        lacks("fixed_thread_count"@, c),
        lacks("max_thread_count"@, c),
        lacks("target_queue_seconds"@, c),
        lacks("low_queue_seconds"@, c),
        lacks("backlog_seconds"@, c),
        lacks("external_input_rate"@, c),
        lacks("external_output_rate"@, c),
        lacks("last_pressure_reason"@, c),
{
    reveal_strlit("elapsed_ms");
    reveal_strlit("shutdown_requested");
    reveal_strlit("abort_requested");
    reveal_strlit("pending_scale_operation");
    reveal_strlit("parked_threads");
    reveal_strlit("total_active_workers");
    reveal_strlit("global_worker_cap");
    reveal_strlit("budget_pressure");
    reveal_strlit("output_backpressure");
    reveal_strlit("link");
    reveal_strlit("node");
    reveal_strlit("anchor");
    reveal_strlit("_");
    reveal_strlit("len");
    reveal_strlit("trend");
    reveal_strlit("arrival_rate");
    reveal_strlit("drain_rate");
    reveal_strlit("net_rate");
    reveal_strlit("smoothed_len");
    reveal_strlit("active_threads");
    reveal_strlit("processed_count");
    reveal_strlit("busy_ratio");
    reveal_strlit("service_time_ms");
    reveal_strlit("per_worker_throughput");
    reveal_strlit("desired_workers");
    reveal_strlit("scaling_state");
    reveal_strlit("thread_policy_kind");
    reveal_strlit("fixed_thread_count");
    reveal_strlit("max_thread_count");
    reveal_strlit("target_queue_seconds");
    reveal_strlit("low_queue_seconds");
    reveal_strlit("backlog_seconds");
    reveal_strlit("external_input_rate");
    reveal_strlit("external_output_rate");
    reveal_strlit("last_pressure_reason");
}

proof fn names_lack(c: char)
    requires
        separates(c),
    ensures
        lacks("true"@, c),
        lacks("false"@, c),
        lacks("Eligible"@, c),
        lacks("Merging"@, c),
        lacks("Settling"@, c),
        lacks("BackingOff"@, c),
        lacks("InputUnderfed"@, c),
        lacks("OutputBackpressure"@, c),
        lacks("BudgetPressure"@, c),
        lacks("Fixed"@, c),
        lacks("Scalable"@, c),
        lacks("ImplicitSupport"@, c),
        lacks(""@, c),
{
    reveal_strlit("true");
    reveal_strlit("false");
    reveal_strlit("Eligible");
    reveal_strlit("Merging");
    reveal_strlit("Settling");
    reveal_strlit("BackingOff");
    reveal_strlit("InputUnderfed");
    reveal_strlit("OutputBackpressure");
    reveal_strlit("BudgetPressure");
    reveal_strlit("Fixed");
    reveal_strlit("Scalable");
    reveal_strlit("ImplicitSupport");
    reveal_strlit("");
}

proof fn numbers_lack(n: nat, c: char)
    requires
        separates(c),
    ensures
        lacks(decimal(n), c),
{
    decimal_reads_back(n);
    assert forall|i: int| 0 <= i < decimal(n).len() implies #[trigger] decimal(n)[i] != c by {
        assert(is_digit(decimal(n)[i]));
    }
}

/// Whether the character is in none of the heads of the columns.
spec fn columns_lack(metrics: Seq<MetricText>, c: char) -> bool {
    forall|k: int| 0 <= k < metrics.len() ==> lacks((#[trigger] metrics[k]).column, c)
}

proof fn columns_add(a: Seq<MetricText>, b: Seq<MetricText>, c: char)
    requires
        columns_lack(a, c),
        columns_lack(b, c),
    ensures
        columns_lack(a + b, c),
{
    let all = a + b;
    assert forall|k: int| 0 <= k < all.len() implies lacks((#[trigger] all[k]).column, c) by {
        if k < a.len() {
            assert(all[k] == a[k]);
        } else {
            assert(all[k] == b[k - a.len()]);
        }
    }
}

/// Whether these are the columns of an object whose name begins so, with metrics that lack the character.
spec fn are_of_object(metrics: Seq<MetricText>, prefix: Seq<char>, index: usize, c: char) -> bool {
    forall|k: int|
        0 <= k < metrics.len() ==> {
            &&& (#[trigger] metrics[k]).column == column_of(
                prefix + decimal(index as nat),
                metrics[k].metric,
            )
            &&& lacks(metrics[k].metric, c)
        }
}

proof fn object_columns_lack(metrics: Seq<MetricText>, prefix: Seq<char>, index: usize, c: char)
    requires
        separates(c),
        lacks(prefix, c),
        are_of_object(metrics, prefix, index, c),
    ensures
        columns_lack(metrics, c),
{
    heads_lack(c);
    numbers_lack(index as nat, c);
    let digits = decimal(index as nat);
    assert forall|k: int| 0 <= k < metrics.len() implies lacks((#[trigger] metrics[k]).column, c) by {
        let metric = metrics[k].metric;
        let column = prefix + digits + "_"@ + metric;
        assert(metrics[k].column == column);
        assert forall|i: int| 0 <= i < column.len() implies #[trigger] column[i] != c by {
            let (p, d, u) = (prefix.len() as int, digits.len() as int, "_"@.len() as int);
            if i < p {
                assert(column[i] == prefix[i]);
            } else if i < p + d {
                assert(column[i] == digits[i - p]);
            } else if i < p + d + u {
                assert(column[i] == "_"@[i - p - d]);
            } else {
                assert(column[i] == metric[i - p - d - u]);
            }
        }
    }
}

proof fn links_lack<R>(links: Seq<LinkSnapshot<R>>, n: nat, c: char)
    requires
        separates(c),
        n <= links.len(),
    ensures
        columns_lack(link_metrics(links, n), c),
    decreases n,
{
    if n > 0 {
        let index = links[n - 1].index;
        links_lack(links, (n - 1) as nat, c);
        heads_lack(c);
        object_columns_lack(metrics_of_link(index), "link"@, index, c);
        columns_add(link_metrics(links, (n - 1) as nat), metrics_of_link(index), c);
    }
}

proof fn nodes_lack<R, D>(nodes: Seq<NodeSnapshot<R, D>>, n: nat, c: char)
    requires
        separates(c),
        n <= nodes.len(),
    ensures
        columns_lack(node_metrics(nodes, n), c),
    decreases n,
{
    if n > 0 {
        let node = nodes[n - 1];
        nodes_lack(nodes, (n - 1) as nat, c);
        heads_lack(c);
        let metrics = metrics_of_node(node);
        assert(are_of_object(metrics, "node"@, node.index, c));
        object_columns_lack(metrics, "node"@, node.index, c);
        columns_add(node_metrics(nodes, (n - 1) as nat), metrics, c);
    }
}

proof fn anchors_lack(n: nat, c: char)
    requires
        separates(c),
        n <= usize::MAX,
    ensures
        columns_lack(anchor_metrics(n), c),
    decreases n,
{
    if n > 0 {
        let index = (n - 1) as usize;
        anchors_lack((n - 1) as nat, c);
        heads_lack(c);
        object_columns_lack(metrics_of_anchor(index), "anchor"@, index, c);
        columns_add(anchor_metrics((n - 1) as nat), metrics_of_anchor(index), c);
    }
}

/// No head of a log's columns holds a comma or a line break.
pub proof fn heads_hold_no_separator<R, D>(
    manifest: TelemetryLogManifest,
    snapshot: PiperSnapshot<R, D>,
    input_link: usize,
    output_link: usize,
    c: char,
)
    requires
        describes(manifest, snapshot, input_link, output_link),
        separates(c),
    ensures
        forall|k: int|
            0 <= k < manifest.metrics@.len() ==> lacks((#[trigger] manifest.metrics@[k]).column@, c),
        forall|k: int|
            0 <= k < header_fields(metric_texts(manifest.metrics@)).len() ==> lacks(
                #[trigger] header_fields(metric_texts(manifest.metrics@))[k],
                c,
            ),
{
    let metrics = metric_texts(manifest.metrics@);
    assert(metrics == all_metrics(snapshot));
    assert(snapshot.anchors@.len() == snapshot.anchors.len());
    heads_lack(c);
    let global = pipeline_metrics();
    let links = link_metrics(snapshot.links@, snapshot.links@.len());
    let nodes = node_metrics(snapshot.nodes@, snapshot.nodes@.len());
    let anchors = anchor_metrics(snapshot.anchors@.len());
    assert(columns_lack(global, c));
    links_lack(snapshot.links@, snapshot.links@.len(), c);
    nodes_lack(snapshot.nodes@, snapshot.nodes@.len(), c);
    anchors_lack(snapshot.anchors@.len(), c);
    columns_add(global, links, c);
    columns_add(global + links, nodes, c);
    columns_add(global + links + nodes, anchors, c);
    assert(columns_lack(metrics, c));
    assert forall|k: int| 0 <= k < manifest.metrics@.len() implies lacks(
        (#[trigger] manifest.metrics@[k]).column@,
        c,
    ) by {
        assert(metrics[k].column == manifest.metrics@[k].column@);
    }
    let heads = header_fields(metrics);
    assert forall|k: int| 0 <= k < heads.len() implies lacks(#[trigger] heads[k], c) by {
        if k > 0 {
            assert(heads[k] == metrics[k - 1].column);
        }
    }
}

/// Whether the character is in no text of a link.
pub open spec fn link_lacks(link: LinkSnapshot<String>, c: char) -> bool {
    &&& lacks(link.arrival_rate@, c)
    &&& lacks(link.drain_rate@, c)
    &&& lacks(link.net_rate@, c)
    &&& lacks(link.smoothed_len@, c)
}

/// Whether the character is in no text that stands for a quantity or a time span of a node.
pub open spec fn node_lacks(node: NodeSnapshot<String, String>, c: char) -> bool {
    &&& lacks(node.busy_ratio@, c)
    &&& lacks(node.service_time@, c)
    &&& lacks(node.per_worker_throughput@, c)
    &&& node.target_queue_seconds matches Some(text) ==> lacks(text@, c)
    &&& node.low_queue_seconds matches Some(text) ==> lacks(text@, c)
    &&& lacks(node.backlog_seconds@, c)
    &&& lacks(node.external_input_rate@, c)
    &&& lacks(node.external_output_rate@, c)
}

/// Whether the character is in no text of the snapshot that stands for a quantity or a time span.
pub open spec fn quantities_lack(snapshot: PiperSnapshot<String, String>, c: char) -> bool {
    &&& forall|i: int|
        0 <= i < snapshot.links@.len() ==> link_lacks(#[trigger] snapshot.links@[i], c)
    &&& forall|i: int|
        0 <= i < snapshot.nodes@.len() ==> node_lacks(#[trigger] snapshot.nodes@[i], c)
}

proof fn values_lack(snapshot: PiperSnapshot<String, String>, column: Seq<char>, c: char)
    requires
        separates(c),
        quantities_lack(snapshot, c),
    ensures
        lacks(column_value(snapshot, column), c),
{
    names_lack(c);
    numbers_lack(snapshot.parked_threads as nat, c);
    numbers_lack(snapshot.total_active_workers as nat, c);
    numbers_lack(snapshot.global_worker_cap as nat, c);
    if pipeline_value(snapshot, column) is None {
        if let Some((n, metric)) = addressed(column, "link"@) {
            let marks = numbered_links(snapshot.links@, n);
            first_from_is_first(marks, 0, snapshot.links@.len() as int);
            if let Some(i) = first_from(marks, 0, snapshot.links@.len() as int) {
                let link = snapshot.links@[i];
                numbers_lack(link.len as nat, c);
                numbers_lack(link.trend.number() as nat, c);
                assert(lacks(link_value(link, metric), c));
            }
        }
        if let Some((n, metric)) = addressed(column, "node"@) {
            let marks = numbered_nodes(snapshot.nodes@, n);
            first_from_is_first(marks, 0, snapshot.nodes@.len() as int);
            if let Some(i) = first_from(marks, 0, snapshot.nodes@.len() as int) {
                let node = snapshot.nodes@[i];
                numbers_lack(node.active_threads as nat, c);
                numbers_lack(node.processed_count as nat, c);
                numbers_lack(node.desired_workers as nat, c);
                if let Some(count) = node.fixed_thread_count {
                    numbers_lack(count as nat, c);
                }
                if let Some(count) = node.max_thread_count {
                    numbers_lack(count as nat, c);
                }
                assert(lacks(node_value(node, metric), c));
            }
        }
        if let Some((n, metric)) = addressed(column, "anchor"@) {
            if n < snapshot.anchors@.len() {
                numbers_lack(snapshot.anchors@[n as int].active_threads as nat, c);
            }
        }
    }
}

/// No field of a row holds a comma or a line break, whatever the columns are, where the time and the
/// texts that stand for quantities hold none.
pub proof fn rows_hold_no_separator(
    elapsed: Seq<char>,
    snapshot: PiperSnapshot<String, String>,
    metrics: Seq<MetricText>,
    c: char,
)
    requires
        separates(c),
        lacks(elapsed, c),
        quantities_lack(snapshot, c),
    ensures
        forall|k: int|
            0 <= k < row_fields(elapsed, snapshot, metrics).len() ==> lacks(
                #[trigger] row_fields(elapsed, snapshot, metrics)[k],
                c,
            ),
{
    let fields = row_fields(elapsed, snapshot, metrics);
    assert forall|k: int| 0 <= k < fields.len() implies lacks(#[trigger] fields[k], c) by {
        if k > 0 {
            values_lack(snapshot, metrics[k - 1].column, c);
            assert(fields[k] == column_value(snapshot, metrics[k - 1].column));
        }
    }
}

/// A row of a log, split at its commas, gives its fields back, one below each head that the header gives
/// back in the same way.
pub proof fn rows_read_back<R, D>(
    manifest: TelemetryLogManifest,
    described: PiperSnapshot<R, D>,
    input_link: usize,
    output_link: usize,
    elapsed: Seq<char>,
    snapshot: PiperSnapshot<String, String>,
)
    requires
        describes(manifest, described, input_link, output_link),
        lacks(elapsed, ','),
        quantities_lack(snapshot, ','),
    ensures
        ({
            let metrics = metric_texts(manifest.metrics@);
            let heads = pieces(joined(header_fields(metrics), ","@), ',');
            let fields = pieces(joined(row_fields(elapsed, snapshot, metrics), ","@), ',');
            &&& heads == header_fields(metrics)
            &&& fields == row_fields(elapsed, snapshot, metrics)
            &&& fields.len() == heads.len()
        }),
{
    let metrics = metric_texts(manifest.metrics@);
    heads_hold_no_separator(manifest, described, input_link, output_link, ',');
    rows_hold_no_separator(elapsed, snapshot, metrics, ',');
    fields_read_back(header_fields(metrics));
    fields_read_back(row_fields(elapsed, snapshot, metrics));
}

} // verus!
