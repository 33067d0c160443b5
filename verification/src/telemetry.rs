//! The lines of a telemetry log.
//!
//! The log shows measured quantities and time spans as texts, so a snapshot that goes into it holds
//! texts in their place.

use crate::error::{quote_name, quoted, PiperError};
use crate::manifest::{
    anchor_id, column_of, link_id, metric_texts, node_id, policy_kind_name, policy_kind_text,
    MetricText, TelemetryLogManifest,
};
use crate::scaling::{first_from, first_from_is_first};
use crate::snapshot::{
    is_numbered, AnchorPressureReason, AnchorSnapshot, LinkSnapshot, NodeScalingState, NodeSnapshot,
    PiperSnapshot,
};
use crate::text::{
    char_position, concat, decimal, decimal_reads_back, decimal_text, is_digit, join, joined,
    number_value, parse_index, position, same, strip_prefix, texts,
};
use vstd::prelude::*;

verus! {

/// The first line of a log.
pub fn version_line() -> (r: String)
    ensures
        r@ == "# piper-telemetry-log-v2"@,
{
    "# piper-telemetry-log-v2".to_owned()
}

/// The line of a log that holds the description of the pipeline, written as `manifest`.
pub fn manifest_line(manifest: &str) -> (r: String)
    ensures
        r@ == "# manifest "@ + manifest@,
{
    concat("# manifest ", manifest)
}

/// The heads of the columns.
pub open spec fn header_fields(metrics: Seq<MetricText>) -> Seq<Seq<char>> {
    seq!["elapsed_ms"@] + metrics.map_values(|m: MetricText| m.column)
}

/// The line of a log that holds the heads of the columns.
pub fn telemetry_log_header(manifest: &TelemetryLogManifest) -> (r: String)
    ensures
        r@ == joined(header_fields(metric_texts(manifest.metrics@)), ","@),
{
    let mut fields: Vec<String> = Vec::new();
    fields.push("elapsed_ms".to_owned());
    for i in 0..manifest.metrics.len()
        invariant
            fields@.len() == i + 1,
            fields@[0]@ == "elapsed_ms"@,
            forall|k: int|
                0 <= k < i ==> (#[trigger] fields@[k + 1])@ == manifest.metrics@[k].column@,
    {
        fields.push(manifest.metrics[i].column.clone());
    }
    let ghost heads = header_fields(metric_texts(manifest.metrics@));
    assert forall|k: int| 0 <= k < heads.len() implies #[trigger] texts(fields@)[k] == heads[k] by {
        if k > 0 {
            assert(fields@[(k - 1) + 1]@ == manifest.metrics@[k - 1].column@);
        }
    }
    assert(texts(fields@) == heads);
    join(&fields, ",")
}

/// A truth value as a text.
pub open spec fn bool_text(b: bool) -> Seq<char> {
    if b {
        "true"@
    } else {
        "false"@
    }
}

fn bool_name(b: bool) -> (r: String)
    ensures
        r@ == bool_text(b),
{
    if b {
        "true".to_owned()
    } else {
        "false".to_owned()
    }
}

fn count_text(n: usize) -> (r: String)
    ensures
        r@ == decimal(n as nat),
{
    decimal_text(n as u64)
}

/// The name of a scaling state.
pub open spec fn scaling_state_text(state: NodeScalingState) -> Seq<char> {
    match state {
        NodeScalingState::Eligible => "Eligible"@,
        NodeScalingState::Merging => "Merging"@,
        NodeScalingState::Settling => "Settling"@,
        NodeScalingState::BackingOff => "BackingOff"@,
    }
}

fn scaling_state_name(state: NodeScalingState) -> (r: String)
    ensures
        r@ == scaling_state_text(state),
{
    match state {
        NodeScalingState::Eligible => "Eligible".to_owned(),
        NodeScalingState::Merging => "Merging".to_owned(),
        NodeScalingState::Settling => "Settling".to_owned(),
        NodeScalingState::BackingOff => "BackingOff".to_owned(),
    }
}

/// The name of a reason for pressure, or nothing.
pub open spec fn pressure_text(reason: Option<AnchorPressureReason>) -> Seq<char> {
    match reason {
        Some(AnchorPressureReason::InputUnderfed) => "InputUnderfed"@,
        Some(AnchorPressureReason::OutputBackpressure) => "OutputBackpressure"@,
        Some(AnchorPressureReason::BudgetPressure) => "BudgetPressure"@,
        None => ""@,
    }
}

fn pressure_name(reason: Option<AnchorPressureReason>) -> (r: String)
    ensures
        r@ == pressure_text(reason),
{
    match reason {
        Some(AnchorPressureReason::InputUnderfed) => "InputUnderfed".to_owned(),
        Some(AnchorPressureReason::OutputBackpressure) => "OutputBackpressure".to_owned(),
        Some(AnchorPressureReason::BudgetPressure) => "BudgetPressure".to_owned(),
        None => "".to_owned(),
    }
}

/// A count as a text, or nothing.
pub open spec fn some_count_text(count: Option<usize>) -> Seq<char> {
    match count {
        Some(n) => decimal(n as nat),
        None => ""@,
    }
}

fn some_count(count: Option<usize>) -> (r: String)
    ensures
        r@ == some_count_text(count),
{
    match count {
        Some(n) => count_text(n),
        None => "".to_owned(),
    }
}

/// A text, or nothing.
pub open spec fn some_text(text: Option<String>) -> Seq<char> {
    match text {
        Some(text) => text@,
        None => ""@,
    }
}

fn some_copy(text: &Option<String>) -> (r: String)
    ensures
        r@ == some_text(*text),
{
    match text {
        Some(text) => text.clone(),
        None => "".to_owned(),
    }
}

/// What the log shows of a link under that metric; nothing where it is unknown.
pub open spec fn link_value(link: LinkSnapshot<String>, metric: Seq<char>) -> Seq<char> {
    if metric == "len"@ {
        decimal(link.len as nat)
    } else if metric == "trend"@ {
        decimal(link.trend.number() as nat)
    } else if metric == "arrival_rate"@ {
        link.arrival_rate@
    } else if metric == "drain_rate"@ {
        link.drain_rate@
    } else if metric == "net_rate"@ {
        link.net_rate@
    } else if metric == "smoothed_len"@ {
        link.smoothed_len@
    } else {
        ""@
    }
}

fn link_metric_value(link: &LinkSnapshot<String>, metric: &str) -> (r: String)
    ensures
        r@ == link_value(*link, metric@),
{
    if same(metric, "len") {
        count_text(link.len)
    } else if same(metric, "trend") {
        decimal_text(link.trend.code() as u64)
    } else if same(metric, "arrival_rate") {
        link.arrival_rate.clone()
    } else if same(metric, "drain_rate") {
        link.drain_rate.clone()
    } else if same(metric, "net_rate") {
        link.net_rate.clone()
    } else if same(metric, "smoothed_len") {
        link.smoothed_len.clone()
    } else {
        "".to_owned()
    }
}

/// What the log shows of a node under that metric; nothing where it is unknown.
pub open spec fn node_value(node: NodeSnapshot<String, String>, metric: Seq<char>) -> Seq<char> {
    if metric == "active_threads"@ {
        decimal(node.active_threads as nat)
    } else if metric == "processed_count"@ {
        decimal(node.processed_count as nat)
    } else if metric == "busy_ratio"@ {
        node.busy_ratio@
    } else if metric == "service_time_ms"@ {
        node.service_time@
    } else if metric == "per_worker_throughput"@ {
        node.per_worker_throughput@
    } else if metric == "desired_workers"@ {
        decimal(node.desired_workers as nat)
    } else if metric == "scaling_state"@ {
        scaling_state_text(node.scaling_state)
    } else if metric == "thread_policy_kind"@ {
        policy_kind_text(node.thread_policy_kind)
    } else if metric == "fixed_thread_count"@ {
        some_count_text(node.fixed_thread_count)
    } else if metric == "max_thread_count"@ {
        some_count_text(node.max_thread_count)
    } else if metric == "target_queue_seconds"@ {
        some_text(node.target_queue_seconds)
    } else if metric == "low_queue_seconds"@ {
        some_text(node.low_queue_seconds)
    } else if metric == "backlog_seconds"@ {
        node.backlog_seconds@
    } else if metric == "external_input_rate"@ {
        node.external_input_rate@
    } else if metric == "external_output_rate"@ {
        node.external_output_rate@
    } else {
        ""@
    }
}

fn node_metric_value(node: &NodeSnapshot<String, String>, metric: &str) -> (r: String)
    ensures
        r@ == node_value(*node, metric@),
{
    if same(metric, "active_threads") {
        count_text(node.active_threads)
    } else if same(metric, "processed_count") {
        decimal_text(node.processed_count)
    } else if same(metric, "busy_ratio") {
        node.busy_ratio.clone()
    } else if same(metric, "service_time_ms") {
        node.service_time.clone()
    } else if same(metric, "per_worker_throughput") {
        node.per_worker_throughput.clone()
    } else if same(metric, "desired_workers") {
        count_text(node.desired_workers)
    } else if same(metric, "scaling_state") {
        scaling_state_name(node.scaling_state)
    } else if same(metric, "thread_policy_kind") {
        policy_kind_name(node.thread_policy_kind)
    } else if same(metric, "fixed_thread_count") {
        some_count(node.fixed_thread_count)
    } else if same(metric, "max_thread_count") {
        some_count(node.max_thread_count)
    } else if same(metric, "target_queue_seconds") {
        some_copy(&node.target_queue_seconds)
    } else if same(metric, "low_queue_seconds") {
        some_copy(&node.low_queue_seconds)
    } else if same(metric, "backlog_seconds") {
        node.backlog_seconds.clone()
    } else if same(metric, "external_input_rate") {
        node.external_input_rate.clone()
    } else if same(metric, "external_output_rate") {
        node.external_output_rate.clone()
    } else {
        "".to_owned()
    }
}

/// What the log shows of an anchor under that metric; nothing where it is unknown.
pub open spec fn anchor_value(anchor: AnchorSnapshot, metric: Seq<char>) -> Seq<char> {
    if metric == "active_threads"@ {
        decimal(anchor.active_threads as nat)
    } else if metric == "last_pressure_reason"@ {
        pressure_text(anchor.last_pressure_reason)
    } else {
        ""@
    }
}

fn anchor_metric_value(anchor: &AnchorSnapshot, metric: &str) -> (r: String)
    ensures
        r@ == anchor_value(*anchor, metric@),
{
    if same(metric, "active_threads") {
        count_text(anchor.active_threads)
    } else if same(metric, "last_pressure_reason") {
        pressure_name(anchor.last_pressure_reason)
    } else {
        "".to_owned()
    }
}

/// What the log shows of the whole pipeline under that metric, if it is one.
pub open spec fn pipeline_value(
    snapshot: PiperSnapshot<String, String>,
    metric: Seq<char>,
) -> Option<Seq<char>> {
    if metric == "shutdown_requested"@ {
        Some(bool_text(snapshot.shutdown_requested))
    } else if metric == "abort_requested"@ {
        Some(bool_text(snapshot.abort_requested))
    } else if metric == "pending_scale_operation"@ {
        Some(bool_text(snapshot.pending_scale_operation))
    } else if metric == "parked_threads"@ {
        Some(decimal(snapshot.parked_threads as nat))
    } else if metric == "total_active_workers"@ {
        Some(decimal(snapshot.total_active_workers as nat))
    } else if metric == "global_worker_cap"@ {
        Some(decimal(snapshot.global_worker_cap as nat))
    } else if metric == "budget_pressure"@ {
        Some(bool_text(snapshot.budget_pressure))
    } else if metric == "output_backpressure"@ {
        Some(bool_text(snapshot.output_backpressure))
    } else {
        None
    }
}

fn pipeline_metric_value(snapshot: &PiperSnapshot<String, String>, metric: &str) -> (r: Option<
    String,
>)
    ensures
        match pipeline_value(*snapshot, metric@) {
            Some(text) => r matches Some(s) && s@ == text,
            None => r is None,
        },
{
    if same(metric, "shutdown_requested") {
        Some(bool_name(snapshot.shutdown_requested))
    } else if same(metric, "abort_requested") {
        Some(bool_name(snapshot.abort_requested))
    } else if same(metric, "pending_scale_operation") {
        Some(bool_name(snapshot.pending_scale_operation))
    } else if same(metric, "parked_threads") {
        Some(count_text(snapshot.parked_threads))
    } else if same(metric, "total_active_workers") {
        Some(count_text(snapshot.total_active_workers))
    } else if same(metric, "global_worker_cap") {
        Some(count_text(snapshot.global_worker_cap))
    } else if same(metric, "budget_pressure") {
        Some(bool_name(snapshot.budget_pressure))
    } else if same(metric, "output_backpressure") {
        Some(bool_name(snapshot.output_backpressure))
    } else {
        None
    }
}

/// The number and the metric of a column whose object has a name that begins so: the number stands
/// behind the prefix, and the metric behind the first underscore after it.
pub open spec fn addressed(column: Seq<char>, prefix: Seq<char>) -> Option<(nat, Seq<char>)> {
    if !prefix.is_prefix_of(column) {
        None
    } else {
        let rest = column.skip(prefix.len() as int);
        match char_position(rest, '_') {
            None => None,
            Some(i) => match number_value(rest.take(i)) {
                Some(n) => if n <= usize::MAX {
                    Some((n, rest.skip(i + 1)))
                } else {
                    None
                },
                None => None,
            },
        }
    }
}

fn read_address(column: &str, prefix: &str) -> (r: Option<(usize, String)>)
    ensures
        match addressed(column@, prefix@) {
            Some((n, metric)) => r matches Some(found) && found.0 == n && found.1@ == metric,
            None => r is None,
        },
{
    let rest: &str = match strip_prefix(column, prefix) {
        Some(rest) => {
            assert(prefix@.is_prefix_of(column@));
            assert(column@.skip(prefix@.len() as int) == rest@);
            rest
        },
        None => {
            return None;
        },
    };
    let at: usize = match position(rest, '_') {
        Some(at) => at,
        None => {
            return None;
        },
    };
    let length: usize = rest.unicode_len();
    let number: &str = rest.substring_char(0, at);
    assert(number@ == rest@.take(at as int));
    match parse_index(number) {
        Some(n) => {
            let metric: &str = rest.substring_char(at + 1, length);
            assert(metric@ == rest@.skip(at + 1));
            Some((n, metric.to_owned()))
        },
        None => None,
    }
}

/// The links with that number.
pub open spec fn numbered_links(links: Seq<LinkSnapshot<String>>, n: nat) -> spec_fn(int) -> bool {
    |i: int| links[i].index == n
}

/// The nodes with that number.
pub open spec fn numbered_nodes(nodes: Seq<NodeSnapshot<String, String>>, n: nat) -> spec_fn(
    int,
) -> bool {
    |i: int| nodes[i].index == n
}

/// What the log shows in the column of a link, if it is one.
pub open spec fn link_column_value(
    snapshot: PiperSnapshot<String, String>,
    column: Seq<char>,
) -> Option<Seq<char>> {
    match addressed(column, "link"@) {
        Some((n, metric)) => match first_from(
            numbered_links(snapshot.links@, n),
            0,
            snapshot.links@.len() as int,
        ) {
            Some(i) => Some(link_value(snapshot.links@[i], metric)),
            None => None,
        },
        None => None,
    }
}

/// What the log shows in the column of a node, if it is one.
pub open spec fn node_column_value(
    snapshot: PiperSnapshot<String, String>,
    column: Seq<char>,
) -> Option<Seq<char>> {
    match addressed(column, "node"@) {
        Some((n, metric)) => match first_from(
            numbered_nodes(snapshot.nodes@, n),
            0,
            snapshot.nodes@.len() as int,
        ) {
            Some(i) => Some(node_value(snapshot.nodes@[i], metric)),
            None => None,
        },
        None => None,
    }
}

/// What the log shows in the column of an anchor, if it is one.
pub open spec fn anchor_column_value(
    snapshot: PiperSnapshot<String, String>,
    column: Seq<char>,
) -> Option<Seq<char>> {
    match addressed(column, "anchor"@) {
        Some((n, metric)) => if n < snapshot.anchors@.len() {
            Some(anchor_value(snapshot.anchors@[n as int], metric))
        } else {
            None
        },
        None => None,
    }
}

/// What the log shows in a column: what the whole pipeline, a link, a node or an anchor has there, and
/// nothing where the column is unknown.
pub open spec fn column_value(snapshot: PiperSnapshot<String, String>, column: Seq<char>) -> Seq<char> {
    if let Some(text) = pipeline_value(snapshot, column) {
        text
    } else if let Some(text) = link_column_value(snapshot, column) {
        text
    } else if let Some(text) = node_column_value(snapshot, column) {
        text
    } else if let Some(text) = anchor_column_value(snapshot, column) {
        text
    } else {
        ""@
    }
}

fn find_link_value(snapshot: &PiperSnapshot<String, String>, column: &str) -> (r: Option<String>)
    ensures
        match link_column_value(*snapshot, column@) {
            Some(text) => r matches Some(s) && s@ == text,
            None => r is None,
        },
{
    let (n, metric): (usize, String) = match read_address(column, "link") {
        Some(found) => found,
        None => {
            return None;
        },
    };
    let ghost marks = numbered_links(snapshot.links@, n as nat);
    for i in 0..snapshot.links.len()
        invariant
            marks == numbered_links(snapshot.links@, n as nat),
            addressed(column@, "link"@) == Some((n as nat, metric@)),
            first_from(marks, 0, snapshot.links@.len() as int) == first_from(
                marks,
                i as int,
                snapshot.links@.len() as int,
            ),
    {
        assert(marks(i as int) == (snapshot.links@[i as int].index == n));
        if snapshot.links[i].index == n {
            return Some(link_metric_value(&snapshot.links[i], metric.as_str()));
        }
    }
    None
}

fn find_node_value(snapshot: &PiperSnapshot<String, String>, column: &str) -> (r: Option<String>)
    ensures
        match node_column_value(*snapshot, column@) {
            Some(text) => r matches Some(s) && s@ == text,
            None => r is None,
        },
{
    let (n, metric): (usize, String) = match read_address(column, "node") {
        Some(found) => found,
        None => {
            return None;
        },
    };
    let ghost marks = numbered_nodes(snapshot.nodes@, n as nat);
    for i in 0..snapshot.nodes.len()
        invariant
            marks == numbered_nodes(snapshot.nodes@, n as nat),
            addressed(column@, "node"@) == Some((n as nat, metric@)),
            first_from(marks, 0, snapshot.nodes@.len() as int) == first_from(
                marks,
                i as int,
                snapshot.nodes@.len() as int,
            ),
    {
        assert(marks(i as int) == (snapshot.nodes@[i as int].index == n));
        if snapshot.nodes[i].index == n {
            return Some(node_metric_value(&snapshot.nodes[i], metric.as_str()));
        }
    }
    None
}

fn find_anchor_value(snapshot: &PiperSnapshot<String, String>, column: &str) -> (r: Option<String>)
    ensures
        match anchor_column_value(*snapshot, column@) {
            Some(text) => r matches Some(s) && s@ == text,
            None => r is None,
        },
{
    let (n, metric): (usize, String) = match read_address(column, "anchor") {
        Some(found) => found,
        None => {
            return None;
        },
    };
    if n < snapshot.anchors.len() {
        Some(anchor_metric_value(&snapshot.anchors[n], metric.as_str()))
    } else {
        None
    }
}

/// What the log shows in a column.
pub fn telemetry_log_metric_value(column: &str, snapshot: &PiperSnapshot<String, String>) -> (r: String)
    ensures
        r@ == column_value(*snapshot, column@),
{
    if let Some(text) = pipeline_metric_value(snapshot, column) {
        return text;
    }
    if let Some(text) = find_link_value(snapshot, column) {
        return text;
    }
    if let Some(text) = find_node_value(snapshot, column) {
        return text;
    }
    if let Some(text) = find_anchor_value(snapshot, column) {
        return text;
    }
    "".to_owned()
}

/// The fields of a row.
pub open spec fn row_fields(
    elapsed: Seq<char>,
    snapshot: PiperSnapshot<String, String>,
    metrics: Seq<MetricText>,
) -> Seq<Seq<char>> {
    seq![elapsed] + metrics.map_values(|m: MetricText| column_value(snapshot, m.column))
}

/// A row of a log. `elapsed` is how long the log has run, in milliseconds.
pub fn telemetry_log_row(
    elapsed: String,
    snapshot: &PiperSnapshot<String, String>,
    manifest: &TelemetryLogManifest,
) -> (r: String)
    ensures
        r@ == joined(row_fields(elapsed@, *snapshot, metric_texts(manifest.metrics@)), ","@),
{
    let mut fields: Vec<String> = Vec::new();
    let ghost first = elapsed@;
    fields.push(elapsed);
    for i in 0..manifest.metrics.len()
        invariant
            fields@.len() == i + 1,
            fields@[0]@ == first,
            forall|k: int|
                0 <= k < i ==> (#[trigger] fields@[k + 1])@ == column_value(
                    *snapshot,
                    manifest.metrics@[k].column@,
                ),
    {
        fields.push(telemetry_log_metric_value(manifest.metrics[i].column.as_str(), snapshot));
    }
    let ghost row = row_fields(first, *snapshot, metric_texts(manifest.metrics@));
    assert forall|k: int| 0 <= k < row.len() implies #[trigger] texts(fields@)[k] == row[k] by {
        if k > 0 {
            assert(fields@[(k - 1) + 1]@ == column_value(
                *snapshot,
                manifest.metrics@[k - 1].column@,
            ));
        }
    }
    assert(texts(fields@) == row);
    join(&fields, ",")
}

/// Every row has as many fields as there are heads, and below each head, but for the first, stands
/// what the log shows in that column.
pub proof fn rows_fit_header(
    elapsed: Seq<char>,
    snapshot: PiperSnapshot<String, String>,
    metrics: Seq<MetricText>,
)
    ensures
        row_fields(elapsed, snapshot, metrics).len() == header_fields(metrics).len(),
        forall|k: int|
            1 <= k < header_fields(metrics).len() ==> #[trigger] row_fields(
                elapsed,
                snapshot,
                metrics,
            )[k] == column_value(snapshot, header_fields(metrics)[k]),
{
}

proof fn underscore_after_digits(digits: Seq<char>, metric: Seq<char>)
    requires
        forall|i: int| 0 <= i < digits.len() ==> is_digit(#[trigger] digits[i]),
    ensures
        char_position(digits + seq!['_'] + metric, '_') == Some(digits.len() as int),
    decreases digits.len(),
{
    let whole = digits + seq!['_'] + metric;
    if digits.len() > 0 {
        assert(is_digit(digits[0]));
        assert(whole[0] == digits[0]);
        assert forall|i: int| 0 <= i < digits.skip(1).len() implies is_digit(
            #[trigger] digits.skip(1)[i],
        ) by {
            assert(is_digit(digits[i + 1]));
        }
        underscore_after_digits(digits.skip(1), metric);
        assert(whole.skip(1) == digits.skip(1) + seq!['_'] + metric);
    } else {
        assert(whole[0] == '_');
    }
}

/// A column that was named after an object and a metric leads back to both.
pub proof fn column_leads_back(prefix: Seq<char>, index: usize, metric: Seq<char>)
    ensures
        addressed(column_of(prefix + decimal(index as nat), metric), prefix) == Some(
            (index as nat, metric),
        ),
{
    reveal_strlit("_");
    assert("_"@ == seq!['_']);
    let digits = decimal(index as nat);
    decimal_reads_back(index as nat);
    let column = column_of(prefix + digits, metric);
    let rest = digits + seq!['_'] + metric;
    assert(column == prefix + rest);
    assert(prefix.is_prefix_of(column));
    assert(column.skip(prefix.len() as int) == rest);
    underscore_after_digits(digits, metric);
    assert(rest.take(digits.len() as int) == digits);
    assert(rest.skip(digits.len() as int + 1) == metric);
}

pub(crate) proof fn object_columns_are_no_pipeline_columns(
    snapshot: PiperSnapshot<String, String>,
    column: Seq<char>,
)
    requires
        "link"@.is_prefix_of(column) || "node"@.is_prefix_of(column) || "anchor"@.is_prefix_of(
            column,
        ),
    ensures
        pipeline_value(snapshot, column) is None,
{
    reveal_strlit("link");
    reveal_strlit("node");
    reveal_strlit("anchor");
    reveal_strlit("shutdown_requested");
    reveal_strlit("abort_requested");
    reveal_strlit("pending_scale_operation");
    reveal_strlit("parked_threads");
    reveal_strlit("total_active_workers");
    reveal_strlit("global_worker_cap");
    reveal_strlit("budget_pressure");
    reveal_strlit("output_backpressure");
    if "link"@.is_prefix_of(column) {
        assert(column[0] == "link"@[0]);
    } else if "node"@.is_prefix_of(column) {
        assert(column[0] == "node"@[0]);
    } else {
        assert(column[0] == "anchor"@[0]);
        assert(column[1] == "anchor"@[1]);
    }
}

pub(crate) proof fn prefixes_exclude_each_other(column: Seq<char>)
    ensures
        !("link"@.is_prefix_of(column) && "node"@.is_prefix_of(column)),
        !("link"@.is_prefix_of(column) && "anchor"@.is_prefix_of(column)),
        !("node"@.is_prefix_of(column) && "anchor"@.is_prefix_of(column)),
{
    reveal_strlit("link");
    reveal_strlit("node");
    reveal_strlit("anchor");
    if "link"@.is_prefix_of(column) {
        assert(column[0] == "link"@[0]);
    }
    if "node"@.is_prefix_of(column) {
        assert(column[0] == "node"@[0]);
    }
    if "anchor"@.is_prefix_of(column) {
        assert(column[0] == "anchor"@[0]);
    }
}

/// The column of a link's metric shows that metric of that link.
pub proof fn link_columns_show_links(
    snapshot: PiperSnapshot<String, String>,
    i: int,
    metric: Seq<char>,
)
    requires
        is_numbered(snapshot),
        0 <= i < snapshot.links@.len(),
    ensures
        column_value(snapshot, column_of(link_id(i as usize), metric)) == link_value(
            snapshot.links@[i],
            metric,
        ),
{
    let column = column_of(link_id(i as usize), metric);
    column_leads_back("link"@, i as usize, metric);
    object_columns_are_no_pipeline_columns(snapshot, column);
    first_from_is_first(
        numbered_links(snapshot.links@, i as nat),
        0,
        snapshot.links@.len() as int,
    );
    assert(numbered_links(snapshot.links@, i as nat)(i));
}

/// The column of a node's metric shows that metric of that node.
pub proof fn node_columns_show_nodes(
    snapshot: PiperSnapshot<String, String>,
    i: int,
    metric: Seq<char>,
)
    requires
        is_numbered(snapshot),
        0 <= i < snapshot.nodes@.len(),
    ensures
        column_value(snapshot, column_of(node_id(i as usize), metric)) == node_value(
            snapshot.nodes@[i],
            metric,
        ),
{
    let column = column_of(node_id(i as usize), metric);
    column_leads_back("node"@, i as usize, metric);
    object_columns_are_no_pipeline_columns(snapshot, column);
    prefixes_exclude_each_other(column);
    first_from_is_first(
        numbered_nodes(snapshot.nodes@, i as nat),
        0,
        snapshot.nodes@.len() as int,
    );
    assert(numbered_nodes(snapshot.nodes@, i as nat)(i));
}

/// The column of an anchor's metric shows that metric of that anchor.
pub proof fn anchor_columns_show_anchors(
    snapshot: PiperSnapshot<String, String>,
    i: int,
    metric: Seq<char>,
)
    requires
        is_numbered(snapshot),
        0 <= i < snapshot.anchors@.len(),
    ensures
        column_value(snapshot, column_of(anchor_id(i as usize), metric)) == anchor_value(
            snapshot.anchors@[i],
            metric,
        ),
{
    let column = column_of(anchor_id(i as usize), metric);
    column_leads_back("anchor"@, i as usize, metric);
    object_columns_are_no_pipeline_columns(snapshot, column);
    prefixes_exclude_each_other(column);
}

/// What is being done to a log.
#[derive(Clone, Copy, Debug, PartialEq, Eq, Structural)]
pub enum LogStep {
    Create,
    WriteVersion,
    SerializeManifest,
    WriteManifest,
    WriteHeader,
    FlushHeader,
    WriteRow,
}

/// What is said of a step that failed.
pub open spec fn step_text(step: LogStep) -> Seq<char> {
    match step {
        LogStep::Create => "failed to create telemetry log file "@,
        LogStep::WriteVersion => "failed to write telemetry log version line "@,
        LogStep::SerializeManifest => "failed to serialize telemetry manifest "@,
        LogStep::WriteManifest => "failed to write telemetry manifest "@,
        LogStep::WriteHeader => "failed to write telemetry log header "@,
        LogStep::FlushHeader => "failed to flush telemetry log header "@,
        LogStep::WriteRow => "failed to write telemetry log file "@,
    }
}

/// The message of a step that failed on the log at that path, for that reason.
pub fn log_failure(step: LogStep, path: &str, reason: &str) -> (r: String)
    ensures
        r@ == quoted(step_text(step), path@, ": "@) + reason@,
{
    let before: &str = match step {
        LogStep::Create => "failed to create telemetry log file ",
        LogStep::WriteVersion => "failed to write telemetry log version line ",
        LogStep::SerializeManifest => "failed to serialize telemetry manifest ",
        LogStep::WriteManifest => "failed to write telemetry manifest ",
        LogStep::WriteHeader => "failed to write telemetry log header ",
        LogStep::FlushHeader => "failed to flush telemetry log header ",
        LogStep::WriteRow => "failed to write telemetry log file ",
    };
    let named: String = quote_name(before, path, ": ");
    concat(named.as_str(), reason)
}

/// The error of a log that cannot be begun.
pub fn log_error<E>(step: LogStep, path: &str, reason: &str) -> (r: PiperError<E>)
    ensures
        r matches PiperError::Telemetry { message } && message@ == quoted(
            step_text(step),
            path@,
            ": "@,
        ) + reason@,
{
    PiperError::Telemetry { message: log_failure(step, path, reason) }
}

/// What is done once a row should have been written.
#[derive(Clone, Copy, Debug, PartialEq, Eq, Structural)]
pub enum RecorderStep {
    /// The next row is waited for.
    Continue,
    /// It was the last row.
    Stop,
    /// The pipeline is aborted, the failure reported, and the log given up.
    Fail,
}

/// What is done once a row should have been written. `stopping` tells whether the log was asked to end,
/// or the pipeline was aborted, before the row was made: then it is the last one.
pub fn after_row(written: bool, stopping: bool) -> (r: RecorderStep)
    ensures
        r == if !written {
            RecorderStep::Fail
        } else if stopping {
            RecorderStep::Stop
        } else {
            RecorderStep::Continue
        },
{
    if !written {
        RecorderStep::Fail
    } else if stopping {
        RecorderStep::Stop
    } else {
        RecorderStep::Continue
    }
}

} // verus!
