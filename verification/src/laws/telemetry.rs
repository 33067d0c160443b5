//! What a telemetry log shows, and where.

use crate::error::PiperError;
use crate::manifest::{metric_texts, TelemetryLogManifest};
use crate::policy::NodeThreadPolicyKind;
use crate::snapshot::{AnchorPressureReason, NodeScalingState, PiperSnapshot, QueueTrend};
use crate::telemetry::{
    after_row, anchor_columns_show_anchors, column_leads_back, column_value, header_fields,
    link_columns_show_links, log_error, log_failure, manifest_line, node_columns_show_nodes,
    numbered_links, numbered_nodes, object_columns_are_no_pipeline_columns,
    prefixes_exclude_each_other, row_fields, telemetry_log_header, telemetry_log_metric_value,
    telemetry_log_row, version_line, LogStep, RecorderStep,
};
use crate::scaling::{first_from, first_from_is_first};
use crate::text::{decimal, joined};
use vstd::prelude::*;

verus! {

/// Whether every link and every node has its position for its number.
pub open spec fn in_order<R, D>(snapshot: PiperSnapshot<R, D>) -> bool {
    &&& snapshot.links@.len() <= usize::MAX
    &&& snapshot.nodes@.len() <= usize::MAX
    &&& snapshot.anchors@.len() <= usize::MAX
    &&& forall|i: int|
        0 <= i < snapshot.links@.len() ==> (#[trigger] snapshot.links@[i]).index == i
    &&& forall|i: int|
        0 <= i < snapshot.nodes@.len() ==> (#[trigger] snapshot.nodes@[i]).index == i
}

/// The figure of a trend, from the most empty to the fullest.
pub open spec fn trend_figure(trend: QueueTrend) -> Seq<char> {
    match trend {
        QueueTrend::Starved => "0"@,
        QueueTrend::FastDraining => "1"@,
        QueueTrend::Draining => "2"@,
        QueueTrend::Stable => "3"@,
        QueueTrend::Growing => "4"@,
        QueueTrend::FastGrowing => "5"@,
        QueueTrend::Runaway => "6"@,
    }
}

proof fn trend_figures_are_digits(trend: QueueTrend)
    ensures
        decimal(trend.number() as nat) == trend_figure(trend),
{
    reveal_strlit("0");
    reveal_strlit("1");
    reveal_strlit("2");
    reveal_strlit("3");
    reveal_strlit("4");
    reveal_strlit("5");
    reveal_strlit("6");
    assert(decimal(trend.number() as nat) =~= trend_figure(trend));
}

/// Whether the column is named after that metric of the object of that kind and number.
pub open spec fn heads(column: Seq<char>, kind: Seq<char>, i: int, metric: Seq<char>) -> bool {
    column == kind + decimal(i as nat) + "_"@ + metric
}

/// Each column of a link shows that quantity of that link.
pub proof fn link_quantities_are_shown(
    column: &str,
    snapshot: &PiperSnapshot<String, String>,
    i: int,
    r: String,
)
    requires
        call_ensures(telemetry_log_metric_value, (column, snapshot), r),
        in_order(*snapshot),
        0 <= i < snapshot.links@.len(),
    ensures
        ({
            let link = snapshot.links@[i];
            &&& heads(column@, "link"@, i, "len"@) ==> r@ == decimal(link.len as nat)
            &&& heads(column@, "link"@, i, "trend"@) ==> r@ == trend_figure(link.trend)
            &&& heads(column@, "link"@, i, "arrival_rate"@) ==> r@ == link.arrival_rate@
            &&& heads(column@, "link"@, i, "drain_rate"@) ==> r@ == link.drain_rate@
            &&& heads(column@, "link"@, i, "net_rate"@) ==> r@ == link.net_rate@
            &&& heads(column@, "link"@, i, "smoothed_len"@) ==> r@ == link.smoothed_len@
        }),
{
    reveal_strlit("len");
    reveal_strlit("trend");
    reveal_strlit("arrival_rate");
    reveal_strlit("drain_rate");
    reveal_strlit("net_rate");
    reveal_strlit("smoothed_len");
    assert("arrival_rate"@[0] != "smoothed_len"@[0]);
    trend_figures_are_digits(snapshot.links@[i].trend);
    link_columns_show_links(*snapshot, i, "len"@);
    link_columns_show_links(*snapshot, i, "trend"@);
    link_columns_show_links(*snapshot, i, "arrival_rate"@);
    link_columns_show_links(*snapshot, i, "drain_rate"@);
    link_columns_show_links(*snapshot, i, "net_rate"@);
    link_columns_show_links(*snapshot, i, "smoothed_len"@);
}

/// The name of a state of scaling.
pub open spec fn state_name(state: NodeScalingState) -> Seq<char> {
    match state {
        NodeScalingState::Eligible => "Eligible"@,
        NodeScalingState::Merging => "Merging"@,
        NodeScalingState::Settling => "Settling"@,
        NodeScalingState::BackingOff => "BackingOff"@,
    }
}

/// The name of a kind of thread policy.
pub open spec fn kind_name(kind: NodeThreadPolicyKind) -> Seq<char> {
    match kind {
        NodeThreadPolicyKind::Fixed => "Fixed"@,
        NodeThreadPolicyKind::Scalable => "Scalable"@,
        NodeThreadPolicyKind::ImplicitSupport => "ImplicitSupport"@,
    }
}

/// Whether the text is the count, or empty where there is none.
pub open spec fn count_or_empty(text: Seq<char>, count: Option<usize>) -> bool {
    &&& count is Some ==> text == decimal(count->0 as nat)
    &&& count is None ==> text.len() == 0
}

/// Whether the text is that text, or empty where there is none.
pub open spec fn text_or_empty(text: Seq<char>, shown: Option<String>) -> bool {
    &&& shown is Some ==> text == shown->0@
    &&& shown is None ==> text.len() == 0
}

/// Each column of a node shows that quantity of that node.
pub proof fn node_quantities_are_shown(
    column: &str,
    snapshot: &PiperSnapshot<String, String>,
    i: int,
    r: String,
)
    requires
        call_ensures(telemetry_log_metric_value, (column, snapshot), r),
        in_order(*snapshot),
        0 <= i < snapshot.nodes@.len(),
    ensures
        ({
            let node = snapshot.nodes@[i];
            let on = |metric: Seq<char>| heads(column@, "node"@, i, metric);
            &&& on("active_threads"@) ==> r@ == decimal(node.active_threads as nat)
            &&& on("processed_count"@) ==> r@ == decimal(node.processed_count as nat)
            &&& on("busy_ratio"@) ==> r@ == node.busy_ratio@
            &&& on("service_time_ms"@) ==> r@ == node.service_time@
            &&& on("per_worker_throughput"@) ==> r@ == node.per_worker_throughput@
            &&& on("desired_workers"@) ==> r@ == decimal(node.desired_workers as nat)
            &&& on("scaling_state"@) ==> r@ == state_name(node.scaling_state)
            &&& on("thread_policy_kind"@) ==> r@ == kind_name(node.thread_policy_kind)
            &&& on("fixed_thread_count"@) ==> count_or_empty(r@, node.fixed_thread_count)
            &&& on("max_thread_count"@) ==> count_or_empty(r@, node.max_thread_count)
            &&& on("target_queue_seconds"@) ==> text_or_empty(r@, node.target_queue_seconds)
            &&& on("low_queue_seconds"@) ==> text_or_empty(r@, node.low_queue_seconds)
            &&& on("backlog_seconds"@) ==> r@ == node.backlog_seconds@
            &&& on("external_input_rate"@) ==> r@ == node.external_input_rate@
            &&& on("external_output_rate"@) ==> r@ == node.external_output_rate@
        }),
{
    reveal_strlit("active_threads");
    reveal_strlit("processed_count");
    reveal_strlit("busy_ratio");
    reveal_strlit("service_time_ms");
    reveal_strlit("per_worker_throughput");
    reveal_strlit("desired_workers");
    reveal_strlit("scaling_state");
    reveal_strlit("thread_policy_kind");
    reveal_strlit("fixed_thread_count");
    reveal_strlit("max_thread_count");
    reveal_strlit("target_queue_seconds");
    reveal_strlit("low_queue_seconds");
    reveal_strlit("backlog_seconds");
    reveal_strlit("external_input_rate");
    reveal_strlit("external_output_rate");
    reveal_strlit("");
    assert("processed_count"@[0] == 'p');
    assert("service_time_ms"@[0] == 's');
    assert("desired_workers"@[0] == 'd');
    assert("backlog_seconds"@[0] == 'b');
    assert("thread_policy_kind"@[0] == 't');
    assert("fixed_thread_count"@[0] == 'f');
    assert("target_queue_seconds"@[0] == 't');
    assert("external_output_rate"@[0] == 'e');
    node_columns_show_nodes(*snapshot, i, "active_threads"@);
    node_columns_show_nodes(*snapshot, i, "processed_count"@);
    node_columns_show_nodes(*snapshot, i, "busy_ratio"@);
    node_columns_show_nodes(*snapshot, i, "service_time_ms"@);
    node_columns_show_nodes(*snapshot, i, "per_worker_throughput"@);
    node_columns_show_nodes(*snapshot, i, "desired_workers"@);
    node_columns_show_nodes(*snapshot, i, "scaling_state"@);
    node_columns_show_nodes(*snapshot, i, "thread_policy_kind"@);
    node_columns_show_nodes(*snapshot, i, "fixed_thread_count"@);
    node_columns_show_nodes(*snapshot, i, "max_thread_count"@);
    node_columns_show_nodes(*snapshot, i, "target_queue_seconds"@);
    node_columns_show_nodes(*snapshot, i, "low_queue_seconds"@);
    node_columns_show_nodes(*snapshot, i, "backlog_seconds"@);
    node_columns_show_nodes(*snapshot, i, "external_input_rate"@);
    node_columns_show_nodes(*snapshot, i, "external_output_rate"@);
}

/// The name of a reason for pressure; empty where there is none.
pub open spec fn reason_name(reason: Option<AnchorPressureReason>) -> Seq<char> {
    match reason {
        Some(AnchorPressureReason::InputUnderfed) => "InputUnderfed"@,
        Some(AnchorPressureReason::OutputBackpressure) => "OutputBackpressure"@,
        Some(AnchorPressureReason::BudgetPressure) => "BudgetPressure"@,
        None => Seq::empty(),
    }
}

/// Each column of an anchor shows that quantity of that anchor.
pub proof fn anchor_quantities_are_shown(
    column: &str,
    snapshot: &PiperSnapshot<String, String>,
    i: int,
    r: String,
)
    requires
        call_ensures(telemetry_log_metric_value, (column, snapshot), r),
        in_order(*snapshot),
        0 <= i < snapshot.anchors@.len(),
    ensures
        ({
            let anchor = snapshot.anchors@[i];
            &&& heads(column@, "anchor"@, i, "active_threads"@) ==> r@ == decimal(
                anchor.active_threads as nat,
            )
            &&& heads(column@, "anchor"@, i, "last_pressure_reason"@) ==> r@ == reason_name(
                anchor.last_pressure_reason,
            )
        }),
{
    reveal_strlit("active_threads");
    reveal_strlit("last_pressure_reason");
    reveal_strlit("");
    assert(""@ == Seq::<char>::empty());
    anchor_columns_show_anchors(*snapshot, i, "active_threads"@);
    anchor_columns_show_anchors(*snapshot, i, "last_pressure_reason"@);
}

/// Whether the text tells that truth value.
pub open spec fn tells_truth(text: Seq<char>, b: bool) -> bool {
    &&& b ==> text == "true"@
    &&& !b ==> text == "false"@
}

/// Each column of the whole pipeline shows that quantity of it.
pub proof fn pipeline_quantities_are_shown(
    column: &str,
    snapshot: &PiperSnapshot<String, String>,
    r: String,
)
    requires
        call_ensures(telemetry_log_metric_value, (column, snapshot), r),
    ensures
        column@ == "shutdown_requested"@ ==> tells_truth(r@, snapshot.shutdown_requested),
        column@ == "abort_requested"@ ==> tells_truth(r@, snapshot.abort_requested),
        column@ == "pending_scale_operation"@ ==> tells_truth(r@, snapshot.pending_scale_operation),
        column@ == "parked_threads"@ ==> r@ == decimal(snapshot.parked_threads as nat),
        column@ == "total_active_workers"@ ==> r@ == decimal(snapshot.total_active_workers as nat),
        column@ == "global_worker_cap"@ ==> r@ == decimal(snapshot.global_worker_cap as nat),
        column@ == "budget_pressure"@ ==> tells_truth(r@, snapshot.budget_pressure),
        column@ == "output_backpressure"@ ==> tells_truth(r@, snapshot.output_backpressure),
{
    reveal_strlit("shutdown_requested");
    reveal_strlit("abort_requested");
    reveal_strlit("pending_scale_operation");
    reveal_strlit("parked_threads");
    reveal_strlit("total_active_workers");
    reveal_strlit("global_worker_cap");
    reveal_strlit("budget_pressure");
    reveal_strlit("output_backpressure");
    assert("abort_requested"@[0] == 'a');
    assert("budget_pressure"@[0] == 'b');
}

/// Nothing is shown of a link, a node or an anchor that is not there, nor under a metric that it does not
/// have.
pub proof fn unknown_columns_are_empty(
    column: &str,
    snapshot: &PiperSnapshot<String, String>,
    i: int,
    metric: Seq<char>,
    r: String,
)
    requires
        call_ensures(telemetry_log_metric_value, (column, snapshot), r),
        in_order(*snapshot),
        0 <= i <= usize::MAX,
    ensures
        heads(column@, "link"@, i, metric) && (i >= snapshot.links@.len() || (metric != "len"@ && metric
            != "trend"@ && metric != "arrival_rate"@ && metric != "drain_rate"@ && metric
            != "net_rate"@ && metric != "smoothed_len"@)) ==> r@.len() == 0,
        heads(column@, "node"@, i, metric) && i >= snapshot.nodes@.len() ==> r@.len() == 0,
        heads(column@, "anchor"@, i, metric) && (i >= snapshot.anchors@.len() || (metric
            != "active_threads"@ && metric != "last_pressure_reason"@)) ==> r@.len() == 0,
{
    reveal_strlit("");
    let links = numbered_links(snapshot.links@, i as nat);
    let nodes = numbered_nodes(snapshot.nodes@, i as nat);
    first_from_is_first(links, 0, snapshot.links@.len() as int);
    first_from_is_first(nodes, 0, snapshot.nodes@.len() as int);
    let found = first_from(links, 0, snapshot.links@.len() as int);
    if found is Some {
        assert(links(found->0));
        assert(snapshot.links@[found->0].index == found->0);
    }
    let found = first_from(nodes, 0, snapshot.nodes@.len() as int);
    if found is Some {
        assert(nodes(found->0));
        assert(snapshot.nodes@[found->0].index == found->0);
    }
    column_leads_back("link"@, i as usize, metric);
    column_leads_back("node"@, i as usize, metric);
    column_leads_back("anchor"@, i as usize, metric);
    prefixes_exclude_each_other(column@);
    if heads(column@, "link"@, i, metric) {
        assert("link"@.is_prefix_of(column@));
        object_columns_are_no_pipeline_columns(*snapshot, column@);
    }
    if heads(column@, "node"@, i, metric) {
        assert("node"@.is_prefix_of(column@));
        object_columns_are_no_pipeline_columns(*snapshot, column@);
    }
    if heads(column@, "anchor"@, i, metric) {
        assert("anchor"@.is_prefix_of(column@));
        object_columns_are_no_pipeline_columns(*snapshot, column@);
    }
}

/// A row holds the time, and then below each column of the manifest what the log shows there, with
/// commas between.
pub proof fn rows_hold_every_column(
    elapsed: String,
    snapshot: &PiperSnapshot<String, String>,
    manifest: &TelemetryLogManifest,
    fields: Seq<Seq<char>>,
    r: String,
)
    requires
        call_ensures(telemetry_log_row, (elapsed, snapshot, manifest), r),
        fields.len() == manifest.metrics@.len() + 1,
        fields[0] == elapsed@,
        forall|k: int|
            0 <= k < manifest.metrics@.len() ==> #[trigger] fields[k + 1] == column_value(
                *snapshot,
                manifest.metrics@[k].column@,
            ),
    ensures
        r@ == joined(fields, ","@),
{
    let row = row_fields(elapsed@, *snapshot, metric_texts(manifest.metrics@));
    assert forall|k: int| 0 <= k < fields.len() implies #[trigger] fields[k] == row[k] by {
        if k > 0 {
            assert(fields[(k - 1) + 1] == column_value(
                *snapshot,
                manifest.metrics@[k - 1].column@,
            ));
        }
    }
    assert(fields == row);
}

/// What the log shows in a column is all that a row takes from it.
pub proof fn rows_take_from_columns(
    column: &str,
    snapshot: &PiperSnapshot<String, String>,
    r: String,
)
    requires
        call_ensures(telemetry_log_metric_value, (column, snapshot), r),
    ensures
        r@ == column_value(*snapshot, column@),
{
}

/// The header holds the head of the time, and then each column of the manifest, with commas between.
pub proof fn header_holds_every_column(
    manifest: &TelemetryLogManifest,
    fields: Seq<Seq<char>>,
    r: String,
)
    requires
        call_ensures(telemetry_log_header, (manifest,), r),
        fields.len() == manifest.metrics@.len() + 1,
        fields[0] == "elapsed_ms"@,
        forall|k: int|
            0 <= k < manifest.metrics@.len() ==> #[trigger] fields[k + 1]
                == manifest.metrics@[k].column@,
    ensures
        r@ == joined(fields, ","@),
{
    let head = header_fields(metric_texts(manifest.metrics@));
    assert forall|k: int| 0 <= k < fields.len() implies #[trigger] fields[k] == head[k] by {
        if k > 0 {
            assert(fields[(k - 1) + 1] == manifest.metrics@[k - 1].column@);
        }
    }
    assert(fields == head);
}

/// A log begins with its version, and the line with the manifest with what it is.
pub proof fn log_tells_what_it_is(manifest: &str, first: String, second: String)
    requires
        call_ensures(version_line, (), first),
        call_ensures(manifest_line, (manifest,), second),
    ensures
        first@ == "# piper-telemetry-log-v2"@,
        second@ == "# manifest "@ + manifest@,
{
}

/// A step that fails is told with what was tried, the log's path in backquotes, and the reason.
pub proof fn failures_tell_the_step(step: LogStep, path: &str, reason: &str, r: String)
    requires
        call_ensures(log_failure, (step, path, reason), r),
    ensures
        ({
            let rest = "`"@ + path@ + "`"@ + ": "@ + reason@;
            &&& step == LogStep::Create ==> r@ == "failed to create telemetry log file "@ + rest
            &&& step == LogStep::WriteVersion ==> r@
                == "failed to write telemetry log version line "@ + rest
            &&& step == LogStep::SerializeManifest ==> r@
                == "failed to serialize telemetry manifest "@ + rest
            &&& step == LogStep::WriteManifest ==> r@ == "failed to write telemetry manifest "@ + rest
            &&& step == LogStep::WriteHeader ==> r@ == "failed to write telemetry log header "@ + rest
            &&& step == LogStep::FlushHeader ==> r@ == "failed to flush telemetry log header "@ + rest
            &&& step == LogStep::WriteRow ==> r@ == "failed to write telemetry log file "@ + rest
        }),
{
    let rest = "`"@ + path@ + "`"@ + ": "@ + reason@;
    let before = crate::telemetry::step_text(step);
    assert(r@ =~= before + rest);
}

/// A log that cannot be begun makes the pipeline fail with what is told of the step.
pub proof fn log_errors_tell_the_failure<E>(
    step: LogStep,
    path: &str,
    reason: &str,
    text: String,
    r: PiperError<E>,
)
    requires
        call_ensures(log_failure, (step, path, reason), text),
        call_ensures(log_error::<E>, (step, path, reason), r),
    ensures
        r matches PiperError::Telemetry { message } && message@ == text@,
{
}

/// A row that was not written ends the log with a failure; the last row ends it; otherwise the next row
/// is waited for.
pub proof fn rows_end_with_the_log(written: bool, stopping: bool, r: RecorderStep)
    requires
        call_ensures(after_row, (written, stopping), r),
    ensures
        r == RecorderStep::Fail <==> !written,
        r == RecorderStep::Stop <==> written && stopping,
        r == RecorderStep::Continue <==> written && !stopping,
{
}

} // verus!
