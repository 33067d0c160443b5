use piper::config::SingleThreadWeightedBranchConfig;
use piper::error::PiperError;
use piper::graph::{anchor, node, GraphLink, NodeSpec, PipelineGraph, PipelineGraphBuilder};
use piper::manifest::{
    anchor_object_id, build_telemetry_manifest, format_manifest_node_list, link_object_id,
    manifest_can_be_built, manifest_link_kind, manifest_link_label, manifest_node_name,
    node_object_id, policy_kind_name, push_manifest_metric, ManifestNode, TelemetryLogManifest,
};
use piper::observe::initial_snapshot;
use piper::plan::plan_start;
use piper::policy::{NodeScalePolicy, NodeThreadPolicyKind};
use piper::snapshot::{AnchorPressureReason, NodeScalingState, PiperSnapshot, QueueTrend};
use piper::telemetry::{
    after_row, log_error, log_failure, manifest_line, telemetry_log_header,
    telemetry_log_metric_value, telemetry_log_row, version_line, LogStep, RecorderStep,
};

type Builder = PipelineGraphBuilder<u32, (), (), f64>;
type Graph = PipelineGraph<u32, u32, (), (), f64>;

fn stage(name: &str) -> NodeSpec<u32, u32, (), (), f64> {
    node(name.to_string(), ())
}

fn one_stage_graph(spec: NodeSpec<u32, u32, (), (), f64>) -> Graph {
    let mut builder = Builder::new();
    let input = builder.input();
    let output = builder.add_node(input, spec);
    builder.finish(output)
}

fn fork_join_graph() -> Graph {
    let mut builder = Builder::new();
    let input = builder.input();
    let fork = builder.add_node(input, stage("prepare"));
    let merged: GraphLink<u32> = builder.link();
    builder.add_node_to(fork, stage("left"), merged);
    builder.add_node_to(fork, stage("right"), merged);
    let output = builder.add_node(merged, stage("merge"));
    builder.finish(output)
}

fn branch_graph() -> Graph {
    let mut builder = Builder::new();
    let input = builder.input();
    let config = SingleThreadWeightedBranchConfig {
        target_queue_seconds: 0.5,
        target_is_usable: true,
        ewma_half_life: 25_000_000,
    };
    let arms = builder.add_single_thread_weighted_branch(input, "branch".to_string(), config);
    let merged: GraphLink<u32> = builder.link();
    builder.add_node_to(arms.left, stage("left"), merged);
    builder.add_node_to(arms.right, stage("right"), merged);
    let output = builder.add_node(merged, stage("merge"));
    builder.finish(output)
}

fn external_graph() -> Graph {
    let mut builder = Builder::new();
    let input = builder.input();
    let (output, _token) = builder.add_external_node(input, "outside".to_string());
    builder.finish(output)
}

fn snapshot_of(graph: Graph) -> (PiperSnapshot<f64, u64>, usize, usize) {
    let policy = NodeScalePolicy::for_parallelism(4, 1.0, 0.25, 500_000_000, 0.35);
    let plan = plan_start::<_, _, _, _, _, String>(graph, Some(8), policy, 4).unwrap();
    let snapshot = initial_snapshot(&plan.nodes, plan.link_count, plan.global_worker_cap, 0.0, 0);
    (snapshot, plan.input_link, plan.output_link)
}

fn manifest_of(graph: Graph) -> TelemetryLogManifest {
    let (snapshot, input_link, output_link) = snapshot_of(graph);
    assert!(manifest_can_be_built(&snapshot, input_link, output_link));
    build_telemetry_manifest(&snapshot, input_link, output_link)
}

fn six(value: f64) -> String {
    format!("{value:.6}")
}

/// The snapshot as the log shows it: fractions with six digits, times in milliseconds with three.
fn shown(snapshot: &PiperSnapshot<f64, u64>) -> PiperSnapshot<String, String> {
    PiperSnapshot {
        links: snapshot
            .links
            .iter()
            .map(|link| piper::snapshot::LinkSnapshot {
                index: link.index,
                len: link.len,
                trend: link.trend,
                arrival_rate: six(link.arrival_rate),
                drain_rate: six(link.drain_rate),
                net_rate: six(link.net_rate),
                smoothed_len: six(link.smoothed_len),
            })
            .collect(),
        nodes: snapshot
            .nodes
            .iter()
            .map(|stage| piper::snapshot::NodeSnapshot {
                index: stage.index,
                name: stage.name.clone(),
                input_link: stage.input_link,
                output_link: stage.output_link,
                output_links: stage.output_links.clone(),
                active_threads: stage.active_threads,
                processed_count: stage.processed_count,
                busy_ratio: six(stage.busy_ratio),
                service_time: format!("{:.3}", stage.service_time as f64 / 1_000_000.0),
                per_worker_throughput: six(stage.per_worker_throughput),
                desired_workers: stage.desired_workers,
                scaling_state: stage.scaling_state,
                is_anchor: stage.is_anchor,
                thread_policy_kind: stage.thread_policy_kind,
                fixed_thread_count: stage.fixed_thread_count,
                max_thread_count: stage.max_thread_count,
                target_queue_seconds: stage.target_queue_seconds.map(six),
                low_queue_seconds: stage.low_queue_seconds.map(six),
                backlog_seconds: six(stage.backlog_seconds),
                is_external: stage.is_external,
                external_input_rate: six(stage.external_input_rate),
                external_output_rate: six(stage.external_output_rate),
            })
            .collect(),
        anchors: snapshot.anchors.clone(),
        parked_threads: snapshot.parked_threads,
        total_active_workers: snapshot.total_active_workers,
        global_worker_cap: snapshot.global_worker_cap,
        budget_pressure: snapshot.budget_pressure,
        output_backpressure: snapshot.output_backpressure,
        shutdown_requested: snapshot.shutdown_requested,
        abort_requested: snapshot.abort_requested,
        pending_scale_operation: snapshot.pending_scale_operation,
    }
}

fn columns(manifest: &TelemetryLogManifest) -> Vec<String> {
    telemetry_log_header(manifest).split(',').map(str::to_string).collect()
}

#[test]
fn telemetry_log_writes_manifest_header_and_samples() {
    assert_eq!(version_line(), "# piper-telemetry-log-v2");
    assert_eq!(manifest_line("{}"), "# manifest {}");

    let graph = one_stage_graph(anchor(stage("pass")).max_threads(1));
    let (snapshot, input_link, output_link) = snapshot_of(graph);
    let manifest = build_telemetry_manifest(&snapshot, input_link, output_link);
    assert_eq!(manifest.format, "piper-telemetry-log-v2");
    assert_eq!(manifest.version, 2);
    assert!(manifest.nodes.iter().any(|stage| stage.name == "pass"));
    assert!(manifest.links.len() >= 2);
    let link = manifest
        .links
        .iter()
        .find(|link| link.producers.contains(&"input".to_string()))
        .expect("input link");
    assert!(link.consumers.iter().any(|consumer| consumer == "node0"));

    let header = columns(&manifest);
    assert!(!header.iter().any(|column| column == "node0_name"));
    assert!(!header.iter().any(|column| column == "anchor_count"));
    assert!(header.contains(&"node0_service_time_ms".to_string()));
    assert!(header.contains(&"link0_arrival_rate".to_string()));
    let row = telemetry_log_row("5.000".to_string(), &shown(&snapshot), &manifest);
    assert_eq!(row.split(',').count(), header.len());
    assert!(row.starts_with("5.000,false,false,false,0,0,8,false,false,0,0,0.000000,"));

    let existing: PiperError<String> = log_error(LogStep::Create, "a.csv", "file exists");
    let PiperError::Telemetry { message } = existing else {
        panic!("existing telemetry log path should fail");
    };
    assert_eq!(message, "failed to create telemetry log file `a.csv`: file exists");
}

#[test]
fn telemetry_log_manifest_classifies_fork_and_join_links() {
    let manifest = manifest_of(fork_join_graph());
    let fork_link = manifest.links.iter().find(|link| link.kind == "fork").expect("fork link");
    assert_eq!(fork_link.producers, ["node0"]);
    assert!(fork_link.consumers.contains(&"node1".to_string()));
    assert!(fork_link.consumers.contains(&"node2".to_string()));
    assert_eq!(fork_link.label, "prepare -> {left, right}");
    let join_link = manifest.links.iter().find(|link| link.kind == "join").expect("join link");
    assert!(join_link.producers.contains(&"node1".to_string()));
    assert!(join_link.producers.contains(&"node2".to_string()));
    assert_eq!(join_link.consumers, ["output"]);
    assert_eq!(join_link.label, "{left, right} -> output");
    assert_eq!(manifest.links[0].label, "input -> prepare");
    assert_eq!(manifest.links[3].label, "merge -> output");
}

#[test]
fn weighted_branch_telemetry_manifest_lists_both_output_links() {
    let manifest = manifest_of(branch_graph());
    let branch =
        manifest.nodes.iter().find(|stage| stage.name == "branch").expect("branch stage");
    assert_eq!(branch.output_links.len(), 2);
    assert_eq!(branch.output_link, branch.output_links[0]);

    let joins = |from: &str, to: &str| {
        manifest
            .links
            .iter()
            .find(|link| {
                link.producers.contains(&from.to_string()) && link.consumers.contains(&to.to_string())
            })
            .map(|link| link.id.clone())
    };
    let left_link = joins("node0", "node1").expect("left branch output link");
    let right_link = joins("node0", "node2").expect("right branch output link");
    assert_ne!(left_link, right_link);

    let header = columns(&manifest);
    assert!(header.iter().any(|column| column.starts_with("link")));
    assert!(!header.iter().any(|column| column.contains("branch_internal")));
}

#[test]
fn telemetry_v2_manifest_uses_nodes_and_node_columns() {
    let manifest = manifest_of(one_stage_graph(stage("pass").scalable_threads(1, 2)));
    assert_eq!(manifest.format, "piper-telemetry-log-v2");
    assert_eq!(manifest.version, 2);
    assert_eq!(manifest.nodes.len(), 1);
    let header = columns(&manifest);
    assert!(header.iter().any(|c| c.starts_with("node0_")));
    assert!(!header.iter().any(|c| c.starts_with("stage0_")));
}

#[test]
fn every_column_is_listed_once() {
    for graph in [fork_join_graph(), branch_graph(), external_graph()] {
        let manifest = manifest_of(graph);
        let header = columns(&manifest);
        let externals = manifest.nodes.iter().filter(|node| node.is_external).count();
        let objects = 6 * manifest.links.len() + 13 * manifest.nodes.len() + 2 * manifest.anchors.len();
        assert_eq!(manifest.metrics.len(), 8 + objects + 2 * externals);
        let mut sorted = header.clone();
        sorted.sort();
        sorted.dedup();
        assert_eq!(sorted.len(), header.len());
    }
}

#[test]
fn external_nodes_get_rate_columns() {
    let manifest = manifest_of(external_graph());
    let external: Vec<&str> = manifest
        .metrics
        .iter()
        .filter(|metric| metric.category == "External")
        .map(|metric| metric.column.as_str())
        .collect();
    assert_eq!(external, ["node0_external_input_rate", "node0_external_output_rate"]);
    let plain = manifest_of(one_stage_graph(stage("pass")));
    assert!(!columns(&plain).contains(&"node0_external_input_rate".to_string()));
}

#[test]
fn metrics_carry_their_units() {
    let manifest = manifest_of(one_stage_graph(anchor(stage("pass"))));
    let metric = |column: &str| manifest.metrics.iter().find(|m| m.column == column).unwrap();
    let rate = metric("link0_arrival_rate");
    assert_eq!(rate.unit.as_deref(), Some("items/s"));
    assert_eq!(rate.object_id, "link0");
    assert_eq!(rate.object_kind, "link");
    assert_eq!(rate.label, "arrival rate");
    assert_eq!(metric("node0_service_time_ms").unit.as_deref(), Some("ms"));
    assert_eq!(metric("parked_threads").unit, None);
    assert_eq!(metric("anchor0_last_pressure_reason").category, "Anchors");
}

#[test]
fn metric_values_show_the_snapshot() {
    let (mut snapshot, _, _) = snapshot_of(one_stage_graph(anchor(stage("pass")).max_threads(3)));
    snapshot.shutdown_requested = true;
    snapshot.parked_threads = 4;
    snapshot.links[0].len = 12;
    snapshot.links[0].trend = QueueTrend::FastGrowing;
    snapshot.links[1].arrival_rate = 2.5;
    snapshot.nodes[0].service_time = 1_234_567;
    snapshot.nodes[0].scaling_state = NodeScalingState::Settling;
    snapshot.anchors[0].last_pressure_reason = Some(AnchorPressureReason::BudgetPressure);
    let shown = shown(&snapshot);
    let value = |column: &str| telemetry_log_metric_value(column, &shown);
    assert_eq!(value("shutdown_requested"), "true");
    assert_eq!(value("parked_threads"), "4");
    assert_eq!(value("global_worker_cap"), "8");
    assert_eq!(value("link0_len"), "12");
    assert_eq!(value("link0_trend"), "5");
    assert_eq!(value("link1_arrival_rate"), "2.500000");
    assert_eq!(value("node0_service_time_ms"), "1.235");
    assert_eq!(value("node0_scaling_state"), "Settling");
    assert_eq!(value("node0_thread_policy_kind"), "Scalable");
    assert_eq!(value("node0_max_thread_count"), "3");
    assert_eq!(value("node0_fixed_thread_count"), "");
    assert_eq!(value("node0_target_queue_seconds"), "1.000000");
    assert_eq!(value("anchor0_last_pressure_reason"), "BudgetPressure");
    assert_eq!(value("anchor0_active_threads"), "0");
    assert_eq!(value("link+1_arrival_rate"), "2.500000");
    assert_eq!(value("link01_arrival_rate"), "2.500000");
    assert_eq!(value("link9_len"), "");
    assert_eq!(value("link-1_len"), "");
    assert_eq!(value("link0_unknown"), "");
    assert_eq!(value("nothing"), "");
}

fn manifest_node(index: usize, name: &str) -> ManifestNode {
    ManifestNode {
        id: node_object_id(index),
        index,
        name: name.to_string(),
        input_link: link_object_id(index),
        output_link: link_object_id(index + 1),
        output_links: vec![link_object_id(index + 1)],
        is_anchor: false,
        thread_policy_kind: policy_kind_name(NodeThreadPolicyKind::ImplicitSupport),
        is_external: false,
    }
}

#[test]
fn objects_are_numbered() {
    assert_eq!(link_object_id(0), "link0");
    assert_eq!(node_object_id(12), "node12");
    assert_eq!(anchor_object_id(305), "anchor305");
    assert_eq!(policy_kind_name(NodeThreadPolicyKind::Fixed), "Fixed");
    assert_eq!(policy_kind_name(NodeThreadPolicyKind::Scalable), "Scalable");
    assert_eq!(policy_kind_name(NodeThreadPolicyKind::ImplicitSupport), "ImplicitSupport");
}

#[test]
fn node_lists_show_names() {
    let stages = vec![manifest_node(0, "a"), manifest_node(1, "b")];
    let ids = |ids: &[&str]| ids.iter().map(|id| id.to_string()).collect::<Vec<_>>();
    assert_eq!(manifest_node_name("input", &stages), "input");
    assert_eq!(manifest_node_name("node1", &stages), "b");
    assert_eq!(manifest_node_name("node7", &stages), "node7");
    assert_eq!(format_manifest_node_list(&ids(&["node0"]), &stages), "a");
    assert_eq!(format_manifest_node_list(&ids(&["node0", "node1"]), &stages), "{a, b}");
    assert_eq!(format_manifest_node_list(&ids(&[]), &stages), "{}");
}

#[test]
fn link_kinds_follow_ends() {
    let one = vec!["node0".to_string()];
    let two = vec!["node0".to_string(), "node1".to_string()];
    let none = Vec::new();
    assert_eq!(manifest_link_kind(0, 0, 5, &one, &two), "input");
    assert_eq!(manifest_link_kind(5, 0, 5, &one, &two), "output");
    assert_eq!(manifest_link_kind(1, 0, 5, &one, &one), "internal");
    assert_eq!(manifest_link_kind(1, 0, 5, &one, &two), "fork");
    assert_eq!(manifest_link_kind(1, 0, 5, &two, &one), "join");
    assert_eq!(manifest_link_kind(1, 0, 5, &two, &two), "fork_join");
    assert_eq!(manifest_link_kind(1, 0, 5, &none, &one), "internal");
    let stages = vec![manifest_node(0, "a"), manifest_node(1, "b")];
    assert_eq!(manifest_link_label("fork_join", &two, &two, &stages), "{a, b} -> {a, b}");
    assert_eq!(manifest_link_label("internal", &one, &one, &stages), "a -> a");
}

#[test]
fn a_link_without_ends_cannot_be_described() {
    let (snapshot, input_link, output_link) = snapshot_of({
        let mut builder = Builder::new();
        let input = builder.input();
        let output = builder.add_node(input, stage("pass"));
        let _unused: GraphLink<u32> = builder.link();
        builder.finish(output)
    });
    assert!(!manifest_can_be_built(&snapshot, input_link, output_link));
}

#[test]
fn a_pushed_metric_comes_last() {
    let mut metrics = Vec::new();
    push_manifest_metric(&mut metrics, "c".to_string(), "o".to_string(), "k", "g", "m", "l", None);
    push_manifest_metric(
        &mut metrics, "d".to_string(), "o".to_string(), "k", "g", "m", "l", Some("s"),
    );
    assert_eq!(metrics.len(), 2);
    assert_eq!(metrics[0].column, "c");
    assert_eq!(metrics[1].unit.as_deref(), Some("s"));
}

#[test]
fn log_failures_name_the_step() {
    let said = |step| log_failure(step, "p", "r");
    assert_eq!(said(LogStep::WriteVersion), "failed to write telemetry log version line `p`: r");
    assert_eq!(said(LogStep::SerializeManifest), "failed to serialize telemetry manifest `p`: r");
    assert_eq!(said(LogStep::WriteManifest), "failed to write telemetry manifest `p`: r");
    assert_eq!(said(LogStep::WriteHeader), "failed to write telemetry log header `p`: r");
    assert_eq!(said(LogStep::FlushHeader), "failed to flush telemetry log header `p`: r");
    assert_eq!(said(LogStep::WriteRow), "failed to write telemetry log file `p`: r");
}

#[test]
fn the_last_row_is_written_while_stopping() {
    assert_eq!(after_row(true, false), RecorderStep::Continue);
    assert_eq!(after_row(true, true), RecorderStep::Stop);
    assert_eq!(after_row(false, false), RecorderStep::Fail);
    assert_eq!(after_row(false, true), RecorderStep::Fail);
}

#[test]
fn rows_are_read_back_by_splitting_at_commas() {
    for graph in [fork_join_graph(), branch_graph(), external_graph()] {
        let (snapshot, input_link, output_link) = snapshot_of(graph);
        let manifest = build_telemetry_manifest(&snapshot, input_link, output_link);
        let header = telemetry_log_header(&manifest);
        let row = telemetry_log_row("5.000".to_string(), &shown(&snapshot), &manifest);
        let heads: Vec<&str> = header.split(',').collect();
        let fields: Vec<&str> = row.split(',').collect();
        assert_eq!(heads.len(), manifest.metrics.len() + 1);
        assert_eq!(fields.len(), heads.len());
        assert_eq!((heads[0], fields[0]), ("elapsed_ms", "5.000"));
        for (metric, field) in manifest.metrics.iter().zip(&fields[1..]) {
            assert_eq!(telemetry_log_metric_value(&metric.column, &shown(&snapshot)), *field);
        }
        assert!(!row.contains('\n') && !header.contains('\n'));
    }
}
