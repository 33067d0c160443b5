use piper::check::{check_graph, fault_error, validate_graph_is_acyclic, validate_weighted_branch_config, GraphFault};
use piper::config::{
    FeederLinkConfig, PiperConfig, SingleThreadWeightedBranchConfig, TelemetryLogConfig,
};
use piper::cycles::{find_cycle, first_cyclic};
use piper::error::PiperError;
use piper::graph::{
    anchor, default_node_name, node, node_with_state_merge, GraphLink, NodeSpec, PipelineGraph,
    PipelineGraphBuilder,
};
use piper::plan::{plan_start, required_base_workers, StartPlan};
use piper::policy::{
    fixed_thread_count, low_queue_seconds, max_thread_count, resolve_global_worker_cap,
    resolve_scale_policy, resolve_thread_policy, startup_worker_count, target_queue_seconds,
    thread_policy_kind, NodeScalePolicy, NodeThreadPolicyKind, ResolvedThreadPolicy,
    ThreadPolicyHints,
};
use piper::startup::{parked_worker_target, starting_worker_count, startup_order, worker_name};
use std::collections::HashMap;
use std::path::PathBuf;
use std::time::Duration;

type Builder = PipelineGraphBuilder<u32, u8, char, f64>;
type Graph = PipelineGraph<u32, u32, u8, char, f64>;
type Spec = NodeSpec<u32, u32, u8, char, f64>;

fn stage(name: &str) -> Spec {
    node(name.to_string(), 1)
}

fn linear(specs: Vec<Spec>) -> (Builder, GraphLink<u32>) {
    let mut builder = Builder::new();
    let mut link = builder.input();
    for spec in specs {
        link = builder.add_node(link, spec);
    }
    (builder, link)
}

fn linear_graph(specs: Vec<Spec>) -> Graph {
    let (builder, output) = linear(specs);
    builder.finish(output)
}

fn default_policy() -> NodeScalePolicy<f64> {
    NodeScalePolicy::for_parallelism(6, 1.0, 0.25, 500_000_000, 0.35)
}

fn planned(graph: Graph, cap: Option<usize>) -> Result<StartPlan<u8, char, f64>, PiperError<String>> {
    plan_start(graph, cap, default_policy(), 6)
}

fn message(graph: Graph, cap: Option<usize>) -> String {
    planned(graph, cap).err().expect("the graph should be refused").describe("")
}

fn branch_config(usable: bool, half_life: u128) -> SingleThreadWeightedBranchConfig<f64> {
    SingleThreadWeightedBranchConfig {
        target_queue_seconds: 0.5,
        target_is_usable: usable,
        ewma_half_life: half_life,
    }
}

fn branch_graph(config: SingleThreadWeightedBranchConfig<f64>) -> Graph {
    let mut builder = Builder::new();
    let input = builder.input();
    let arms = builder.add_single_thread_weighted_branch(input, "branch".to_string(), config);
    let merged: GraphLink<u32> = builder.link();
    builder.add_node_to(arms.left, stage("left"), merged);
    builder.add_node_to(arms.right, stage("right"), merged);
    builder.finish(merged)
}

#[test]
fn links_are_numbered_as_they_come() {
    let mut builder = Builder::new();
    assert_eq!(builder.input().index(), 0);
    let first: GraphLink<u32> = builder.link();
    let second = builder.add_node(first, stage("a"));
    assert_eq!(first.index(), 1);
    assert_eq!(second.index(), 2);
    let arms = builder.add_single_thread_weighted_branch(second, "b".to_string(), branch_config(true, 1));
    assert_eq!((arms.left.index(), arms.right.index()), (3, 4));
    let (out, token) = builder.add_external_node::<u32, u32>(arms.left, "c".to_string());
    assert_eq!((out.index(), token.index()), (5, 0));
    let (out, token) =
        builder.add_external_node_with_reusable_output::<u32, u32>(arms.right, "d".to_string(), 'f');
    assert_eq!((out.index(), token.index()), (6, 1));
    let graph = builder.finish(out);
    assert_eq!(graph.link_count, 7);
    assert_eq!(graph.output_link, 6);
    assert_eq!(graph.input_link, 0);
    assert_eq!(graph.external_count, 2);
    assert_eq!(graph.nodes[1].output_links, [3, 4]);
    assert_eq!(graph.nodes[3].output_acquire_builder, Some('f'));
    assert_eq!(graph.nodes[3].external_index, Some(1));
}

#[test]
fn finishing_asks_for_states() {
    let plain = linear_graph(vec![stage("a")]);
    assert_eq!(plain.state_return, None);
    let (builder, output) = linear(vec![stage("a")]);
    let kept = builder.finish_with_state::<u32, u8>(output).graph;
    assert!(!kept.state_return.unwrap().require_merge);
    let (builder, output) = linear(vec![stage("a")]);
    let merged = builder.finish_with_merged_state::<u32, u8>(output).graph;
    assert!(merged.state_return.unwrap().require_merge);
    assert_eq!(PipelineGraphBuilder::<u32, u8, char, f64>::default().input().index(), 0);
}

#[test]
fn hints_are_kept() {
    let spec = stage("a").scalable_threads(2, 5).fixed_threads(3).with_reusable_output('r');
    assert_eq!(spec.thread_hints.initial_threads, Some(2));
    assert_eq!(spec.thread_hints.max_threads, Some(5));
    assert_eq!(spec.thread_hints.fixed_threads, Some(3));
    assert_eq!(spec.output_acquire_builder, Some('r'));
    let spec = spec.initial_threads(1).max_threads(9).with_scale_policy(default_policy());
    assert_eq!(spec.thread_hints.initial_threads, Some(1));
    assert_eq!(spec.thread_hints.max_threads, Some(9));
    assert!(spec.thread_hints.scale_policy.is_some());
    assert!(!spec.is_anchor);
    assert!(anchor(spec).is_anchor);
    assert!(!stage("a").stage.merges_state);
    let merging: Spec = node_with_state_merge("m".to_string(), 2);
    assert!(merging.stage.merges_state);
    assert_eq!(merging.name, "m");
}

#[test]
fn a_type_is_called_by_its_last_part() {
    assert_eq!(default_node_name("fixture::stages::Widen"), "Widen");
    assert_eq!(default_node_name("Widen"), "Widen");
    assert_eq!(default_node_name("a::Wrap<b::Inner>"), "Inner>");
    assert_eq!(default_node_name("ends::"), "");
}

#[test]
fn graph_faults_stop_the_start() {
    assert_eq!(message(linear_graph(vec![]), None), "Piper requires at least one node");

    let mut outside = linear_graph(vec![stage("a")]);
    outside.output_link = 7;
    assert_eq!(
        message(outside, None),
        "Piper graph is invalid: input or output link is outside the graph"
    );

    let mut missing = linear_graph(vec![stage("a"), stage("b")]);
    missing.nodes[1].output_links = vec![9];
    assert_eq!(
        message(missing, None),
        "Piper graph is invalid: node `b` references a missing link"
    );

    assert_eq!(
        message(branch_graph(branch_config(false, 1)), None),
        "invalid weighted branch `branch` config: target_queue_seconds must be positive and finite"
    );
    assert_eq!(
        message(branch_graph(branch_config(true, 0)), None),
        "invalid weighted branch `branch` config: ewma_half_life must be greater than zero"
    );
    let mut one_arm = branch_graph(branch_config(true, 1));
    one_arm.nodes[0].output_links = vec![1];
    assert_eq!(
        message(one_arm, None),
        "Piper graph is invalid: weighted branch `branch` must have exactly two output links"
    );
    let mut fed = branch_graph(branch_config(true, 1));
    fed.feeder_links.insert(2, FeederLinkConfig::default());
    assert_eq!(message(fed, None), "weighted branch `branch` output link 1 cannot use feeder");

    let mut two_outputs = linear_graph(vec![stage("a")]);
    two_outputs.nodes[0].output_links = vec![0, 1];
    assert_eq!(
        message(two_outputs, None),
        "Piper graph is invalid: node `a` must have exactly one output link"
    );

    let mut cyclic = linear_graph(vec![stage("a"), stage("b")]);
    cyclic.nodes[1].output_links = vec![0];
    assert_eq!(message(cyclic, None), "Piper graph is invalid: graph cycles are not supported");

    assert_eq!(
        message(linear_graph(vec![stage("a")]), Some(0)),
        "Piper graph is invalid: graphs without anchor nodes require a finite non-zero worker cap"
    );
    assert!(planned(linear_graph(vec![anchor(stage("a"))]), Some(0)).is_ok());
    assert_eq!(
        message(linear_graph(vec![stage("a").fixed_threads(0)]), None),
        "node thread count must be greater than 0"
    );
}

#[test]
fn returned_states_need_one_managed_producer() {
    let mut builder = Builder::new();
    let input = builder.input();
    let output: GraphLink<u32> = builder.link();
    builder.add_node_to(input, stage("a"), output);
    builder.add_node_to(input, stage("b"), output);
    assert_eq!(
        message(builder.finish_with_state::<u32, u8>(output).graph, None),
        "Piper graph is invalid: return_state requires exactly one managed node to feed `output`"
    );

    let mut builder = Builder::new();
    let input = builder.input();
    let (output, _) = builder.add_external_node::<u32, u32>(input, "e".to_string());
    assert_eq!(
        message(builder.finish_with_state::<u32, u8>(output).graph, None),
        "Piper graph is invalid: return_state requires the final output producer to be a managed node"
    );

    let (builder, output) = linear(vec![stage("a")]);
    assert_eq!(
        message(builder.finish_with_merged_state::<u32, u8>(output).graph, None),
        "node `a` does not provide a state merge function"
    );

    let (builder, output) = linear(vec![stage("a"), node_with_state_merge("m".to_string(), 2)]);
    let graph = builder.finish_with_merged_state::<u32, u8>(output).graph;
    assert_eq!(check_graph(&graph, None), Ok(Some(1)));
    let plan = planned(graph, None).unwrap();
    assert_eq!(plan.return_state_node, Some(1));
    assert!(!plan.nodes[0].return_state_on_exit);
    assert!(plan.nodes[1].return_state_on_exit);
}

#[test]
fn the_first_fault_counts() {
    let mut graph = linear_graph(vec![stage("a"), stage("b")]);
    graph.nodes[1].output_links = vec![];
    graph.nodes[0].input_link = 40;
    assert_eq!(check_graph(&graph, None), Err(GraphFault::MissingLink { node: 0 }));
    let error: PiperError<String> = fault_error(GraphFault::NodeOutputs { node: 1 }, &graph.nodes);
    assert_eq!(
        error.describe(""),
        "Piper graph is invalid: node `b` must have exactly one output link"
    );
    assert!(validate_graph_is_acyclic(&graph.nodes));
    graph.nodes[1].output_links = vec![1];
    assert!(!validate_graph_is_acyclic(&graph.nodes));
}

#[test]
fn branch_outputs_are_checked_in_turn() {
    let mut feeders = HashMap::new();
    let config = branch_config(true, 1);
    assert_eq!(validate_weighted_branch_config(&config, &vec![1, 2], 3, &feeders), None);
    feeders.insert(2, FeederLinkConfig::default());
    assert_eq!(
        validate_weighted_branch_config(&config, &vec![1, 2], 3, &feeders),
        Some(GraphFault::BranchFeeder { node: 3, link: 1 })
    );
    assert_eq!(
        validate_weighted_branch_config(&config, &vec![1], 3, &feeders),
        Some(GraphFault::BranchOutputs { node: 3 })
    );
}

#[test]
fn cycles_are_found_where_they_are() {
    assert!(!find_cycle(&vec![vec![1, 2], vec![3], vec![3], vec![]]));
    assert_eq!(first_cyclic(&vec![vec![1, 2], vec![3], vec![3], vec![]]), None);
    assert!(find_cycle(&vec![vec![1], vec![2], vec![1]]));
    assert_eq!(first_cyclic(&vec![vec![], vec![2], vec![1]]), Some(1));
    assert_eq!(first_cyclic(&vec![vec![2], vec![], vec![2]]), Some(0));
    assert!(find_cycle(&vec![vec![0]]));
}

#[test]
fn a_plan_carries_the_graph() {
    let mut builder = Builder::new();
    let input = builder.input();
    let middle = builder.add_node(input, anchor(stage("a")).scalable_threads(3, 4).with_reusable_output('q'));
    let (output, _token) = builder.add_external_node::<u32, u32>(middle, "e".to_string());
    builder.feeder_link(output, FeederLinkConfig::new(1, 2, 3));
    let plan = planned(builder.finish(output), Some(1)).unwrap();
    assert_eq!((plan.input_link, plan.output_link, plan.link_count), (0, 2, 3));
    assert_eq!(plan.external_nodes, [Some(1)]);
    assert_eq!(plan.global_worker_cap, 3);
    assert_eq!(plan.feeder_links.get(&2), Some(&FeederLinkConfig::new(1, 2, 3)));
    assert_eq!(plan.nodes[0].output_acquire, Some('q'));
    assert!(plan.nodes[0].is_anchor);
    assert!(plan.nodes[1].is_external);
    assert!(plan.nodes[1].stage.is_none());
    assert_eq!(required_base_workers(&plan.nodes), 3);
}

#[test]
fn thread_policies_follow_the_hints() {
    let resolve = |is_anchor: bool, hints: ThreadPolicyHints<f64>| {
        resolve_thread_policy::<f64, String>(is_anchor, hints, default_policy(), 6)
    };
    let none = ThreadPolicyHints::none();
    assert!(matches!(resolve(false, none), Ok(ResolvedThreadPolicy::ImplicitSupport)));
    let fixed = ThreadPolicyHints { fixed_threads: Some(3), max_threads: Some(9), ..none };
    assert!(matches!(resolve(true, fixed), Ok(ResolvedThreadPolicy::Fixed(3))));
    let zero = ThreadPolicyHints { fixed_threads: Some(0), ..none };
    assert!(matches!(resolve(false, zero), Err(PiperError::InvalidThreadCount)));
    let Ok(ResolvedThreadPolicy::Scalable(policy)) = resolve(true, none) else {
        panic!("an anchor scales");
    };
    assert_eq!((policy.initial_threads, policy.max_threads), (3, 6));
    let capped = ThreadPolicyHints { max_threads: Some(2), ..none };
    let Ok(ResolvedThreadPolicy::Scalable(policy)) = resolve(false, capped) else {
        panic!("a bound makes it scale");
    };
    assert_eq!((policy.initial_threads, policy.max_threads), (2, 2));
    let unset = ThreadPolicyHints { max_threads: Some(0), initial_threads: Some(0), ..none };
    let Ok(ResolvedThreadPolicy::Scalable(policy)) = resolve(false, unset) else {
        panic!("a bound makes it scale");
    };
    assert_eq!((policy.initial_threads, policy.max_threads), (3, 6));
}

#[test]
fn scale_policies_are_completed() {
    let policy = NodeScalePolicy { initial_threads: 0, max_threads: 5, ..default_policy() };
    let resolved = resolve_scale_policy(policy, 8);
    assert_eq!((resolved.initial_threads, resolved.max_threads), (3, 5));
    assert_eq!(resolved.target_queue_seconds, 1.0);
    assert_eq!(resolved.low_queue_seconds, 0.25);
    assert_eq!(resolved.scale_down_after, 500_000_000);
    assert_eq!(resolved.underutilized_busy_ratio, 0.35);
    let policy = NodeScalePolicy { initial_threads: 9, max_threads: 0, ..default_policy() };
    let resolved = resolve_scale_policy(policy, 8);
    assert_eq!((resolved.initial_threads, resolved.max_threads), (8, 8));
    let lone = NodeScalePolicy::for_parallelism(0, 1.0, 0.25, 1, 0.35);
    assert_eq!((lone.initial_threads, lone.max_threads), (1, 1));
}

#[test]
fn policies_show_their_numbers() {
    let fixed: ResolvedThreadPolicy<f64> = ResolvedThreadPolicy::Fixed(4);
    let scalable = ResolvedThreadPolicy::Scalable(resolve_scale_policy(default_policy(), 6));
    let support: ResolvedThreadPolicy<f64> = ResolvedThreadPolicy::ImplicitSupport;
    assert_eq!(thread_policy_kind(&fixed), NodeThreadPolicyKind::Fixed);
    assert_eq!(thread_policy_kind(&scalable), NodeThreadPolicyKind::Scalable);
    assert_eq!(thread_policy_kind(&support), NodeThreadPolicyKind::ImplicitSupport);
    assert_eq!((fixed_thread_count(&fixed), fixed_thread_count(&scalable)), (Some(4), None));
    assert_eq!((max_thread_count(&scalable), max_thread_count(&support)), (Some(6), None));
    assert_eq!(target_queue_seconds(&scalable), Some(1.0));
    assert_eq!(low_queue_seconds(&scalable), Some(0.25));
    assert_eq!(low_queue_seconds(&fixed), None);
    assert_eq!(startup_worker_count(&fixed), (4, 0));
    assert_eq!(startup_worker_count(&scalable), (1, 2));
    assert_eq!(startup_worker_count(&support), (1, 0));
}

#[test]
fn the_worker_cap_covers_every_node() {
    assert_eq!(resolve_global_worker_cap(Some(8), 2, 2, 4), 8);
    assert_eq!(resolve_global_worker_cap(Some(1), 3, 2, 4), 3);
    assert_eq!(resolve_global_worker_cap(Some(1), 3, 7, 4), 7);
    assert_eq!(resolve_global_worker_cap(None, 3, 2, 4), 8);
    assert_eq!(resolve_global_worker_cap(None, 12, 2, 4), 12);
    assert_eq!(resolve_global_worker_cap(None, 1, 1, usize::MAX), usize::MAX);
}

#[test]
fn workers_start_at_their_nodes() {
    let graph = linear_graph(vec![
        stage("a").scalable_threads(3, 4),
        stage("b").fixed_threads(2),
        stage("c"),
    ]);
    let plan = planned(graph, Some(6)).unwrap();
    assert_eq!(startup_order(&plan.nodes, plan.global_worker_cap), [0, 1, 1, 2, 0, 0]);
    assert_eq!(startup_order(&plan.nodes, 5), [0, 1, 1, 2, 0]);
    assert_eq!(startup_order(&plan.nodes, 1), [0, 1, 1, 2]);
    assert_eq!(parked_worker_target(&plan.nodes), 2);
    assert_eq!(starting_worker_count(&plan.nodes[0]), (1, 2));

    let branch = planned(branch_graph(branch_config(true, 1)), None).unwrap();
    assert_eq!(startup_order(&branch.nodes, 8), [0, 1, 2]);
    assert_eq!(parked_worker_target(&branch.nodes), 2);
    assert_eq!(starting_worker_count(&branch.nodes[0]), (1, 0));
    assert_eq!(worker_name(17), "piper-worker-17");
}

#[test]
fn external_nodes_start_no_workers() {
    let mut builder = Builder::new();
    let input = builder.input();
    let (output, _) = builder.add_external_node::<u32, u32>(input, "e".to_string());
    let plan = planned(builder.finish(output), None).unwrap();
    assert!(startup_order(&plan.nodes, 8).is_empty());
    assert_eq!(parked_worker_target(&plan.nodes), 0);
    assert_eq!(required_base_workers(&plan.nodes), 0);
    assert_eq!(plan.global_worker_cap, 12);
}

#[test]
fn configurations_have_defaults() {
    let config = PiperConfig::default();
    assert_eq!(config.sample_interval, Duration::from_millis(10));
    assert_eq!(config.poll_interval, Duration::from_millis(10));
    assert_eq!(config.global_worker_cap, None);
    assert!(config.csv_telemetry.is_none());
    let log = TelemetryLogConfig::new("a.csv");
    assert_eq!(log.path, PathBuf::from("a.csv"));
    assert_eq!(TelemetryLogConfig::new(PathBuf::from("b")).path, PathBuf::from("b"));
    assert_eq!(log.interval, Duration::from_millis(250));
    let log = log.interval(Duration::from_millis(5));
    assert_eq!(log.interval, Duration::from_millis(5));
    let logged = PiperConfig { csv_telemetry: Some(log), ..PiperConfig::default() };
    let copy = logged.clone().csv_telemetry.unwrap();
    assert_eq!(copy.path, PathBuf::from("a.csv"));
    assert_eq!(copy.interval, Duration::from_millis(5));
    let feeder = FeederLinkConfig::default();
    assert_eq!((feeder.scheduler_threads, feeder.water_low, feeder.water_high), (4, 16, 64));
}
