use piper::control::{
    classify_queue_trend, sample_links, LinkControl, LinkCounts, LinkRates, NodeControl, RateBand,
};
use piper::graph::ManagedStage;
use piper::plan::RuntimeNode;
use piper::policy::{ResolvedScalePolicy, ResolvedThreadPolicy};
use piper::scaling::{
    choose_scale_operation, link_underfeeds_node, node_can_scale, LoadReading, ScaleOperation,
    Standing,
};
use piper::snapshot::{AnchorPressureReason, NodeScalingState, QueueTrend};

const NANOS_PER_MILLI: u128 = 1_000_000;

fn standing(value: f64, limit: f64) -> Standing {
    if value <= limit {
        Standing::AtMost
    } else if value > limit {
        Standing::Above
    } else {
        Standing::Unordered
    }
}

fn band(arrival_rate: f64, drain_rate: f64, net_rate: f64) -> RateBand {
    let ratio = net_rate / arrival_rate.max(drain_rate).max(1.0);
    if ratio <= -0.45 {
        RateBand::FastDrain
    } else if ratio <= -0.12 {
        RateBand::Drain
    } else if ratio >= 0.85 {
        RateBand::Runaway
    } else if ratio >= 0.45 {
        RateBand::FastGrow
    } else if ratio >= 0.12 {
        RateBand::Grow
    } else {
        RateBand::Even
    }
}

fn trend(len: usize, previous_len: usize, arrival_rate: f64, drain_rate: f64, net_rate: f64) -> QueueTrend {
    classify_queue_trend(
        len,
        previous_len,
        arrival_rate + drain_rate < 0.01,
        band(arrival_rate, drain_rate, net_rate),
    )
}

fn readings(controls: &[NodeControl<f64>]) -> Vec<LoadReading> {
    controls
        .iter()
        .map(|control| {
            let (target, low) = match control.thread_policy {
                ResolvedThreadPolicy::Scalable(policy) => {
                    (policy.target_queue_seconds, policy.low_queue_seconds)
                }
                _ => (1.0, 0.0),
            };
            LoadReading {
                backlog_to_target: standing(control.backlog_seconds, target),
                backlog_to_low: standing(control.backlog_seconds, low),
                seldom_busy: control.busy_ratio <= 0.60,
            }
        })
        .collect()
}

fn support_control() -> NodeControl<f64> {
    NodeControl {
        is_external: false,
        is_weighted_branch: false,
        is_anchor: false,
        thread_policy: ResolvedThreadPolicy::ImplicitSupport,
        processed_count: 0,
        busy_ratio: 0.0,
        service_time_ewma: 1_000_000.0,
        per_worker_throughput: 1_000.0,
        desired_workers: 1,
        backlog_seconds: 0.0,
        last_sample_processed: 0,
        scaling_state: NodeScalingState::Eligible,
        settling: false,
        settle_samples: 0,
        settle_observed_work: false,
        scale_down_eligible_since: None,
        last_anchor_pressure_reason: None,
        last_operation: None,
    }
}

fn scale_policy(max_threads: usize) -> ResolvedScalePolicy<f64> {
    ResolvedScalePolicy {
        initial_threads: 1,
        max_threads,
        target_queue_seconds: 1.0,
        low_queue_seconds: 0.25,
        scale_down_after: 500 * NANOS_PER_MILLI,
        underutilized_busy_ratio: 0.35,
    }
}

fn scalable_control(max_threads: usize) -> NodeControl<f64> {
    NodeControl {
        is_anchor: true,
        thread_policy: ResolvedThreadPolicy::Scalable(scale_policy(max_threads)),
        busy_ratio: 0.8,
        desired_workers: max_threads,
        ..support_control()
    }
}

fn link(trend: QueueTrend) -> LinkControl<f64> {
    LinkControl {
        trend,
        len: if trend.is_growing() { 8 } else { 0 },
        previous_len: 4,
        arrival_rate: if trend.is_growing() { 100.0 } else { 10.0 },
        drain_rate: if trend.is_draining() { 100.0 } else { 10.0 },
        net_rate: if trend.is_growing() {
            90.0
        } else if trend.is_draining() {
            -90.0
        } else {
            0.0
        },
        ..LinkControl::starting(0.0)
    }
}

fn linear_runtime_nodes(count: usize) -> Vec<RuntimeNode<u8, u8, f64>> {
    (0..count)
        .map(|index| RuntimeNode {
            name: format!("node{index}"),
            stage: Some(ManagedStage { handle: 0, merges_state: false }),
            output_acquire: None,
            is_anchor: false,
            thread_policy: ResolvedThreadPolicy::ImplicitSupport,
            input_link: index,
            output_links: vec![index + 1],
            weighted_branch_config: None,
            is_external: false,
            external_index: None,
            return_state_on_exit: false,
        })
        .collect()
}

fn linear_runtime_nodes_with_anchor(count: usize, anchor_index: usize) -> Vec<RuntimeNode<u8, u8, f64>> {
    let mut nodes = linear_runtime_nodes(count);
    nodes[anchor_index].is_anchor = true;
    nodes[anchor_index].thread_policy = ResolvedThreadPolicy::Scalable(scale_policy(4));
    nodes
}

fn pick(
    links: &Vec<LinkControl<f64>>,
    active: &Vec<Vec<usize>>,
    controls: &mut Vec<NodeControl<f64>>,
    nodes: &Vec<RuntimeNode<u8, u8, f64>>,
    output_link: usize,
    cap: usize,
    now: u128,
) -> Option<ScaleOperation> {
    let readings = readings(controls);
    choose_scale_operation(links, active, controls, &readings, nodes, output_link, cap, now)
}

#[test]
fn queue_trend_classification_distinguishes_stable_empty_from_starved() {
    assert_eq!(trend(0, 0, 0.0, 0.0, 0.0), QueueTrend::Starved);
    assert_eq!(trend(0, 0, 100.0, 100.0, 0.0), QueueTrend::Stable);
    assert_eq!(trend(20, 10, 100.0, 10.0, 90.0), QueueTrend::Runaway);
    assert_eq!(trend(2, 20, 10.0, 100.0, -90.0), QueueTrend::FastDraining);
}

#[test]
fn queue_trend_classification_covers_every_band() {
    assert_eq!(classify_queue_trend(5, 6, false, RateBand::Drain), QueueTrend::Draining);
    assert_eq!(classify_queue_trend(5, 6, false, RateBand::Runaway), QueueTrend::FastGrowing);
    assert_eq!(classify_queue_trend(7, 6, false, RateBand::FastGrow), QueueTrend::FastGrowing);
    assert_eq!(classify_queue_trend(7, 6, false, RateBand::Grow), QueueTrend::Growing);
    assert_eq!(classify_queue_trend(8, 6, false, RateBand::Even), QueueTrend::Stable);
    assert_eq!(classify_queue_trend(9, 6, false, RateBand::Even), QueueTrend::Growing);
    assert_eq!(classify_queue_trend(3, 9, false, RateBand::Even), QueueTrend::Stable);
    assert_eq!(classify_queue_trend(0, 9, true, RateBand::Grow), QueueTrend::Starved);
}

#[test]
fn merging_state_blocks_more_scale_decisions() {
    let mut control = scalable_control(4);
    assert!(node_can_scale(&control));
    control.scaling_state = NodeScalingState::Merging;
    assert!(!node_can_scale(&control));
}

#[test]
fn link_sampling_tracks_rates_and_numeric_trends() {
    let mut controls = vec![LinkControl::starting(0.0_f64)];
    let counts = vec![LinkCounts { arrivals: 10, drains: 0, queue_len: Some(10) }];
    let (arrived, drained) = controls[0].gains(&counts[0]);
    let arrival_rate = arrived as f64 / 1.0;
    let drain_rate = drained as f64 / 1.0;
    let net_rate = arrival_rate - drain_rate;
    let rates = vec![LinkRates {
        arrival_rate,
        drain_rate,
        net_rate,
        smoothed_len: 10.0,
        idle: arrival_rate + drain_rate < 0.01,
        band: band(arrival_rate, drain_rate, net_rate),
    }];
    sample_links(&counts, &rates, &mut controls);

    assert_eq!(controls[0].arrival_rate, 10.0);
    assert_eq!(controls[0].drain_rate, 0.0);
    assert!(controls[0].trend.is_growing());
    assert_eq!(QueueTrend::Runaway.code(), 6);
    assert_eq!(controls[0].last_arrivals, 10);
    assert_eq!(controls[0].len, 10);
    assert_eq!(controls[0].previous_len, 0);
    let later = LinkCounts { arrivals: 12, drains: 3, queue_len: None };
    assert_eq!(controls[0].gains(&later), (2, 3));
    let back = LinkCounts { arrivals: 4, drains: 0, queue_len: None };
    assert_eq!(controls[0].gains(&back), (0, 0));
}

#[test]
fn growing_internal_link_adds_consumer() {
    let active = vec![vec![0], vec![1]];
    let links =
        vec![link(QueueTrend::Stable), link(QueueTrend::Growing), link(QueueTrend::Stable)];
    let mut controls = vec![scalable_control(1), support_control()];
    controls[1].desired_workers = 2;
    let nodes = linear_runtime_nodes(active.len());

    assert!(matches!(
        pick(&links, &active, &mut controls, &nodes, 2, 4, 0),
        Some(ScaleOperation::Add { node_index: 1 })
    ));
}

#[test]
fn draining_anchor_input_adds_nearest_upstream_producer() {
    let active = vec![vec![0], vec![1], vec![2, 3]];
    let links = vec![
        link(QueueTrend::Stable),
        link(QueueTrend::Stable),
        link(QueueTrend::Draining),
        link(QueueTrend::Stable),
    ];
    let mut controls = vec![support_control(), support_control(), scalable_control(4)];
    controls[1].desired_workers = 2;
    controls[2].busy_ratio = 0.8;
    let nodes = linear_runtime_nodes_with_anchor(active.len(), 2);

    assert!(matches!(
        pick(&links, &active, &mut controls, &nodes, 3, 6, 0),
        Some(ScaleOperation::Add { node_index: 1, .. })
    ));
    assert_eq!(
        controls[2].last_anchor_pressure_reason,
        Some(AnchorPressureReason::InputUnderfed)
    );
}

#[test]
fn global_cap_full_reduces_anchor_before_support_growth() {
    let active = vec![vec![0, 1], vec![2]];
    let links =
        vec![link(QueueTrend::Stable), link(QueueTrend::Growing), link(QueueTrend::Stable)];
    let mut controls = vec![scalable_control(4), support_control()];
    controls[1].desired_workers = 2;
    let nodes = linear_runtime_nodes(active.len());

    assert!(matches!(
        pick(&links, &active, &mut controls, &nodes, 2, 3, 0),
        Some(ScaleOperation::Remove { node_index: 0, .. })
    ));
    assert_eq!(
        controls[0].last_anchor_pressure_reason,
        Some(AnchorPressureReason::BudgetPressure)
    );
}

#[test]
fn output_growth_blocks_scale_up() {
    let active = vec![vec![0], vec![1]];
    let links =
        vec![link(QueueTrend::Stable), link(QueueTrend::Stable), link(QueueTrend::Growing)];
    let mut controls = vec![scalable_control(4)];
    controls[0].backlog_seconds = 2.0;
    controls[0].desired_workers = 3;
    let nodes = linear_runtime_nodes(active.len());

    assert!(pick(&links, &active, &mut controls, &nodes, 2, 8, 0).is_none());
}

#[test]
fn scalable_node_with_backlog_gets_a_worker_first() {
    let active = vec![vec![0], vec![1]];
    let links =
        vec![link(QueueTrend::Stable), link(QueueTrend::Growing), link(QueueTrend::Stable)];
    let mut controls = vec![scalable_control(4), support_control()];
    controls[0].backlog_seconds = 2.0;
    controls[1].desired_workers = 2;
    let nodes = linear_runtime_nodes(active.len());
    // What stands behind the first node grows, so the second one is helped.
    assert_eq!(
        pick(&links, &active, &mut controls, &nodes, 2, 8, 0),
        Some(ScaleOperation::Add { node_index: 1 })
    );
    let calm = vec![link(QueueTrend::Stable), link(QueueTrend::Stable), link(QueueTrend::Stable)];
    assert_eq!(
        pick(&calm, &active, &mut controls, &nodes, 2, 8, 0),
        Some(ScaleOperation::Add { node_index: 0 })
    );
    // No more than the cap.
    assert_eq!(pick(&calm, &active, &mut controls, &nodes, 2, 2, 0), None);
}

#[test]
fn idle_scalable_node_loses_a_worker_after_its_time() {
    let active = vec![vec![0, 1]];
    let links = vec![link(QueueTrend::Stable), link(QueueTrend::Stable)];
    let mut controls = vec![scalable_control(4)];
    controls[0].desired_workers = 1;
    controls[0].scale_down_eligible_since = Some(1_000);
    let nodes = linear_runtime_nodes_with_anchor(1, 0);
    let early = 1_000 + 500 * NANOS_PER_MILLI - 1;
    assert_eq!(pick(&links, &active, &mut controls, &nodes, 1, 8, early), None);
    assert_eq!(
        pick(&links, &active, &mut controls, &nodes, 1, 8, early + 1),
        Some(ScaleOperation::Remove { node_index: 0, worker_id: None })
    );
    // The last worker stays.
    let alone = vec![vec![0]];
    assert_eq!(pick(&links, &alone, &mut controls, &nodes, 1, 8, early + 1), None);
}

#[test]
fn underfeeding_depends_on_trend_and_length() {
    let mut control = link(QueueTrend::Draining);
    control.len = 4;
    assert!(link_underfeeds_node(&control, 2, Standing::AtMost));
    control.len = 5;
    assert!(!link_underfeeds_node(&control, 2, Standing::AtMost));
    assert!(link_underfeeds_node(&link(QueueTrend::Starved), 0, Standing::AtMost));
    assert!(!link_underfeeds_node(&link(QueueTrend::Starved), 0, Standing::Above));
    assert!(!link_underfeeds_node(&link(QueueTrend::FastDraining), 1, Standing::Unordered));
    assert!(link_underfeeds_node(&link(QueueTrend::FastDraining), 1, Standing::AtMost));
    assert!(!link_underfeeds_node(&link(QueueTrend::Growing), 1, Standing::AtMost));
}
