use piper::branch::{ArmRates, FillOrder, WeightedBranchArmState, WeightedBranchController};
use piper::control::{effective_queue_len, LinkCounts};

const DEFAULT_TARGET: f64 = 4.0;

fn virtual_capacity(drain_rate_ewma: f64, target_queue_seconds: f64) -> usize {
    (drain_rate_ewma * target_queue_seconds).ceil().max(1.0) as usize
}

fn rounded_up(smoothed_len: f64) -> usize {
    if smoothed_len.is_finite() && smoothed_len > 0.0 {
        smoothed_len.ceil() as usize
    } else {
        0
    }
}

fn fill_ratio(arm: &WeightedBranchArmState<f64>, observed: usize, target: f64) -> f64 {
    let len = effective_queue_len(observed, rounded_up(arm.smoothed_len));
    len as f64 / virtual_capacity(arm.drain_rate_ewma, target).max(1) as f64
}

fn route(controller: &mut WeightedBranchController<f64>, left_len: usize, right_len: usize) -> bool {
    let left = fill_ratio(&controller.left, left_len, controller.target_queue_seconds);
    let right = fill_ratio(&controller.right, right_len, controller.target_queue_seconds);
    let order = if left < right {
        FillOrder::LeftLower
    } else if right < left {
        FillOrder::RightLower
    } else {
        FillOrder::Tie
    };
    controller.choose_route(order)
}

fn default_controller() -> WeightedBranchController<f64> {
    WeightedBranchController::new(DEFAULT_TARGET, 0.0)
}

fn ready_controller(left_drain: f64, right_drain: f64) -> WeightedBranchController<f64> {
    let mut controller = default_controller();
    controller.left.ready = true;
    controller.right.ready = true;
    controller.left.drain_rate_ewma = left_drain;
    controller.right.drain_rate_ewma = right_drain;
    controller
}

fn counts(arrivals: u64, drains: u64, queue_len: usize) -> LinkCounts {
    LinkCounts { arrivals, drains, queue_len: Some(queue_len) }
}

fn idle_rates() -> ArmRates<f64> {
    ArmRates { drain_rate_ewma: 0.0, net_rate_ewma: 0.0, smoothed_len: 0.0, loaded: false }
}

fn busy_rates() -> ArmRates<f64> {
    ArmRates { drain_rate_ewma: 3.0, net_rate_ewma: 1.5, smoothed_len: 2.0, loaded: true }
}

#[test]
fn weighted_branch_warmup_alternates_left_and_right() {
    let mut controller = default_controller();
    assert!(route(&mut controller, 0, 0));
    assert!(!route(&mut controller, 0, 0));
    assert!(route(&mut controller, 0, 0));
}

#[test]
fn weighted_branch_one_ready_arm_stays_in_warmup() {
    let mut controller = default_controller();
    controller.left.ready = true;
    assert!(route(&mut controller, 0, 0));
    assert!(!route(&mut controller, 0, 0));
}

#[test]
fn weighted_branch_both_ready_uses_fill_ratio() {
    let mut controller = ready_controller(10.0, 1.0);
    assert!(route(&mut controller, 0, 10));
    assert!(!route(&mut controller, 10, 0));
}

#[test]
fn weighted_branch_empty_observed_queue_ignores_stale_smoothed_len() {
    let mut controller = ready_controller(10.0, 10.0);
    controller.left.smoothed_len = 0.0;
    controller.right.smoothed_len = 10.0;
    controller.next_alternate_left = false;

    assert!(!route(&mut controller, 0, 0));
}

#[test]
fn weighted_branch_nonempty_observed_queue_keeps_smoothed_backlog_penalty() {
    let mut controller = ready_controller(10.0, 10.0);
    controller.left.smoothed_len = 0.0;
    controller.right.smoothed_len = 10.0;

    assert!(route(&mut controller, 0, 1));
}

#[test]
fn weighted_branch_lower_fill_ratio_is_chosen() {
    let mut controller = ready_controller(10.0, 10.0);
    assert!(route(&mut controller, 1, 8));
    assert!(!route(&mut controller, 8, 1));
}

#[test]
fn weighted_branch_drain_rate_ewma_affects_later_routing() {
    let mut controller = ready_controller(10.0, 10.0);
    assert!(!route(&mut controller, 8, 1));
    controller.left.drain_rate_ewma = 100.0;
    assert!(route(&mut controller, 8, 1));
}

#[test]
fn even_fill_of_ready_arms_alternates() {
    let mut controller = ready_controller(10.0, 10.0);
    assert!(route(&mut controller, 3, 3));
    assert!(!route(&mut controller, 3, 3));
    assert!(route(&mut controller, 3, 3));
}

#[test]
fn fill_decides_without_spending_the_turn() {
    let mut controller = ready_controller(10.0, 10.0);
    assert!(controller.choose_route(FillOrder::LeftLower));
    assert!(controller.next_alternate_left);
    assert!(!controller.choose_route(FillOrder::RightLower));
    assert!(controller.next_alternate_left);
}

#[test]
fn warm_up_shares_items_evenly() {
    let mut controller = default_controller();
    let left = (0..100).filter(|_| controller.choose_route(FillOrder::RightLower)).count();
    assert_eq!(left, 50);
}

#[test]
fn a_sample_keeps_the_counters_it_saw() {
    let mut controller = default_controller();
    controller.sample_arms(&counts(7, 4, 3), &busy_rates(), &counts(5, 5, 0), &idle_rates());
    assert_eq!(controller.left.last_arrivals, 7);
    assert_eq!(controller.left.last_drains, 4);
    assert_eq!(controller.left.drain_rate_ewma, 3.0);
    assert_eq!(controller.left.net_rate_ewma, 1.5);
    assert_eq!(controller.left.smoothed_len, 2.0);
    assert_eq!(controller.left.gains(&counts(10, 4, 6)), (3, 0));
    assert_eq!(controller.left.gains(&counts(6, 9, 0)), (0, 5));
    assert!(controller.left.ready);
    assert!(!controller.right.ready);
    assert!(!controller.arms_ready());
}

#[test]
fn a_ready_arm_stays_ready() {
    let mut controller = default_controller();
    controller.sample_arms(&counts(1, 0, 1), &busy_rates(), &counts(1, 0, 1), &busy_rates());
    assert!(controller.arms_ready());
    controller.sample_arms(&counts(1, 1, 0), &idle_rates(), &counts(1, 1, 0), &idle_rates());
    assert!(controller.arms_ready());
}

#[test]
fn samples_are_due_until_both_arms_are_ready() {
    let controller = default_controller();
    assert!(controller.sample_due(0, 1_000));
    let ready = ready_controller(1.0, 1.0);
    assert!(!ready.sample_due(999, 1_000));
    assert!(ready.sample_due(1_000, 1_000));
}

#[test]
fn effective_queue_len_of_an_empty_queue_is_zero() {
    assert_eq!(effective_queue_len(0, 10), 0);
    assert_eq!(effective_queue_len(1, 10), 10);
    assert_eq!(effective_queue_len(8, 3), 8);
}
