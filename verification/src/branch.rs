//! How a weighted branch shares items out between its two sides.

use crate::control::{gain, LinkCounts};
use vstd::prelude::*;

verus! {

/// What is remembered of one side.
#[derive(Clone, Copy, Debug)]
pub struct WeightedBranchArmState<R> {
    pub last_arrivals: u64,
    pub last_drains: u64,
    pub drain_rate_ewma: R,
    pub net_rate_ewma: R,
    pub smoothed_len: R,
    /// Whether something has waited there, or more arrived there than left.
    pub ready: bool,
}

/// One side's quantities once a sample has been smoothed in.
#[derive(Clone, Copy, Debug)]
pub struct ArmRates<R> {
    pub drain_rate_ewma: R,
    pub net_rate_ewma: R,
    pub smoothed_len: R,
    /// Whether at least one item waits there on average, or more arrive than leave.
    pub loaded: bool,
}

impl<R: Copy> WeightedBranchArmState<R> {
    /// What is known of a side at first. `zero` is the quantity nothing.
    pub fn starting(zero: R) -> (r: Self)
        ensures
            r == (WeightedBranchArmState {
                last_arrivals: 0,
                last_drains: 0,
                drain_rate_ewma: zero,
                net_rate_ewma: zero,
                smoothed_len: zero,
                ready: false,
            }),
    {
        WeightedBranchArmState {
            last_arrivals: 0,
            last_drains: 0,
            drain_rate_ewma: zero,
            net_rate_ewma: zero,
            smoothed_len: zero,
            ready: false,
        }
    }

    /// How much arrived and how much left since the sample before.
    pub fn gains(&self, counts: &LinkCounts) -> (r: (u64, u64))
        ensures
            r == (gain(self.last_arrivals, counts.arrivals), gain(self.last_drains, counts.drains)),
    {
        (
            counts.arrivals.saturating_sub(self.last_arrivals),
            counts.drains.saturating_sub(self.last_drains),
        )
    }

    /// What is remembered of the side after a sample. A side that was ready stays so.
    pub open spec fn sampled(self, counts: LinkCounts, rates: ArmRates<R>) -> Self {
        WeightedBranchArmState {
            last_arrivals: counts.arrivals,
            last_drains: counts.drains,
            drain_rate_ewma: rates.drain_rate_ewma,
            net_rate_ewma: rates.net_rate_ewma,
            smoothed_len: rates.smoothed_len,
            ready: self.ready || rates.loaded,
        }
    }

    /// Takes in a sample.
    pub fn sample_arm(&mut self, counts: &LinkCounts, rates: &ArmRates<R>)
        ensures
            *final(self) == old(self).sampled(*counts, *rates),
    {
        self.last_arrivals = counts.arrivals;
        self.last_drains = counts.drains;
        self.drain_rate_ewma = rates.drain_rate_ewma;
        self.net_rate_ewma = rates.net_rate_ewma;
        self.smoothed_len = rates.smoothed_len;
        if rates.loaded {
            self.ready = true;
        }
    }
}

/// Which side is less full for what it can hold.
#[derive(Clone, Copy, Debug, PartialEq, Eq, Structural)]
pub enum FillOrder {
    LeftLower,
    RightLower,
    /// Neither is.
    Tie,
}

/// What a branch remembers.
#[derive(Clone, Copy, Debug)]
pub struct WeightedBranchController<R> {
    pub target_queue_seconds: R,
    pub left: WeightedBranchArmState<R>,
    pub right: WeightedBranchArmState<R>,
    pub next_alternate_left: bool,
}

impl<R: Copy> WeightedBranchController<R> {
    /// A branch that has not passed anything on. `zero` is the quantity nothing.
    pub fn new(target_queue_seconds: R, zero: R) -> (r: Self)
        ensures
            r.target_queue_seconds == target_queue_seconds,
            r.next_alternate_left,
            !r.left.ready,
            !r.right.ready,
            r.left == r.right,
            r.left == (WeightedBranchArmState {
                last_arrivals: 0,
                last_drains: 0,
                drain_rate_ewma: zero,
                net_rate_ewma: zero,
                smoothed_len: zero,
                ready: false,
            }),
    {
        WeightedBranchController {
            target_queue_seconds,
            left: WeightedBranchArmState::starting(zero),
            right: WeightedBranchArmState::starting(zero),
            next_alternate_left: true,
        }
    }

    /// Whether both sides are ready.
    pub open spec fn both_ready(self) -> bool {
        self.left.ready && self.right.ready
    }

    /// Whether both sides are ready.
    pub fn arms_ready(&self) -> (r: bool)
        ensures
            r == self.both_ready(),
    {
        self.left.ready && self.right.ready
    }

    /// Whether the sides are to be sampled before the next item: always until both are ready, and
    /// once in an interval from then on.
    pub open spec fn wants_sample(self, elapsed: u128, interval: u128) -> bool {
        !self.both_ready() || elapsed >= interval
    }

    /// Whether the sides are to be sampled before the next item.
    pub fn sample_due(&self, elapsed: u128, interval: u128) -> (r: bool)
        ensures
            r == self.wants_sample(elapsed, interval),
    {
        !self.arms_ready() || elapsed >= interval
    }

    /// What the branch remembers after a sample of both sides.
    pub open spec fn sampled(
        self,
        left_counts: LinkCounts,
        left_rates: ArmRates<R>,
        right_counts: LinkCounts,
        right_rates: ArmRates<R>,
    ) -> Self {
        WeightedBranchController {
            left: self.left.sampled(left_counts, left_rates),
            right: self.right.sampled(right_counts, right_rates),
            ..self
        }
    }

    /// Takes in a sample of both sides.
    pub fn sample_arms(
        &mut self,
        left_counts: &LinkCounts,
        left_rates: &ArmRates<R>,
        right_counts: &LinkCounts,
        right_rates: &ArmRates<R>,
    )
        ensures
            *final(self) == old(self).sampled(
                *left_counts,
                *left_rates,
                *right_counts,
                *right_rates,
            ),
    {
        let mut left: WeightedBranchArmState<R> = self.left;
        left.sample_arm(left_counts, left_rates);
        self.left = left;
        let mut right: WeightedBranchArmState<R> = self.right;
        right.sample_arm(right_counts, right_rates);
        self.right = right;
    }

    /// Whether the sides take turns: they do until both are ready, and where neither is less full.
    pub open spec fn takes_turns(self, order: FillOrder) -> bool {
        !self.both_ready() || order == FillOrder::Tie
    }

    /// Whether the next item goes left.
    pub open spec fn goes_left(self, order: FillOrder) -> bool {
        if self.takes_turns(order) {
            self.next_alternate_left
        } else {
            order == FillOrder::LeftLower
        }
    }

    /// What the branch remembers once the next item was shared out.
    pub open spec fn routed(self, order: FillOrder) -> Self {
        WeightedBranchController {
            next_alternate_left: if self.takes_turns(order) {
                !self.next_alternate_left
            } else {
                self.next_alternate_left
            },
            ..self
        }
    }

    /// Decides whether the next item goes left.
    pub fn choose_route(&mut self, order: FillOrder) -> (r: bool)
        ensures
            r == old(self).goes_left(order),
            *final(self) == old(self).routed(order),
    {
        if !self.left.ready || !self.right.ready {
            let route_left: bool = self.next_alternate_left;
            self.next_alternate_left = !self.next_alternate_left;
            return route_left;
        }
        match order {
            FillOrder::LeftLower => true,
            FillOrder::RightLower => false,
            FillOrder::Tie => {
                let route_left: bool = self.next_alternate_left;
                self.next_alternate_left = !self.next_alternate_left;
                route_left
            },
        }
    }

    /// What the branch remembers once it has shared out the first `n` items.
    pub open spec fn routed_all(self, orders: Seq<FillOrder>, n: nat) -> Self
        decreases n,
    {
        if n == 0 {
            self
        } else {
            self.routed_all(orders, (n - 1) as nat).routed(orders[n - 1])
        }
    }

    /// How many of the first `n` items go left.
    pub open spec fn left_count(self, orders: Seq<FillOrder>, n: nat) -> nat
        decreases n,
    {
        if n == 0 {
            0
        } else {
            self.left_count(orders, (n - 1) as nat) + if self.routed_all(
                orders,
                (n - 1) as nat,
            ).goes_left(orders[n - 1]) {
                1nat
            } else {
                0nat
            }
        }
    }
}

/// Until both sides are ready, whatever their fill, items go by turns: of each pair of items one
/// goes left and one goes right.
pub proof fn warm_up_shares_evenly<R: Copy>(
    controller: WeightedBranchController<R>,
    orders: Seq<FillOrder>,
    n: nat,
)
    requires
        !controller.both_ready(),
        n <= orders.len(),
    ensures
        !controller.routed_all(orders, n).both_ready(),
        controller.routed_all(orders, n).next_alternate_left == (controller.next_alternate_left
            == (n % 2 == 0)),
        controller.left_count(orders, n) == if controller.next_alternate_left {
            (n + 1) / 2
        } else {
            n / 2
        },
    decreases n,
{
    if n > 0 {
        warm_up_shares_evenly(controller, orders, (n - 1) as nat);
    }
}

/// Once both sides are ready, an item goes to the side that is less full, and that does not change
/// whose turn it is.
pub proof fn ready_branch_follows_fill<R: Copy>(
    controller: WeightedBranchController<R>,
    order: FillOrder,
)
    requires
        controller.both_ready(),
        order != FillOrder::Tie,
    ensures
        controller.goes_left(order) == (order == FillOrder::LeftLower),
        controller.routed(order) == controller,
{
}

/// A branch whose sides are both ready stays ready, whatever it samples and shares out.
pub proof fn readiness_stays<R: Copy>(
    controller: WeightedBranchController<R>,
    order: FillOrder,
    left_counts: LinkCounts,
    left_rates: ArmRates<R>,
    right_counts: LinkCounts,
    right_rates: ArmRates<R>,
)
    requires
        controller.both_ready(),
    ensures
        controller.routed(order).both_ready(),
        controller.sampled(left_counts, left_rates, right_counts, right_rates).both_ready(),
{
}

} // verus!
