//! How a weighted branch shares items out.

use crate::branch::{ArmRates, FillOrder, WeightedBranchArmState, WeightedBranchController};
use crate::control::LinkCounts;
use vstd::prelude::*;

verus! {

/// Whether the side remembers these counts and rates.
pub open spec fn remembers<R>(
    arm: WeightedBranchArmState<R>,
    counts: LinkCounts,
    rates: ArmRates<R>,
) -> bool {
    &&& arm.last_arrivals == counts.arrivals
    &&& arm.last_drains == counts.drains
    &&& arm.drain_rate_ewma == rates.drain_rate_ewma
    &&& arm.net_rate_ewma == rates.net_rate_ewma
    &&& arm.smoothed_len == rates.smoothed_len
}

/// After a sample a side remembers what was measured there, and is ready if it was or is now loaded.
pub proof fn side_remembers_sample<R: Copy>(
    arm: &mut WeightedBranchArmState<R>,
    counts: &LinkCounts,
    rates: &ArmRates<R>,
)
    requires
        call_ensures(WeightedBranchArmState::<R>::sample_arm, (arm, counts, rates), ()),
    ensures
        remembers(*final(arm), *counts, *rates),
        final(arm).ready <==> old(arm).ready || rates.loaded,
{
}

/// After a sample of both sides each side remembers its own measurements, and becomes ready by its own
/// load alone. Whose turn it is, and what the branch aims at, stay.
pub proof fn each_side_remembers_its_own<R: Copy>(
    controller: &mut WeightedBranchController<R>,
    left_counts: &LinkCounts,
    left_rates: &ArmRates<R>,
    right_counts: &LinkCounts,
    right_rates: &ArmRates<R>,
)
    requires
        call_ensures(
            WeightedBranchController::<R>::sample_arms,
            (controller, left_counts, left_rates, right_counts, right_rates),
            (),
        ),
    ensures
        remembers(final(controller).left, *left_counts, *left_rates),
        remembers(final(controller).right, *right_counts, *right_rates),
        final(controller).left.ready <==> old(controller).left.ready || left_rates.loaded,
        final(controller).right.ready <==> old(controller).right.ready || right_rates.loaded,
        final(controller).next_alternate_left == old(controller).next_alternate_left,
        final(controller).target_queue_seconds == old(controller).target_queue_seconds,
{
}

/// How a branch remembers one side after a sample does not depend on what was measured on the other.
pub proof fn sides_do_not_mix<R: Copy>(
    controller: WeightedBranchController<R>,
    left_counts: LinkCounts,
    left_rates: ArmRates<R>,
    right_counts: LinkCounts,
    right_rates: ArmRates<R>,
    other_counts: LinkCounts,
    other_rates: ArmRates<R>,
)
    ensures
        ({
            let both = controller.sampled(left_counts, left_rates, right_counts, right_rates);
            let other_right = controller.sampled(
                left_counts,
                left_rates,
                other_counts,
                other_rates,
            );
            let other_left = controller.sampled(
                other_counts,
                other_rates,
                right_counts,
                right_rates,
            );
            both.left == other_right.left && both.right == other_left.right
        }),
        remembers(
            controller.sampled(left_counts, left_rates, right_counts, right_rates).left,
            left_counts,
            left_rates,
        ),
        remembers(
            controller.sampled(left_counts, left_rates, right_counts, right_rates).right,
            right_counts,
            right_rates,
        ),
{
}

/// What arrived and left since the sample before is what the counts rose by; a count that fell back
/// adds nothing.
pub proof fn gains_are_differences<R: Copy>(
    arm: &WeightedBranchArmState<R>,
    counts: &LinkCounts,
    r: (u64, u64),
)
    requires
        call_ensures(WeightedBranchArmState::<R>::gains, (arm, counts), r),
    ensures
        counts.arrivals >= arm.last_arrivals ==> r.0 == counts.arrivals - arm.last_arrivals,
        counts.arrivals < arm.last_arrivals ==> r.0 == 0,
        counts.drains >= arm.last_drains ==> r.1 == counts.drains - arm.last_drains,
        counts.drains < arm.last_drains ==> r.1 == 0,
{
}

/// A branch begins with the left side, with nothing known of either.
pub proof fn branch_begins_on_the_left<R: Copy>(
    target_queue_seconds: R,
    zero: R,
    r: WeightedBranchController<R>,
)
    requires
        call_ensures(WeightedBranchController::<R>::new, (target_queue_seconds, zero), r),
    ensures
        r.target_queue_seconds == target_queue_seconds,
        r.next_alternate_left,
        !r.left.ready && !r.right.ready,
        r.left.last_arrivals == 0 && r.right.last_arrivals == 0,
        r.left.last_drains == 0 && r.right.last_drains == 0,
        r.left.drain_rate_ewma == zero && r.right.drain_rate_ewma == zero,
        r.left.net_rate_ewma == zero && r.right.net_rate_ewma == zero,
        r.left.smoothed_len == zero && r.right.smoothed_len == zero,
{
}

/// The sides are sampled before every item until both are ready, and from then on once an interval has
/// passed.
pub proof fn sides_are_sampled_in_time<R: Copy>(
    controller: &WeightedBranchController<R>,
    elapsed: u128,
    interval: u128,
    ready: bool,
    due: bool,
)
    requires
        call_ensures(WeightedBranchController::<R>::arms_ready, (controller,), ready),
        call_ensures(
            WeightedBranchController::<R>::sample_due,
            (controller, elapsed, interval),
            due,
        ),
    ensures
        ready <==> controller.left.ready && controller.right.ready,
        !due <==> controller.left.ready && controller.right.ready && elapsed < interval,
{
}

/// An item goes to the side that is less full where both sides are ready and one of them is; otherwise
/// it goes to the side whose turn it is, and then it is the other side's turn. Nothing else changes.
pub proof fn items_go_where_there_is_room<R: Copy>(
    controller: &mut WeightedBranchController<R>,
    order: FillOrder,
    r: bool,
)
    requires
        call_ensures(WeightedBranchController::<R>::choose_route, (controller, order), r),
    ensures
        ({
            let compared = old(controller).left.ready && old(controller).right.ready && (order
                == FillOrder::LeftLower || order == FillOrder::RightLower);
            &&& compared ==> (r <==> order == FillOrder::LeftLower)
            &&& compared ==> final(controller).next_alternate_left == old(
                controller,
            ).next_alternate_left
            &&& !compared ==> r == old(controller).next_alternate_left
            &&& !compared ==> final(controller).next_alternate_left != old(
                controller,
            ).next_alternate_left
        }),
        final(controller).left == old(controller).left,
        final(controller).right == old(controller).right,
        final(controller).target_queue_seconds == old(controller).target_queue_seconds,
{
}

} // verus!
