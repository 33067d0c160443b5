//! When a change of the number of workers is due, and which.

use crate::control::{LinkControl, NodeControl};
use crate::plan::RuntimeNode;
use crate::policy::ResolvedThreadPolicy;
use crate::scaling::{
    active_total, active_worker_count, choose_scale_operation, downstream_blocks_scale_up,
    first_from, first_from_is_first, link_underfeeds_node, node_can_scale, Load, LoadReading,
    ScaleOperation, Standing,
};
use crate::snapshot::{AnchorPressureReason, NodeScalingState, QueueTrend};
use vstd::prelude::*;

verus! {

/// Whether what waits gets more.
pub open spec fn rising(trend: QueueTrend) -> bool {
    match trend {
        QueueTrend::Growing | QueueTrend::FastGrowing | QueueTrend::Runaway => true,
        QueueTrend::Starved | QueueTrend::FastDraining | QueueTrend::Draining | QueueTrend::Stable =>
        false,
    }
}

/// All workers that are active, node by node.
pub open spec fn workforce(active: Seq<Vec<usize>>) -> Seq<usize> {
    active.map_values(|list: Vec<usize>| list@).flatten()
}

/// The workers that are counted as active are those on the nodes' lists, each as often as it is there.
pub proof fn total_counts_the_lists(active: Seq<Vec<usize>>)
    ensures
        active_total(active, active.len()) == workforce(active).len(),
    decreases active.len(),
{
    let lists = active.map_values(|list: Vec<usize>| list@);
    if active.len() > 0 {
        let before = active.drop_last();
        total_counts_the_lists(before);
        total_of_first(active, before, before.len());
        assert(lists == before.map_values(|list: Vec<usize>| list@).push(active.last()@));
        before.map_values(|list: Vec<usize>| list@).lemma_flatten_push(active.last()@);
    } else {
        assert(lists.len() == 0);
    }
}

proof fn total_of_first(a: Seq<Vec<usize>>, b: Seq<Vec<usize>>, n: nat)
    requires
        n <= a.len(),
        n <= b.len(),
        forall|i: int| 0 <= i < n ==> a[i] == b[i],
    ensures
        active_total(a, n) == active_total(b, n),
    decreases n,
{
    if n > 0 {
        total_of_first(a, b, (n - 1) as nat);
    }
}

/// The count of active workers is the length of all the nodes' lists together.
pub proof fn every_active_worker_is_counted(active_by_node: &Vec<Vec<usize>>, r: usize)
    requires
        call_ensures(active_worker_count, (active_by_node,), r),
    ensures
        r == workforce(active_by_node@).len(),
{
    total_counts_the_lists(active_by_node@);
}

/// Whether the node is one whose workers are counted by load, and is not just being changed.
pub open spec fn adjustable<R>(control: NodeControl<R>) -> bool {
    &&& !control.is_external
    &&& !control.is_weighted_branch
    &&& control.thread_policy is Scalable || control.thread_policy is ImplicitSupport
    &&& !control.settling
    &&& control.scaling_state == NodeScalingState::Eligible || control.scaling_state
        == NodeScalingState::BackingOff
}

/// A node may be changed exactly where it is run by workers of the pipeline, is no branch, has no
/// fixed number of them, and neither settles nor merges.
pub proof fn changing_nodes_are_left_alone<R>(control: &NodeControl<R>, r: bool)
    requires
        call_ensures(node_can_scale::<R>, (control,), r),
    ensures
        r == adjustable(*control),
{
}

/// More workers are held back exactly where more and more waits at the end of the pipeline, or on the
/// first link that the node fills.
pub proof fn full_links_hold_back<S, A, R>(
    links: &Vec<LinkControl<R>>,
    nodes: &Vec<RuntimeNode<S, A, R>>,
    node_index: usize,
    output_link: usize,
    r: bool,
)
    requires
        call_ensures(
            downstream_blocks_scale_up::<S, A, R>,
            (links, nodes, node_index, output_link),
            r,
        ),
    ensures
        r <==> rising(links@[output_link as int].trend) || rising(
            links@[nodes@[node_index as int].output_links@[0] as int].trend,
        ),
{
}

/// What counts as too little for a node: never where its backlog is above the target; otherwise always
/// on a starved link, and on a link that drains where at most two items wait for each worker, or one
/// in all. A link that drains fast must also be known to hold no more than the target.
pub open spec fn starves(trend: QueueTrend, len: int, workers: int, to_target: Standing) -> bool {
    &&& to_target != Standing::Above
    &&& trend == QueueTrend::Starved || len <= 1 || len <= 2 * workers
    &&& trend == QueueTrend::Starved || trend == QueueTrend::Draining || trend
        == QueueTrend::FastDraining && to_target == Standing::AtMost
}

/// A link feeds a node too little exactly where `starves` says so.
pub proof fn short_queues_underfeed<R>(
    link: &LinkControl<R>,
    active_threads: usize,
    to_target: Standing,
    r: bool,
)
    requires
        call_ensures(link_underfeeds_node::<R>, (link, active_threads, to_target), r),
    ensures
        r == starves(link.trend, link.len as int, active_threads as int, to_target),
{
}

/// Whether more and more waits at the end of the pipeline, or on the first link that the node fills.
pub open spec fn held_back<S, A, R>(load: Load<S, A, R>, i: int) -> bool {
    ||| rising(load.links[load.output_link].trend)
    ||| rising(load.links[load.nodes[i].output_links@[0] as int].trend)
}

/// Whether there is room for another worker.
pub open spec fn has_room<S, A, R>(load: Load<S, A, R>) -> bool {
    workforce(load.active).len() < load.worker_cap
}

/// Whether the node has fewer workers than it should have, and is neither being changed nor held back.
pub open spec fn can_use_more<S, A, R>(load: Load<S, A, R>, i: int) -> bool {
    &&& load.active[i]@.len() < load.controls[i].desired_workers
    &&& adjustable(load.controls[i])
    &&& !held_back(load, i)
}

/// Whether the node, by a policy of its own, is due a worker.
pub open spec fn due<S, A, R>(load: Load<S, A, R>, i: int) -> bool {
    &&& load.controls[i].thread_policy matches ResolvedThreadPolicy::Scalable(policy)
        && load.active[i]@.len() < policy.max_threads
    &&& can_use_more(load, i)
    &&& load.readings[i].backlog_to_target != Standing::AtMost || rising(
        load.links[load.nodes[i].input_link as int].trend,
    )
}

/// Whether the node has no policy of its own, its queue gets longer, and it can use a worker.
pub open spec fn lags<S, A, R>(load: Load<S, A, R>, i: int) -> bool {
    &&& load.controls[i].thread_policy is ImplicitSupport
    &&& rising(load.links[load.nodes[i].input_link as int].trend)
    &&& can_use_more(load, i)
}

/// Whether `i` is the lagging node that is helped first: the one whose queue has the lowest number,
/// and of those the first.
pub open spec fn lags_first<S, A, R>(load: Load<S, A, R>, i: int) -> bool {
    &&& 0 <= i < load.nodes.len()
    &&& lags(load, i)
    &&& forall|j: int|
        0 <= j < load.nodes.len() && #[trigger] lags(load, j) ==> load.nodes[i].input_link
            < load.nodes[j].input_link || (load.nodes[i].input_link == load.nodes[j].input_link && i
            <= j)
}

/// Whether the anchor can spare a worker for another node.
pub open spec fn spares<S, A, R>(load: Load<S, A, R>, node: int, anchor: int) -> bool {
    &&& anchor != node
    &&& load.controls[anchor].is_anchor
    &&& load.controls[anchor].thread_policy is Scalable
    &&& adjustable(load.controls[anchor])
    &&& load.active[anchor]@.len() >= 2
}

/// Whether `anchor` is the first that can spare a worker for the node.
pub open spec fn spares_first<S, A, R>(load: Load<S, A, R>, node: int, anchor: int) -> bool {
    &&& 0 <= anchor < load.controls.len()
    &&& spares(load, node, anchor)
    &&& forall|j: int| 0 <= j < anchor ==> !#[trigger] spares(load, node, j)
}

/// Whether the anchor's workers are busy and too little waits for them.
pub open spec fn hungry<S, A, R>(load: Load<S, A, R>, anchor: int) -> bool {
    let link = load.links[load.nodes[anchor].input_link as int];
    &&& load.controls[anchor].is_anchor
    &&& !load.readings[anchor].seldom_busy
    &&& starves(
        link.trend,
        link.len as int,
        load.active[anchor]@.len() as int,
        load.readings[anchor].backlog_to_target,
    )
}

/// Whether one more worker at the node can get the anchor more to do: the node fills the anchor's queue,
/// its own queue is not starved, and it can use a worker.
pub open spec fn can_feed<S, A, R>(load: Load<S, A, R>, anchor: int, i: int) -> bool {
    &&& load.nodes[i].output_links@.contains(load.nodes[anchor].input_link)
    &&& load.links[load.nodes[i].input_link as int].trend != QueueTrend::Starved
    &&& can_use_more(load, i)
}

/// Whether the anchor is hungry and some node can feed it.
pub open spec fn pleads<S, A, R>(load: Load<S, A, R>, anchor: int) -> bool {
    hungry(load, anchor) && exists|i: int|
        0 <= i < load.nodes.len() && #[trigger] can_feed(load, anchor, i)
}

/// Whether `anchor` is the first that is hungry and can be fed, and `i` the first node that can feed it.
pub open spec fn feeds_first<S, A, R>(load: Load<S, A, R>, anchor: int, i: int) -> bool {
    &&& 0 <= anchor < load.controls.len()
    &&& 0 <= i < load.nodes.len()
    &&& hungry(load, anchor)
    &&& can_feed(load, anchor, i)
    &&& forall|j: int| 0 <= j < i ==> !#[trigger] can_feed(load, anchor, j)
    &&& forall|k: int| 0 <= k < anchor ==> !#[trigger] pleads(load, k)
}

/// Whether the node has a worker to give up. With a policy of its own, it must have been eligible for
/// as long as the policy names, and its backlog must not be above what the policy calls low; without,
/// it must have more workers than it should have, and its queue must not get longer.
pub open spec fn overstaffed<S, A, R>(load: Load<S, A, R>, i: int) -> bool {
    let control = load.controls[i];
    &&& load.active[i]@.len() >= 2
    &&& adjustable(control)
    &&& !held_back(load, i)
    &&& control.thread_policy matches ResolvedThreadPolicy::Scalable(policy) ==> {
        &&& control.scale_down_eligible_since is Some
        &&& policy.scale_down_after == 0 || control.scale_down_eligible_since->0 as int
            + policy.scale_down_after <= load.now
        &&& load.readings[i].backlog_to_low != Standing::Above
    }
    &&& control.thread_policy is ImplicitSupport ==> {
        &&& load.active[i]@.len() > control.desired_workers
        &&& !rising(load.links[load.nodes[i].input_link as int].trend)
    }
}

/// The controls once that reason is noted for that anchor, and nothing else changed.
pub open spec fn with_reason<R>(
    before: Seq<NodeControl<R>>,
    after: Seq<NodeControl<R>>,
    anchor: int,
    reason: AnchorPressureReason,
) -> bool {
    &&& after.len() == before.len()
    &&& after[anchor].last_anchor_pressure_reason == Some(reason)
    &&& after[anchor] == NodeControl {
        last_anchor_pressure_reason: Some(reason),
        ..before[anchor]
    }
    &&& forall|j: int| 0 <= j < before.len() && j != anchor ==> #[trigger] after[j] == before[j]
}

/// Whether every node has its controls and readings, and every link that is looked at is there.
pub open spec fn is_complete<S, A, R>(load: Load<S, A, R>) -> bool {
    &&& load.controls.len() == load.nodes.len()
    &&& load.nodes.len() <= usize::MAX
    &&& load.links.len() <= usize::MAX
    &&& forall|i: int|
        0 <= i < load.nodes.len() ==> (#[trigger] load.nodes[i]).input_link < load.links.len()
}

proof fn finds(p: spec_fn(int) -> bool, k: int, n: int)
    requires
        0 <= k < n,
        p(k),
        forall|j: int| 0 <= j < k ==> !#[trigger] p(j),
    ensures
        first_from(p, 0, n) == Some(k),
{
    first_from_is_first(p, 0, n);
}

proof fn finds_none(p: spec_fn(int) -> bool, n: int)
    requires
        forall|j: int| 0 <= j < n ==> !#[trigger] p(j),
    ensures
        first_from(p, 0, n) is None,
{
    first_from_is_first(p, 0, n);
}

/// What is chosen is all that `choose_scale_operation` decides.
pub proof fn chooses_by_load<S, A, R: Copy>(
    links: &Vec<LinkControl<R>>,
    active_by_node: &Vec<Vec<usize>>,
    controls: &mut Vec<NodeControl<R>>,
    readings: &Vec<LoadReading>,
    nodes: &Vec<RuntimeNode<S, A, R>>,
    output_link: usize,
    global_worker_cap: usize,
    now: u128,
    r: Option<ScaleOperation>,
)
    requires
        call_ensures(
            choose_scale_operation::<S, A, R>,
            (
                links,
                active_by_node,
                controls,
                readings,
                nodes,
                output_link,
                global_worker_cap,
                now,
            ),
            r,
        ),
    ensures
        ({
            let load = Load {
                links: links@,
                active: active_by_node@,
                controls: old(controls)@,
                readings: readings@,
                nodes: nodes@,
                output_link: output_link as int,
                worker_cap: global_worker_cap as int,
                now,
            };
            r == load.choice().0 && final(controls)@ == load.choice().1
        }),
{
}

/// Where there is room and some node is due a worker by a policy of its own, the first such node gets
/// one, and nothing else is noted.
pub proof fn due_nodes_get_workers<S, A, R>(load: Load<S, A, R>, i: int)
    requires
        load.controls.len() <= usize::MAX,
        0 <= i < load.controls.len(),
        has_room(load),
        due(load, i),
        forall|j: int| 0 <= j < i ==> !#[trigger] due(load, j),
    ensures
        load.choice().0 == Some(ScaleOperation::Add { node_index: i as usize }),
        load.choice().1 == load.controls,
{
    total_counts_the_lists(load.active);
    assert(load.shortness()(i));
    assert forall|j: int| 0 <= j < i implies !#[trigger] load.shortness()(j) by {
        assert(!due(load, j));
    }
    finds(load.shortness(), i, load.controls.len() as int);
}

/// Whether no node is given a worker by a policy of its own.
pub open spec fn none_due<S, A, R>(load: Load<S, A, R>) -> bool {
    ||| !has_room(load)
    ||| forall|j: int| 0 <= j < load.controls.len() ==> !#[trigger] due(load, j)
}

proof fn no_scale_up<S, A, R>(load: Load<S, A, R>)
    requires
        none_due(load),
    ensures
        load.scale_up() is None,
{
    total_counts_the_lists(load.active);
    if has_room(load) {
        assert forall|j: int| 0 <= j < load.controls.len() implies !#[trigger] load.shortness()(
            j,
        ) by {
            assert(!due(load, j));
        }
        finds_none(load.shortness(), load.controls.len() as int);
    }
}

proof fn support_found<S, A, R>(load: Load<S, A, R>, i: int)
    requires
        is_complete(load),
        lags_first(load, i),
    ensures
        load.support_node() == Some(i),
{
    let link = load.nodes[i].input_link as int;
    assert(load.support_of(link)(i));
    assert forall|j: int| 0 <= j < i implies !#[trigger] load.support_of(link)(j) by {
        assert(load.nodes[j].input_link == link ==> !lags(load, j));
    }
    finds(load.support_of(link), i, load.nodes.len() as int);
    assert(load.supported()(link));
    assert forall|l: int| 0 <= l < link implies !#[trigger] load.supported()(l) by {
        if rising(load.links[l].trend) {
            assert forall|j: int| 0 <= j < load.nodes.len() implies !#[trigger] load.support_of(l)(
                j,
            ) by {
                assert(load.nodes[j].input_link == l ==> !lags(load, j));
            }
            finds_none(load.support_of(l), load.nodes.len() as int);
        }
    }
    finds(load.supported(), link, load.links.len() as int);
}

proof fn no_support<S, A, R>(load: Load<S, A, R>)
    requires
        is_complete(load),
        forall|j: int| 0 <= j < load.nodes.len() ==> !#[trigger] lags(load, j),
    ensures
        load.support_node() is None,
{
    if !load.output_grows() {
        assert forall|l: int| 0 <= l < load.links.len() implies !#[trigger] load.supported()(l) by {
            if rising(load.links[l].trend) {
                assert forall|j: int|
                    0 <= j < load.nodes.len() implies !#[trigger] load.support_of(l)(j) by {
                    assert(!lags(load, j));
                }
                finds_none(load.support_of(l), load.nodes.len() as int);
            }
        }
        finds_none(load.supported(), load.links.len() as int);
    }
}

/// Where no node is due a worker by a policy of its own and some node lags, the one that lags first
/// gets a worker if there is room.
pub proof fn lagging_nodes_get_workers<S, A, R>(load: Load<S, A, R>, i: int)
    requires
        is_complete(load),
        has_room(load),
        none_due(load),
        lags_first(load, i),
    ensures
        load.choice().0 == Some(ScaleOperation::Add { node_index: i as usize }),
        load.choice().1 == load.controls,
{
    total_counts_the_lists(load.active);
    no_scale_up(load);
    support_found(load, i);
}

proof fn giver_found<S, A, R>(load: Load<S, A, R>, node: int, anchor: int)
    requires
        spares_first(load, node, anchor),
    ensures
        first_from(load.givers(node), 0, load.controls.len() as int) == Some(anchor),
{
    assert(load.givers(node)(anchor));
    assert forall|j: int| 0 <= j < anchor implies !#[trigger] load.givers(node)(j) by {
        assert(!spares(load, node, j));
    }
    finds(load.givers(node), anchor, load.controls.len() as int);
}

proof fn no_giver<S, A, R>(load: Load<S, A, R>, node: int)
    requires
        forall|j: int| 0 <= j < load.controls.len() ==> !#[trigger] spares(load, node, j),
    ensures
        first_from(load.givers(node), 0, load.controls.len() as int) is None,
{
    assert forall|j: int| 0 <= j < load.controls.len() implies !#[trigger] load.givers(node)(j) by {
        assert(!spares(load, node, j));
    }
    finds_none(load.givers(node), load.controls.len() as int);
}

/// Where there is no room for the node that lags first, the first anchor that can spare a worker loses
/// one to it, and what is noted of that anchor is that the budget pressed on it.
pub proof fn anchors_make_room_for_lagging_nodes<S, A, R>(load: Load<S, A, R>, i: int, anchor: int)
    requires
        is_complete(load),
        !has_room(load),
        lags_first(load, i),
        spares_first(load, i, anchor),
    ensures
        load.choice().0 == Some(
            ScaleOperation::Remove { node_index: anchor as usize, worker_id: None },
        ),
        with_reason(
            load.controls,
            load.choice().1,
            anchor,
            AnchorPressureReason::BudgetPressure,
        ),
{
    total_counts_the_lists(load.active);
    no_scale_up(load);
    support_found(load, i);
    giver_found(load, i, anchor);
}

/// Whether no lagging node is helped: none lags, or there is no room and no anchor makes any.
pub open spec fn none_helped<S, A, R>(load: Load<S, A, R>) -> bool {
    ||| forall|j: int| 0 <= j < load.nodes.len() ==> !#[trigger] lags(load, j)
    ||| !has_room(load) && exists|i: int|
        #[trigger] lags_first(load, i) && forall|j: int|
            0 <= j < load.controls.len() ==> !#[trigger] spares(load, i, j)
}

proof fn support_gives_nothing<S, A, R>(load: Load<S, A, R>)
    requires
        is_complete(load),
        none_due(load),
        none_helped(load),
    ensures
        load.choice() == {
            let helped = load.anchor_choice();
            if helped.0 is Some {
                helped
            } else {
                (Load { controls: helped.1, ..load }.scale_down(), helped.1)
            }
        },
{
    total_counts_the_lists(load.active);
    no_scale_up(load);
    if forall|j: int| 0 <= j < load.nodes.len() ==> !#[trigger] lags(load, j) {
        no_support(load);
    } else {
        let i = choose|i: int|
            #[trigger] lags_first(load, i) && forall|j: int|
                0 <= j < load.controls.len() ==> !#[trigger] spares(load, i, j);
        support_found(load, i);
        no_giver(load, i);
    }
}

proof fn feeder_found<S, A, R>(load: Load<S, A, R>, anchor: int, i: int)
    requires
        is_complete(load),
        feeds_first(load, anchor, i),
    ensures
        load.pressed_anchor() == Some(anchor),
        load.feeder_for(anchor) == Some(i),
{
    assert(load.feeders_of(anchor)(i));
    assert forall|j: int| 0 <= j < i implies !#[trigger] load.feeders_of(anchor)(j) by {
        assert(!can_feed(load, anchor, j));
    }
    finds(load.feeders_of(anchor), i, load.nodes.len() as int);
    assert(load.is_underfed(anchor));
    assert(load.fed()(anchor));
    assert forall|k: int| 0 <= k < anchor implies !#[trigger] load.fed()(k) by {
        assert(!pleads(load, k));
        unfed(load, k);
    }
    finds(load.fed(), anchor, load.controls.len() as int);
    assert(!load.output_grows());
}

proof fn unfed<S, A, R>(load: Load<S, A, R>, k: int)
    requires
        !pleads(load, k),
    ensures
        load.feeder_for(k) is None,
{
    if load.is_underfed(k) {
        assert(hungry(load, k));
        assert forall|j: int| 0 <= j < load.nodes.len() implies !#[trigger] load.feeders_of(k)(
            j,
        ) by {
            assert(!can_feed(load, k, j));
        }
        finds_none(load.feeders_of(k), load.nodes.len() as int);
    }
}

proof fn nobody_fed<S, A, R>(load: Load<S, A, R>)
    requires
        forall|k: int| 0 <= k < load.controls.len() ==> !#[trigger] pleads(load, k),
    ensures
        load.anchor_choice() == (None::<ScaleOperation>, load.controls),
{
    assert forall|k: int| 0 <= k < load.controls.len() implies !#[trigger] load.fed()(k) by {
        assert(!pleads(load, k));
        unfed(load, k);
    }
    finds_none(load.fed(), load.controls.len() as int);
}

/// Where nothing is due to nodes themselves and some anchor is hungry, the first node that can feed the
/// first such anchor gets a worker if there is room, and it is noted that the anchor was underfed.
pub proof fn hungry_anchors_are_fed<S, A, R>(load: Load<S, A, R>, anchor: int, i: int)
    requires
        is_complete(load),
        has_room(load),
        none_due(load),
        none_helped(load),
        feeds_first(load, anchor, i),
    ensures
        load.choice().0 == Some(ScaleOperation::Add { node_index: i as usize }),
        with_reason(
            load.controls,
            load.choice().1,
            anchor,
            AnchorPressureReason::InputUnderfed,
        ),
{
    total_counts_the_lists(load.active);
    support_gives_nothing(load);
    feeder_found(load, anchor, i);
}

/// Where there is no room for what would feed the first hungry anchor, the first anchor that can spare
/// a worker loses one to it. Both reasons are noted, the budget's last.
pub proof fn anchors_make_room_for_feeders<S, A, R>(
    load: Load<S, A, R>,
    anchor: int,
    i: int,
    giver: int,
)
    requires
        is_complete(load),
        !has_room(load),
        none_helped(load),
        feeds_first(load, anchor, i),
        spares_first(load, i, giver),
    ensures
        load.choice().0 == Some(
            ScaleOperation::Remove { node_index: giver as usize, worker_id: None },
        ),
        load.choice().1.len() == load.controls.len(),
        load.choice().1[giver] == (NodeControl {
            last_anchor_pressure_reason: Some(AnchorPressureReason::BudgetPressure),
            ..load.controls[giver]
        }),
        anchor != giver ==> load.choice().1[anchor] == (NodeControl {
            last_anchor_pressure_reason: Some(AnchorPressureReason::InputUnderfed),
            ..load.controls[anchor]
        }),
        forall|j: int|
            0 <= j < load.controls.len() && j != anchor && j != giver
                ==> #[trigger] load.choice().1[j] == load.controls[j],
{
    total_counts_the_lists(load.active);
    support_gives_nothing(load);
    feeder_found(load, anchor, i);
    let noted = load.noting_underfed(anchor);
    assert(spares(noted, i, giver));
    assert forall|j: int| 0 <= j < giver implies !#[trigger] spares(noted, i, j) by {
        assert(!spares(load, i, j));
    }
    giver_found(noted, i, giver);
}

/// Whether the first that has a worker to give up is `i`.
pub open spec fn overstaffed_first<S, A, R>(load: Load<S, A, R>, i: int) -> bool {
    &&& 0 <= i < load.controls.len()
    &&& overstaffed(load, i)
    &&& forall|j: int| 0 <= j < i ==> !#[trigger] overstaffed(load, j)
}

proof fn idle_found<S, A, R>(load: Load<S, A, R>, i: int)
    requires
        overstaffed_first(load, i),
    ensures
        load.scale_down() == Some(
            ScaleOperation::Remove { node_index: i as usize, worker_id: None },
        ),
{
    assert(load.idleness()(i));
    assert forall|j: int| 0 <= j < i implies !#[trigger] load.idleness()(j) by {
        assert(!overstaffed(load, j));
    }
    finds(load.idleness(), i, load.controls.len() as int);
}

proof fn none_idle<S, A, R>(load: Load<S, A, R>)
    requires
        forall|j: int| 0 <= j < load.controls.len() ==> !#[trigger] overstaffed(load, j),
    ensures
        load.scale_down() is None,
{
    assert forall|j: int| 0 <= j < load.controls.len() implies !#[trigger] load.idleness()(j) by {
        assert(!overstaffed(load, j));
    }
    finds_none(load.idleness(), load.controls.len() as int);
}

/// Where no node is to get a worker, the first node that has one to give up loses it, and nothing is
/// noted.
pub proof fn overstaffed_nodes_lose_workers<S, A, R>(load: Load<S, A, R>, i: int)
    requires
        is_complete(load),
        none_due(load),
        none_helped(load),
        forall|k: int| 0 <= k < load.controls.len() ==> !#[trigger] pleads(load, k),
        overstaffed_first(load, i),
    ensures
        load.choice().0 == Some(
            ScaleOperation::Remove { node_index: i as usize, worker_id: None },
        ),
        load.choice().1 == load.controls,
{
    support_gives_nothing(load);
    nobody_fed(load);
    assert(Load { controls: load.controls, ..load } == load);
    idle_found(load, i);
}

/// Where no node is to get a worker and none has one to give up, nothing is done and nothing is noted.
pub proof fn balanced_load_stays<S, A, R>(load: Load<S, A, R>)
    requires
        is_complete(load),
        none_due(load),
        none_helped(load),
        forall|k: int| 0 <= k < load.controls.len() ==> !#[trigger] pleads(load, k),
        forall|j: int| 0 <= j < load.controls.len() ==> !#[trigger] overstaffed(load, j),
    ensures
        load.choice().0 is None,
        load.choice().1 == load.controls,
{
    support_gives_nothing(load);
    nobody_fed(load);
    assert(Load { controls: load.controls, ..load } == load);
    none_idle(load);
}

/// Where a hungry anchor could be fed but there is no room and no anchor makes any, that it was underfed
/// is noted; then the first node that has a worker to give up loses it, and where none has, nothing
/// is done.
pub proof fn unfed_anchors_are_noted<S, A, R>(load: Load<S, A, R>, anchor: int, i: int)
    requires
        is_complete(load),
        !has_room(load),
        none_helped(load),
        feeds_first(load, anchor, i),
        forall|j: int| 0 <= j < load.controls.len() ==> !#[trigger] spares(load, i, j),
    ensures
        with_reason(
            load.controls,
            load.choice().1,
            anchor,
            AnchorPressureReason::InputUnderfed,
        ),
        forall|k: int| #[trigger]
            overstaffed_first(load, k) ==> load.choice().0 == Some(
                ScaleOperation::Remove { node_index: k as usize, worker_id: None },
            ),
        (forall|j: int| 0 <= j < load.controls.len() ==> !#[trigger] overstaffed(load, j))
            ==> load.choice().0 is None,
{
    total_counts_the_lists(load.active);
    support_gives_nothing(load);
    feeder_found(load, anchor, i);
    let noted = load.noting_underfed(anchor);
    assert forall|j: int| 0 <= j < noted.controls.len() implies !#[trigger] spares(noted, i, j) by {
        assert(!spares(load, i, j));
    }
    no_giver(noted, i);
    assert(load.anchor_choice() == (None::<ScaleOperation>, noted.controls));
    assert(noted == Load { controls: noted.controls, ..load });
    assert forall|j: int| 0 <= j < load.controls.len() implies #[trigger] overstaffed(noted, j)
        == overstaffed(load, j) by {}
    assert forall|k: int| #[trigger] overstaffed_first(load, k) implies load.choice().0 == Some(
        ScaleOperation::Remove { node_index: k as usize, worker_id: None },
    ) by {
        assert(overstaffed(noted, k));
        assert forall|j: int| 0 <= j < k implies !#[trigger] overstaffed(noted, j) by {
            assert(!overstaffed(load, j));
        }
        idle_found(noted, k);
    }
    if forall|j: int| 0 <= j < load.controls.len() ==> !#[trigger] overstaffed(load, j) {
        assert forall|j: int| 0 <= j < noted.controls.len() implies !#[trigger] overstaffed(
            noted,
            j,
        ) by {
            assert(!overstaffed(load, j));
        }
        none_idle(noted);
    }
}

/// A choice can be made for every load in which the links, the controls, the readings and the workers of
/// each node are there.
pub proof fn complete_loads_can_be_chosen_for<S, A, R: Copy>(
    links: &Vec<LinkControl<R>>,
    active_by_node: &Vec<Vec<usize>>,
    controls: &mut Vec<NodeControl<R>>,
    readings: &Vec<LoadReading>,
    nodes: &Vec<RuntimeNode<S, A, R>>,
    output_link: usize,
    global_worker_cap: usize,
    now: u128,
)
    requires
        output_link < links@.len(),
        old(controls)@.len() == nodes@.len(),
        readings@.len() == nodes@.len(),
        active_by_node@.len() == nodes@.len(),
        workforce(active_by_node@).len() <= usize::MAX,
        forall|i: int|
            0 <= i < nodes@.len() ==> {
                let node = #[trigger] nodes@[i];
                &&& node.input_link < links@.len()
                &&& node.output_links@.len() >= 1
                &&& node.output_links@[0] < links@.len()
            },
    ensures
        call_requires(
            choose_scale_operation::<S, A, R>,
            (
                links,
                active_by_node,
                controls,
                readings,
                nodes,
                output_link,
                global_worker_cap,
                now,
            ),
        ),
{
    total_counts_the_lists(active_by_node@);
}

} // verus!
