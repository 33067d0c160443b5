//! Which node is given another worker, and which loses one.

use crate::check::has_link;
use crate::control::{LinkControl, NodeControl};
use crate::plan::RuntimeNode;
use crate::policy::{larger, max_of, ResolvedThreadPolicy};
use crate::snapshot::{AnchorPressureReason, NodeScalingState, QueueTrend};
use vstd::prelude::*;

verus! {

/// A change of the number of workers.
#[derive(Clone, Copy, Debug, PartialEq, Eq, Structural)]
pub enum ScaleOperation {
    /// The node is given one more worker.
    Add { node_index: usize },
    /// The node loses a worker: the one that is named, or else its first.
    Remove { node_index: usize, worker_id: Option<usize> },
}

/// How one measured quantity stands to another.
#[derive(Clone, Copy, Debug, PartialEq, Eq, Structural)]
pub enum Standing {
    AtMost,
    Above,
    /// One of both is not a number.
    Unordered,
}

/// How a node's load compares with what its policy names.
#[derive(Clone, Copy, Debug, PartialEq, Eq, Structural)]
pub struct LoadReading {
    /// How the time that its backlog takes stands to the target: that of its policy, or one second
    /// where it has none.
    pub backlog_to_target: Standing,
    /// How the time that its backlog takes stands to what its policy calls low.
    pub backlog_to_low: Standing,
    /// Whether its workers are busy for no more than three fifths of their time.
    pub seldom_busy: bool,
}

/// All that a choice depends on.
pub struct Load<S, A, R> {
    pub links: Seq<LinkControl<R>>,
    pub active: Seq<Vec<usize>>,
    pub controls: Seq<NodeControl<R>>,
    pub readings: Seq<LoadReading>,
    pub nodes: Seq<RuntimeNode<S, A, R>>,
    pub output_link: int,
    pub worker_cap: int,
    pub now: u128,
}

/// How many workers are active at the first `n` nodes.
pub open spec fn active_total(active: Seq<Vec<usize>>, n: nat) -> nat
    decreases n,
{
    if n == 0 {
        0
    } else {
        active_total(active, (n - 1) as nat) + active[n - 1]@.len()
    }
}

proof fn active_total_grows(active: Seq<Vec<usize>>, m: nat, n: nat)
    requires
        m <= n,
    ensures
        active_total(active, m) <= active_total(active, n),
    decreases n,
{
    if m < n {
        active_total_grows(active, m, (n - 1) as nat);
    }
}

/// How many workers are active.
pub fn active_worker_count(active_by_node: &Vec<Vec<usize>>) -> (r: usize)
    requires
        active_total(active_by_node@, active_by_node@.len()) <= usize::MAX,
    ensures
        r == active_total(active_by_node@, active_by_node@.len()),
{
    let mut total: usize = 0;
    for i in 0..active_by_node.len()
        invariant
            active_total(active_by_node@, active_by_node@.len()) <= usize::MAX,
            total == active_total(active_by_node@, i as nat),
    {
        proof {
            active_total_grows(active_by_node@, (i + 1) as nat, active_by_node@.len());
        }
        total = total + active_by_node[i].len();
    }
    total
}

/// The first number from `i` on, below `n`, of which `p` holds.
pub open spec fn first_from(p: spec_fn(int) -> bool, i: int, n: int) -> Option<int>
    decreases n - i,
{
    if i >= n {
        None
    } else if p(i) {
        Some(i)
    } else {
        first_from(p, i + 1, n)
    }
}

/// `first_from` gives a number of which `p` holds, with none before it; and where it gives none,
/// there is none.
pub proof fn first_from_is_first(p: spec_fn(int) -> bool, i: int, n: int)
    ensures
        match first_from(p, i, n) {
            Some(k) => i <= k < n && p(k) && forall|j: int| i <= j < k ==> !#[trigger] p(j),
            None => forall|j: int| i <= j < n ==> !#[trigger] p(j),
        },
    decreases n - i,
{
    if i < n && !p(i) {
        first_from_is_first(p, i + 1, n);
    }
}

/// Whether the number of the node's workers may be changed now.
pub open spec fn can_scale<R>(control: NodeControl<R>) -> bool {
    &&& !control.is_external
    &&& !control.is_weighted_branch
    &&& !(control.thread_policy is Fixed)
    &&& !control.settling
    &&& control.scaling_state != NodeScalingState::Settling
    &&& control.scaling_state != NodeScalingState::Merging
}

/// Whether the number of the node's workers may be changed now.
pub fn node_can_scale<R>(control: &NodeControl<R>) -> (r: bool)
    ensures
        r == can_scale(*control),
{
    !control.is_external && !control.is_weighted_branch && !matches!(
        control.thread_policy,
        ResolvedThreadPolicy::Fixed(_)
    ) && !control.settling && control.scaling_state != NodeScalingState::Settling
        && control.scaling_state != NodeScalingState::Merging
}

/// Whether too little waits on the link for a node with that many workers.
pub open spec fn underfeeds(trend: QueueTrend, len: usize, active: nat, to_target: Standing) -> bool {
    let few = len <= larger(2 * active as int, 1);
    !(to_target is Above) && match trend {
        QueueTrend::Starved => true,
        QueueTrend::FastDraining => to_target is AtMost && few,
        QueueTrend::Draining => few,
        _ => false,
    }
}

/// Whether too little waits on the link for a node with that many workers.
pub fn link_underfeeds_node<R>(link: &LinkControl<R>, active_threads: usize, to_target: Standing) -> (r:
    bool)
    ensures
        r == underfeeds(link.trend, link.len, active_threads as nat, to_target),
{
    if matches!(to_target, Standing::Above) {
        return false;
    }
    let doubled: usize = match active_threads.checked_mul(2) {
        Some(doubled) => doubled,
        None => usize::MAX,
    };
    let few: bool = link.len <= max_of(doubled, 1);
    match link.trend {
        QueueTrend::Starved => true,
        QueueTrend::FastDraining => matches!(to_target, Standing::AtMost) && few,
        QueueTrend::Draining => few,
        _ => false,
    }
}

impl<S, A, R> Load<S, A, R> {
    /// Whether all that a choice looks up is there. Controls of the last nodes may be missing only
    /// while the output grows.
    pub open spec fn wf(self) -> bool {
        &&& 0 <= self.output_link < self.links.len()
        &&& self.controls.len() <= self.nodes.len()
        &&& self.controls.len() < self.nodes.len()
            ==> self.links[self.output_link].trend.grows()
        &&& self.active.len() >= self.nodes.len()
        &&& self.readings.len() == self.controls.len()
        &&& active_total(self.active, self.active.len()) <= usize::MAX
        &&& forall|i: int|
            0 <= i < self.nodes.len() ==> {
                let node = #[trigger] self.nodes[i];
                &&& node.input_link < self.links.len()
                &&& node.output_links@.len() >= 1
                &&& node.output_links@[0] < self.links.len()
            }
    }

    /// How many workers are active at the node.
    pub open spec fn active_at(self, i: int) -> nat {
        self.active[i]@.len()
    }

    /// How many workers are active.
    pub open spec fn active_count(self) -> nat {
        active_total(self.active, self.active.len())
    }

    /// Whether what waits at the end of the pipeline grows.
    pub open spec fn output_grows(self) -> bool {
        self.links[self.output_link].trend.grows()
    }

    /// Whether what waits for the node grows.
    pub open spec fn input_grows(self, i: int) -> bool {
        self.links[self.nodes[i].input_link as int].trend.grows()
    }

    /// Whether what waits at the end of the pipeline, or behind the node, grows.
    pub open spec fn blocked(self, i: int) -> bool {
        self.output_grows() || self.links[self.nodes[i].output_links@[0] as int].trend.grows()
    }

    /// Whether the node, scaled by a policy of its own, is to be given a worker: it has fewer than it
    /// should and may have, and its backlog takes longer than the target or grows.
    pub open spec fn is_short(self, i: int) -> bool {
        &&& self.controls[i].thread_policy matches ResolvedThreadPolicy::Scalable(policy)
        &&& can_scale(self.controls[i])
        &&& !self.blocked(i)
        &&& self.active_at(i) < self.controls[i].desired_workers
        &&& self.active_at(i) < policy.max_threads
        &&& !(self.readings[i].backlog_to_target is AtMost) || self.input_grows(i)
    }

    /// The nodes of which `is_short` holds.
    pub open spec fn shortness(self) -> spec_fn(int) -> bool {
        |i: int| self.is_short(i)
    }

    /// The node that is first in want of a worker by a policy of its own.
    pub open spec fn scale_up(self) -> Option<ScaleOperation> {
        if self.active_count() >= self.worker_cap {
            None
        } else {
            match first_from(self.shortness(), 0, self.controls.len() as int) {
                Some(i) => Some(ScaleOperation::Add { node_index: i as usize }),
                None => None,
            }
        }
    }

    /// Whether the node may be given a worker to help it: it has fewer than it should, and nothing
    /// behind it grows.
    pub open spec fn may_be_helped(self, i: int) -> bool {
        &&& self.active_at(i) < self.controls[i].desired_workers
        &&& can_scale(self.controls[i])
        &&& !self.blocked(i)
    }

    /// Whether the node takes from that link, has no policy of its own, and may be helped.
    pub open spec fn is_support_of(self, link: int, i: int) -> bool {
        &&& self.nodes[i].input_link == link
        &&& self.controls[i].thread_policy is ImplicitSupport
        &&& self.may_be_helped(i)
    }

    /// The nodes of which `is_support_of` holds.
    pub open spec fn support_of(self, link: int) -> spec_fn(int) -> bool {
        |i: int| self.is_support_of(link, i)
    }

    /// The first node to be helped on that link, if the link grows.
    pub open spec fn support_on(self, link: int) -> Option<int> {
        if self.links[link].trend.grows() {
            first_from(self.support_of(link), 0, self.nodes.len() as int)
        } else {
            None
        }
    }

    /// The links with a node to be helped.
    pub open spec fn supported(self) -> spec_fn(int) -> bool {
        |link: int| self.support_on(link) is Some
    }

    /// The first anchor, other than the node, that can give up a worker.
    pub open spec fn can_give(self, node: int, anchor: int) -> bool {
        &&& self.controls[anchor].is_anchor
        &&& node != anchor
        &&& self.controls[anchor].thread_policy is Scalable
        &&& self.active_at(anchor) > 1
        &&& can_scale(self.controls[anchor])
    }

    /// The anchors of which `can_give` holds.
    pub open spec fn givers(self, node: int) -> spec_fn(int) -> bool {
        |anchor: int| self.can_give(node, anchor)
    }

    /// What becomes of a node that should get a worker: it gets one while there are fewer than may
    /// be; otherwise an anchor gives one up.
    pub open spec fn room_made(self, node: int) -> (Option<ScaleOperation>, Seq<NodeControl<R>>) {
        if self.active_count() < self.worker_cap {
            (Some(ScaleOperation::Add { node_index: node as usize }), self.controls)
        } else {
            match first_from(self.givers(node), 0, self.controls.len() as int) {
                Some(anchor) => (
                    Some(ScaleOperation::Remove { node_index: anchor as usize, worker_id: None }),
                    pressed(self.controls, anchor, AnchorPressureReason::BudgetPressure),
                ),
                None => (None, self.controls),
            }
        }
    }

    /// The first node without a policy of its own that is to be helped, by the order of the links
    /// that grow.
    pub open spec fn support_node(self) -> Option<int> {
        if self.output_grows() {
            None
        } else {
            match first_from(self.supported(), 0, self.links.len() as int) {
                Some(link) => self.support_on(link),
                None => None,
            }
        }
    }

    /// Whether the anchor is busy and too little waits for it.
    pub open spec fn is_underfed(self, anchor: int) -> bool {
        let link = self.links[self.nodes[anchor].input_link as int];
        &&& self.controls[anchor].is_anchor
        &&& !self.readings[anchor].seldom_busy
        &&& underfeeds(
            link.trend,
            link.len,
            self.active_at(anchor),
            self.readings[anchor].backlog_to_target,
        )
    }

    /// Whether the node feeds the anchor, has something to work on, and may be helped.
    pub open spec fn is_feeder_of(self, anchor: int, i: int) -> bool {
        &&& self.nodes[i].output_links@.contains(self.nodes[anchor].input_link)
        &&& !(self.controls[i].thread_policy is Fixed)
        &&& self.links[self.nodes[i].input_link as int].trend != QueueTrend::Starved
        &&& self.may_be_helped(i)
    }

    /// The nodes of which `is_feeder_of` holds.
    pub open spec fn feeders_of(self, anchor: int) -> spec_fn(int) -> bool {
        |i: int| self.is_feeder_of(anchor, i)
    }

    /// The first node to be helped for that anchor, if it is underfed.
    pub open spec fn feeder_for(self, anchor: int) -> Option<int> {
        if self.is_underfed(anchor) {
            first_from(self.feeders_of(anchor), 0, self.nodes.len() as int)
        } else {
            None
        }
    }

    /// The anchors with a node to be helped.
    pub open spec fn fed(self) -> spec_fn(int) -> bool {
        |anchor: int| self.feeder_for(anchor) is Some
    }

    /// The first anchor that is underfed and can be fed better.
    pub open spec fn pressed_anchor(self) -> Option<int> {
        if self.output_grows() {
            None
        } else {
            first_from(self.fed(), 0, self.controls.len() as int)
        }
    }

    /// The load as it is once that anchor is noted as underfed.
    pub open spec fn noting_underfed(self, anchor: int) -> Self {
        Load {
            controls: pressed(self.controls, anchor, AnchorPressureReason::InputUnderfed),
            ..self
        }
    }

    /// What is done for the first anchor that is underfed.
    pub open spec fn anchor_choice(self) -> (Option<ScaleOperation>, Seq<NodeControl<R>>) {
        match self.pressed_anchor() {
            Some(anchor) => self.noting_underfed(anchor).room_made(self.feeder_for(anchor)->0),
            None => (None, self.controls),
        }
    }

    /// Whether the node has more workers than it needs.
    pub open spec fn is_idle(self, i: int) -> bool {
        &&& self.active_at(i) > 1
        &&& can_scale(self.controls[i])
        &&& !self.blocked(i)
        &&& match self.controls[i].thread_policy {
            ResolvedThreadPolicy::Scalable(policy) => {
                &&& self.controls[i].scale_down_eligible_since matches Some(since)
                &&& self.now < since ==> policy.scale_down_after == 0
                &&& self.now >= since ==> self.now - since >= policy.scale_down_after
                &&& !(self.readings[i].backlog_to_low is Above)
            },
            ResolvedThreadPolicy::ImplicitSupport => {
                &&& self.active_at(i) > larger(self.controls[i].desired_workers as int, 1)
                &&& !self.input_grows(i)
            },
            ResolvedThreadPolicy::Fixed(_) => false,
        }
    }

    /// The nodes of which `is_idle` holds.
    pub open spec fn idleness(self) -> spec_fn(int) -> bool {
        |i: int| self.is_idle(i)
    }

    /// The first node that has more workers than it needs loses one.
    pub open spec fn scale_down(self) -> Option<ScaleOperation> {
        match first_from(self.idleness(), 0, self.controls.len() as int) {
            Some(i) => Some(ScaleOperation::Remove { node_index: i as usize, worker_id: None }),
            None => None,
        }
    }

    /// What is done: workers for nodes with a policy of their own come first, then help for other
    /// nodes, then for what feeds an anchor; where none is due, a worker may go. With it, what is
    /// remembered of the nodes afterwards.
    pub open spec fn choice(self) -> (Option<ScaleOperation>, Seq<NodeControl<R>>) {
        if self.scale_up() is Some {
            (self.scale_up(), self.controls)
        } else {
            let support = match self.support_node() {
                Some(i) => self.room_made(i),
                None => (None, self.controls),
            };
            if support.0 is Some {
                support
            } else {
                let helped = self.anchor_choice();
                if helped.0 is Some {
                    helped
                } else {
                    (Load { controls: helped.1, ..self }.scale_down(), helped.1)
                }
            }
        }
    }
}

/// The controls with that reason noted for that anchor.
pub open spec fn pressed<R>(
    controls: Seq<NodeControl<R>>,
    anchor: int,
    reason: AnchorPressureReason,
) -> Seq<NodeControl<R>> {
    controls.update(
        anchor,
        NodeControl { last_anchor_pressure_reason: Some(reason), ..controls[anchor] },
    )
}

/// All that a choice depends on, put together.
pub open spec fn load_of<S, A, R>(
    links: Seq<LinkControl<R>>,
    active: Seq<Vec<usize>>,
    controls: Seq<NodeControl<R>>,
    readings: Seq<LoadReading>,
    nodes: Seq<RuntimeNode<S, A, R>>,
    output_link: usize,
    worker_cap: usize,
    now: u128,
) -> Load<S, A, R> {
    Load {
        links,
        active,
        controls,
        readings,
        nodes,
        output_link: output_link as int,
        worker_cap: worker_cap as int,
        now,
    }
}

/// Whether what waits at the end of the pipeline, or behind the node, grows.
pub fn downstream_blocks_scale_up<S, A, R>(
    links: &Vec<LinkControl<R>>,
    nodes: &Vec<RuntimeNode<S, A, R>>,
    node_index: usize,
    output_link: usize,
) -> (r: bool)
    requires
        output_link < links@.len(),
        node_index < nodes@.len(),
        nodes@[node_index as int].output_links@.len() >= 1,
        nodes@[node_index as int].output_links@[0] < links@.len(),
    ensures
        r == (links@[output_link as int].trend.grows()
            || links@[nodes@[node_index as int].output_links@[0] as int].trend.grows()),
{
    links[output_link].trend.is_growing() || links[nodes[node_index].output_links[0]].trend.is_growing()
}

/// What a choice looks at but does not change.
struct Situation<'a, S, A, R> {
    links: &'a Vec<LinkControl<R>>,
    active_by_node: &'a Vec<Vec<usize>>,
    readings: &'a Vec<LoadReading>,
    nodes: &'a Vec<RuntimeNode<S, A, R>>,
    output_link: usize,
    global_worker_cap: usize,
    now: u128,
}

impl<'a, S, A, R: Copy> Situation<'a, S, A, R> {
    spec fn load(&self, controls: Seq<NodeControl<R>>) -> Load<S, A, R> {
        load_of(
            self.links@,
            self.active_by_node@,
            controls,
            self.readings@,
            self.nodes@,
            self.output_link,
            self.global_worker_cap,
            self.now,
        )
    }

    fn is_short(&self, controls: &Vec<NodeControl<R>>, i: usize) -> (r: bool)
        requires
            self.load(controls@).wf(),
            i < controls@.len(),
        ensures
            r == self.load(controls@).is_short(i as int),
    {
        assert(self.load(controls@).nodes[i as int].input_link < self.links@.len());
        match controls[i].thread_policy {
            ResolvedThreadPolicy::Scalable(policy) => {
                let active: usize = self.active_by_node[i].len();
                node_can_scale(&controls[i]) && !downstream_blocks_scale_up(
                    self.links,
                    self.nodes,
                    i,
                    self.output_link,
                ) && active < controls[i].desired_workers && active < policy.max_threads && (
                !matches!(self.readings[i].backlog_to_target, Standing::AtMost)
                    || self.links[self.nodes[i].input_link].trend.is_growing())
            },
            _ => false,
        }
    }

    fn choose_scalable_scale_up(&self, controls: &Vec<NodeControl<R>>) -> (r: Option<ScaleOperation>)
        requires
            self.load(controls@).wf(),
        ensures
            r == self.load(controls@).scale_up(),
    {
        if active_worker_count(self.active_by_node) >= self.global_worker_cap {
            return None;
        }
        let ghost load = self.load(controls@);
        for i in 0..controls.len()
            invariant
                load == self.load(controls@),
                load.wf(),
                load.active_count() < load.worker_cap,
                first_from(load.shortness(), 0, controls@.len() as int) == first_from(
                    load.shortness(),
                    i as int,
                    controls@.len() as int,
                ),
        {
            assert(load.shortness()(i as int) == load.is_short(i as int));
            if self.is_short(controls, i) {
                return Some(ScaleOperation::Add { node_index: i });
            }
        }
        None
    }

    fn may_be_helped(&self, controls: &Vec<NodeControl<R>>, i: usize) -> (r: bool)
        requires
            self.load(controls@).wf(),
            i < controls@.len(),
        ensures
            r == self.load(controls@).may_be_helped(i as int),
    {
        assert(self.load(controls@).nodes[i as int].input_link < self.links@.len());
        self.active_by_node[i].len() < controls[i].desired_workers && node_can_scale(&controls[i])
            && !downstream_blocks_scale_up(self.links, self.nodes, i, self.output_link)
    }

    fn support_on(&self, controls: &Vec<NodeControl<R>>, link: usize) -> (r: Option<usize>)
        requires
            self.load(controls@).wf(),
            !self.load(controls@).output_grows(),
            link < self.links@.len(),
        ensures
            match r {
                Some(i) => i < controls@.len() && self.load(controls@).support_on(link as int)
                    == Some(i as int),
                None => self.load(controls@).support_on(link as int) is None,
            },
    {
        if !self.links[link].trend.is_growing() {
            return None;
        }
        let ghost load = self.load(controls@);
        for i in 0..self.nodes.len()
            invariant
                load == self.load(controls@),
                load.wf(),
                !load.output_grows(),
                link < self.links@.len(),
                self.links@[link as int].trend.grows(),
                first_from(load.support_of(link as int), 0, self.nodes@.len() as int)
                    == first_from(load.support_of(link as int), i as int, self.nodes@.len() as int),
        {
            assert(load.support_of(link as int)(i as int) == load.is_support_of(
                link as int,
                i as int,
            ));
            if self.nodes[i].input_link == link && matches!(
                controls[i].thread_policy,
                ResolvedThreadPolicy::ImplicitSupport
            ) && self.may_be_helped(controls, i) {
                return Some(i);
            }
        }
        None
    }

    fn choose_support_node(&self, controls: &Vec<NodeControl<R>>) -> (r: Option<usize>)
        requires
            self.load(controls@).wf(),
        ensures
            match r {
                Some(i) => i < controls@.len() && self.load(controls@).support_node() == Some(
                    i as int,
                ),
                None => self.load(controls@).support_node() is None,
            },
    {
        if self.links[self.output_link].trend.is_growing() {
            return None;
        }
        let ghost load = self.load(controls@);
        for link in 0..self.links.len()
            invariant
                load == self.load(controls@),
                load.wf(),
                !load.output_grows(),
                first_from(load.supported(), 0, self.links@.len() as int) == first_from(
                    load.supported(),
                    link as int,
                    self.links@.len() as int,
                ),
        {
            assert(load.supported()(link as int) == (load.support_on(link as int) is Some));
            if let Some(i) = self.support_on(controls, link) {
                return Some(i);
            }
        }
        None
    }

    fn add_or_rebalance_for_node(&self, controls: &mut Vec<NodeControl<R>>, node: usize) -> (r:
        Option<ScaleOperation>)
        requires
            self.load(old(controls)@).wf(),
            node < old(controls)@.len(),
        ensures
            (r, final(controls)@) == self.load(old(controls)@).room_made(node as int),
            final(controls)@.len() == old(controls)@.len(),
    {
        if active_worker_count(self.active_by_node) < self.global_worker_cap {
            return Some(ScaleOperation::Add { node_index: node });
        }
        let ghost load = self.load(controls@);
        let count: usize = controls.len();
        for anchor in 0..count
            invariant
                count == controls@.len(),
                controls@ == old(controls)@,
                load == self.load(controls@),
                load.wf(),
                load.active_count() >= load.worker_cap,
                first_from(load.givers(node as int), 0, controls@.len() as int) == first_from(
                    load.givers(node as int),
                    anchor as int,
                    controls@.len() as int,
                ),
        {
            assert(load.givers(node as int)(anchor as int) == load.can_give(
                node as int,
                anchor as int,
            ));
            if controls[anchor].is_anchor && node != anchor && matches!(
                controls[anchor].thread_policy,
                ResolvedThreadPolicy::Scalable(_)
            ) && self.active_by_node[anchor].len() > 1 && node_can_scale(&controls[anchor]) {
                controls[anchor].last_anchor_pressure_reason = Some(
                    AnchorPressureReason::BudgetPressure,
                );
                return Some(ScaleOperation::Remove { node_index: anchor, worker_id: None });
            }
        }
        None
    }

    fn is_underfed(&self, controls: &Vec<NodeControl<R>>, anchor: usize) -> (r: bool)
        requires
            self.load(controls@).wf(),
            anchor < controls@.len(),
        ensures
            r == self.load(controls@).is_underfed(anchor as int),
    {
        assert(self.load(controls@).nodes[anchor as int].input_link < self.links@.len());
        controls[anchor].is_anchor && !self.readings[anchor].seldom_busy && link_underfeeds_node(
            &self.links[self.nodes[anchor].input_link],
            self.active_by_node[anchor].len(),
            self.readings[anchor].backlog_to_target,
        )
    }

    fn feeder_for(&self, controls: &Vec<NodeControl<R>>, anchor: usize) -> (r: Option<usize>)
        requires
            self.load(controls@).wf(),
            !self.load(controls@).output_grows(),
            anchor < controls@.len(),
        ensures
            match r {
                Some(i) => i < controls@.len() && self.load(controls@).feeder_for(anchor as int)
                    == Some(i as int),
                None => self.load(controls@).feeder_for(anchor as int) is None,
            },
    {
        if !self.is_underfed(controls, anchor) {
            return None;
        }
        let ghost load = self.load(controls@);
        let input_link: usize = self.nodes[anchor].input_link;
        for i in 0..self.nodes.len()
            invariant
                load == self.load(controls@),
                load.wf(),
                !load.output_grows(),
                anchor < controls@.len(),
                load.is_underfed(anchor as int),
                input_link == self.nodes@[anchor as int].input_link,
                first_from(load.feeders_of(anchor as int), 0, self.nodes@.len() as int)
                    == first_from(
                    load.feeders_of(anchor as int),
                    i as int,
                    self.nodes@.len() as int,
                ),
        {
            assert(load.feeders_of(anchor as int)(i as int) == load.is_feeder_of(
                anchor as int,
                i as int,
            ));
            assert(load.nodes[i as int].input_link < self.links@.len());
            if has_link(&self.nodes[i].output_links, input_link) && !matches!(
                controls[i].thread_policy,
                ResolvedThreadPolicy::Fixed(_)
            ) && !matches!(self.links[self.nodes[i].input_link].trend, QueueTrend::Starved)
                && self.may_be_helped(controls, i) {
                return Some(i);
            }
        }
        None
    }

    fn choose_anchor_pressure_operation(&self, controls: &mut Vec<NodeControl<R>>) -> (r: Option<
        ScaleOperation,
    >)
        requires
            self.load(old(controls)@).wf(),
        ensures
            (r, final(controls)@) == self.load(old(controls)@).anchor_choice(),
            self.load(final(controls)@).wf(),
    {
        if self.links[self.output_link].trend.is_growing() {
            return None;
        }
        let ghost load = self.load(controls@);
        let count: usize = controls.len();
        for anchor in 0..count
            invariant
                count == controls@.len(),
                controls@ == old(controls)@,
                load == self.load(controls@),
                load.wf(),
                !load.output_grows(),
                first_from(load.fed(), 0, controls@.len() as int) == first_from(
                    load.fed(),
                    anchor as int,
                    controls@.len() as int,
                ),
        {
            assert(load.fed()(anchor as int) == (load.feeder_for(anchor as int) is Some));
            if let Some(i) = self.feeder_for(controls, anchor) {
                controls[anchor].last_anchor_pressure_reason = Some(
                    AnchorPressureReason::InputUnderfed,
                );
                assert(self.load(controls@) == load.noting_underfed(anchor as int));
                return self.add_or_rebalance_for_node(controls, i);
            }
        }
        None
    }

    fn is_idle(&self, controls: &Vec<NodeControl<R>>, i: usize) -> (r: bool)
        requires
            self.load(controls@).wf(),
            i < controls@.len(),
        ensures
            r == self.load(controls@).is_idle(i as int),
    {
        assert(self.load(controls@).nodes[i as int].input_link < self.links@.len());
        let active: usize = self.active_by_node[i].len();
        if active <= 1 || !node_can_scale(&controls[i]) || downstream_blocks_scale_up(
            self.links,
            self.nodes,
            i,
            self.output_link,
        ) {
            return false;
        }
        match controls[i].thread_policy {
            ResolvedThreadPolicy::Scalable(policy) => {
                match controls[i].scale_down_eligible_since {
                    Some(since) => self.now.saturating_sub(since) >= policy.scale_down_after
                        && !matches!(self.readings[i].backlog_to_low, Standing::Above),
                    None => false,
                }
            },
            ResolvedThreadPolicy::ImplicitSupport => active > max_of(
                controls[i].desired_workers,
                1,
            ) && !self.links[self.nodes[i].input_link].trend.is_growing(),
            ResolvedThreadPolicy::Fixed(_) => false,
        }
    }

    fn choose_scale_down_operation(&self, controls: &Vec<NodeControl<R>>) -> (r: Option<
        ScaleOperation,
    >)
        requires
            self.load(controls@).wf(),
        ensures
            r == self.load(controls@).scale_down(),
    {
        let ghost load = self.load(controls@);
        for i in 0..controls.len()
            invariant
                load == self.load(controls@),
                load.wf(),
                first_from(load.idleness(), 0, controls@.len() as int) == first_from(
                    load.idleness(),
                    i as int,
                    controls@.len() as int,
                ),
        {
            assert(load.idleness()(i as int) == load.is_idle(i as int));
            if self.is_idle(controls, i) {
                return Some(ScaleOperation::Remove { node_index: i, worker_id: None });
            }
        }
        None
    }
}

/// Chooses the next change of the number of workers, if one is due at `now`, and notes the pressure
/// on an anchor that it relieves.
pub fn choose_scale_operation<S, A, R: Copy>(
    links: &Vec<LinkControl<R>>,
    active_by_node: &Vec<Vec<usize>>,
    controls: &mut Vec<NodeControl<R>>,
    readings: &Vec<LoadReading>,
    nodes: &Vec<RuntimeNode<S, A, R>>,
    output_link: usize,
    global_worker_cap: usize,
    now: u128,
) -> (r: Option<ScaleOperation>)
    requires
        load_of(
            links@,
            active_by_node@,
            old(controls)@,
            readings@,
            nodes@,
            output_link,
            global_worker_cap,
            now,
        ).wf(),
    ensures
        (r, final(controls)@) == load_of(
            links@,
            active_by_node@,
            old(controls)@,
            readings@,
            nodes@,
            output_link,
            global_worker_cap,
            now,
        ).choice(),
{
    let situation: Situation<S, A, R> = Situation {
        links,
        active_by_node,
        readings,
        nodes,
        output_link,
        global_worker_cap,
        now,
    };
    if let Some(operation) = situation.choose_scalable_scale_up(controls) {
        return Some(operation);
    }
    if let Some(node) = situation.choose_support_node(controls) {
        if let Some(operation) = situation.add_or_rebalance_for_node(controls, node) {
            return Some(operation);
        }
    }
    if let Some(operation) = situation.choose_anchor_pressure_operation(controls) {
        return Some(operation);
    }
    situation.choose_scale_down_operation(controls)
}

/// Whether these are the same controls but for the pressure that is noted for anchors.
pub open spec fn same_but_pressure<R>(before: Seq<NodeControl<R>>, after: Seq<NodeControl<R>>) -> bool {
    &&& after.len() == before.len()
    &&& forall|i: int|
        0 <= i < before.len() ==> {
            ||| #[trigger] after[i] == before[i]
            ||| before[i].is_anchor && after[i] == NodeControl {
                last_anchor_pressure_reason: after[i].last_anchor_pressure_reason,
                ..before[i]
            }
        }
}

/// Whether the operation may be carried out: a worker is added only while there are fewer than may
/// be, at a node that may be changed, has fewer than it should and holds nothing up; a worker is
/// removed only from a node that may be changed and has another.
pub open spec fn is_allowed<S, A, R>(load: Load<S, A, R>, operation: ScaleOperation) -> bool {
    match operation {
        ScaleOperation::Add { node_index } => {
            let i = node_index as int;
            &&& i < load.controls.len()
            &&& load.active_count() < load.worker_cap
            &&& load.may_be_helped(i)
            &&& load.controls[i].thread_policy matches ResolvedThreadPolicy::Scalable(policy)
                ==> load.active_at(i) < policy.max_threads || exists|anchor: int|
                0 <= anchor < load.controls.len() && load.controls[anchor].is_anchor
                    && #[trigger] load.is_feeder_of(anchor, i)
        },
        ScaleOperation::Remove { node_index, worker_id } => {
            let i = node_index as int;
            &&& i < load.controls.len()
            &&& worker_id is None
            &&& load.active_at(i) > 1
            &&& can_scale(load.controls[i])
        },
    }
}

proof fn room_made_is_allowed<S, A, R>(load: Load<S, A, R>, node: int)
    requires
        load.wf(),
        load.nodes.len() <= usize::MAX,
        0 <= node < load.controls.len(),
        load.may_be_helped(node),
        load.controls[node].thread_policy is Scalable ==> exists|anchor: int|
            0 <= anchor < load.controls.len() && load.controls[anchor].is_anchor
                && #[trigger] load.is_feeder_of(anchor, node),
    ensures
        load.room_made(node).0 matches Some(operation) ==> is_allowed(load, operation),
        same_but_pressure(load.controls, load.room_made(node).1),
{
    first_from_is_first(load.givers(node), 0, load.controls.len() as int);
}

/// Whatever is chosen may be carried out, and nothing is changed in what is remembered of the nodes
/// but the pressure on anchors.
pub proof fn choice_is_allowed<S, A, R>(load: Load<S, A, R>)
    requires
        load.wf(),
        load.nodes.len() <= usize::MAX,
    ensures
        load.choice().0 matches Some(operation) ==> is_allowed(load, operation),
        same_but_pressure(load.controls, load.choice().1),
{
    first_from_is_first(load.shortness(), 0, load.controls.len() as int);
    if load.scale_up() is None {
        first_from_is_first(load.supported(), 0, load.links.len() as int);
        if let Some(i) = load.support_node() {
            let link = first_from(load.supported(), 0, load.links.len() as int)->0;
            first_from_is_first(load.support_of(link), 0, load.nodes.len() as int);
            room_made_is_allowed(load, i);
        }
        let helped = load.anchor_choice();
        first_from_is_first(load.fed(), 0, load.controls.len() as int);
        if let Some(anchor) = load.pressed_anchor() {
            first_from_is_first(load.feeders_of(anchor), 0, load.nodes.len() as int);
            let noted = load.noting_underfed(anchor);
            let i = load.feeder_for(anchor)->0;
            assert(load.is_feeder_of(anchor, i));
            assert(noted.is_feeder_of(anchor, i));
            room_made_is_allowed(noted, i);
            assert(helped == noted.room_made(i));
            if let Some(operation) = helped.0 {
                assert(is_allowed(noted, operation));
                if let ScaleOperation::Add { node_index } = operation {
                    assert(load.is_feeder_of(anchor, node_index as int));
                }
            }
        }
        assert(same_but_pressure(load.controls, helped.1));
        let rest = Load { controls: helped.1, ..load };
        first_from_is_first(rest.idleness(), 0, rest.controls.len() as int);
    }
}

/// While what waits at the end of the pipeline grows, no number of workers is changed.
pub proof fn growing_output_stops_scaling<S, A, R>(load: Load<S, A, R>)
    requires
        load.wf(),
        load.output_grows(),
    ensures
        load.choice() == (None::<ScaleOperation>, load.controls),
{
    first_from_is_first(load.shortness(), 0, load.controls.len() as int);
    first_from_is_first(load.idleness(), 0, load.controls.len() as int);
    assert(Load { controls: load.controls, ..load } == load);
}

} // verus!
