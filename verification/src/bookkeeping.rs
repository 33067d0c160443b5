//! What stays true of the supervisor's book whatever happens.

use crate::error::NodeFailure;
use crate::scaling::active_total;
use crate::supervisor::{
    first_other, involves, lists, without, Book, Removal, SupervisorFault, WorkerEvent, WorkerReach,
    WorkerRole, WorkerSlot,
};
use vstd::prelude::*;

verus! {

impl<M, C, T, F, Q, R: Copy> Book<M, C, T, F, Q, R> {
    /// Whether the worker at position `k` of the node's list is rightly there.
    pub open spec fn listed_rightly(self, node: int, k: int) -> bool {
        let worker = self.active[node][k];
        worker < self.workers.len() && self.workers[worker as int].active_node == Some(node as usize)
    }

    /// Whether a worker's own entry fits the lists: it is on the list of the node that it is at; at
    /// none it can be reached for nothing.
    pub open spec fn entered_rightly(self, worker: int) -> bool {
        let slot = self.workers[worker];
        match slot.active_node {
            Some(node) => node < self.active.len() && self.active[node as int].contains(
                worker as usize,
            ) && slot.retire is Some,
            None => slot.retire is None && slot.merge_pending is None && slot.merge_sender is None,
        }
    }

    /// Whether the worker at position `k` of the parked ones is rightly there.
    pub open spec fn parked_rightly(self, k: int) -> bool {
        let worker = self.parked[k];
        worker < self.workers.len() && self.workers[worker as int].active_node is None
    }

    /// Whether the book is in order: each worker is at one node at most, on that node's list and on
    /// no other, once; no parked worker is at a node, and none is parked twice; and what is pending
    /// names workers and nodes of the book.
    pub open spec fn in_order(self) -> bool {
        &&& self.active.len() == self.controls.len()
        &&& self.active.len() <= usize::MAX
        &&& self.workers.len() <= usize::MAX
        &&& forall|node: int, k: int|
            0 <= node < self.active.len() && 0 <= k < self.active[node].len()
                ==> #[trigger] self.listed_rightly(node, k)
        &&& forall|node: int|
            0 <= node < self.active.len() ==> (#[trigger] self.active[node]).no_duplicates()
        &&& forall|worker: int|
            0 <= worker < self.workers.len() ==> #[trigger] self.entered_rightly(worker)
        &&& forall|k: int| 0 <= k < self.parked.len() ==> #[trigger] self.parked_rightly(k)
        &&& self.parked.no_duplicates()
        &&& self.pending_known()
    }

    /// Whether the worker that the event says has left a node is at that node.
    pub open spec fn is_genuine<E>(self, event: WorkerEvent<E, M>) -> bool {
        match event {
            WorkerEvent::Parked { worker_id, node_index, returned_state } => worker_id
                < self.workers.len() && self.workers[worker_id as int].active_node == Some(
                node_index,
            ),
            WorkerEvent::Failed { worker_id, node_index, worker, failure } => worker_id
                < self.workers.len() && self.workers[worker_id as int].active_node == Some(
                node_index,
            ),
            WorkerEvent::MergeCompleted { worker_id, node_index, source_worker_id } => node_index
                < self.controls.len(),
            _ => true,
        }
    }
}

/// No worker is in two places: two positions on the nodes' lists that hold the same worker are the
/// same position, and none that is on a list is parked.
pub proof fn one_place_per_worker<M, C, T, F, Q, R: Copy>(
    book: Book<M, C, T, F, Q, R>,
    node: int,
    k: int,
    other: int,
    j: int,
)
    requires
        book.in_order(),
        0 <= node < book.active.len(),
        0 <= k < book.active[node].len(),
        0 <= other < book.active.len(),
        0 <= j < book.active[other].len(),
        book.active[node][k] == book.active[other][j],
    ensures
        node == other,
        k == j,
        !book.parked.contains(book.active[node][k]),
{
    assert(book.listed_rightly(node, k));
    assert(book.listed_rightly(other, j));
    assert(book.active[node].no_duplicates());
    if book.parked.contains(book.active[node][k]) {
        let p = choose|p: int|
            0 <= p < book.parked.len() && book.parked[p] == book.active[node][k];
        assert(book.parked_rightly(p));
    }
}

proof fn without_is_rest(s: Seq<usize>, x: usize)
    requires
        s.no_duplicates(),
        s.contains(x),
    ensures
        without(s, x).len() == s.len() - 1,
        without(s, x).no_duplicates(),
        !without(s, x).contains(x),
        forall|y: usize| y != x && s.contains(y) ==> #[trigger] without(s, x).contains(y),
        forall|k: int| 0 <= k < without(s, x).len() ==> s.contains(#[trigger] without(s, x)[k]),
{
    s.index_of_first_ensures(x);
    let i = s.index_of_first(x)->0;
    let w = without(s, x);
    assert(w == s.update(i, s.last()).drop_last());
    assert forall|y: usize| y != x && s.contains(y) implies #[trigger] w.contains(y) by {
        let k = choose|k: int| 0 <= k < s.len() && s[k] == y;
        if k == s.len() - 1 {
            assert(w[i] == y);
        } else {
            assert(w[k] == y);
        }
    }
    assert forall|k: int| 0 <= k < w.len() implies s.contains(#[trigger] w[k]) by {
        if k == i {
            assert(s[s.len() - 1] == w[k]);
        } else {
            assert(s[k] == w[k]);
        }
    }
}

proof fn left_in_order<M, C, T, F, Q, R: Copy>(
    book: Book<M, C, T, F, Q, R>,
    worker: usize,
    node: usize,
)
    requires
        book.in_order(),
        worker < book.workers.len(),
        book.workers[worker as int].active_node == Some(node),
    ensures
        book.left(worker, node).in_order(),
        !book.parked.contains(worker),
        book.left(worker, node).workers[worker as int].active_node is None,
        node < book.active.len(),
        book.active[node as int].contains(worker),
        without(book.active[node as int], worker).len() == book.active[node as int].len() - 1,
{
    assert(book.entered_rightly(worker as int));
    assert(book.active[node as int].no_duplicates());
    without_is_rest(book.active[node as int], worker);
    let rest = book.left(worker, node);
    if book.parked.contains(worker) {
        let p = choose|p: int| 0 <= p < book.parked.len() && book.parked[p] == worker;
        assert(book.parked_rightly(p));
    }
    assert forall|n: int, k: int|
        0 <= n < rest.active.len() && 0 <= k < rest.active[n].len() implies
        #[trigger] rest.listed_rightly(n, k) by {
        if n == node {
            let y = rest.active[n][k];
            assert(book.active[n].contains(y));
            let j = choose|j: int| 0 <= j < book.active[n].len() && book.active[n][j] == y;
            assert(book.listed_rightly(n, j));
            assert(rest.active[n].contains(y));
        } else {
            assert(book.listed_rightly(n, k));
        }
    }
    assert forall|w: int| 0 <= w < rest.workers.len() implies #[trigger] rest.entered_rightly(
        w,
    ) by {
        assert(book.entered_rightly(w));
        if w != worker {
            if let Some(n) = book.workers[w].active_node {
                if n == node {
                    assert(without(book.active[node as int], worker).contains(w as usize));
                }
            }
        }
    }
    assert forall|k: int| 0 <= k < rest.parked.len() implies #[trigger] rest.parked_rightly(k) by {
        assert(book.parked_rightly(k));
    }
}

/// An event keeps the book in order, provided that only workers leave a node that are at it.
pub proof fn event_keeps_order<E, M, C, T, F, Q, R: Copy>(
    book: Book<M, C, T, F, Q, R>,
    event: WorkerEvent<E, M>,
    now: u128,
)
    requires
        book.in_order(),
        book.is_genuine(event),
    ensures
        book.knows(event),
        book.after(event, now).in_order(),
{
    let next = book.after(event, now);
    match event {
        WorkerEvent::Parked { worker_id, node_index, returned_state } => {
            left_in_order(book, worker_id, node_index);
            let rest = book.left(worker_id, node_index);
            assert(next.parked == rest.parked.push(worker_id));
            assert(next.workers == rest.workers);
            assert(next.active == rest.active);
            kept_entries(rest, next);
            assert forall|k: int| 0 <= k < next.parked.len() implies
                #[trigger] next.parked_rightly(k) by {
                if k < rest.parked.len() {
                    assert(rest.parked_rightly(k));
                }
            }
            assert(next.parked.no_duplicates());
        },
        WorkerEvent::Failed { worker_id, node_index, worker, failure } => {
            left_in_order(book, worker_id, node_index);
            let rest = book.left(worker_id, node_index);
            kept_entries(rest, next);
            assert forall|k: int| 0 <= k < next.parked.len() implies
                #[trigger] next.parked_rightly(k) by {
                if k < rest.parked.len() {
                    assert(rest.parked_rightly(k));
                }
            }
            assert(next.parked.no_duplicates());
        },
        _ => {
            kept_entries(book, next);
            assert forall|k: int| 0 <= k < next.parked.len() implies
                #[trigger] next.parked_rightly(k) by {
                assert(book.parked_rightly(k));
            }
        },
    }
}

proof fn kept_entries<M, C, T, F, Q, R: Copy>(
    before: Book<M, C, T, F, Q, R>,
    after: Book<M, C, T, F, Q, R>,
)
    requires
        before.in_order(),
        after.workers == before.workers,
        after.active == before.active,
    ensures
        forall|node: int, k: int|
            0 <= node < after.active.len() && 0 <= k < after.active[node].len()
                ==> #[trigger] after.listed_rightly(node, k),
        forall|worker: int|
            0 <= worker < after.workers.len() ==> #[trigger] after.entered_rightly(worker),
        forall|node: int|
            0 <= node < after.active.len() ==> (#[trigger] after.active[node]).no_duplicates(),
{
    assert forall|node: int, k: int|
        0 <= node < after.active.len() && 0 <= k < after.active[node].len() implies
        #[trigger] after.listed_rightly(node, k) by {
        assert(before.listed_rightly(node, k));
    }
    assert forall|worker: int| 0 <= worker < after.workers.len() implies
        #[trigger] after.entered_rightly(worker) by {
        assert(before.entered_rightly(worker));
    }
}

/// To give a worker that is neither parked nor at any node to a node keeps the book in order.
pub proof fn assignment_keeps_order<M, C, T, F, Q, R: Copy>(
    book: Book<M, C, T, F, Q, R>,
    worker: usize,
    node: usize,
    role: WorkerRole,
    reach: WorkerReach<T, F, Q>,
)
    requires
        book.in_order(),
        worker < book.workers.len(),
        node < book.active.len(),
        book.workers[worker as int].active_node is None,
        !book.parked.contains(worker),
    ensures
        book.assigned(worker, node, role, reach).in_order(),
{
    let next = book.assigned(worker, node, role, reach);
    assert forall|n: int, k: int|
        0 <= n < next.active.len() && 0 <= k < next.active[n].len() implies
        #[trigger] next.listed_rightly(n, k) by {
        if n == node && k == book.active[n].len() {
        } else {
            assert(book.listed_rightly(n, k));
        }
    }
    assert(!book.active[node as int].contains(worker)) by {
        if book.active[node as int].contains(worker) {
            let k = choose|k: int|
                0 <= k < book.active[node as int].len() && book.active[node as int][k] == worker;
            assert(book.listed_rightly(node as int, k));
        }
    }
    assert forall|n: int| 0 <= n < next.active.len() implies
        (#[trigger] next.active[n]).no_duplicates() by {
        assert(book.active[n].no_duplicates());
    }
    assert forall|w: int| 0 <= w < next.workers.len() implies #[trigger] next.entered_rightly(
        w,
    ) by {
        assert(book.entered_rightly(w));
        let grown = book.active[node as int].push(worker);
        if w == worker {
            assert(grown[grown.len() - 1] == worker);
        } else if let Some(n) = book.workers[w].active_node {
            if n == node {
                let k = choose|k: int|
                    0 <= k < book.active[n as int].len() && book.active[n as int][k] == w as usize;
                assert(grown[k] == w as usize);
            }
        }
    }
    assert forall|k: int| 0 <= k < next.parked.len() implies #[trigger] next.parked_rightly(k) by {
        assert(book.parked_rightly(k));
        assert(book.parked[k] != worker);
    }
}

/// A worker that was just entered keeps the book in order, at no node and not parked.
pub proof fn registration_keeps_order<M, C, T, F, Q, R: Copy>(
    book: Book<M, C, T, F, Q, R>,
    slot: WorkerSlot<T, F, Q>,
)
    requires
        book.in_order(),
        book.workers.len() < usize::MAX,
        slot == slot.released(),
    ensures
        book.registered(slot).in_order(),
        !book.registered(slot).parked.contains(book.workers.len() as usize),
{
    let next = book.registered(slot);
    assert forall|n: int, k: int|
        0 <= n < next.active.len() && 0 <= k < next.active[n].len() implies
        #[trigger] next.listed_rightly(n, k) by {
        assert(book.listed_rightly(n, k));
    }
    assert forall|w: int| 0 <= w < next.workers.len() implies #[trigger] next.entered_rightly(
        w,
    ) by {
        if w < book.workers.len() {
            assert(book.entered_rightly(w));
        }
    }
    assert forall|k: int| 0 <= k < next.parked.len() implies #[trigger] next.parked_rightly(k) by {
        assert(book.parked_rightly(k));
    }
    if next.parked.contains(book.workers.len() as usize) {
        let p = choose|p: int|
            0 <= p < book.parked.len() && book.parked[p] == book.workers.len() as usize;
        assert(book.parked_rightly(p));
    }
}

/// A book that differs only in what is parked and what is pending stays in order, where both are right.
proof fn same_lists_keep_order<M, C, T, F, Q, R: Copy>(
    book: Book<M, C, T, F, Q, R>,
    next: Book<M, C, T, F, Q, R>,
)
    requires
        book.in_order(),
        next.active == book.active,
        next.workers == book.workers,
        next.controls.len() == book.controls.len(),
        next.pending_known(),
        forall|k: int| 0 <= k < next.parked.len() ==> #[trigger] next.parked_rightly(k),
        next.parked.no_duplicates(),
    ensures
        next.in_order(),
{
    assert forall|n: int, k: int|
        0 <= n < next.active.len() && 0 <= k < next.active[n].len() implies
        #[trigger] next.listed_rightly(n, k) by {
        assert(book.listed_rightly(n, k));
    }
    assert forall|w: int| 0 <= w < next.workers.len() implies #[trigger] next.entered_rightly(
        w,
    ) by {
        assert(book.entered_rightly(w));
    }
}

/// To park a worker that is at no node and not parked yet keeps the book in order, and so does to take
/// the one that was parked last, which is free and no longer parked from then on.
pub proof fn parking_keeps_order<M, C, T, F, Q, R: Copy>(
    book: Book<M, C, T, F, Q, R>,
    worker: usize,
)
    requires
        book.in_order(),
    ensures
        worker < book.workers.len() && book.workers[worker as int].active_node is None
            && !book.parked.contains(worker) ==> book.parking(worker).in_order(),
        book.parked.len() > 0 ==> {
            &&& book.unparked().in_order()
            &&& book.parked.last() < book.workers.len()
            &&& book.workers[book.parked.last() as int].active_node is None
            &&& !book.unparked().parked.contains(book.parked.last())
        },
{
    let more = book.parking(worker);
    if worker < book.workers.len() && book.workers[worker as int].active_node is None
        && !book.parked.contains(worker) {
        assert forall|k: int| 0 <= k < more.parked.len() implies #[trigger] more.parked_rightly(
            k,
        ) by {
            if k < book.parked.len() {
                assert(book.parked_rightly(k));
            }
        }
        same_lists_keep_order(book, more);
    }
    if book.parked.len() > 0 {
        let fewer = book.unparked();
        assert(book.parked_rightly(book.parked.len() - 1));
        assert forall|k: int| 0 <= k < fewer.parked.len() implies #[trigger] fewer.parked_rightly(
            k,
        ) by {
            assert(book.parked_rightly(k));
        }
        same_lists_keep_order(book, fewer);
    }
}

/// To note that a worker is being added to a node, or taken off it, keeps the book in order.
pub proof fn scaling_keeps_order<M, C, T, F, Q, R: Copy>(
    book: Book<M, C, T, F, Q, R>,
    worker: usize,
    node: usize,
)
    requires
        book.in_order(),
        node < book.active.len(),
    ensures
        book.adding(worker, node).in_order(),
        book.removing(worker, node).in_order(),
{
    let added = book.adding(worker, node);
    let removed = book.removing(worker, node);
    assert forall|k: int| 0 <= k < added.parked.len() implies #[trigger] added.parked_rightly(k) by {
        assert(book.parked_rightly(k));
    }
    assert forall|k: int| 0 <= k < removed.parked.len() implies #[trigger] removed.parked_rightly(k) by {
        assert(book.parked_rightly(k));
    }
    same_lists_keep_order(book, added);
    same_lists_keep_order(book, removed);
}

/// To note that a state is being handed over to a worker of the book, and that this one was asked to
/// take it in, keeps the book in order.
pub proof fn merging_keeps_order<M, C, T, F, Q, R: Copy>(
    book: Book<M, C, T, F, Q, R>,
    source: usize,
    target: usize,
    node: usize,
    receiver: C,
)
    requires
        book.in_order(),
    ensures
        node < book.active.len() && target < book.workers.len() ==> book.transferring(
            source,
            target,
            node,
            receiver,
        ).in_order(),
        book.awaiting_target().in_order(),
{
    let handed = book.transferring(source, target, node, receiver);
    let waiting = book.awaiting_target();
    assert forall|k: int| 0 <= k < handed.parked.len() implies #[trigger] handed.parked_rightly(k) by {
        assert(book.parked_rightly(k));
    }
    assert forall|k: int| 0 <= k < waiting.parked.len() implies #[trigger] waiting.parked_rightly(k) by {
        assert(book.parked_rightly(k));
    }
    if node < book.active.len() && target < book.workers.len() {
        same_lists_keep_order(book, handed);
    }
    same_lists_keep_order(book, waiting);
}

/// How many workers are on the first `n` of these lists.
pub open spec fn listed_total(active: Seq<Seq<usize>>, n: nat) -> nat
    decreases n,
{
    if n == 0 {
        0
    } else {
        listed_total(active, (n - 1) as nat) + active[n - 1].len()
    }
}

/// To count the workers on the lists is to count the active workers.
pub proof fn totals_agree(active: Seq<Vec<usize>>, n: nat)
    requires
        n <= active.len(),
    ensures
        listed_total(lists(active), n) == active_total(active, n),
    decreases n,
{
    if n > 0 {
        totals_agree(active, (n - 1) as nat);
    }
}

proof fn total_after_update(active: Seq<Seq<usize>>, node: int, list: Seq<usize>, n: nat)
    requires
        0 <= node < active.len(),
        n <= active.len(),
    ensures
        listed_total(active.update(node, list), n) == listed_total(active, n) + if node < n {
            list.len() - active[node].len()
        } else {
            0
        },
    decreases n,
{
    if n > 0 {
        total_after_update(active, node, list, (n - 1) as nat);
    }
}

/// One worker given to a node makes one active worker more, so a worker that is added only while
/// there are fewer than may be leaves no more than may be.
pub proof fn assignment_adds_one<M, C, T, F, Q, R: Copy>(
    book: Book<M, C, T, F, Q, R>,
    worker: usize,
    node: usize,
    role: WorkerRole,
    reach: WorkerReach<T, F, Q>,
    worker_cap: nat,
)
    requires
        node < book.active.len(),
    ensures
        listed_total(book.assigned(worker, node, role, reach).active, book.active.len())
            == listed_total(book.active, book.active.len()) + 1,
        listed_total(book.active, book.active.len()) < worker_cap ==> listed_total(
            book.assigned(worker, node, role, reach).active,
            book.active.len(),
        ) <= worker_cap,
{
    total_after_update(
        book.active,
        node as int,
        book.active[node as int].push(worker),
        book.active.len(),
    );
}

/// A worker that leaves its node, parked or failed, makes one active worker less, and every other
/// event leaves their number as it is.
pub proof fn event_counts<E, M, C, T, F, Q, R: Copy>(
    book: Book<M, C, T, F, Q, R>,
    event: WorkerEvent<E, M>,
    now: u128,
)
    requires
        book.in_order(),
        book.is_genuine(event),
    ensures
        ({
            let before = listed_total(book.active, book.active.len());
            let after = listed_total(book.after(event, now).active, book.active.len());
            match event {
                WorkerEvent::Parked { worker_id, node_index, returned_state } => after == before - 1,
                WorkerEvent::Failed { worker_id, node_index, worker, failure } => after == before
                    - 1,
                _ => after == before,
            }
        }),
{
    match event {
        WorkerEvent::Parked { worker_id, node_index, returned_state } => {
            left_in_order(book, worker_id, node_index);
            total_after_update(
                book.active,
                node_index as int,
                without(book.active[node_index as int], worker_id),
                book.active.len(),
            );
        },
        WorkerEvent::Failed { worker_id, node_index, worker, failure } => {
            left_in_order(book, worker_id, node_index);
            total_after_update(
                book.active,
                node_index as int,
                without(book.active[node_index as int], worker_id),
                book.active.len(),
            );
        },
        _ => {},
    }
}

/// The states that were given back grow by the one that comes with a parked worker, at the end, and
/// by nothing else.
pub proof fn states_only_grow<E, M, C, T, F, Q, R: Copy>(
    book: Book<M, C, T, F, Q, R>,
    event: WorkerEvent<E, M>,
    now: u128,
)
    ensures
        book.after(event, now).states == match event {
            WorkerEvent::Parked { worker_id, node_index, returned_state: Some(state) } => {
                book.states.push(state)
            },
            _ => book.states,
        },
{
}

/// A state that is handed over goes from one worker of a node to another one of the same node.
pub proof fn transfer_stays_at_node<M, C, T, F, Q, R: Copy>(
    book: Book<M, C, T, F, Q, R>,
    node: usize,
    merging: bool,
)
    requires
        book.in_order(),
        node < book.active.len(),
    ensures
        match book.removal(node, None, merging) {
            Removal::Transfer { source_worker_id, target_worker_id } => {
                &&& merging
                &&& source_worker_id != target_worker_id
                &&& book.active[node as int].contains(source_worker_id)
                &&& book.active[node as int].contains(target_worker_id)
            },
            Removal::Cleanup { worker_id } => book.active[node as int].contains(worker_id) && (!merging
                || book.active[node as int].len() == 1),
            Removal::Nothing => book.active[node as int].len() == 0,
        },
{
    let list = book.active[node as int];
    if list.len() > 0 {
        let w = list[0];
        assert(book.listed_rightly(node as int, 0));
        assert(book.entered_rightly(w as int));
        assert(list.contains(w));
        if merging && list.len() > 1 {
            assert(list.no_duplicates());
            first_other_is_other(list, w);
            assert(list[1] != list[0]);
            assert(list.contains(list[1]));
        }
    }
}

proof fn first_other_is_other(s: Seq<usize>, x: usize)
    ensures
        match first_other(s, x) {
            Some(y) => y != x && s.contains(y),
            None => forall|k: int| 0 <= k < s.len() ==> #[trigger] s[k] == x,
        },
    decreases s.len(),
{
    if s.len() > 0 && s[0] == x {
        first_other_is_other(s.skip(1), x);
        assert forall|k: int| 0 <= k < s.len() && first_other(s, x) is None implies #[trigger] s[k]
            == x by {
            if k > 0 {
                assert(s.skip(1)[k - 1] == s[k]);
            }
        }
        if let Some(y) = first_other(s, x) {
            let k = choose|k: int| 0 <= k < s.skip(1).len() && s.skip(1)[k] == y;
            assert(s[k + 1] == y);
        }
    }
}

/// A worker that fails takes what was pending about it with it, so that nothing waits for it.
pub proof fn failure_clears_pending<E, M, C, T, F, Q, R: Copy>(
    book: Book<M, C, T, F, Q, R>,
    worker: usize,
    node: usize,
    name: String,
    failure: NodeFailure<E>,
    now: u128,
)
    ensures
        !involves(
            book.after(
                WorkerEvent::<E, M>::Failed {
                    worker_id: worker,
                    node_index: node,
                    worker: name,
                    failure,
                },
                now,
            ).pending,
            worker,
        ),
        book.fault(
            WorkerEvent::<E, M>::Failed {
                worker_id: worker,
                node_index: node,
                worker: name,
                failure,
            },
        ) == Some(SupervisorFault::Worker { worker: name, failure }),
{
}

} // verus!
