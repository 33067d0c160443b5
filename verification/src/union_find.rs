//! Names that are joined into groups.

use crate::text::same;
use vstd::prelude::*;

verus! {

/// Names, each with the one that stands for its group.
#[verifier::ext_equal]
pub struct Groups {
    pub keys: Seq<Seq<char>>,
    /// For each name, the position of the one that stands for its group.
    pub roots: Seq<int>,
}

impl Groups {
    /// The groups once the name is there, in a group of its own where it is new.
    pub open spec fn with_key(self, key: Seq<char>) -> Self {
        if self.keys.contains(key) {
            self
        } else {
            Groups { keys: self.keys.push(key), roots: self.roots.push(self.keys.len() as int) }
        }
    }

    /// The groups once those of the names at `left` and `right` are one. What stands for the left group
    /// stands for all of it.
    pub open spec fn united(self, left: int, right: int) -> Self {
        Groups { roots: unite(self.roots, left, right), ..self }
    }

    /// Whether the groups are in order: every name is in the group of one that stands for itself, and
    /// no name is there twice.
    pub open spec fn wf(self) -> bool {
        &&& self.roots.len() == self.keys.len()
        &&& self.keys.no_duplicates()
        &&& forall|i: int|
            0 <= i < self.roots.len() ==> 0 <= #[trigger] self.roots[i] < self.roots.len()
        &&& forall|i: int|
            0 <= i < self.roots.len() ==> self.roots[#[trigger] self.roots[i]] == self.roots[i]
    }
}

/// What stands for each name's group once two groups are one.
pub open spec fn unite(roots: Seq<int>, left: int, right: int) -> Seq<int> {
    Seq::new(
        roots.len(),
        |i: int|
            if roots[i] == roots[right] {
                roots[left]
            } else {
                roots[i]
            },
    )
}

/// Names that are joined into groups: each leads, by way of others, to the one that stands for its
/// group.
pub struct KeyTable {
    keys: Vec<String>,
    parent: Vec<usize>,
    roots: Ghost<Seq<int>>,
    height: Ghost<Seq<nat>>,
    bound: Ghost<nat>,
}

impl View for KeyTable {
    type V = Groups;

    closed spec fn view(&self) -> Groups {
        Groups { keys: self.keys@.map_values(|s: String| s@), roots: self.roots@ }
    }
}

impl KeyTable {
    /// Whether the way from each name leads upwards to what stands for its group.
    pub closed spec fn wf(&self) -> bool {
        let roots = self.roots@;
        let height = self.height@;
        let n = self.keys@.len() as int;
        &&& self@.wf()
        &&& self.parent@.len() == n
        &&& roots.len() == n
        &&& height.len() == n
        &&& forall|i: int| 0 <= i < n ==> #[trigger] height[i] <= self.bound@
        &&& forall|i: int| 0 <= i < n ==> (#[trigger] self.parent@[i]) < n
        &&& forall|i: int|
            0 <= i < n && #[trigger] self.parent@[i] == i ==> roots[i] == i
        &&& forall|i: int|
            0 <= i < n && self.parent@[i] != i ==> {
                let p = #[trigger] self.parent@[i] as int;
                roots[p] == roots[i] && height[p] > height[i]
            }
        &&& forall|i: int|
            0 <= i < n && roots[i] != i ==> height[#[trigger] roots[i]] > height[i]
    }

    /// No names.
    pub fn new() -> (r: Self)
        ensures
            r.wf(),
            r@.wf(),
            r@ == (Groups { keys: Seq::<Seq<char>>::empty(), roots: Seq::<int>::empty() }),
    {
        KeyTable {
            keys: Vec::new(),
            parent: Vec::new(),
            roots: Ghost(Seq::empty()),
            height: Ghost(Seq::empty()),
            bound: Ghost(0),
        }
    }

    /// How many names there are.
    pub fn len(&self) -> (r: usize)
        requires
            self.wf(),
        ensures
            r == self@.keys.len(),
    {
        self.keys.len()
    }

    /// The name at that position.
    pub fn key(&self, i: usize) -> (r: &str)
        requires
            self.wf(),
            i < self@.keys.len(),
        ensures
            r@ == self@.keys[i as int],
    {
        self.keys[i].as_str()
    }

    /// Where the name is, if it is there.
    pub fn position(&self, key: &str) -> (r: Option<usize>)
        requires
            self.wf(),
        ensures
            match r {
                Some(i) => i < self@.keys.len() && self@.keys[i as int] == key@,
                None => !self@.keys.contains(key@),
            },
    {
        for i in 0..self.keys.len()
            invariant
                forall|k: int| 0 <= k < i ==> (#[trigger] self.keys@[k])@ != key@,
        {
            if same(self.keys[i].as_str(), key) {
                return Some(i);
            }
        }
        assert forall|k: int| 0 <= k < self@.keys.len() implies self@.keys[k] != key@ by {
            assert(self.keys@[k]@ != key@);
        }
        None
    }

    /// Adds a name, in a group of its own, unless it is there.
    pub fn insert_key(&mut self, key: &str)
        requires
            old(self).wf(),
        ensures
            final(self).wf(),
            final(self)@.wf(),
            final(self)@ == old(self)@.with_key(key@),
    {
        match self.position(key) {
            Some(i) => {
                assert(self@.keys[i as int] == key@);
            },
            None => {
                let i: usize = self.keys.len();
                let ghost before = *self;
                self.keys.push(key.to_owned());
                self.parent.push(i);
                proof {
                    self.roots@ = self.roots@.push(i as int);
                    self.height@ = self.height@.push(0);
                }
                assert(self@.keys == before@.keys.push(key@));
                assert(self@ == before@.with_key(key@));
                assert forall|k: int| 0 <= k < self.keys@.len() implies 0
                    <= #[trigger] self.roots@[k] < self.keys@.len() by {
                    if k < i {
                        assert(0 <= before@.roots[k] < before@.roots.len());
                    }
                }
                assert forall|k: int| 0 <= k < self.keys@.len() implies
                    self.roots@[#[trigger] self.roots@[k]] == self.roots@[k] by {
                    if k < i {
                        assert(0 <= before@.roots[k] < before@.roots.len());
                        assert(before@.roots[before@.roots[k]] == before@.roots[k]);
                    }
                }
                assert forall|k: int|
                    0 <= k < self.keys@.len() && self.parent@[k] != k implies ({
                    let p = #[trigger] self.parent@[k] as int;
                    self.roots@[p] == self.roots@[k] && self.height@[p] > self.height@[k]
                }) by {
                    assert(before.parent@[k] != k);
                }
                assert forall|k: int|
                    0 <= k < self.keys@.len() && self.roots@[k] != k implies
                    self.height@[#[trigger] self.roots@[k]] > self.height@[k] by {
                    assert(before.roots@[k] != k);
                    assert(0 <= before@.roots[k] < before@.roots.len());
                }
            },
        }
    }

    /// What stands for the group of the name at that position. Names on the way there lead to it at once
    /// from then on.
    pub fn find(&mut self, i: usize) -> (r: usize)
        requires
            old(self).wf(),
            i < old(self)@.keys.len(),
        ensures
            final(self).wf(),
            final(self)@.wf(),
            final(self)@ == old(self)@,
            r == old(self)@.roots[i as int],
            r < old(self)@.keys.len(),
            final(self).same_ways_up(old(self)),
        decreases old(self).way_up(i as int),
    {
        let next: usize = self.parent[i];
        if next == i {
            return i;
        }
        let root: usize = self.find(next);
        let ghost before = *self;
        self.parent.set(i, root);
        assert(self@ == before@);
        proof {
            assert(before@.wf());
            assert(before.roots@[root as int] == root);
            assert(before.roots@[i as int] == root);
            assert(before.height@[root as int] > before.height@[i as int]);
            assert forall|k: int|
                0 <= k < self.keys@.len() && self.parent@[k] != k implies ({
                let p = #[trigger] self.parent@[k] as int;
                self.roots@[p] == self.roots@[k] && self.height@[p] > self.height@[k]
            }) by {
                if k != i {
                    assert(before.parent@[k] != k);
                }
            }
            assert forall|k: int| 0 <= k < self.keys@.len() && #[trigger] self.parent@[k] == k
                implies self.roots@[k] == k by {
                if k != i {
                    assert(before.parent@[k] == k);
                }
            }
        }
        root
    }

    /// How far it is at most from the name at `i` up to what stands for its group.
    pub closed spec fn way_up(&self, i: int) -> int {
        self.bound@ - self.height@[i]
    }

    /// Whether it is as far up in this table as in the other.
    pub closed spec fn same_ways_up(&self, other: &Self) -> bool {
        self.height@ == other.height@ && self.bound@ == other.bound@
    }

    /// Makes one group of those of the names at `left` and `right`.
    pub fn union(&mut self, left: usize, right: usize)
        requires
            old(self).wf(),
            left < old(self)@.keys.len(),
            right < old(self)@.keys.len(),
        ensures
            final(self).wf(),
            final(self)@.wf(),
            final(self)@ == old(self)@.united(left as int, right as int),
    {
        let l: usize = self.find(left);
        let r: usize = self.find(right);
        let ghost before = *self;
        assert(before@.wf());
        if l == r {
            assert(before@.united(left as int, right as int).roots == before@.roots);
            return ;
        }
        self.parent.set(r, l);
        proof {
            let top = if before.height@[l as int] > before.height@[r as int] {
                before.height@[l as int]
            } else {
                before.height@[r as int] + 1
            };
            self.height@ = before.height@.update(l as int, top);
            self.bound@ = if before.bound@ >= top {
                before.bound@
            } else {
                top
            };
            self.roots@ = unite(before.roots@, left as int, right as int);
            assert(before.roots@[l as int] == l) by {
                assert(before@.roots[before@.roots[left as int]] == before@.roots[left as int]);
            }
            assert(before.roots@[r as int] == r) by {
                assert(before@.roots[before@.roots[right as int]] == before@.roots[right as int]);
            }
            assert(self@ == before@.united(left as int, right as int));
            let n = self.keys@.len() as int;
            assert forall|k: int| 0 <= k < n implies 0 <= #[trigger] self.roots@[k] < n by {
                assert(0 <= before@.roots[k] < n);
            }
            assert forall|k: int| 0 <= k < n implies self.roots@[#[trigger] self.roots@[k]]
                == self.roots@[k] by {
                assert(0 <= before@.roots[k] < n);
                assert(before@.roots[before@.roots[k]] == before@.roots[k]);
            }
            assert forall|k: int| 0 <= k < n && self.parent@[k] != k implies ({
                let p = #[trigger] self.parent@[k] as int;
                self.roots@[p] == self.roots@[k] && self.height@[p] > self.height@[k]
            }) by {
                if k == r {
                } else {
                    assert(before.parent@[k] != k);
                    if k == l {
                        assert(before.roots@[k] == k);
                        assert(before.height@[before.parent@[k] as int] > before.height@[k]);
                        assert(before.roots@[before.parent@[k] as int] == l);
                        assert(before.parent@[k] as int != l);
                        assert(before.height@[before.roots@[before.parent@[k] as int]]
                            > before.height@[before.parent@[k] as int]);
                    }
                }
            }
            assert forall|k: int| 0 <= k < n && #[trigger] self.parent@[k] == k implies
                self.roots@[k] == k by {
                assert(before.parent@[k] == k);
                assert(before.roots@[k] == k);
            }
            assert forall|k: int| 0 <= k < n && self.roots@[k] != k implies
                self.height@[#[trigger] self.roots@[k]] > self.height@[k] by {
                assert(0 <= before@.roots[k] < n);
                if before.roots@[k] == r {
                    if k != r {
                        assert(before.height@[before.roots@[k]] > before.height@[k]);
                    }
                } else {
                    assert(before.roots@[k] != k);
                    assert(before.height@[before.roots@[k]] > before.height@[k]);
                    if k == l {
                        assert(before.roots@[l as int] == l);
                    }
                }
            }
            assert forall|k: int| 0 <= k < n implies #[trigger] self.height@[k] <= self.bound@ by {
                assert(before.height@[k] <= before.bound@);
            }
        }
    }
}

/// The groups once those of the first `n` pairs of names are one each.
pub open spec fn all_united(groups: Groups, pairs: Seq<(int, int)>, n: nat) -> Groups
    decreases n,
{
    if n == 0 {
        groups
    } else {
        all_united(groups, pairs, (n - 1) as nat).united(pairs[n - 1].0, pairs[n - 1].1)
    }
}

/// Whether one of the first `n` pairs joins the two, either way.
pub open spec fn is_pair(pairs: Seq<(int, int)>, n: nat, a: int, b: int) -> bool {
    exists|k: int| 0 <= k < n && (#[trigger] pairs[k] == (a, b) || pairs[k] == (b, a))
}

/// Whether each of these names is joined to the next by one of the first `n` pairs.
pub open spec fn is_chain(pairs: Seq<(int, int)>, n: nat, chain: Seq<int>) -> bool {
    chain.len() >= 1 && forall|k: int|
        0 <= k < chain.len() - 1 ==> is_pair(pairs, n, #[trigger] chain[k], chain[k + 1])
}

/// Whether the first `n` pairs join the two, directly or by way of others.
pub open spec fn are_joined(pairs: Seq<(int, int)>, n: nat, a: int, b: int) -> bool {
    exists|chain: Seq<int>|
        #[trigger] is_chain(pairs, n, chain) && chain[0] == a && chain.last() == b
}

proof fn joined_by_more(pairs: Seq<(int, int)>, m: nat, n: nat, a: int, b: int)
    requires
        m <= n,
        are_joined(pairs, m, a, b),
    ensures
        are_joined(pairs, n, a, b),
{
    let chain = choose|chain: Seq<int>|
        #[trigger] is_chain(pairs, m, chain) && chain[0] == a && chain.last() == b;
    assert forall|k: int| 0 <= k < chain.len() - 1 implies is_pair(
        pairs,
        n,
        #[trigger] chain[k],
        chain[k + 1],
    ) by {
        assert(is_pair(pairs, m, chain[k], chain[k + 1]));
        let j = choose|j: int|
            0 <= j < m && (#[trigger] pairs[j] == (chain[k], chain[k + 1]) || pairs[j] == (
                chain[k + 1],
                chain[k],
            ));
        assert(0 <= j < n);
    }
    assert(is_chain(pairs, n, chain));
}

proof fn joined_both_ways(pairs: Seq<(int, int)>, n: nat, a: int, b: int)
    requires
        are_joined(pairs, n, a, b),
    ensures
        are_joined(pairs, n, b, a),
{
    let chain = choose|chain: Seq<int>|
        #[trigger] is_chain(pairs, n, chain) && chain[0] == a && chain.last() == b;
    let back = Seq::new(chain.len(), |k: int| chain[chain.len() - 1 - k]);
    assert forall|k: int| 0 <= k < back.len() - 1 implies is_pair(
        pairs,
        n,
        #[trigger] back[k],
        back[k + 1],
    ) by {
        let m = chain.len() - 2 - k;
        assert(is_pair(pairs, n, chain[m], chain[m + 1]));
    }
    assert(is_chain(pairs, n, back));
}

proof fn joined_onwards(pairs: Seq<(int, int)>, n: nat, a: int, b: int, c: int)
    requires
        are_joined(pairs, n, a, b),
        are_joined(pairs, n, b, c),
    ensures
        are_joined(pairs, n, a, c),
{
    let first = choose|chain: Seq<int>|
        #[trigger] is_chain(pairs, n, chain) && chain[0] == a && chain.last() == b;
    let second = choose|chain: Seq<int>|
        #[trigger] is_chain(pairs, n, chain) && chain[0] == b && chain.last() == c;
    let chain = first.drop_last() + second;
    assert forall|k: int| 0 <= k < chain.len() - 1 implies is_pair(
        pairs,
        n,
        #[trigger] chain[k],
        chain[k + 1],
    ) by {
        if k < first.len() - 1 {
            assert(is_pair(pairs, n, first[k], first[k + 1]));
        } else {
            let m = k - (first.len() - 1);
            assert(is_pair(pairs, n, second[m], second[m + 1]));
        }
    }
    assert(is_chain(pairs, n, chain));
    assert(chain.last() == c);
    assert(chain[0] == a);
}

proof fn united_wf(groups: Groups, pairs: Seq<(int, int)>, n: nat)
    requires
        groups.wf(),
        n <= pairs.len(),
        forall|k: int|
            0 <= k < pairs.len() ==> 0 <= (#[trigger] pairs[k]).0 < groups.keys.len() && 0
                <= pairs[k].1 < groups.keys.len(),
    ensures
        all_united(groups, pairs, n).wf(),
        all_united(groups, pairs, n).keys == groups.keys,
    decreases n,
{
    if n > 0 {
        united_wf(groups, pairs, (n - 1) as nat);
        let before = all_united(groups, pairs, (n - 1) as nat);
        let after = all_united(groups, pairs, n);
        let (l, r) = pairs[n - 1];
        assert forall|i: int| 0 <= i < after.roots.len() implies 0 <= #[trigger] after.roots[i]
            < after.roots.len() by {
            assert(0 <= before.roots[i] < before.roots.len());
            assert(0 <= before.roots[l] < before.roots.len());
        }
        assert forall|i: int| 0 <= i < after.roots.len() implies
            after.roots[#[trigger] after.roots[i]] == after.roots[i] by {
            assert(0 <= before.roots[i] < before.roots.len());
            assert(0 <= before.roots[l] < before.roots.len());
            assert(before.roots[before.roots[i]] == before.roots[i]);
            assert(before.roots[before.roots[l]] == before.roots[l]);
        }
    }
}

proof fn chain_shares_group(
    groups: Groups,
    pairs: Seq<(int, int)>,
    n: nat,
    chain: Seq<int>,
    k: int,
)
    requires
        n <= pairs.len(),
        forall|j: int|
            0 <= j < n ==> all_united(groups, pairs, n).roots[(#[trigger] pairs[j]).0]
                == all_united(groups, pairs, n).roots[pairs[j].1],
        is_chain(pairs, n, chain),
        0 <= k < chain.len(),
    ensures
        all_united(groups, pairs, n).roots[chain[k]] == all_united(groups, pairs, n).roots[chain[0]],
    decreases k,
{
    if k > 0 {
        chain_shares_group(groups, pairs, n, chain, k - 1);
        assert(is_pair(pairs, n, chain[k - 1], chain[(k - 1) + 1]));
        let j = choose|j: int|
            0 <= j < n && (#[trigger] pairs[j] == (chain[k - 1], chain[k]) || pairs[j] == (
                chain[k],
                chain[k - 1],
            ));
        assert(all_united(groups, pairs, n).roots[pairs[j].0] == all_united(
            groups,
            pairs,
            n,
        ).roots[pairs[j].1]);
    }
}

proof fn pairs_share_group(groups: Groups, pairs: Seq<(int, int)>, n: nat, j: int)
    requires
        groups.wf(),
        n <= pairs.len(),
        0 <= j < n,
        forall|k: int|
            0 <= k < pairs.len() ==> 0 <= (#[trigger] pairs[k]).0 < groups.keys.len() && 0
                <= pairs[k].1 < groups.keys.len(),
    ensures
        all_united(groups, pairs, n).roots[pairs[j].0] == all_united(
            groups,
            pairs,
            n,
        ).roots[pairs[j].1],
    decreases n,
{
    united_wf(groups, pairs, (n - 1) as nat);
    if j < n - 1 {
        pairs_share_group(groups, pairs, (n - 1) as nat, j);
    }
}

proof fn group_is_joined(groups: Groups, pairs: Seq<(int, int)>, n: nat, a: int, b: int)
    requires
        groups.wf(),
        n <= pairs.len(),
        forall|i: int| 0 <= i < groups.roots.len() ==> #[trigger] groups.roots[i] == i,
        forall|k: int|
            0 <= k < pairs.len() ==> 0 <= (#[trigger] pairs[k]).0 < groups.keys.len() && 0
                <= pairs[k].1 < groups.keys.len(),
        0 <= a < groups.keys.len(),
        0 <= b < groups.keys.len(),
        all_united(groups, pairs, n).roots[a] == all_united(groups, pairs, n).roots[b],
    ensures
        are_joined(pairs, n, a, b),
    decreases n,
{
    if n == 0 {
        assert(is_chain(pairs, 0, seq![a]));
        assert(seq![a].last() == b);
    } else {
        let m = (n - 1) as nat;
        let before = all_united(groups, pairs, m);
        let (l, r) = pairs[n - 1];
        united_wf(groups, pairs, m);
        if before.roots[a] == before.roots[b] {
            group_is_joined(groups, pairs, m, a, b);
            joined_by_more(pairs, m, n, a, b);
        } else {
            let hop = seq![l, r];
            assert(pairs[n - 1] == (hop[0], hop[0int + 1]));
            assert(is_pair(pairs, n, hop[0], hop[0int + 1]));
            assert(is_chain(pairs, n, hop));
            assert(hop[0] == l && hop.last() == r);
            assert(are_joined(pairs, n, l, r));
            joined_both_ways(pairs, n, l, r);
            let (x, y) = if before.roots[a] == before.roots[r] {
                (r, l)
            } else {
                (l, r)
            };
            group_is_joined(groups, pairs, m, a, x);
            group_is_joined(groups, pairs, m, y, b);
            joined_by_more(pairs, m, n, a, x);
            joined_by_more(pairs, m, n, y, b);
            joined_onwards(pairs, n, a, x, y);
            joined_onwards(pairs, n, a, y, b);
        }
    }
}

/// Names that were apart at first share a group, once those of pairs of names were made one, if and
/// only if the pairs join them, directly or by way of others.
pub proof fn groups_are_joined_names(
    groups: Groups,
    pairs: Seq<(int, int)>,
    n: nat,
    a: int,
    b: int,
)
    requires
        groups.wf(),
        n <= pairs.len(),
        forall|i: int| 0 <= i < groups.roots.len() ==> #[trigger] groups.roots[i] == i,
        forall|k: int|
            0 <= k < pairs.len() ==> 0 <= (#[trigger] pairs[k]).0 < groups.keys.len() && 0
                <= pairs[k].1 < groups.keys.len(),
        0 <= a < groups.keys.len(),
        0 <= b < groups.keys.len(),
    ensures
        all_united(groups, pairs, n).wf(),
        all_united(groups, pairs, n).keys == groups.keys,
        all_united(groups, pairs, n).roots[a] == all_united(groups, pairs, n).roots[b]
            <==> are_joined(pairs, n, a, b),
{
    united_wf(groups, pairs, n);
    if all_united(groups, pairs, n).roots[a] == all_united(groups, pairs, n).roots[b] {
        group_is_joined(groups, pairs, n, a, b);
    }
    if are_joined(pairs, n, a, b) {
        let chain = choose|chain: Seq<int>|
            #[trigger] is_chain(pairs, n, chain) && chain[0] == a && chain.last() == b;
        assert forall|j: int| 0 <= j < n implies all_united(groups, pairs, n).roots[(
        #[trigger] pairs[j]).0] == all_united(groups, pairs, n).roots[pairs[j].1] by {
            pairs_share_group(groups, pairs, n, j);
        }
        chain_shares_group(groups, pairs, n, chain, chain.len() - 1);
    }
}

} // verus!
