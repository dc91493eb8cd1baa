//! A consistent-hash ring.
//!
//! Nodes sit on a ring of 2^64 positions, each at the position that its
//! hash gives it. A key belongs to the first node at or after the key's own
//! position, going round to the start where there is none.

use std::collections::hash_map::DefaultHasher;
use std::hash::{Hash, Hasher};
use vstd::prelude::*;
use vstd::std_specs::hash::DefaultHasherAdditionalSpecFns;

verus! {

/// A node together with its position on the ring.
struct VirtualNode<T> {
    position: u64,
    node: T,
}

impl<T> VirtualNode<T> {
    fn new(position: u64, node: T) -> (placed: VirtualNode<T>)
        ensures
            placed.position == position,
            placed.node == node,
    {
        VirtualNode { position, node }
    }
}

/// Whether positions never go down from one entry to the next.
pub open spec fn ascending<N>(ring: Seq<(u64, N)>) -> bool {
    forall|i: int, j: int| 0 <= i <= j < ring.len() ==> ring[i].0 <= ring[j].0
}

/// How many entries stand before `position`.
pub open spec fn rank_below<N>(ring: Seq<(u64, N)>, position: u64) -> int
    decreases ring.len(),
{
    if ring.len() == 0 {
        0
    } else {
        rank_below(ring.drop_last(), position) + if ring.last().0 < position {
            1int
        } else {
            0int
        }
    }
}

/// How many entries stand at or before `position`.
pub open spec fn rank_upto<N>(ring: Seq<(u64, N)>, position: u64) -> int
    decreases ring.len(),
{
    if ring.len() == 0 {
        0
    } else {
        rank_upto(ring.drop_last(), position) + if ring.last().0 <= position {
            1int
        } else {
            0int
        }
    }
}

/// The index of the entry that owns `position`: the first at or after it,
/// or the first of all where none is. The ring must not be empty.
pub open spec fn owner_index<N>(ring: Seq<(u64, N)>, position: u64) -> int {
    if rank_below(ring, position) == ring.len() {
        0
    } else {
        rank_below(ring, position)
    }
}

/// On an ascending ring, the index that splits the entries before
/// `position` from the others is their number.
pub proof fn lemma_rank_below<N>(ring: Seq<(u64, N)>, position: u64, i: int)
    requires
        0 <= i <= ring.len(),
        forall|j: int| 0 <= j < i ==> (#[trigger] ring[j]).0 < position,
        forall|j: int| i <= j < ring.len() ==> (#[trigger] ring[j]).0 >= position,
    ensures
        rank_below(ring, position) == i,
    decreases ring.len(),
{
    if ring.len() > 0 {
        let front = ring.drop_last();
        assert forall|j: int| 0 <= j < front.len() implies front[j] == ring[j] by {}
        if i == ring.len() {
            assert(ring.last() == ring[ring.len() - 1]);
            lemma_rank_below(front, position, i - 1);
        } else {
            assert(ring.last() == ring[ring.len() - 1]);
            lemma_rank_below(front, position, i);
        }
    }
}

/// On an ascending ring, the index that splits the entries at or before
/// `position` from the others is their number.
pub proof fn lemma_rank_upto<N>(ring: Seq<(u64, N)>, position: u64, i: int)
    requires
        0 <= i <= ring.len(),
        forall|j: int| 0 <= j < i ==> (#[trigger] ring[j]).0 <= position,
        forall|j: int| i <= j < ring.len() ==> (#[trigger] ring[j]).0 > position,
    ensures
        rank_upto(ring, position) == i,
    decreases ring.len(),
{
    if ring.len() > 0 {
        let front = ring.drop_last();
        assert forall|j: int| 0 <= j < front.len() implies front[j] == ring[j] by {}
        if i == ring.len() {
            assert(ring.last() == ring[ring.len() - 1]);
            lemma_rank_upto(front, position, i - 1);
        } else {
            assert(ring.last() == ring[ring.len() - 1]);
            lemma_rank_upto(front, position, i);
        }
    }
}

/// The ranks lie within the ring, and on an ascending ring they split it:
/// the entries before the rank are smaller, those from it on are not.
pub proof fn lemma_rank_splits<N>(ring: Seq<(u64, N)>, position: u64)
    requires
        ascending(ring),
    ensures
        0 <= rank_below(ring, position) <= rank_upto(ring, position) <= ring.len(),
        forall|j: int| 0 <= j < rank_below(ring, position) ==> (#[trigger] ring[j]).0 < position,
        forall|j: int|
            rank_below(ring, position) <= j < ring.len() ==> (#[trigger] ring[j]).0 >= position,
        forall|j: int| 0 <= j < rank_upto(ring, position) ==> (#[trigger] ring[j]).0 <= position,
        forall|j: int|
            rank_upto(ring, position) <= j < ring.len() ==> (#[trigger] ring[j]).0 > position,
    decreases ring.len(),
{
    if ring.len() > 0 {
        let front = ring.drop_last();
        let last = ring.len() - 1;
        assert forall|i: int, j: int| 0 <= i <= j < front.len() implies front[i].0
            <= front[j].0 by {
            assert(front[i] == ring[i]);
            assert(front[j] == ring[j]);
        }
        lemma_rank_splits(front, position);
        assert forall|j: int| 0 <= j < front.len() implies front[j] == ring[j] by {}
        assert(ring.last() == ring[last]);
        if ring[last].0 < position {
            assert forall|j: int| 0 <= j < last implies (#[trigger] ring[j]).0 < position by {
                assert(ring[j].0 <= ring[last].0);
            }
            lemma_rank_below(front, position, last);
        }
        if ring[last].0 <= position {
            assert forall|j: int| 0 <= j < last implies (#[trigger] ring[j]).0 <= position by {
                assert(ring[j].0 <= ring[last].0);
            }
            lemma_rank_upto(front, position, last);
        }
    }
}

/// Whether `node` and `after` are what comes of taking the node at exactly
/// `position` off `ring`: of several nodes there the first goes, and where
/// none stands there nothing changes.
pub open spec fn taken_off<N>(
    ring: Seq<(u64, N)>,
    position: u64,
    node: Option<N>,
    after: Seq<(u64, N)>,
) -> bool {
    let i = rank_below(ring, position);
    if i < ring.len() && ring[i].0 == position {
        node == Some(ring[i].1) && after == ring.remove(i)
    } else {
        node is None && after == ring
    }
}

/// `Hash::hash`: feeds the key to the hasher. What a key feeds is up to
/// its own implementation of `Hash`, so nothing is promised of the hasher
/// afterwards.
#[verifier::external_body]
fn feed<K: Hash>(k: &K, state: &mut DefaultHasher) {
    k.hash(state)
}

/// The position that a key hashes to: what a fresh `DefaultHasher` makes
/// of the bytes that the key feeds it. Which bytes those are is for the
/// key's own `Hash` to say.
fn calculate_hash<K: Hash>(k: &K) -> (position: u64)
    ensures
        exists|fed: Seq<Seq<u8>>| position == #[trigger] DefaultHasher::spec_finish(fed),
{
    let mut s = DefaultHasher::new();
    feed(k, &mut s);
    let position = s.finish();
    assert(position == DefaultHasher::spec_finish(s@));
    position
}

/// The ring: its nodes in the order of their positions.
pub struct HashRing<N> {
    nodes: Vec<VirtualNode<N>>,
}

impl<N> View for HashRing<N> {
    type V = Seq<(u64, N)>;

    closed spec fn view(&self) -> Seq<(u64, N)> {
        Seq::new(self.nodes@.len(), |i: int| (self.nodes@[i].position, self.nodes@[i].node))
    }
}

impl<N> HashRing<N> {
    /// The invariant of the ring: positions never go down from one node to
    /// the next. Every ring made by [`HashRing::new`] and changed through
    /// the methods of this type has it.
    pub open spec fn wf(&self) -> bool {
        ascending(self@)
    }

    /// The first index whose node stands at or after `position`.
    fn search_below(&self, position: u64) -> (i: usize)
        requires
            self.wf(),
        ensures
            i == rank_below(self@, position),
            i <= self@.len(),
    {
        let mut low: usize = 0;
        let mut high: usize = self.nodes.len();
        while low < high
            invariant
                0 <= low <= high <= self.nodes@.len(),
                self@.len() == self.nodes@.len(),
                ascending(self@),
                forall|j: int| 0 <= j < low ==> (#[trigger] self@[j]).0 < position,
                forall|j: int| high <= j < self@.len() ==> (#[trigger] self@[j]).0 >= position,
            decreases high - low,
        {
            let mid = low + (high - low) / 2;
            assert(self@[mid as int].0 == self.nodes@[mid as int].position);
            if self.nodes[mid].position < position {
                assert forall|j: int| 0 <= j < mid + 1 implies (#[trigger] self@[j]).0
                    < position by {
                    assert(self@[j].0 <= self@[mid as int].0);
                }
                low = mid + 1;
            } else {
                assert forall|j: int| mid <= j < self@.len() implies (#[trigger] self@[j]).0
                    >= position by {
                    assert(self@[mid as int].0 <= self@[j].0);
                }
                high = mid;
            }
        }
        proof {
            lemma_rank_below(self@, position, low as int);
        }
        low
    }

    /// The first index whose node stands after `position`.
    fn search_upto(&self, position: u64) -> (i: usize)
        requires
            self.wf(),
        ensures
            i == rank_upto(self@, position),
            i <= self@.len(),
    {
        let mut low: usize = 0;
        let mut high: usize = self.nodes.len();
        while low < high
            invariant
                0 <= low <= high <= self.nodes@.len(),
                self@.len() == self.nodes@.len(),
                ascending(self@),
                forall|j: int| 0 <= j < low ==> (#[trigger] self@[j]).0 <= position,
                forall|j: int| high <= j < self@.len() ==> (#[trigger] self@[j]).0 > position,
            decreases high - low,
        {
            let mid = low + (high - low) / 2;
            assert(self@[mid as int].0 == self.nodes@[mid as int].position);
            if self.nodes[mid].position <= position {
                assert forall|j: int| 0 <= j < mid + 1 implies (#[trigger] self@[j]).0
                    <= position by {
                    assert(self@[j].0 <= self@[mid as int].0);
                }
                low = mid + 1;
            } else {
                assert forall|j: int| mid <= j < self@.len() implies (#[trigger] self@[j]).0
                    > position by {
                    assert(self@[mid as int].0 <= self@[j].0);
                }
                high = mid;
            }
        }
        proof {
            lemma_rank_upto(self@, position, low as int);
        }
        low
    }

    /// The number of nodes on the ring.
    pub fn len(&self) -> (n: usize)
        ensures
            n == self@.len(),
    {
        self.nodes.len()
    }

    /// A ring without nodes.
    pub fn new() -> (ring: HashRing<N>)
        ensures
            ring@ == Seq::<(u64, N)>::empty(),
            ring.wf(),
    {
        let ring = HashRing { nodes: Vec::new() };
        assert(ring@ =~= Seq::<(u64, N)>::empty());
        ring
    }

    /// Puts a node on the ring at the given position: behind the nodes
    /// that stand at or before it, before those that stand after it.
    pub fn place(&mut self, position: u64, node: N)
        requires
            old(self).wf(),
        ensures
            final(self)@ == old(self)@.insert(
                rank_upto(old(self)@, position),
                (position, node),
            ),
            final(self).wf(),
    {
        proof {
            lemma_rank_splits(self@, position);
        }
        let i = self.search_upto(position);
        let ghost before = self@;
        let ghost after = before.insert(i as int, (position, node));
        assert forall|a: int, b: int| 0 <= a <= b < after.len() implies after[a].0
            <= after[b].0 by {
            if a < i && b > i {
                assert(before[a].0 <= position);
                assert(before[b - 1].0 > position);
            } else if a < i && b < i {
                assert(before[a].0 <= before[b].0);
            } else if a > i {
                assert(before[a - 1].0 <= before[b - 1].0);
            } else if a < i {
                assert(before[a].0 <= position);
            } else if b > i {
                assert(before[b - 1].0 > position);
            }
        }
        let placed = VirtualNode::new(position, node);
        let ghost entries = self.nodes@;
        assert(Seq::new(
            entries.insert(i as int, placed).len(),
            |k: int|
                (
                    entries.insert(i as int, placed)[k].position,
                    entries.insert(i as int, placed)[k].node,
                ),
        ) =~= after);
        self.nodes.insert(i, placed);
    }

    /// The node that owns `position`: the first that stands at or after
    /// it, or the first of all where none does. Of several nodes at one
    /// position, the one placed first.
    pub fn owner(&self, position: u64) -> (node: Option<&N>)
        requires
            self.wf(),
        ensures
            self@.len() == 0 ==> node is None,
            self@.len() > 0 ==> node == Some(&self@[owner_index(self@, position)].1),
    {
        if self.nodes.len() == 0 {
            return None;
        }
        let pos = self.search_below(position);
        if pos == self.nodes.len() {
            assert(self@[0].1 == self.nodes@[0].node);
            return Some(&self.nodes[0].node);
        }
        assert(self@[pos as int].1 == self.nodes@[pos as int].node);
        Some(&self.nodes[pos].node)
    }

    /// Takes the node that stands at exactly `position` off the ring. Of
    /// several nodes there, the one placed first. `None`, and no change,
    /// where no node stands there.
    pub fn displace(&mut self, position: u64) -> (node: Option<N>)
        requires
            old(self).wf(),
        ensures
            taken_off(old(self)@, position, node, final(self)@),
            final(self).wf(),
    {
        let i = self.search_below(position);
        if i < self.nodes.len() {
            assert(self@[i as int].0 == self.nodes@[i as int].position);
            assert(self@[i as int].1 == self.nodes@[i as int].node);
            if self.nodes[i].position == position {
                let ghost before = self@;
                let ghost after = before.remove(i as int);
                assert forall|a: int, b: int| 0 <= a <= b < after.len() implies after[a].0
                    <= after[b].0 by {
                    let a0 = if a < i {
                        a
                    } else {
                        a + 1
                    };
                    let b0 = if b < i {
                        b
                    } else {
                        b + 1
                    };
                    assert(before[a0].0 <= before[b0].0);
                }
                let ghost entries = self.nodes@;
                assert(Seq::new(
                    entries.remove(i as int).len(),
                    |k: int|
                        (entries.remove(i as int)[k].position, entries.remove(i as int)[k].node),
                ) =~= after);
                let taken = self.nodes.remove(i);
                return Some(taken.node);
            }
        }
        None
    }
}

impl<N: Hash> HashRing<N> {
    /// Puts a node on the ring, at the position that its hash gives it.
    pub fn add(&mut self, node: N)
        requires
            old(self).wf(),
        ensures
            exists|position: u64|
                final(self)@ == old(self)@.insert(
                    #[trigger] rank_upto(old(self)@, position),
                    (position, node),
                ),
            final(self).wf(),
    {
        let node_hash = calculate_hash(&node);
        self.place(node_hash, node);
    }

    /// The node that owns a key: the first at or after the position that
    /// the key hashes to, going round the ring. `None` on an empty ring
    /// only.
    pub fn get<K: Hash>(&mut self, k: &K) -> (node: Option<&N>)
        requires
            old(self).wf(),
        ensures
            final(self)@ == old(self)@,
            old(self)@.len() == 0 ==> node is None,
            old(self)@.len() > 0 ==> exists|position: u64|
                node == Some(&old(self)@[#[trigger] owner_index(old(self)@, position)].1),
    {
        let hash = calculate_hash(&k);
        self.owner(hash)
    }

    /// Takes the node off the ring that stands exactly where the key
    /// hashes to, if one does: for the position that the key hashes to,
    /// this is [`HashRing::displace`].
    pub fn remove<K: Hash>(&mut self, k: &K) -> (node: Option<N>)
        requires
            old(self).wf(),
        ensures
            exists|position: u64| #[trigger] taken_off(old(self)@, position, node, final(self)@),
            final(self).wf(),
    {
        let hash = calculate_hash(&k);
        let node = self.displace(hash);
        assert(taken_off(old(self)@, hash, node, self@));
        node
    }
}

} // verus!
