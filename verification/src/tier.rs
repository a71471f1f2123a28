//! The generic tier: a fixed-capacity, ordered, append-only, lazily hashed
//! container of child nodes. It is the recursive building block of the
//! structure: a block is a tier of items, an epoch a tier of blocks, an
//! eternity a tier of epochs.

use crate::digest::{
    compute_path, compute_root, lemma_rebuild_matches_tree, node_digest, rebuilt_root,
    root_digest, sibling_of, Digest, TIER_CAPACITY, TIER_HEIGHT,
};
use crate::item::Commit;
use vstd::arithmetic::div_mod::lemma_basic_div;
use vstd::arithmetic::power2::{lemma2_to64, pow2};
use vstd::prelude::*;

verus! {

/// One filled slot of a tier: either a retained child, or the frozen digest
/// contribution of a child whose payload has been forgotten. Slots past the
/// inserted prefix are empty and are not represented.
pub enum Slot<T> {
    /// A retained child.
    Child(T),
    /// A forgotten child: only its digest contribution remains.
    Placeholder(Digest),
}

impl<T: Commit> Slot<T> {
    /// The digest this slot contributes to the tree.
    pub open spec fn digest_spec(&self) -> Digest {
        match self {
            Slot::Child(t) => t.commitment(),
            Slot::Placeholder(d) => *d,
        }
    }

    /// Whether the slot still holds its child.
    pub open spec fn is_retained(&self) -> bool {
        self matches Slot::Child(_)
    }

    /// Compute the digest this slot contributes to the tree.
    pub fn digest(&self) -> (d: Digest)
        ensures
            d == self.digest_spec(),
    {
        match self {
            Slot::Child(t) => t.commit(),
            Slot::Placeholder(d) => *d,
        }
    }
}

/// A fixed-capacity (65,536-slot), ordered, append-only container of child
/// nodes with a lazily computed, cached root digest.
pub struct Tier<T> {
    slots: Vec<Slot<T>>,
    cached: Option<Digest>,
}

impl<T: Commit> Tier<T> {
    /// The filled slots, in insertion order.
    pub closed spec fn slots_spec(&self) -> Seq<Slot<T>> {
        self.slots@
    }

    /// The digest each filled slot contributes, in slot order.
    pub open spec fn leaves(&self) -> Seq<Digest> {
        self.slots_spec().map_values(|s: Slot<T>| s.digest_spec())
    }

    /// The root digest summarizing everything inserted so far.
    pub open spec fn digest_spec(&self) -> Digest {
        root_digest(self.leaves())
    }

    /// Well-formedness: the tier respects its capacity, and whatever digest
    /// is cached is the digest of the current contents.
    pub closed spec fn wf(&self) -> bool {
        &&& self.slots@.len() <= TIER_CAPACITY
        &&& match self.cached {
            Some(d) => d == self.digest_spec(),
            None => true,
        }
    }

    /// Create an empty tier.
    pub fn new() -> (t: Tier<T>)
        ensures
            t.wf(),
            t.slots_spec() == Seq::<Slot<T>>::empty(),
    {
        Tier { slots: Vec::new(), cached: None }
    }

    /// The number of filled slots.
    pub fn len(&self) -> (n: usize)
        ensures
            n == self.slots_spec().len(),
    {
        self.slots.len()
    }

    /// Whether no slot has been filled yet.
    pub fn is_empty(&self) -> (b: bool)
        ensures
            b == (self.slots_spec().len() == 0),
    {
        self.slots.len() == 0
    }

    /// Append a child at the next free slot. If the tier is full, the child
    /// is returned unchanged and the tier is left exactly as it was.
    pub fn insert(&mut self, child: Slot<T>) -> (r: Result<(), Slot<T>>)
        requires
            old(self).wf(),
        ensures
            final(self).wf(),
            old(self).slots_spec().len() < TIER_CAPACITY ==> r is Ok && final(self).slots_spec()
                == old(self).slots_spec().push(child),
            old(self).slots_spec().len() >= TIER_CAPACITY ==> *final(self) == *old(self) && (
            r matches Err(c) && c == child),
    {
        if self.slots.len() < TIER_CAPACITY {
            self.slots.push(child);
            self.cached = None;
            Ok(())
        } else {
            Err(child)
        }
    }

    /// Forget the child at `index`: freeze its digest contribution in a
    /// placeholder and drop the child itself. The tree's digests do not
    /// change. Returns whether a retained child was forgotten.
    pub fn forget(&mut self, index: usize) -> (forgot: bool)
        requires
            old(self).wf(),
        ensures
            final(self).wf(),
            final(self).leaves() == old(self).leaves(),
            final(self).digest_spec() == old(self).digest_spec(),
            final(self).slots_spec().len() == old(self).slots_spec().len(),
            forgot == (index < old(self).slots_spec().len()
                && old(self).slots_spec()[index as int].is_retained()),
            forall|i: int|
                0 <= i < old(self).slots_spec().len() && i != index
                    ==> final(self).slots_spec()[i] == old(self).slots_spec()[i],
            index < old(self).slots_spec().len() ==> !(final(self).slots_spec()[
                index as int
            ].is_retained()),
    {
        if index >= self.slots.len() {
            return false;
        }
        let frozen = match &self.slots[index] {
            Slot::Child(t) => Some(t.commit()),
            Slot::Placeholder(_) => None,
        };
        match frozen {
            Some(d) => {
                self.slots[index] = Slot::Placeholder(d);
                proof {
                    assert(final(self).leaves() =~= old(self).leaves());
                }
                true
            },
            None => false,
        }
    }

    /// The root digest. Uses the cached digest when no mutation has occurred
    /// since it was computed; otherwise recomputes it bottom-up and caches
    /// the result.
    pub fn digest(&mut self) -> (d: Digest)
        requires
            old(self).wf(),
        ensures
            final(self).wf(),
            final(self).slots_spec() == old(self).slots_spec(),
            d == old(self).digest_spec(),
    {
        match self.cached {
            Some(d) => d,
            None => {
                let ds = self.slot_digests();
                let d = compute_root(ds);
                self.cached = Some(d);
                d
            },
        }
    }

    /// Collect each filled slot's digest contribution, in slot order.
    fn slot_digests(&self) -> (ds: Vec<Digest>)
        ensures
            ds@ == self.leaves(),
    {
        let mut ds: Vec<Digest> = Vec::new();
        let mut i: usize = 0;
        while i < self.slots.len()
            invariant
                i <= self.slots@.len(),
                ds@.len() == i,
                forall|j: int| 0 <= j < i ==> ds@[j] == self.slots@[j].digest_spec(),
            decreases self.slots@.len() - i,
        {
            ds.push(self.slots[i].digest());
            i += 1;
        }
        proof {
            assert(ds@ =~= self.leaves());
        }
        ds
    }

    /// The authentication path and leaf digest for the slot at `index`, if
    /// that slot is filled and retained: the sibling digests along the path
    /// from the slot to the root, leaf level first. Folding the leaf digest
    /// with the path reconstructs this tier's root digest exactly.
    pub fn witness(&self, index: usize) -> (r: Option<(Vec<Digest>, Digest)>)
        requires
            self.wf(),
        ensures
            r is Some <==> index < self.slots_spec().len()
                && self.slots_spec()[index as int].is_retained(),
            r matches Some(pl) ==> {
                &&& pl.0@.len() == TIER_HEIGHT
                &&& pl.1 == self.leaves()[index as int]
                &&& forall|j: nat|
                    j < TIER_HEIGHT ==> pl.0@[j as int] == node_digest(
                        self.leaves(),
                        j,
                        sibling_of((index as nat) / pow2(j)),
                    )
                &&& rebuilt_root(pl.1, index as nat, pl.0@) == self.digest_spec()
            },
    {
        if index >= self.slots.len() {
            return None;
        }
        let retained = match &self.slots[index] {
            Slot::Child(_) => true,
            Slot::Placeholder(_) => false,
        };
        if !retained {
            return None;
        }
        let ds = self.slot_digests();
        let leaf = ds[index];
        let path = compute_path(ds, index);
        proof {
            lemma2_to64();
            lemma_basic_div(index as int, pow2(TIER_HEIGHT as nat) as int);
            lemma_rebuild_matches_tree(
                self.leaves(),
                index as nat,
                path@,
                TIER_HEIGHT as nat,
            );
        }
        Some((path, leaf))
    }
}

} // verus!
