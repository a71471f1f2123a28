//! Blocks: the leaf-level tier of items, with an index from item value to
//! slot position, a scoped mutable handle through which every insertion
//! passes, and cross-tier index propagation into enclosing containers.

use crate::digest::{root_digest, Digest, TIER_CAPACITY};
use crate::index::{index_get, index_insert, index_new, index_remove, ValueIndex};
use crate::item::{item_digest, Commit, Insert, Item, Value};
use crate::tier::{Slot, Tier};
use crate::witness::Proof;
use vstd::prelude::*;

verus! {

/// The slot one insertion fills: a kept item stays a child; a forgotten
/// item leaves only its digest contribution behind.
pub open spec fn slot_for(item: Insert) -> Slot<Item> {
    match item {
        Insert::Keep(v) => Slot::Child(Item { value: v }),
        Insert::Forget(v) => Slot::Placeholder(item_digest(v)),
    }
}

/// Consistency between a block's slots and its value index: every indexed
/// value is retained at exactly the recorded position, so it is witnessable
/// there; no value is indexed at two positions; an item inserted as
/// `Forget` is never indexed.
pub open spec fn index_consistent(slots: Seq<Slot<Item>>, index: Map<Value, u16>) -> bool {
    forall|v: Value| #[trigger] index.contains_key(v) ==> {
        &&& (index[v] as int) < slots.len()
        &&& slots[index[v] as int] == Slot::<Item>::Child(Item { value: v })
    }
}

/// A sparse commitment tree recording up to 65,536 items, witnessable for
/// every item inserted as `Keep` and not forgotten since.
pub struct Block {
    item_index: ValueIndex,
    inner: Tier<Item>,
}

/// The enclosing containers' index state threaded through one insertion: a
/// standalone block has none; a block within an epoch carries its position
/// in the epoch and exclusive use of the epoch's own value index; an epoch
/// within an eternity additionally carries the epoch's position and the
/// eternity's index. Each level is updated in the same insertion call, so
/// no partial update is ever observable.
pub enum SuperIndex {
    /// A standalone block: no enclosing container to notify.
    Detached,
    /// A block inside an epoch.
    InEpoch {
        /// This block's position within the epoch.
        this_block: u16,
        /// The epoch's index from item value to block position.
        epoch_index: ValueIndex,
    },
    /// A block inside an epoch that is itself inside an eternity.
    InEternity {
        /// This block's position within the epoch.
        this_block: u16,
        /// The epoch's index from item value to block position.
        epoch_index: ValueIndex,
        /// The epoch's position within the eternity.
        this_epoch: u16,
        /// The eternity's index from item value to epoch position.
        eternity_index: ValueIndex,
    },
}

impl SuperIndex {
    /// The epoch-level position and index contents, where present.
    pub open spec fn epoch_level(&self) -> Option<(u16, Map<Value, u16>)> {
        match self {
            SuperIndex::Detached => None,
            SuperIndex::InEpoch { this_block, epoch_index } => Some((*this_block, epoch_index@)),
            SuperIndex::InEternity { this_block, epoch_index, .. } => Some(
                (*this_block, epoch_index@),
            ),
        }
    }

    /// The eternity-level position and index contents, where present.
    pub open spec fn eternity_level(&self) -> Option<(u16, Map<Value, u16>)> {
        match self {
            SuperIndex::Detached => None,
            SuperIndex::InEpoch { .. } => None,
            SuperIndex::InEternity { this_epoch, eternity_index, .. } => Some(
                (*this_epoch, eternity_index@),
            ),
        }
    }
}

/// What one successful insertion records in the enclosing indices: a kept
/// value is bound, at every present level, to this block's (respectively
/// this epoch's) position; positions themselves and absent levels never
/// change, and a forgotten item is recorded nowhere.
pub open spec fn super_recorded(post: SuperIndex, pre: SuperIndex, item: Insert) -> bool {
    if item.is_keep() {
        let v = item.value_spec();
        &&& match pre.epoch_level() {
            Some(pl) => post.epoch_level() == Some((pl.0, pl.1.insert(v, pl.0))),
            None => post.epoch_level() is None,
        }
        &&& match pre.eternity_level() {
            Some(el) => post.eternity_level() == Some((el.0, el.1.insert(v, el.0))),
            None => post.eternity_level() is None,
        }
    } else {
        post == pre
    }
}

/// The single mutation path: append `item` to the tier and, if it was kept,
/// record its position in the block's own index and in every present level
/// of the super-index, all in this one call. On a full tier nothing at all
/// is touched and the item is handed back.
fn insert_core(
    inner: &mut Tier<Item>,
    item_index: &mut ValueIndex,
    super_index: &mut SuperIndex,
    item: Insert,
) -> (r: Result<(), Insert>)
    requires
        old(inner).wf(),
        index_consistent(old(inner).slots_spec(), old(item_index)@),
    ensures
        final(inner).wf(),
        index_consistent(final(inner).slots_spec(), final(item_index)@),
        old(inner).slots_spec().len() < TIER_CAPACITY ==> {
            &&& r is Ok
            &&& final(inner).slots_spec() == old(inner).slots_spec().push(slot_for(item))
            &&& final(inner).leaves() == old(inner).leaves().push(item_digest(item.value_spec()))
            &&& if item.is_keep() {
                final(item_index)@ == old(item_index)@.insert(
                    item.value_spec(),
                    old(inner).slots_spec().len() as u16,
                )
            } else {
                final(item_index)@ == old(item_index)@
            }
            &&& super_recorded(*final(super_index), *old(super_index), item)
        },
        old(inner).slots_spec().len() >= TIER_CAPACITY ==> {
            &&& (r matches Err(it) && it == item)
            &&& *final(inner) == *old(inner)
            &&& final(item_index)@ == old(item_index)@
            &&& *final(super_index) == *old(super_index)
        },
{
    let this_item = inner.len();
    let slot = match item {
        Insert::Keep(v) => Slot::Child(Item::new(v)),
        Insert::Forget(v) => Slot::Placeholder(Item::new(v).commit()),
    };
    match inner.insert(slot) {
        Ok(_) => {
            proof {
                assert(final(inner).leaves() =~= old(inner).leaves().push(
                    item_digest(item.value_spec()),
                ));
            }
            match item.keep() {
                Some(v) => {
                    index_insert(item_index, v, this_item as u16);
                    match super_index {
                        SuperIndex::Detached => {},
                        SuperIndex::InEpoch { this_block, epoch_index } => {
                            index_insert(epoch_index, v, *this_block);
                        },
                        SuperIndex::InEternity {
                            this_block,
                            epoch_index,
                            this_epoch,
                            eternity_index,
                        } => {
                            index_insert(epoch_index, v, *this_block);
                            index_insert(eternity_index, v, *this_epoch);
                        },
                    }
                },
                None => {},
            }
            Ok(())
        },
        Err(_) => Err(item),
    }
}

impl Block {
    /// The filled slots of the underlying tier, in insertion order.
    pub closed spec fn slots(&self) -> Seq<Slot<Item>> {
        self.inner.slots_spec()
    }

    /// The block's index from item value to slot position.
    pub closed spec fn index_spec(&self) -> Map<Value, u16> {
        self.item_index@
    }

    /// The digest contribution of each filled slot, in slot order.
    pub open spec fn leaves(&self) -> Seq<Digest> {
        self.slots().map_values(|s: Slot<Item>| s.digest_spec())
    }

    /// The block's root digest.
    pub open spec fn digest_spec(&self) -> Digest {
        root_digest(self.leaves())
    }

    /// Well-formedness: the underlying tier is well-formed and the value
    /// index is consistent with the slots.
    pub closed spec fn wf(&self) -> bool {
        &&& self.inner.wf()
        &&& index_consistent(self.inner.slots_spec(), self.item_index@)
    }

    /// Create a new empty block.
    pub fn new() -> (b: Block)
        ensures
            b.wf(),
            b.slots() == Seq::<Slot<Item>>::empty(),
            b.index_spec() == Map::<Value, u16>::empty(),
    {
        let b = Block { item_index: index_new(), inner: Tier::new() };
        proof {
            assert(b.index_spec() =~= Map::<Value, u16>::empty());
        }
        b
    }

    /// Add a new item to this block, retained or digest-only. On success
    /// the item fills the next free slot and, if kept, is recorded in the
    /// block's index at that slot. If the block is full, the item is
    /// returned unchanged and nothing — slots, digest or index — changes.
    pub fn insert(&mut self, item: Insert) -> (r: Result<(), Insert>)
        requires
            old(self).wf(),
        ensures
            final(self).wf(),
            old(self).slots().len() < TIER_CAPACITY ==> {
                &&& r is Ok
                &&& final(self).slots() == old(self).slots().push(slot_for(item))
                &&& final(self).leaves() == old(self).leaves().push(
                    item_digest(item.value_spec()),
                )
                &&& if item.is_keep() {
                    final(self).index_spec() == old(self).index_spec().insert(
                        item.value_spec(),
                        old(self).slots().len() as u16,
                    )
                } else {
                    final(self).index_spec() == old(self).index_spec()
                }
            },
            old(self).slots().len() >= TIER_CAPACITY ==> {
                &&& (r matches Err(it) && it == item)
                &&& final(self).slots() == old(self).slots()
                &&& final(self).index_spec() == old(self).index_spec()
                &&& final(self).digest_spec() == old(self).digest_spec()
            },
    {
        let mut detached = SuperIndex::Detached;
        insert_core(&mut self.inner, &mut self.item_index, &mut detached, item)
    }

    /// The total number of items represented in this block, forgotten ones
    /// included.
    pub fn len(&self) -> (n: usize)
        ensures
            n == self.slots().len(),
    {
        self.inner.len()
    }

    /// Check whether this block is empty.
    pub fn is_empty(&self) -> (b: bool)
        ensures
            b == (self.slots().len() == 0),
    {
        self.inner.is_empty()
    }

    /// The root digest of this block. Hashing is lazy: nothing is hashed
    /// until a digest is requested, and the computed digest is cached, so a
    /// request after a burst of insertions pays one bottom-up pass and
    /// later requests without further modification are fast.
    pub fn hash(&mut self) -> (d: Digest)
        requires
            old(self).wf(),
        ensures
            final(self).wf(),
            final(self).slots() == old(self).slots(),
            final(self).index_spec() == old(self).index_spec(),
            d == old(self).digest_spec(),
    {
        self.inner.digest()
    }

    /// A proof of inclusion for `item` in this block, if the block retains
    /// it: the item was inserted as `Keep`, was not forgotten since, and —
    /// if it was inserted more than once — the proof speaks for the most
    /// recent insertion. Returns `None` for a value this block never kept,
    /// covering both "never inserted" and "inserted as `Forget`".
    pub fn witness(&self, item: Value) -> (r: Option<Proof>)
        requires
            self.wf(),
        ensures
            r is Some <==> self.index_spec().contains_key(item),
            r matches Some(p) ==> {
                &&& p.index == self.index_spec()[item]
                &&& p.leaf == item_digest(item)
                &&& p.verifies(self.digest_spec())
            },
    {
        let index = match index_get(&self.item_index, item) {
            Some(i) => i,
            None => {
                return None;
            },
        };
        match self.inner.witness(index as usize) {
            Some(pl) => {
                let (auth_path, leaf) = pl;
                Some(Proof { index: index as u64, auth_path, leaf })
            },
            None => None,
        }
    }

    /// Forget `item`: drop the block's ability to witness it while leaving
    /// its digest contribution — and so the block's root digest — exactly
    /// as it was. Returns whether the item was witnessable before.
    pub fn forget(&mut self, item: Value) -> (forgot: bool)
        requires
            old(self).wf(),
        ensures
            final(self).wf(),
            final(self).digest_spec() == old(self).digest_spec(),
            final(self).leaves() == old(self).leaves(),
            final(self).index_spec() == old(self).index_spec().remove(item),
            forgot == old(self).index_spec().contains_key(item),
            !final(self).index_spec().contains_key(item),
    {
        match index_get(&self.item_index, item) {
            Some(i) => {
                let _ = self.inner.forget(i as usize);
                index_remove(&mut self.item_index, item);
                proof {
                    assert(final(self).leaves() =~= old(self).leaves());
                }
                true
            },
            None => {
                proof {
                    assert(final(self).index_spec() =~= old(self).index_spec().remove(item));
                }
                false
            },
        }
    }
}

impl Default for Block {
    /// An empty block, exactly as [`Block::new`] builds it.
    fn default() -> (b: Self)
        ensures
            b.wf(),
            b.slots() == Seq::<Slot<Item>>::empty(),
            b.index_spec() == Map::<Value, u16>::empty(),
    {
        Block::new()
    }
}

/// A scoped mutable handle over a [`Block`], granted for the span of one
/// mutation: it takes exclusive ownership of the block and of whatever
/// enclosing index state applies, exposes insertion as the only mutation,
/// and hands everything back through [`BlockMut::finish`]. Every mutation
/// of a block passes through this handle's propagation logic, so the
/// block-, epoch- and eternity-level indices can never drift out of sync
/// with the tier contents.
pub struct BlockMut {
    super_index: SuperIndex,
    block: Block,
}

impl BlockMut {
    /// The block as this handle currently holds it.
    pub closed spec fn block_spec(&self) -> Block {
        self.block
    }

    /// The enclosing index state as this handle currently holds it.
    pub closed spec fn super_spec(&self) -> SuperIndex {
        self.super_index
    }

    /// Begin one scoped mutation of `block`, threading the enclosing
    /// containers' index state through it.
    pub fn new(block: Block, super_index: SuperIndex) -> (m: BlockMut)
        ensures
            m.block_spec() == block,
            m.super_spec() == super_index,
    {
        BlockMut { super_index, block }
    }

    /// End the mutation, returning the block and the enclosing index state
    /// to their owners.
    pub fn finish(self) -> (r: (Block, SuperIndex))
        ensures
            r.0 == self.block_spec(),
            r.1 == self.super_spec(),
    {
        (self.block, self.super_index)
    }

    /// Insert into the underlying block — see [`Block::insert`] — and, if
    /// the item is kept, record it against this block's position in the
    /// epoch's index and against this epoch's position in the eternity's
    /// index, for whichever of those levels the super-index carries. All
    /// levels are updated in this one call; if the insertion fails, none
    /// of the indices at any level is touched.
    pub fn insert(&mut self, item: Insert) -> (r: Result<(), Insert>)
        requires
            old(self).block_spec().wf(),
        ensures
            final(self).block_spec().wf(),
            old(self).block_spec().slots().len() < TIER_CAPACITY ==> {
                &&& r is Ok
                &&& final(self).block_spec().slots() == old(self).block_spec().slots().push(
                    slot_for(item),
                )
                &&& final(self).block_spec().leaves() == old(self).block_spec().leaves().push(
                    item_digest(item.value_spec()),
                )
                &&& if item.is_keep() {
                    final(self).block_spec().index_spec() == old(
                        self,
                    ).block_spec().index_spec().insert(
                        item.value_spec(),
                        old(self).block_spec().slots().len() as u16,
                    )
                } else {
                    final(self).block_spec().index_spec() == old(self).block_spec().index_spec()
                }
                &&& super_recorded(final(self).super_spec(), old(self).super_spec(), item)
            },
            old(self).block_spec().slots().len() >= TIER_CAPACITY ==> {
                &&& (r matches Err(it) && it == item)
                &&& final(self).block_spec().slots() == old(self).block_spec().slots()
                &&& final(self).block_spec().index_spec() == old(self).block_spec().index_spec()
                &&& final(self).block_spec().digest_spec() == old(self).block_spec().digest_spec()
                &&& final(self).super_spec() == old(self).super_spec()
            },
    {
        insert_core(&mut self.block.inner, &mut self.block.item_index, &mut self.super_index, item)
    }

    /// The underlying block's item count — see [`Block::len`].
    pub fn len(&self) -> (n: usize)
        ensures
            n == self.block_spec().slots().len(),
    {
        self.block.len()
    }

    /// Whether the underlying block is empty — see [`Block::is_empty`].
    pub fn is_empty(&self) -> (b: bool)
        ensures
            b == (self.block_spec().slots().len() == 0),
    {
        self.block.is_empty()
    }

    /// The underlying block's root digest — see [`Block::hash`].
    pub fn hash(&mut self) -> (d: Digest)
        requires
            old(self).block_spec().wf(),
        ensures
            final(self).block_spec().wf(),
            final(self).block_spec().slots() == old(self).block_spec().slots(),
            final(self).block_spec().index_spec() == old(self).block_spec().index_spec(),
            final(self).super_spec() == old(self).super_spec(),
            d == old(self).block_spec().digest_spec(),
    {
        self.block.hash()
    }

    /// A proof of inclusion from the underlying block — see
    /// [`Block::witness`].
    pub fn witness(&self, item: Value) -> (r: Option<Proof>)
        requires
            self.block_spec().wf(),
        ensures
            r is Some <==> self.block_spec().index_spec().contains_key(item),
            r matches Some(p) ==> {
                &&& p.index == self.block_spec().index_spec()[item]
                &&& p.leaf == item_digest(item)
                &&& p.verifies(self.block_spec().digest_spec())
            },
    {
        self.block.witness(item)
    }
}

/// The digest contribution of each of a sequence of insertions, in order.
pub open spec fn leaves_of(items: Seq<Insert>) -> Seq<Digest> {
    items.map_values(|it: Insert| item_digest(it.value_spec()))
}

/// Root independence from forgetting: the root digest of any sequence of
/// insertions depends only on the inserted values, never on which of them
/// were kept and which forgotten — so forgetting the payload of any subset
/// of kept items, or having inserted them as `Forget` from the start,
/// leaves the root digest identical.
pub proof fn lemma_root_independent_of_forgetting(a: Seq<Insert>, b: Seq<Insert>)
    requires
        a.len() == b.len(),
        forall|i: int| 0 <= i < a.len() ==> a[i].value_spec() == b[i].value_spec(),
    ensures
        root_digest(leaves_of(a)) == root_digest(leaves_of(b)),
{
    assert(leaves_of(a) =~= leaves_of(b));
}

} // verus!
