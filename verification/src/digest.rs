//! Digests and the binary hash tree over one tier's slots.
//!
//! A tier holds up to 2^16 slots; slot digests are combined pairwise up a
//! binary tree of height 16, with a well-known digest standing in for every
//! empty slot, so the digest of a partially filled tier is deterministic.
//! Everything the rest of the crate states about tier digests is phrased
//! over [`node_digest`], the mathematical tree of this module.

use vstd::arithmetic::div_mod::lemma_div_denominator;
use vstd::arithmetic::power2::{lemma2_to64, lemma_pow2_adds, lemma_pow2_pos, pow2};
use vstd::prelude::*;

verus! {

/// Levels between a leaf slot and the root of one tier.
pub const TIER_HEIGHT: usize = 16;

/// Number of slots in one tier: 2^TIER_HEIGHT.
pub const TIER_CAPACITY: usize = 65536;

/// Multiplier used to diffuse bits when mixing a word.
pub const MIX_MULTIPLIER: u64 = 0xff51_afd7_ed55_8ccd;

/// Salt distinguishing the left child's contribution to a parent digest.
pub const LEFT_SALT: u64 = 0x9e37_79b9_7f4a_7c15;

/// Salt distinguishing the right child's contribution to a parent digest.
pub const RIGHT_SALT: u64 = 0xc2b2_ae3d_27d4_eb4f;

/// The cryptographic summary of one node of the tree.
#[derive(Clone, Copy, Debug, PartialEq, Eq, Structural)]
pub struct Digest {
    pub word: u64,
}

/// One round of bit mixing: xor-shift, multiply, xor-shift.
pub open spec fn mix_spec(x: u64) -> u64 {
    let a = x ^ (x >> 33);
    let b = vstd::wrapping::u64_specs::wrapping_mul(a, MIX_MULTIPLIER);
    b ^ (b >> 29)
}

/// Executable counterpart of [`mix_spec`].
pub fn mix(x: u64) -> (r: u64)
    ensures
        r == mix_spec(x),
{
    let a = x ^ (x >> 33);
    let b = a.wrapping_mul(MIX_MULTIPLIER);
    b ^ (b >> 29)
}

/// How a parent digest is computed from its two children.
pub open spec fn combine_spec(l: Digest, r: Digest) -> Digest {
    let lw = vstd::wrapping::u64_specs::wrapping_mul(l.word, LEFT_SALT);
    let rw = vstd::wrapping::u64_specs::wrapping_mul(r.word, RIGHT_SALT);
    Digest { word: mix_spec(lw ^ rw) }
}

/// Executable counterpart of [`combine_spec`].
pub fn combine(l: Digest, r: Digest) -> (d: Digest)
    ensures
        d == combine_spec(l, r),
{
    let lw = l.word.wrapping_mul(LEFT_SALT);
    let rw = r.word.wrapping_mul(RIGHT_SALT);
    Digest { word: mix(lw ^ rw) }
}

/// The well-known digest of an empty leaf slot.
pub open spec fn empty_leaf() -> Digest {
    Digest { word: 0 }
}

impl Digest {
    /// The digest an empty leaf slot contributes to its parent.
    pub fn empty() -> (d: Digest)
        ensures
            d == empty_leaf(),
    {
        Digest { word: 0 }
    }
}

/// Digest of a subtree of the given height all of whose leaves are empty.
pub open spec fn empty_at(level: nat) -> Digest
    decreases level,
{
    if level == 0 {
        empty_leaf()
    } else {
        combine_spec(empty_at((level - 1) as nat), empty_at((level - 1) as nat))
    }
}

/// Digest of the node at the given level and position of the binary tree
/// whose first `leaves.len()` leaf slots hold `leaves` and whose remaining
/// slots are empty. Level 0 is the leaves; the root of a tier is level
/// [`TIER_HEIGHT`], position 0.
pub open spec fn node_digest(leaves: Seq<Digest>, level: nat, pos: nat) -> Digest
    decreases level,
{
    if level == 0 {
        if pos < leaves.len() {
            leaves[pos as int]
        } else {
            empty_leaf()
        }
    } else {
        combine_spec(
            node_digest(leaves, (level - 1) as nat, 2 * pos),
            node_digest(leaves, (level - 1) as nat, 2 * pos + 1),
        )
    }
}

/// The root digest of a tier whose filled slots contribute `leaves`.
pub open spec fn root_digest(leaves: Seq<Digest>) -> Digest {
    node_digest(leaves, TIER_HEIGHT as nat, 0)
}

/// The position of the other child of a node's parent.
pub open spec fn sibling_of(pos: nat) -> nat {
    if pos % 2 == 0 {
        pos + 1
    } else {
        (pos - 1) as nat
    }
}

/// The digest at level `k` above a leaf, reconstructed by combining the leaf
/// digest with the first `k` entries of an authentication path, one sibling
/// digest per level, in the pairing order given by the leaf's index.
pub open spec fn rebuild_to(leaf: Digest, index: nat, path: Seq<Digest>, k: nat) -> Digest
    decreases k,
{
    if k == 0 {
        leaf
    } else {
        let below = rebuild_to(leaf, index, path, (k - 1) as nat);
        let p = index / pow2((k - 1) as nat);
        if p % 2 == 0 {
            combine_spec(below, path[k - 1])
        } else {
            combine_spec(path[k - 1], below)
        }
    }
}

/// A proof's claimed root is rebuilt by folding the whole path.
pub open spec fn rebuilt_root(leaf: Digest, index: nat, path: Seq<Digest>) -> Digest {
    rebuild_to(leaf, index, path, TIER_HEIGHT as nat)
}

/// Soundness of authentication paths: folding a leaf with the sibling
/// digests of the tree itself reconstructs the tree's own node digest at
/// every level above the leaf.
#[verifier::rlimit(30)]
pub proof fn lemma_rebuild_matches_tree(leaves: Seq<Digest>, index: nat, path: Seq<Digest>, k: nat)
    requires
        index < leaves.len(),
        path.len() >= k,
        forall|j: nat|
            j < k ==> path[j as int] == node_digest(leaves, j, sibling_of(index / pow2(j))),
    ensures
        rebuild_to(leaves[index as int], index, path, k) == node_digest(
            leaves,
            k,
            index / pow2(k),
        ),
    decreases k,
{
    lemma_pow2_pos(k);
    if k == 0 {
        assert(pow2(0) == 1) by {
            lemma2_to64();
        }
    } else {
        let l1 = (k - 1) as nat;
        lemma_rebuild_matches_tree(leaves, index, path, l1);
        lemma_pow2_pos(l1);
        let p = index / pow2(l1);
        let q = index / pow2(k);
        let below = rebuild_to(leaves[index as int], index, path, l1);
        assert(below == node_digest(leaves, l1, p));
        assert(pow2(k) == pow2(l1) * 2) by {
            lemma_pow2_adds(l1, 1);
            lemma2_to64();
        }
        assert(q == p / 2) by {
            vstd::arithmetic::div_mod::lemma_div_denominator(index as int, pow2(l1) as int, 2);
        }
        assert(p == 2 * (p / 2) + p % 2);
        assert(node_digest(leaves, k, q) == combine_spec(
            node_digest(leaves, l1, 2 * q),
            node_digest(leaves, l1, 2 * q + 1),
        ));
        if p % 2 == 0 {
            assert(path[l1 as int] == node_digest(leaves, l1, sibling_of(p)));
            assert(sibling_of(p) == p + 1);
            assert(2 * q == p && 2 * q + 1 == p + 1);
            assert(rebuild_to(leaves[index as int], index, path, k) == combine_spec(
                below,
                path[l1 as int],
            ));
        } else {
            assert(path[l1 as int] == node_digest(leaves, l1, sibling_of(p)));
            assert(sibling_of(p) == (p - 1) as nat);
            assert(2 * q == p - 1 && 2 * q + 1 == p);
            assert(rebuild_to(leaves[index as int], index, path, k) == combine_spec(
                path[l1 as int],
                below,
            ));
        }
    }
}

/// Every node of `level` at or beyond position `len` roots an empty subtree.
pub open spec fn empty_beyond(leaves: Seq<Digest>, level: nat, len: nat) -> bool {
    forall|i: nat| i >= len ==> #[trigger] node_digest(leaves, level, i) == empty_at(level)
}

/// One level of bottom-up hashing: pair the digests of one level of the
/// tree, padding a lone last node with the empty digest of this level.
fn compress_level(
    level: Vec<Digest>,
    e: Digest,
    Ghost(leaves): Ghost<Seq<Digest>>,
    Ghost(k): Ghost<nat>,
) -> (next: Vec<Digest>)
    requires
        level@.len() <= TIER_CAPACITY,
        e == empty_at(k),
        forall|i: int| 0 <= i < level@.len() ==> level@[i] == node_digest(leaves, k, i as nat),
        empty_beyond(leaves, k, level@.len() as nat),
    ensures
        2 * next@.len() >= level@.len(),
        2 * next@.len() <= level@.len() + 1,
        forall|i: int| 0 <= i < next@.len() ==> next@[i] == node_digest(leaves, k + 1, i as nat),
        empty_beyond(leaves, k + 1, next@.len() as nat),
{
    let mut next: Vec<Digest> = Vec::new();
    let mut i: usize = 0;
    while 2 * i < level.len()
        invariant
            next@.len() == i,
            2 * i <= level@.len() + 1,
            level@.len() <= TIER_CAPACITY,
            e == empty_at(k),
            forall|j: int| 0 <= j < level@.len() ==> level@[j] == node_digest(leaves, k, j as nat),
            empty_beyond(leaves, k, level@.len() as nat),
            forall|j: int| 0 <= j < i ==> next@[j] == node_digest(leaves, k + 1, j as nat),
        decreases level@.len() + 1 - 2 * i,
    {
        let l = level[2 * i];
        let r = if 2 * i + 1 < level.len() {
            level[2 * i + 1]
        } else {
            e
        };
        assert(r == node_digest(leaves, k, 2 * (i as nat) + 1));
        next.push(combine(l, r));
        i += 1;
    }
    proof {
        let k1 = (k + 1) as nat;
        assert forall|j: nat| j >= next@.len() implies #[trigger] node_digest(leaves, k1, j)
            == empty_at(k1) by {
            assert(2 * j >= level@.len());
            assert(2 * j + 1 >= level@.len());
            assert(node_digest(leaves, k, 2 * j) == empty_at(k));
            assert(node_digest(leaves, k, 2 * j + 1) == empty_at(k));
        }
    }
    next
}

/// Compute the root digest of a tier from the digests of its filled slots,
/// hashing level by level up the binary tree.
pub fn compute_root(digests: Vec<Digest>) -> (r: Digest)
    requires
        digests@.len() <= TIER_CAPACITY,
    ensures
        r == root_digest(digests@),
{
    let ghost leaves = digests@;
    let mut level = digests;
    let mut e = Digest::empty();
    let mut k: usize = 0;
    proof {
        lemma2_to64();
    }
    while k < TIER_HEIGHT
        invariant
            k <= TIER_HEIGHT,
            e == empty_at(k as nat),
            level@.len() <= TIER_CAPACITY,
            level@.len() <= pow2((TIER_HEIGHT - k) as nat),
            forall|i: int| 0 <= i < level@.len() ==> level@[i] == node_digest(leaves, k as nat, i as nat),
            empty_beyond(leaves, k as nat, level@.len() as nat),
        decreases TIER_HEIGHT - k,
    {
        let next = compress_level(level, e, Ghost(leaves), Ghost(k as nat));
        proof {
            let h1 = (TIER_HEIGHT - k - 1) as nat;
            assert(pow2((TIER_HEIGHT - k) as nat) == 2 * pow2(h1)) by {
                lemma_pow2_adds(h1, 1);
                lemma2_to64();
            }
        }
        level = next;
        e = combine(e, e);
        k += 1;
    }
    if level.len() > 0 {
        let r = level[0];
        r
    } else {
        e
    }
}

/// Compute the authentication path for one slot: the sibling digest at each
/// level between the slot and the root, in leaf-to-root order.
pub fn compute_path(digests: Vec<Digest>, index: usize) -> (path: Vec<Digest>)
    requires
        index < digests@.len(),
        digests@.len() <= TIER_CAPACITY,
    ensures
        path@.len() == TIER_HEIGHT,
        forall|j: nat|
            j < TIER_HEIGHT ==> path@[j as int] == node_digest(
                digests@,
                j,
                sibling_of((index as nat) / pow2(j)),
            ),
{
    let ghost leaves = digests@;
    let mut level = digests;
    let mut e = Digest::empty();
    let mut path: Vec<Digest> = Vec::new();
    let mut pos: usize = index;
    let mut k: usize = 0;
    proof {
        lemma2_to64();
    }
    while k < TIER_HEIGHT
        invariant
            k <= TIER_HEIGHT,
            e == empty_at(k as nat),
            level@.len() <= TIER_CAPACITY,
            pos < level@.len(),
            pos == (index as nat) / pow2(k as nat),
            path@.len() == k,
            forall|i: int| 0 <= i < level@.len() ==> level@[i] == node_digest(leaves, k as nat, i as nat),
            empty_beyond(leaves, k as nat, level@.len() as nat),
            forall|j: nat|
                j < k ==> path@[j as int] == node_digest(
                    leaves,
                    j,
                    sibling_of((index as nat) / pow2(j)),
                ),
        decreases TIER_HEIGHT - k,
    {
        let sib = if pos % 2 == 0 {
            pos + 1
        } else {
            pos - 1
        };
        let s = if sib < level.len() {
            level[sib]
        } else {
            e
        };
        assert(s == node_digest(leaves, k as nat, sibling_of((index as nat) / pow2(k as nat))));
        path.push(s);
        let next = compress_level(level, e, Ghost(leaves), Ghost(k as nat));
        proof {
            assert(pow2((k + 1) as nat) == pow2(k as nat) * 2) by {
                lemma_pow2_adds(k as nat, 1);
                lemma2_to64();
            }
            lemma_pow2_pos(k as nat);
            lemma_div_denominator(index as int, pow2(k as nat) as int, 2);
        }
        level = next;
        pos = pos / 2;
        e = combine(e, e);
        k += 1;
    }
    path
}

} // verus!
