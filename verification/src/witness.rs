//! Inclusion proofs: an authentication path plus leaf digest and index,
//! verifiable against a root digest as a pure function.

use crate::digest::{combine, rebuild_to, rebuilt_root, Digest, TIER_HEIGHT};
use vstd::arithmetic::div_mod::lemma_div_denominator;
use vstd::arithmetic::power2::{lemma2_to64, lemma_pow2_adds, lemma_pow2_pos, pow2};
use vstd::prelude::*;

verus! {

/// An inclusion witness: the index of a leaf, the sibling digests along the
/// path from that leaf to the root (leaf level first), and the leaf's own
/// digest. It is an immutable snapshot: verification never touches the tree
/// it was produced from.
pub struct Proof {
    /// The leaf's index within the tier it was witnessed in.
    pub index: u64,
    /// One sibling digest per level, from the leaf's sibling upward.
    pub auth_path: Vec<Digest>,
    /// The digest contributed by the witnessed leaf itself.
    pub leaf: Digest,
}

impl Proof {
    /// Whether this proof checks out against the claimed root digest:
    /// folding the leaf digest with the authentication path, level by level
    /// in the pairing order given by the index, reproduces the root.
    pub open spec fn verifies(&self, root: Digest) -> bool {
        &&& self.auth_path@.len() == TIER_HEIGHT
        &&& rebuilt_root(self.leaf, self.index as nat, self.auth_path@) == root
    }

    /// Check this proof against a claimed root digest. A pure function of
    /// the proof and the root: equality proves that the witnessed leaf was
    /// committed at this index; inequality signals an invalid or stale
    /// proof, reported as `false`, never as a crash.
    pub fn verify(&self, root: Digest) -> (ok: bool)
        ensures
            ok == self.verifies(root),
    {
        if self.auth_path.len() != TIER_HEIGHT {
            return false;
        }
        let mut cur = self.leaf;
        let mut pos: u64 = self.index;
        let mut k: usize = 0;
        proof {
            lemma2_to64();
        }
        while k < TIER_HEIGHT
            invariant
                k <= TIER_HEIGHT,
                self.auth_path@.len() == TIER_HEIGHT,
                pos == (self.index as nat) / pow2(k as nat),
                cur == rebuild_to(self.leaf, self.index as nat, self.auth_path@, k as nat),
            decreases TIER_HEIGHT - k,
        {
            let s = self.auth_path[k];
            cur = if pos % 2 == 0 {
                combine(cur, s)
            } else {
                combine(s, cur)
            };
            proof {
                lemma_pow2_pos(k as nat);
                assert(pow2((k + 1) as nat) == pow2(k as nat) * 2) by {
                    lemma_pow2_adds(k as nat, 1);
                    lemma2_to64();
                }
                lemma_div_denominator(self.index as int, pow2(k as nat) as int, 2);
            }
            pos = pos / 2;
            k += 1;
        }
        cur == root
    }
}

} // verus!
