//! Behaviour of a standalone block: insertion, capacity, digests, witnesses
//! and forgetting.

use commitment_tree::{Block, Insert, Value};

const CAPACITY: usize = 65536;

#[test]
fn scenario_empty_block_keep_keep_forget() {
    let x = Value(1);
    let y = Value(2);
    let z = Value(3);
    let mut block = Block::new();
    assert!(block.is_empty());
    assert!(block.insert(Insert::Keep(x)).is_ok());
    assert!(block.insert(Insert::Keep(y)).is_ok());
    assert!(block.insert(Insert::Forget(z)).is_ok());
    assert_eq!(block.len(), 3);
    assert!(!block.is_empty());

    let root = block.hash();
    let proof_x = block.witness(x).expect("kept item must be witnessable");
    assert_eq!(proof_x.index, 0);
    assert!(proof_x.verify(root));

    let proof_y = block.witness(y).expect("kept item must be witnessable");
    assert_eq!(proof_y.index, 1);
    assert!(proof_y.verify(root));

    assert!(block.witness(z).is_none());
}

#[test]
fn capacity_all_inserts_succeed_then_one_fails() {
    let mut block = Block::new();
    for i in 0..CAPACITY {
        assert!(block.insert(Insert::Keep(Value(i as u64))).is_ok());
    }
    assert_eq!(block.len(), CAPACITY);

    let before = block.hash();
    let w = Value(999_999);
    match block.insert(Insert::Keep(w)) {
        Ok(()) => panic!("insertion into a full block must fail"),
        Err(returned) => assert_eq!(returned, Insert::Keep(w)),
    }
    assert_eq!(block.len(), CAPACITY);
    assert_eq!(block.hash(), before);
    assert!(block.witness(w).is_none());
}

#[test]
fn duplicate_insert_resolves_to_newest_slot() {
    let x = Value(77);
    let y = Value(88);
    let mut block = Block::new();
    assert!(block.insert(Insert::Keep(x)).is_ok());
    assert!(block.insert(Insert::Keep(y)).is_ok());
    assert!(block.insert(Insert::Keep(x)).is_ok());
    assert_eq!(block.len(), 3);

    let root = block.hash();
    let proof = block.witness(x).expect("duplicate value is still witnessable");
    assert_eq!(proof.index, 2);
    assert!(proof.verify(root));

    // The digest still reflects all three filled slots: it differs from the
    // digest of the block holding only the first two insertions.
    let mut two = Block::new();
    assert!(two.insert(Insert::Keep(x)).is_ok());
    assert!(two.insert(Insert::Keep(y)).is_ok());
    assert_ne!(two.hash(), root);
}

#[test]
fn root_independent_of_forgetting() {
    let x = Value(10);
    let y = Value(11);
    let z = Value(12);

    let mut kept = Block::new();
    assert!(kept.insert(Insert::Keep(x)).is_ok());
    assert!(kept.insert(Insert::Keep(y)).is_ok());
    assert!(kept.insert(Insert::Forget(z)).is_ok());
    let root = kept.hash();

    // Forgetting a kept item's payload leaves the root digest untouched.
    assert!(kept.forget(x));
    assert_eq!(kept.hash(), root);
    assert!(kept.witness(x).is_none());

    // The same sequence with those items inserted as `Forget` from the
    // start has the identical root digest.
    let mut forgotten = Block::new();
    assert!(forgotten.insert(Insert::Forget(x)).is_ok());
    assert!(forgotten.insert(Insert::Keep(y)).is_ok());
    assert!(forgotten.insert(Insert::Forget(z)).is_ok());
    assert_eq!(forgotten.hash(), root);

    // The item that stayed kept is still witnessable against the same root.
    let proof_y = kept.witness(y).expect("untouched kept item stays witnessable");
    assert!(proof_y.verify(root));
}

#[test]
fn forget_only_affects_the_forgotten_item() {
    let mut block = Block::new();
    for i in 0..10u64 {
        assert!(block.insert(Insert::Keep(Value(i))).is_ok());
    }
    assert!(block.forget(Value(4)));
    assert!(!block.forget(Value(4)));
    assert!(!block.forget(Value(123)));
    assert_eq!(block.len(), 10);
    let root = block.hash();
    for i in 0..10u64 {
        match block.witness(Value(i)) {
            Some(proof) => {
                assert_ne!(i, 4);
                assert_eq!(proof.index, i);
                assert!(proof.verify(root));
            },
            None => assert_eq!(i, 4),
        }
    }
}

#[test]
fn forgotten_item_contributes_to_the_digest() {
    let z = Value(55);
    let mut with_item = Block::new();
    assert!(with_item.insert(Insert::Forget(z)).is_ok());
    assert!(with_item.witness(z).is_none());

    let mut empty = Block::new();
    assert_ne!(with_item.hash(), empty.hash());
}

#[test]
fn witness_of_never_inserted_value_is_none() {
    let mut block = Block::new();
    assert!(block.insert(Insert::Keep(Value(1))).is_ok());
    assert!(block.witness(Value(2)).is_none());
    let _ = block.hash();
}

#[test]
fn digest_is_stable_and_order_sensitive() {
    let mut a = Block::new();
    assert!(a.insert(Insert::Keep(Value(1))).is_ok());
    assert!(a.insert(Insert::Keep(Value(2))).is_ok());

    let mut b = Block::new();
    assert!(b.insert(Insert::Keep(Value(1))).is_ok());
    assert!(b.insert(Insert::Keep(Value(2))).is_ok());
    assert_eq!(a.hash(), b.hash());

    let mut c = Block::new();
    assert!(c.insert(Insert::Keep(Value(2))).is_ok());
    assert!(c.insert(Insert::Keep(Value(1))).is_ok());
    assert_ne!(a.hash(), c.hash());
}

#[test]
fn verify_rejects_wrong_root_and_tampered_proof() {
    let x = Value(21);
    let mut block = Block::new();
    assert!(block.insert(Insert::Keep(x)).is_ok());
    assert!(block.insert(Insert::Keep(Value(22))).is_ok());
    let root = block.hash();

    let mut proof = block.witness(x).expect("kept item must be witnessable");
    assert!(proof.verify(root));

    let mut other = Block::new();
    assert!(other.insert(Insert::Keep(Value(23))).is_ok());
    let other_root = other.hash();
    assert!(!proof.verify(other_root));

    // Tampering with the claimed index breaks verification.
    proof.index = 1;
    assert!(!proof.verify(root));
}

#[test]
fn extreme_values_round_trip() {
    let lo = Value(0);
    let hi = Value(u64::MAX);
    let mut block = Block::new();
    assert!(block.insert(Insert::Keep(lo)).is_ok());
    assert!(block.insert(Insert::Keep(hi)).is_ok());
    let root = block.hash();
    let proof_lo = block.witness(lo).expect("kept item must be witnessable");
    let proof_hi = block.witness(hi).expect("kept item must be witnessable");
    assert_eq!(proof_lo.index, 0);
    assert_eq!(proof_hi.index, 1);
    assert!(proof_lo.verify(root));
    assert!(proof_hi.verify(root));
}

#[test]
fn default_block_is_empty() {
    let block = Block::default();
    assert!(block.is_empty());
    assert_eq!(block.len(), 0);
}
