//! Behaviour of the generic tier and of digests directly.

use commitment_tree::{Digest, Insert, Item, Slot, Tier, Value};

#[test]
fn tier_insert_len_and_digest() {
    let mut tier: Tier<Item> = Tier::new();
    assert!(tier.is_empty());
    let empty_root = tier.digest();

    assert!(tier.insert(Slot::Child(Item::new(Value(5)))).is_ok());
    assert_eq!(tier.len(), 1);
    let one_root = tier.digest();
    assert_ne!(one_root, empty_root);
    // The cached digest equals a freshly recomputed one.
    assert_eq!(tier.digest(), one_root);
}

#[test]
fn tier_witness_round_trip_and_forget() {
    let mut tier: Tier<Item> = Tier::new();
    assert!(tier.insert(Slot::Child(Item::new(Value(1)))).is_ok());
    assert!(tier.insert(Slot::Child(Item::new(Value(2)))).is_ok());
    assert!(tier.insert(Slot::Placeholder(Digest { word: 1234 })).is_ok());

    // A placeholder slot is not witnessable; filled, retained slots are.
    assert!(tier.witness(0).is_some());
    assert!(tier.witness(1).is_some());
    assert!(tier.witness(2).is_none());
    assert!(tier.witness(3).is_none());

    let root = tier.digest();
    let (path, leaf) = tier.witness(1).expect("retained slot must be witnessable");
    assert_eq!(path.len(), 16);
    // Rebuild the root by hand, pairing left or right by the slot's index.
    let mut current = leaf;
    let mut position: usize = 1;
    for sibling in &path {
        current = if position % 2 == 0 {
            commitment_tree::digest::combine(current, *sibling)
        } else {
            commitment_tree::digest::combine(*sibling, current)
        };
        position /= 2;
    }
    assert_eq!(current, root);

    // Forgetting a slot freezes its digest contribution.
    assert!(tier.forget(1));
    assert_eq!(tier.digest(), root);
    assert!(tier.witness(1).is_none());
    assert!(!tier.forget(1));
    assert!(!tier.forget(99));
    assert_eq!(tier.len(), 3);
}

#[test]
fn combine_is_order_sensitive() {
    let a = Digest { word: 1 };
    let b = Digest { word: 2 };
    let ab = commitment_tree::digest::combine(a, b);
    let ba = commitment_tree::digest::combine(b, a);
    assert_ne!(ab, ba);
    assert_eq!(ab, commitment_tree::digest::combine(a, b));
}
