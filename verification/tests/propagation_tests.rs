//! Cross-tier index propagation through the scoped mutable handle.

use commitment_tree::{Block, BlockMut, Insert, SuperIndex, Value};
use hash_hasher::HashedMap;

const CAPACITY: usize = 65536;

fn two_level_super() -> SuperIndex {
    SuperIndex::InEternity {
        this_block: 3,
        epoch_index: HashedMap::default(),
        this_epoch: 9,
        eternity_index: HashedMap::default(),
    }
}

#[test]
fn insertion_updates_all_three_levels() {
    let w = Value(42);
    let mut handle = BlockMut::new(Block::new(), two_level_super());
    assert!(handle.insert(Insert::Keep(w)).is_ok());
    assert!(handle.insert(Insert::Forget(Value(43))).is_ok());
    assert_eq!(handle.len(), 2);

    let (block, super_index) = handle.finish();
    let proof = block.witness(w).expect("kept item must be witnessable");
    assert_eq!(proof.index, 0);
    match super_index {
        SuperIndex::InEternity { this_block, epoch_index, this_epoch, eternity_index } => {
            assert_eq!(this_block, 3);
            assert_eq!(this_epoch, 9);
            assert_eq!(epoch_index.get(&w).copied(), Some(3));
            assert_eq!(eternity_index.get(&w).copied(), Some(9));
            // The digest-only item was recorded at no level.
            assert!(epoch_index.get(&Value(43)).is_none());
            assert!(eternity_index.get(&Value(43)).is_none());
            assert_eq!(epoch_index.len(), 1);
            assert_eq!(eternity_index.len(), 1);
        },
        _ => panic!("the super-index must keep its shape"),
    }
}

#[test]
fn one_level_super_updates_epoch_only() {
    let w = Value(7);
    let super_index = SuperIndex::InEpoch { this_block: 12, epoch_index: HashedMap::default() };
    let mut handle = BlockMut::new(Block::new(), super_index);
    assert!(handle.insert(Insert::Keep(w)).is_ok());
    let (_, super_index) = handle.finish();
    match super_index {
        SuperIndex::InEpoch { this_block, epoch_index } => {
            assert_eq!(this_block, 12);
            assert_eq!(epoch_index.get(&w).copied(), Some(12));
        },
        _ => panic!("the super-index must keep its shape"),
    }
}

#[test]
fn failed_insertion_mutates_no_index_at_any_level() {
    let mut block = Block::new();
    for i in 0..CAPACITY {
        assert!(block.insert(Insert::Forget(Value(i as u64))).is_ok());
    }
    let mut handle = BlockMut::new(block, two_level_super());
    let w = Value(500_000);
    match handle.insert(Insert::Keep(w)) {
        Ok(()) => panic!("insertion into a full block must fail"),
        Err(returned) => assert_eq!(returned, Insert::Keep(w)),
    }
    let (block, super_index) = handle.finish();
    assert_eq!(block.len(), CAPACITY);
    assert!(block.witness(w).is_none());
    match super_index {
        SuperIndex::InEternity { epoch_index, eternity_index, .. } => {
            assert!(epoch_index.is_empty());
            assert!(eternity_index.is_empty());
        },
        _ => panic!("the super-index must keep its shape"),
    }
}

#[test]
fn detached_handle_behaves_like_the_block() {
    let x = Value(1);
    let mut handle = BlockMut::new(Block::new(), SuperIndex::Detached);
    assert!(handle.is_empty());
    assert!(handle.insert(Insert::Keep(x)).is_ok());
    assert!(!handle.is_empty());
    assert!(handle.witness(x).is_some());
    let (mut block, super_index) = handle.finish();
    assert!(matches!(super_index, SuperIndex::Detached));
    let root = block.hash();
    let proof = block.witness(x).expect("kept item must be witnessable");
    assert!(proof.verify(root));
}
