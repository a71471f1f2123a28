//! An authenticated, incrementally updatable commitment structure: a
//! fixed-capacity, append-only, lazily hashed tier of slots, specialized
//! as a block-level container with an index from item value to position,
//! cross-tier index propagation, and inclusion proofs.

pub mod block;
pub mod digest;
pub mod index;
pub mod item;
pub mod tier;
pub mod witness;

pub use block::{Block, BlockMut, SuperIndex};
pub use digest::Digest;
pub use item::{Insert, Item, Value};
pub use tier::{Slot, Tier};
pub use witness::Proof;
