//! Items: the scalar values committed into the tree, and the two forms in
//! which one can be inserted.

use crate::digest::{mix, mix_spec, Digest};
use vstd::prelude::*;

verus! {

/// Salt distinguishing an item's digest contribution from interior digests.
pub const ITEM_SALT: u64 = 0x2545_f491_4f6c_dd1d;

/// The opaque scalar value committed into the tree.
#[derive(Clone, Copy, Debug, PartialEq, Eq, Hash, Structural)]
pub struct Value(pub u64);

/// A child of a tier that contributes a digest to its parent.
pub trait Commit: Sized {
    /// The digest this child contributes, as a mathematical value.
    spec fn commitment(&self) -> Digest;

    /// Compute the digest this child contributes to its parent.
    fn commit(&self) -> (d: Digest)
        ensures
            d == self.commitment(),
    ;
}

/// The digest contribution of one item value.
pub open spec fn item_digest(v: Value) -> Digest {
    Digest { word: mix_spec(v.0 ^ ITEM_SALT) }
}

/// One committed item: a retained scalar value at leaf level.
#[derive(Clone, Copy, Debug, PartialEq, Eq, Structural)]
pub struct Item {
    pub value: Value,
}

impl Item {
    /// Wrap a scalar value as a leaf-level child.
    pub fn new(value: Value) -> (it: Item)
        ensures
            it.value == value,
    {
        Item { value }
    }
}

impl Commit for Item {
    open spec fn commitment(&self) -> Digest {
        item_digest(self.value)
    }

    fn commit(&self) -> (d: Digest)
        ensures
            d == self.commitment(),
    {
        Digest { word: mix(self.value.0 ^ ITEM_SALT) }
    }
}

/// An item on its way into a block: either retained, so that a witness can
/// later be produced for it, or recorded by digest contribution alone.
/// Both forms contribute identically to parent digests.
#[derive(Clone, Copy, Debug, PartialEq, Eq, Structural)]
pub enum Insert {
    /// Retain the value; it becomes witnessable.
    Keep(Value),
    /// Record only the value's digest contribution; no witness can ever be
    /// produced for it.
    Forget(Value),
}

impl Insert {
    /// The value carried by either form.
    pub open spec fn value_spec(&self) -> Value {
        match self {
            Insert::Keep(v) => *v,
            Insert::Forget(v) => *v,
        }
    }

    /// Executable counterpart of [`Self::value_spec`].
    pub fn value(&self) -> (v: Value)
        ensures
            v == self.value_spec(),
    {
        match self {
            Insert::Keep(v) => *v,
            Insert::Forget(v) => *v,
        }
    }

    /// Whether this insertion retains its value.
    pub open spec fn is_keep(&self) -> bool {
        self matches Insert::Keep(_)
    }

    /// The retained value, if any.
    pub fn keep(&self) -> (r: Option<Value>)
        ensures
            r == if self.is_keep() {
                Some(self.value_spec())
            } else {
                None::<Value>
            },
    {
        match self {
            Insert::Keep(v) => Some(*v),
            Insert::Forget(_) => None,
        }
    }
}

} // verus!
