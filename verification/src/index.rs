//! The value-to-position index maps.
//!
//! Item values are already well-distributed scalars, so the maps are
//! `hash_hasher::HashedMap`s: standard hash maps with a pass-through hasher
//! that takes the key's own bytes as its hash. The maps are used through the
//! small trusted interface below, which states the ordinary map behaviour of
//! insert, lookup and removal over the map's abstract view.

use crate::item::Value;
use hash_hasher::HashedMap;
use vstd::prelude::*;

verus! {

/// Declares `hash_hasher::HashHasher`, the pass-through hasher the index
/// maps are built with; nothing is assumed about it beyond its existence.
#[verifier::external_type_specification]
#[verifier::external_body]
pub struct ExHashHasher(hash_hasher::HashHasher);

/// Declares `core::hash::BuildHasherDefault`, which builds the hasher above
/// for each map; nothing is assumed about it beyond its existence.
#[verifier::external_type_specification]
#[verifier::external_body]
#[verifier::reject_recursive_types(H)]
pub struct ExBuildHasherDefault<H>(core::hash::BuildHasherDefault<H>);

/// A map from item value to a position inside one tier.
pub type ValueIndex = HashedMap<Value, u16>;

/// Relies on `HashMap::default`: a freshly built map holds no entry.
#[verifier::external_body]
pub(crate) fn index_new() -> (r: ValueIndex)
    ensures
        r@.dom() == Set::<Value>::empty(),
        r@.len() == 0,
{
    HashedMap::default()
}

/// Relies on `HashMap::insert`: the map afterwards holds exactly the old
/// entries plus `k` bound to `v`, replacing any earlier binding of `k`.
#[verifier::external_body]
pub(crate) fn index_insert(m: &mut ValueIndex, k: Value, v: u16)
    ensures
        final(m)@ == old(m)@.insert(k, v),
{
    let _ = m.insert(k, v);
}

/// Relies on `HashMap::get`: returns the value bound to `k`, if any.
#[verifier::external_body]
pub(crate) fn index_get(m: &ValueIndex, k: Value) -> (r: Option<u16>)
    ensures
        r == if m@.contains_key(k) {
            Some(m@[k])
        } else {
            None::<u16>
        },
{
    m.get(&k).copied()
}

/// Relies on `HashMap::remove`: the map afterwards holds the old entries
/// except any binding of `k`.
#[verifier::external_body]
pub(crate) fn index_remove(m: &mut ValueIndex, k: Value)
    ensures
        final(m)@ == old(m)@.remove(k),
{
    let _ = m.remove(&k);
}

} // verus!
