//! Contracts for the `FxHashMap`s that the block manager and the scheduler keep.
//!
//! `FxHashMap<K, V>` is `std::collections::HashMap<K, V, FxBuildHasher>`.
//! `FxBuildHasher` builds `FxHasher`s, which start from a fixed state and are
//! fully deterministic, so the map behaves as a finite map over its keys.  The
//! contracts below are stated over vstd's view `m@` of a `HashMap`.

use vstd::prelude::*;
use rustc_hash::{FxBuildHasher, FxHashMap};

verus! {

/// A `u32`-keyed `FxHashMap`.
pub type FxMapU32<V> = FxHashMap<u32, V>;

/// A `u64`-keyed `FxHashMap`.
pub type FxMapU64<V> = FxHashMap<u64, V>;

/// The hasher builder of `rustc_hash`, carried as an opaque value.
#[verifier::external_type_specification]
#[verifier::external_body]
pub struct ExFxBuildHasher(FxBuildHasher);

/// `FxHashMap::default()` (with `u32` keys): an empty map.
#[verifier::external_body]
pub(crate) fn fx_new_u32<V>() -> (r: FxMapU32<V>)
    ensures
        r@.dom() == Set::<u32>::empty(),
{
    FxHashMap::default()
}

/// `FxHashMap::default()` (with `u64` keys): an empty map.
#[verifier::external_body]
pub(crate) fn fx_new_u64<V>() -> (r: FxMapU64<V>)
    ensures
        r@.dom() == Set::<u64>::empty(),
{
    FxHashMap::default()
}

/// `HashMap::get` on a `u32`-keyed map: the value stored under `k`, if any.
#[verifier::external_body]
pub(crate) fn fx_get_u32<'a, V>(m: &'a FxHashMap<u32, V>, k: u32) -> (r: Option<&'a V>)
    ensures
        match r {
            Some(v) => m@.contains_key(k) && *v == m@[k],
            None => !m@.contains_key(k),
        },
{
    m.get(&k)
}

/// `HashMap::get` on a `u64`-keyed map: the value stored under `k`, if any.
#[verifier::external_body]
pub(crate) fn fx_get_u64<'a, V>(m: &'a FxHashMap<u64, V>, k: u64) -> (r: Option<&'a V>)
    ensures
        match r {
            Some(v) => m@.contains_key(k) && *v == m@[k],
            None => !m@.contains_key(k),
        },
{
    m.get(&k)
}

/// `HashMap::insert` on a `u32`-keyed map: `k` now maps to `v`; the value it
/// replaced, if any, is returned.
#[verifier::external_body]
pub(crate) fn fx_insert_u32<V>(m: &mut FxHashMap<u32, V>, k: u32, v: V) -> (r: Option<V>)
    ensures
        final(m)@ == old(m)@.insert(k, v),
        match r {
            Some(x) => old(m)@.contains_key(k) && x == old(m)@[k],
            None => !old(m)@.contains_key(k),
        },
{
    m.insert(k, v)
}

/// `HashMap::insert` on a `u64`-keyed map: `k` now maps to `v`; the value it
/// replaced, if any, is returned.
#[verifier::external_body]
pub(crate) fn fx_insert_u64<V>(m: &mut FxHashMap<u64, V>, k: u64, v: V) -> (r: Option<V>)
    ensures
        final(m)@ == old(m)@.insert(k, v),
        match r {
            Some(x) => old(m)@.contains_key(k) && x == old(m)@[k],
            None => !old(m)@.contains_key(k),
        },
{
    m.insert(k, v)
}

/// `HashMap::remove` on a `u32`-keyed map: `k` is gone; its value, if any,
/// is returned.
#[verifier::external_body]
pub(crate) fn fx_remove_u32<V>(m: &mut FxHashMap<u32, V>, k: u32) -> (r: Option<V>)
    ensures
        final(m)@ == old(m)@.remove(k),
        match r {
            Some(x) => old(m)@.contains_key(k) && x == old(m)@[k],
            None => !old(m)@.contains_key(k),
        },
{
    m.remove(&k)
}

/// `HashMap::remove` on a `u64`-keyed map: `k` is gone; its value, if any,
/// is returned.
#[verifier::external_body]
pub(crate) fn fx_remove_u64<V>(m: &mut FxHashMap<u64, V>, k: u64) -> (r: Option<V>)
    ensures
        final(m)@ == old(m)@.remove(k),
        match r {
            Some(x) => old(m)@.contains_key(k) && x == old(m)@[k],
            None => !old(m)@.contains_key(k),
        },
{
    m.remove(&k)
}

/// `HashMap::len` on a `u32`-keyed map: the number of keys.
#[verifier::external_body]
pub(crate) fn fx_len_u32<V>(m: &FxHashMap<u32, V>) -> (r: usize)
    ensures
        r == m@.len(),
{
    m.len()
}

/// `HashMap::len` on a `u64`-keyed map: the number of keys.
#[verifier::external_body]
pub(crate) fn fx_len_u64<V>(m: &FxHashMap<u64, V>) -> (r: usize)
    ensures
        r == m@.len(),
{
    m.len()
}

/// `HashMap::keys` on a `u64`-keyed map, copied out in the map's walk order.
/// Each key comes out exactly once; the order is the table's own and is not
/// stated.
#[verifier::external_body]
pub(crate) fn fx_keys_u64<V>(m: &FxHashMap<u64, V>) -> (r: Vec<u64>)
    ensures
        r@.no_duplicates(),
        r@.to_set() == m@.dom(),
{
    m.keys().copied().collect()
}

} // verus!
