//! Hash maps and hash sets with the FNV hasher, keyed by pairs of integers.

use vstd::prelude::*;
use fnv::{FnvHashMap, FnvHashSet};

verus! {

#[verifier::external_type_specification]
#[verifier::external_body]
pub struct ExFnvHasher(fnv::FnvHasher);

#[verifier::external_type_specification]
#[verifier::external_body]
#[verifier::reject_recursive_types(H)]
pub struct ExBuildHasherDefault<H>(core::hash::BuildHasherDefault<H>);

/// `HashSet::insert` on a set with the FNV hasher: the set holds the value
/// afterwards, besides what it held. Returns whether the value is new.
#[verifier::external_body]
pub(crate) fn set_insert(set: &mut FnvHashSet<(isize, isize)>, value: (isize, isize)) -> (inserted:
    bool)
    ensures
        final(set)@ == old(set)@.insert(value),
        inserted == !old(set)@.contains(value),
{
    set.insert(value)
}

/// `HashSet::len` on a set with the FNV hasher: the number of values that
/// the set holds.
#[verifier::external_body]
pub(crate) fn set_len(set: &FnvHashSet<(isize, isize)>) -> (count: usize)
    ensures
        count == set@.len(),
{
    set.len()
}

/// `HashMap::get` with the FNV hasher: the value that the map holds for the
/// key, if it holds one.
#[verifier::external_body]
pub(crate) fn map_get<V: Copy>(map: &FnvHashMap<(i64, i64), V>, key: (i64, i64)) -> (value: Option<
    V,
>)
    ensures
        value == if map@.contains_key(key) {
            Some(map@[key])
        } else {
            None
        },
{
    map.get(&key).copied()
}

/// `HashMap::get_mut` with the FNV hasher: the value that the map holds for
/// the key, to be changed, if it holds one. What the value is changed to is
/// what the map holds for the key afterwards; nothing else changes.
#[verifier::external_body]
pub(crate) fn map_get_mut<'a, V>(map: &'a mut FnvHashMap<(i64, i64), V>, key: (i64, i64)) -> (value:
    Option<&'a mut V>)
    ensures
        match value {
            Some(held) => {
                &&& old(map)@.contains_key(key)
                &&& *held == old(map)@[key]
                &&& final(map)@ == old(map)@.insert(key, *final(held))
            },
            None => !old(map)@.contains_key(key) && final(map)@ == old(map)@,
        },
{
    map.get_mut(&key)
}

/// `HashMap::insert` with the FNV hasher: the map holds the value for the key
/// afterwards, besides what it held for other keys.
#[verifier::external_body]
pub(crate) fn map_insert<V>(map: &mut FnvHashMap<(i64, i64), V>, key: (i64, i64), value: V)
    ensures
        final(map)@ == old(map)@.insert(key, value),
{
    map.insert(key, value);
}

/// `HashMap::len` with the FNV hasher: the number of keys for which the map
/// holds a value.
#[verifier::external_body]
pub(crate) fn map_len<V>(map: &FnvHashMap<(i64, i64), V>) -> (count: usize)
    ensures
        count == map@.len(),
{
    map.len()
}

/// `HashMap::keys` with the FNV hasher, collected: the keys for which the map
/// holds a value, each once, in no order that could be named.
#[verifier::external_body]
pub(crate) fn map_keys<V>(map: &FnvHashMap<(i64, i64), V>) -> (keys: Vec<(i64, i64)>)
    ensures
        keys@.no_duplicates(),
        forall|key: (i64, i64)| keys@.contains(key) <==> map@.contains_key(key),
{
    map.keys().copied().collect()
}

} // verus!
