//! The hash tables behind the handlers.
//!
//! The tables are `ahash` collections. Verus does not look inside them: what a
//! table holds is given a name here, and every operation the handlers use is a
//! small function whose contract over that name is taken on trust from the
//! collection's documentation. Nothing in this file is proved; everything
//! outside it is proved from these contracts.

use ahash::{AHashMap, AHashSet, RandomState};
use itertools::Itertools;
use vstd::prelude::*;

verus! {

/// `ahash::RandomState`, the hasher factory that the tables below are built
/// with. It only ever appears as their last type argument.
#[verifier::external_type_specification]
#[verifier::external_body]
pub struct ExRandomState(RandomState);

/// `ahash::AHashMap`, a hash map. Opaque: its contents are reached through
/// [`entries`] alone.
#[verifier::external_type_specification]
#[verifier::external_body]
#[verifier::reject_recursive_types(K)]
#[verifier::reject_recursive_types(V)]
#[verifier::reject_recursive_types(S)]
pub struct ExAHashMap<K, V, S>(AHashMap<K, V, S>);

/// `ahash::AHashSet`, a hash set. Opaque: its contents are reached through
/// [`members`] alone.
#[verifier::external_type_specification]
#[verifier::external_body]
#[verifier::reject_recursive_types(T)]
#[verifier::reject_recursive_types(S)]
pub struct ExAHashSet<T, S>(AHashSet<T, S>);

/// The key-value pairs that a table holds.
pub uninterp spec fn entries(table: AHashMap<u32, u32>) -> Map<u32, u32>;

/// The elements that a set holds.
pub uninterp spec fn members(set: AHashSet<u32>) -> Set<u32>;

/// `AHashMap::new`: a table that holds nothing. (The first table or set made
/// in a process seeds the hasher from the operating system, and the call
/// panics if the system has no random bytes to give.)
#[verifier::external_body]
pub(crate) fn empty_table() -> (fresh: AHashMap<u32, u32>)
    ensures
        (entries(fresh) == Map::<u32, u32>::empty()),
{
    AHashMap::new()
}

/// `AHashMap::get`: the value stored under `key`, or `None` where the table
/// has no such key.
#[verifier::external_body]
pub(crate) fn lookup(table: &AHashMap<u32, u32>, key: u32) -> (found: Option<u32>)
    ensures
        found == if entries(*table).contains_key(key) {
            Some(entries(*table)[key])
        } else {
            None
        },
{
    table.get(&key).copied()
}

/// `AHashMap::insert`: afterwards `key` maps to `value`, and every other key
/// is as it was.
#[verifier::external_body]
pub(crate) fn put(table: &mut AHashMap<u32, u32>, key: u32, value: u32)
    ensures
        entries(*final(table)) == entries(*old(table)).insert(key, value),
{
    table.insert(key, value);
}

/// `HashMap::clear`, reached through the table's `DerefMut`: afterwards the
/// table holds nothing.
#[verifier::external_body]
pub(crate) fn clear_table(table: &mut AHashMap<u32, u32>)
    ensures
        (entries(*final(table)) == Map::<u32, u32>::empty()),
{
    table.clear();
}

/// `pairs` lists every pair of `contents` exactly once, in some order.
pub open spec fn lists_once(contents: Map<u32, u32>, pairs: Seq<(u32, u32)>) -> bool {
    &&& forall|n: int|
        0 <= n < pairs.len() ==> contents.contains_pair((#[trigger] pairs[n]).0, pairs[n].1)
    &&& forall|key: u32| #[trigger]
        contents.contains_key(key) ==> exists|n: int|
            0 <= n < pairs.len() && (#[trigger] pairs[n]).0 == key
    &&& forall|m: int, n: int|
        0 <= m < n < pairs.len() ==> (#[trigger] pairs[m]).0 != (#[trigger] pairs[n]).0
}

/// `HashMap::iter`, reached through the table's `Deref`, gathered into a
/// vector by `Itertools::collect_vec`. The walk visits every pair of the table
/// once; nothing is claimed about its order, which differs from run to run.
#[verifier::external_body]
pub(crate) fn pairs_of(table: &AHashMap<u32, u32>) -> (pairs: Vec<(u32, u32)>)
    ensures
        lists_once(entries(*table), pairs@),
{
    table.iter().map(|(key, value)| (*key, *value)).collect_vec()
}

/// `AHashMap::clone`: a second table that holds the same pairs.
#[verifier::external_body]
pub(crate) fn copy_table(table: &AHashMap<u32, u32>) -> (copy: AHashMap<u32, u32>)
    ensures
        entries(copy) == entries(*table),
{
    table.clone()
}

/// `AHashSet::new`: a set that holds nothing. (Seeds the hasher as
/// [`empty_table`] does.)
#[verifier::external_body]
pub(crate) fn empty_set() -> (fresh: AHashSet<u32>)
    ensures
        members(fresh) == Set::<u32>::empty(),
{
    AHashSet::new()
}

/// `HashSet::contains`, reached through the set's `Deref`: whether `element`
/// is in the set.
#[verifier::external_body]
pub(crate) fn holds(set: &AHashSet<u32>, element: u32) -> (found: bool)
    ensures
        found == members(*set).contains(element),
{
    set.contains(&element)
}

/// `HashSet::insert`, reached through the set's `DerefMut`: afterwards
/// `element` is in the set, and nothing else has changed.
#[verifier::external_body]
pub(crate) fn add_member(set: &mut AHashSet<u32>, element: u32)
    ensures
        members(*final(set)) == members(*old(set)).insert(element),
{
    set.insert(element);
}

/// `HashSet::remove`, reached through the set's `DerefMut`: afterwards
/// `element` is not in the set, and nothing else has changed.
#[verifier::external_body]
pub(crate) fn drop_member(set: &mut AHashSet<u32>, element: u32)
    ensures
        members(*final(set)) == members(*old(set)).remove(element),
{
    set.remove(&element);
}

/// `HashSet::clear`, reached through the set's `DerefMut`: afterwards the set
/// holds nothing.
#[verifier::external_body]
pub(crate) fn clear_set(set: &mut AHashSet<u32>)
    ensures
        members(*final(set)) == Set::<u32>::empty(),
{
    set.clear();
}

/// `AHashSet::clone`: a second set that holds the same elements.
#[verifier::external_body]
pub(crate) fn copy_set(set: &AHashSet<u32>) -> (copy: AHashSet<u32>)
    ensures
        members(copy) == members(*set),
{
    set.clone()
}

} // verus!
