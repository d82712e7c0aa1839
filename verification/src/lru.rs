//! Trusted boundary around the outside LRU container that backs the
//! immutable-block cache, together with the mathematical model its
//! contracts are stated over.
//!
//! The container is modelled as a sequence of `(key, value)` pairs in
//! recency order: index `0` is the least recently used entry and the last
//! index the most recently used one. `cache_entries` names that sequence
//! and `cache_capacity` the bound the container was created with; the
//! wrappers below state, over those names, what the container's source
//! shows of each operation.

use vstd::prelude::*;

verus! {

/// The contents of the container in recency order, least recently used
/// first.
pub uninterp spec fn cache_entries(c: lru_cache::LruCache<Vec<u8>, Vec<u8>>) -> Seq<(Seq<u8>, Seq<u8>)>;

/// The bound the container was created with.
pub uninterp spec fn cache_capacity(c: lru_cache::LruCache<Vec<u8>, Vec<u8>>) -> nat;

/// Relies on lru_cache's `LruCache` type (a linked hash map with a fixed
/// bound); declared opaque, its contents are reached only through the
/// two names above.
#[verifier::external_type_specification]
#[verifier::external_body]
#[verifier::reject_recursive_types(K)]
#[verifier::reject_recursive_types(V)]
#[verifier::reject_recursive_types(S)]
pub struct ExLruCache<K: core::cmp::Eq + core::hash::Hash, V, S: core::hash::BuildHasher>(
    lru_cache::LruCache<K, V, S>,
);

/// Whether some entry of `e` carries the key `k`.
pub open spec fn has_key(e: Seq<(Seq<u8>, Seq<u8>)>, k: Seq<u8>) -> bool {
    exists|i: int| 0 <= i < e.len() && e[i].0 == k
}

/// The value carried under `k` (meaningful when `has_key(e, k)` and the
/// keys of `e` are unique).
pub open spec fn lookup(e: Seq<(Seq<u8>, Seq<u8>)>, k: Seq<u8>) -> Seq<u8> {
    let i = choose|i: int| 0 <= i < e.len() && e[i].0 == k;
    e[i].1
}

/// `e` without the entries keyed by `k`, order otherwise kept.
pub open spec fn remove_key(e: Seq<(Seq<u8>, Seq<u8>)>, k: Seq<u8>) -> Seq<(Seq<u8>, Seq<u8>)>
    decreases e.len(),
{
    if e.len() == 0 {
        Seq::empty()
    } else {
        let front = remove_key(e.drop_last(), k);
        if e.last().0 == k {
            front
        } else {
            front.push(e.last())
        }
    }
}

/// What an insert does to the model: any old entry under the key leaves,
/// the new pair becomes most recently used, and if the bound is now
/// exceeded the least recently used entry is dropped.
pub open spec fn insert_model(
    e: Seq<(Seq<u8>, Seq<u8>)>,
    k: Seq<u8>,
    v: Seq<u8>,
    cap: nat,
) -> Seq<(Seq<u8>, Seq<u8>)> {
    let pushed = remove_key(e, k).push((k, v));
    if pushed.len() > cap {
        pushed.drop_first()
    } else {
        pushed
    }
}

/// What a hit does to the model: the entry moves to the most recently
/// used end, value unchanged.
pub open spec fn promote(e: Seq<(Seq<u8>, Seq<u8>)>, k: Seq<u8>) -> Seq<(Seq<u8>, Seq<u8>)> {
    remove_key(e, k).push((k, lookup(e, k)))
}

/// Relies on `LruCache::new`: an empty container holding at most
/// `capacity` entries.
#[verifier::external_body]
pub(crate) fn lru_new(capacity: usize) -> (c: lru_cache::LruCache<Vec<u8>, Vec<u8>>)
    ensures
        cache_entries(c) == Seq::<(Seq<u8>, Seq<u8>)>::empty(),
        cache_capacity(c) == capacity as nat,
{
    lru_cache::LruCache::new(capacity)
}

/// Relies on `LruCache::insert`: the pair is put at the most recently
/// used end (replacing any entry under the same key), the least recently
/// used entry is dropped if the bound would be exceeded, and the value
/// previously under the key is returned.
#[verifier::external_body]
pub(crate) fn lru_insert(
    c: &mut lru_cache::LruCache<Vec<u8>, Vec<u8>>,
    k: Vec<u8>,
    v: Vec<u8>,
) -> (prev: Option<Vec<u8>>)
    ensures
        cache_capacity(*final(c)) == cache_capacity(*old(c)),
        cache_entries(*final(c)) == insert_model(
            cache_entries(*old(c)),
            k@,
            v@,
            cache_capacity(*old(c)),
        ),
        prev matches Some(p) ==> has_key(cache_entries(*old(c)), k@) && p@ == lookup(
            cache_entries(*old(c)),
            k@,
        ),
        prev is None ==> !has_key(cache_entries(*old(c)), k@),
{
    c.insert(k, v)
}

/// Relies on `LruCache::get_mut`: a hit hands the value back and moves
/// the entry to the most recently used end; a miss changes nothing.
#[verifier::external_body]
pub(crate) fn lru_get(
    c: &mut lru_cache::LruCache<Vec<u8>, Vec<u8>>,
    k: &Vec<u8>,
) -> (r: Option<Vec<u8>>)
    ensures
        cache_capacity(*final(c)) == cache_capacity(*old(c)),
        r is Some <==> has_key(cache_entries(*old(c)), k@),
        r matches Some(v) ==> v@ == lookup(cache_entries(*old(c)), k@) && cache_entries(*final(c))
            == promote(cache_entries(*old(c)), k@),
        r is None ==> cache_entries(*final(c)) == cache_entries(*old(c)),
{
    c.get_mut(k).map(|v| v.clone())
}

/// Relies on `LruCache::len`: the number of entries held.
#[verifier::external_body]
pub(crate) fn lru_len(c: &lru_cache::LruCache<Vec<u8>, Vec<u8>>) -> (n: usize)
    ensures
        n == cache_entries(*c).len(),
{
    c.len()
}

/// Relies on `LruCache::remove_lru`: removes and returns the least
/// recently used entry, if any.
#[verifier::external_body]
pub(crate) fn lru_remove_lru(
    c: &mut lru_cache::LruCache<Vec<u8>, Vec<u8>>,
) -> (r: Option<(Vec<u8>, Vec<u8>)>)
    ensures
        cache_capacity(*final(c)) == cache_capacity(*old(c)),
        cache_entries(*old(c)).len() == 0 ==> r is None && cache_entries(*final(c)) == cache_entries(
            *old(c),
        ),
        cache_entries(*old(c)).len() > 0 ==> (r matches Some(p) && p.0@ == cache_entries(
            *old(c),
        )[0].0 && p.1@ == cache_entries(*old(c))[0].1 && cache_entries(*final(c)) == cache_entries(
            *old(c),
        ).drop_first()),
{
    c.remove_lru()
}

} // verus!
