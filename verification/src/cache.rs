//! The bounded immutable-block cache: a fixed-capacity mapping from
//! content hash to block bytes with least-recently-used eviction. Entries
//! are never invalidated individually, because a content-addressed block
//! is immutable: a given hash always maps to the same bytes.

use vstd::prelude::*;
use crate::lru::{cache_entries, cache_capacity, has_key, lookup, remove_key, insert_model,
    promote, lru_new, lru_insert, lru_get, lru_len, lru_remove_lru};

verus! {

/// Process-wide default bound on the block cache.
pub const IMMUTABLE_BLOCK_CACHE_SIZE: usize = 300;

/// No two entries carry the same key.
pub open spec fn keys_unique(e: Seq<(Seq<u8>, Seq<u8>)>) -> bool {
    forall|i: int, j: int| 0 <= i < j < e.len() ==> e[i].0 != e[j].0
}

/// What `remove_key` keeps: every kept entry comes from the input and none
/// carries the removed key; key uniqueness survives, an absent key removes
/// nothing, and a present key (under unique keys) removes exactly one
/// entry.
pub proof fn lemma_remove_key_props(e: Seq<(Seq<u8>, Seq<u8>)>, k: Seq<u8>)
    ensures
        forall|p: (Seq<u8>, Seq<u8>)| remove_key(e, k).contains(p) ==> e.contains(p),
        forall|i: int| 0 <= i < remove_key(e, k).len() ==> remove_key(e, k)[i].0 != k,
        keys_unique(e) ==> keys_unique(remove_key(e, k)),
        keys_unique(e) && has_key(e, k) ==> remove_key(e, k).len() == e.len() - 1,
        !has_key(e, k) ==> remove_key(e, k) == e,
    decreases e.len(),
{
    if e.len() == 0 {
        assert(remove_key(e, k) =~= e);
    } else {
        let d = e.drop_last();
        let last = e.last();
        let front = remove_key(d, k);
        let r = remove_key(e, k);
        lemma_remove_key_props(d, k);
        assert forall|p: (Seq<u8>, Seq<u8>)| r.contains(p) implies e.contains(p) by {
            let i = choose|i: int| 0 <= i < r.len() && r[i] == p;
            if last.0 == k || i < front.len() {
                assert(front[i] == p);
                assert(front.contains(p));
                assert(d.contains(p));
                let j = choose|j: int| 0 <= j < d.len() && d[j] == p;
                assert(e[j] == p);
            } else {
                assert(r[i] == last);
                assert(e[e.len() - 1] == p);
            }
        }
        assert forall|i: int| 0 <= i < r.len() implies r[i].0 != k by {
            if last.0 == k || i < front.len() {
                assert(r[i] == front[i]);
            } else {
                assert(r[i] == last);
            }
        }
        if keys_unique(e) {
            assert(keys_unique(d)) by {
                assert forall|i: int, j: int| 0 <= i < j < d.len() implies d[i].0 != d[j].0 by {
                    assert(e[i] == d[i]);
                    assert(e[j] == d[j]);
                }
            }
            if last.0 == k {
                assert(keys_unique(r));
            } else {
                assert forall|i: int, j: int| 0 <= i < j < r.len() implies r[i].0 != r[j].0 by {
                    if j < front.len() {
                        assert(r[i] == front[i]);
                        assert(r[j] == front[j]);
                    } else {
                        assert(r[j] == last);
                        assert(r[i] == front[i]);
                        assert(front.contains(front[i]));
                        assert(d.contains(front[i]));
                        let m = choose|m: int| 0 <= m < d.len() && d[m] == front[i];
                        assert(e[m] == front[i]);
                        assert(e[m].0 != e[e.len() - 1].0);
                    }
                }
            }
            if has_key(e, k) {
                if last.0 == k {
                    if has_key(d, k) {
                        let m = choose|m: int| 0 <= m < d.len() && d[m].0 == k;
                        assert(e[m].0 == e[e.len() - 1].0);
                        assert(false);
                    }
                    assert(r.len() == e.len() - 1);
                } else {
                    let m = choose|m: int| 0 <= m < e.len() && e[m].0 == k;
                    assert(m < e.len() - 1);
                    assert(d[m].0 == k);
                    assert(has_key(d, k));
                    assert(r.len() == e.len() - 1);
                }
            }
        }
        if !has_key(e, k) {
            assert(!has_key(d, k)) by {
                if has_key(d, k) {
                    let m = choose|m: int| 0 <= m < d.len() && d[m].0 == k;
                    assert(e[m].0 == k);
                }
            }
            assert(last.0 != k) by {
                if last.0 == k {
                    assert(e[e.len() - 1].0 == k);
                }
            }
            assert(r =~= e);
        }
    }
}

/// Pushing an entry whose key occurs nowhere in `s` keeps the keys unique.
proof fn lemma_push_unique(s: Seq<(Seq<u8>, Seq<u8>)>, p: (Seq<u8>, Seq<u8>))
    requires
        keys_unique(s),
        forall|i: int| 0 <= i < s.len() ==> s[i].0 != p.0,
    ensures
        keys_unique(s.push(p)),
{
    let r = s.push(p);
    assert forall|i: int, j: int| 0 <= i < j < r.len() implies r[i].0 != r[j].0 by {
        if j < s.len() {
            assert(r[i] == s[i]);
            assert(r[j] == s[j]);
        } else {
            assert(r[j] == p);
            assert(r[i] == s[i]);
        }
    }
}

/// Dropping the least recently used entry keeps the keys unique.
proof fn lemma_drop_first_unique(e: Seq<(Seq<u8>, Seq<u8>)>)
    requires
        keys_unique(e),
        e.len() > 0,
    ensures
        keys_unique(e.drop_first()),
{
    let d = e.drop_first();
    assert forall|i: int, j: int| 0 <= i < j < d.len() implies d[i].0 != d[j].0 by {
        assert(e[i + 1] == d[i]);
        assert(e[j + 1] == d[j]);
    }
}

/// Law: inserting a block under a fresh hash into a full cache drops
/// exactly the least recently used entry; the remaining entries keep
/// their order and the new block becomes the most recently used one.
pub proof fn lemma_insert_full_evicts_lru(
    e: Seq<(Seq<u8>, Seq<u8>)>,
    k: Seq<u8>,
    v: Seq<u8>,
    cap: nat,
)
    requires
        keys_unique(e),
        e.len() == cap,
        cap >= 1,
        !has_key(e, k),
    ensures
        insert_model(e, k, v, cap) == e.drop_first().push((k, v)),
{
    lemma_remove_key_props(e, k);
    assert(remove_key(e, k) == e);
    assert(e.push((k, v)).drop_first() =~= e.drop_first().push((k, v)));
}

/// The `(hash, block)` pairs of two aligned sequences.
pub open spec fn paired(ks: Seq<Seq<u8>>, vs: Seq<Seq<u8>>) -> Seq<(Seq<u8>, Seq<u8>)> {
    Seq::new(ks.len(), |i: int| (ks[i], vs[i]))
}

/// A run of inserts folded over the model, first key first.
pub open spec fn fill(
    e: Seq<(Seq<u8>, Seq<u8>)>,
    ks: Seq<Seq<u8>>,
    vs: Seq<Seq<u8>>,
    cap: nat,
) -> Seq<(Seq<u8>, Seq<u8>)>
    decreases ks.len(),
{
    if ks.len() == 0 {
        e
    } else {
        fill(insert_model(e, ks[0], vs[0], cap), ks.drop_first(), vs.drop_first(), cap)
    }
}

/// While the capacity is not exceeded, a run of fresh, distinct inserts
/// simply appends in order.
proof fn lemma_fill_no_trim(
    e: Seq<(Seq<u8>, Seq<u8>)>,
    ks: Seq<Seq<u8>>,
    vs: Seq<Seq<u8>>,
    cap: nat,
)
    requires
        ks.len() == vs.len(),
        keys_unique(e),
        e.len() + ks.len() <= cap,
        ks.no_duplicates(),
        forall|i: int| 0 <= i < ks.len() ==> !has_key(e, ks[i]),
    ensures
        fill(e, ks, vs, cap) == e + paired(ks, vs),
    decreases ks.len(),
{
    if ks.len() == 0 {
        assert(e + paired(ks, vs) =~= e);
    } else {
        let k0 = ks[0];
        let v0 = vs[0];
        lemma_remove_key_props(e, k0);
        assert(!has_key(e, k0));
        assert(remove_key(e, k0) == e);
        let e1 = e.push((k0, v0));
        assert(insert_model(e, k0, v0, cap) == e1);
        assert forall|i: int| 0 <= i < e.len() implies e[i].0 != k0 by {
            if e[i].0 == k0 {
                assert(has_key(e, k0));
            }
        }
        lemma_push_unique(e, (k0, v0));
        let kt = ks.drop_first();
        let vt = vs.drop_first();
        assert(kt.no_duplicates()) by {
            assert forall|i: int, j: int|
                0 <= i < j < kt.len() implies kt[i] != kt[j] by {
                assert(kt[i] == ks[i + 1]);
                assert(kt[j] == ks[j + 1]);
            }
        }
        assert forall|i: int| 0 <= i < kt.len() implies !has_key(e1, kt[i]) by {
            assert(kt[i] == ks[i + 1]);
            if has_key(e1, kt[i]) {
                let j = choose|j: int| 0 <= j < e1.len() && e1[j].0 == kt[i];
                if j < e.len() {
                    assert(e[j].0 == kt[i]);
                    assert(has_key(e, ks[i + 1]));
                } else {
                    assert(e1[j] == (k0, v0));
                    assert(ks[i + 1] == ks[0]);
                }
            }
        }
        lemma_fill_no_trim(e1, kt, vt, cap);
        assert(e + paired(ks, vs) =~= e1 + paired(kt, vt)) by {
            assert forall|i: int|
                0 <= i < e.len() + ks.len() implies (e + paired(ks, vs))[i] == (e1 + paired(
                kt,
                vt,
            ))[i] by {
                if i < e.len() {
                } else if i == e.len() {
                    assert((e + paired(ks, vs))[i] == paired(ks, vs)[0]);
                    assert((e1 + paired(kt, vt))[i] == e1[i]);
                } else {
                    assert((e + paired(ks, vs))[i] == paired(ks, vs)[i - e.len()]);
                    assert((e1 + paired(kt, vt))[i] == paired(kt, vt)[i - e.len() - 1]);
                    assert(kt[i - e.len() - 1] == ks[i - e.len()]);
                    assert(vt[i - e.len() - 1] == vs[i - e.len()]);
                }
            }
        }
    }
}

/// A run of inserts can be cut anywhere: the tail continues from the
/// state the head leaves behind.
proof fn lemma_fill_split(
    e: Seq<(Seq<u8>, Seq<u8>)>,
    ks: Seq<Seq<u8>>,
    vs: Seq<Seq<u8>>,
    cap: nat,
    j: int,
)
    requires
        ks.len() == vs.len(),
        0 <= j <= ks.len(),
    ensures
        fill(e, ks, vs, cap) == fill(
            fill(e, ks.take(j), vs.take(j), cap),
            ks.skip(j),
            vs.skip(j),
            cap,
        ),
    decreases j,
{
    if j == 0 {
        assert(ks.take(0) =~= Seq::<Seq<u8>>::empty());
        assert(vs.take(0) =~= Seq::<Seq<u8>>::empty());
        assert(ks.skip(0) =~= ks);
        assert(vs.skip(0) =~= vs);
    } else {
        let e1 = insert_model(e, ks[0], vs[0], cap);
        let kt = ks.drop_first();
        let vt = vs.drop_first();
        lemma_fill_split(e1, kt, vt, cap, j - 1);
        assert(ks.take(j).len() > 0);
        assert(ks.take(j)[0] == ks[0]);
        assert(vs.take(j)[0] == vs[0]);
        assert(ks.take(j).drop_first() =~= kt.take(j - 1));
        assert(vs.take(j).drop_first() =~= vt.take(j - 1));
        assert(ks.skip(j) =~= kt.skip(j - 1));
        assert(vs.skip(j) =~= vt.skip(j - 1));
    }
}

/// Law: inserting capacity + 1 distinct blocks in order into an empty
/// cache retains exactly the last capacity of them, still in insertion
/// order — the first, least recently used block is the one evicted.
pub proof fn lemma_fill_beyond_capacity(ks: Seq<Seq<u8>>, vs: Seq<Seq<u8>>, cap: nat)
    requires
        cap >= 1,
        ks.len() == cap + 1,
        vs.len() == ks.len(),
        ks.no_duplicates(),
    ensures
        fill(Seq::empty(), ks, vs, cap) == paired(ks, vs).drop_first(),
{
    let empty = Seq::<(Seq<u8>, Seq<u8>)>::empty();
    let head_k = ks.take(cap as int);
    let head_v = vs.take(cap as int);
    lemma_fill_split(empty, ks, vs, cap, cap as int);
    assert(head_k.no_duplicates()) by {
        assert forall|i: int, j: int|
            0 <= i < j < head_k.len() implies head_k[i] != head_k[j] by {
            assert(head_k[i] == ks[i]);
            assert(head_k[j] == ks[j]);
        }
    }
    lemma_fill_no_trim(empty, head_k, head_v, cap);
    let full = paired(head_k, head_v);
    assert(fill(empty, head_k, head_v, cap) == full) by {
        assert(empty + full =~= full);
    }
    assert(keys_unique(full)) by {
        assert forall|i: int, j: int| 0 <= i < j < full.len() implies full[i].0 != full[j].0 by {
            assert(full[i].0 == ks[i]);
            assert(full[j].0 == ks[j]);
        }
    }
    let last_k = ks[cap as int];
    let last_v = vs[cap as int];
    assert(!has_key(full, last_k)) by {
        if has_key(full, last_k) {
            let i = choose|i: int| 0 <= i < full.len() && full[i].0 == last_k;
            assert(ks[i] == ks[cap as int]);
        }
    }
    lemma_insert_full_evicts_lru(full, last_k, last_v, cap);
    assert(ks.skip(cap as int) =~= seq![last_k]);
    assert(vs.skip(cap as int) =~= seq![last_v]);
    let tail_k = ks.skip(cap as int);
    let tail_v = vs.skip(cap as int);
    assert(fill(full, tail_k, tail_v, cap) == fill(
        insert_model(full, last_k, last_v, cap),
        tail_k.drop_first(),
        tail_v.drop_first(),
        cap,
    ));
    assert(tail_k.drop_first().len() == 0);
    assert(fill(empty, ks, vs, cap) == full.drop_first().push((last_k, last_v)));
    assert(full.drop_first().push((last_k, last_v)) =~= paired(ks, vs).drop_first()) by {
        assert forall|i: int|
            0 <= i < cap implies full.drop_first().push((last_k, last_v))[i] == paired(
            ks,
            vs,
        ).drop_first()[i] by {
            if i < cap - 1 {
                assert(full.drop_first().push((last_k, last_v))[i] == full[i + 1]);
                assert(full[i + 1] == (ks[i + 1], vs[i + 1]));
                assert(paired(ks, vs).drop_first()[i] == paired(ks, vs)[i + 1]);
            } else {
                assert(full.drop_first().push((last_k, last_v))[i] == (last_k, last_v));
                assert(paired(ks, vs).drop_first()[i] == paired(ks, vs)[cap as int]);
            }
        }
    }
}

/// Bounded cache from content hash to block bytes, least-recently-used
/// eviction, capacity fixed at construction.
pub struct ImmutableBlockCache {
    store: lru_cache::LruCache<Vec<u8>, Vec<u8>>,
    capacity: usize,
}

impl ImmutableBlockCache {
    /// The cached `(hash, block)` pairs in recency order, least recently
    /// used first.
    pub closed spec fn entries(&self) -> Seq<(Seq<u8>, Seq<u8>)> {
        cache_entries(self.store)
    }

    /// The fixed capacity.
    pub closed spec fn spec_capacity(&self) -> nat {
        self.capacity as nat
    }

    /// Well-formedness: the held bound matches the recorded capacity, at
    /// least one entry fits, hashes are unique, and the entry count never
    /// exceeds the capacity.
    pub closed spec fn wf(&self) -> bool {
        &&& cache_capacity(self.store) == self.capacity as nat
        &&& self.capacity >= 1
        &&& keys_unique(cache_entries(self.store))
        &&& cache_entries(self.store).len() <= self.capacity as nat
    }

    /// An empty cache holding at most `capacity` blocks.
    pub fn with_capacity(capacity: usize) -> (r: ImmutableBlockCache)
        requires
            capacity >= 1,
        ensures
            r.wf(),
            r.entries() == Seq::<(Seq<u8>, Seq<u8>)>::empty(),
            r.spec_capacity() == capacity as nat,
    {
        ImmutableBlockCache { store: lru_new(capacity), capacity }
    }

    /// An empty cache with the process-wide default capacity.
    pub fn new() -> (r: ImmutableBlockCache)
        ensures
            r.wf(),
            r.entries() == Seq::<(Seq<u8>, Seq<u8>)>::empty(),
            r.spec_capacity() == IMMUTABLE_BLOCK_CACHE_SIZE as nat,
    {
        Self::with_capacity(IMMUTABLE_BLOCK_CACHE_SIZE)
    }

    /// How many blocks are cached.
    pub fn len(&self) -> (n: usize)
        ensures
            n == self.entries().len(),
    {
        lru_len(&self.store)
    }

    /// The fixed capacity.
    pub fn capacity(&self) -> (n: usize)
        ensures
            n as nat == self.spec_capacity(),
    {
        self.capacity
    }

    /// Looks a block up by its content hash. A hit returns the cached
    /// bytes and promotes the entry to most recently used; a miss changes
    /// nothing, and the caller is expected to fetch and `insert`.
    pub fn get(&mut self, hash: &Vec<u8>) -> (r: Option<Vec<u8>>)
        requires
            old(self).wf(),
        ensures
            final(self).wf(),
            final(self).spec_capacity() == old(self).spec_capacity(),
            r is Some <==> has_key(old(self).entries(), hash@),
            r matches Some(v) ==> v@ == lookup(old(self).entries(), hash@) && final(self).entries()
                == promote(old(self).entries(), hash@),
            r is None ==> final(self).entries() == old(self).entries(),
    {
        let r = lru_get(&mut self.store, hash);
        proof {
            if r is Some {
                lemma_remove_key_props(old(self).entries(), hash@);
                lemma_push_unique(
                    remove_key(old(self).entries(), hash@),
                    (hash@, lookup(old(self).entries(), hash@)),
                );
            }
        }
        r
    }

    /// Inserts a block under its content hash. The block becomes the most
    /// recently used entry; if the cache was full and the hash fresh, the
    /// least recently used entry is evicted and returned.
    pub fn insert(&mut self, hash: Vec<u8>, block: Vec<u8>) -> (evicted: Option<(Vec<u8>, Vec<u8>)>)
        requires
            old(self).wf(),
        ensures
            final(self).wf(),
            final(self).spec_capacity() == old(self).spec_capacity(),
            final(self).entries() == insert_model(
                old(self).entries(),
                hash@,
                block@,
                old(self).spec_capacity(),
            ),
            evicted is Some <==> (!has_key(old(self).entries(), hash@) && old(
                self,
            ).entries().len() == old(self).spec_capacity()),
            evicted matches Some(p) ==> p.0@ == old(self).entries()[0].0 && p.1@ == old(
                self,
            ).entries()[0].1,
    {
        let ghost e0 = cache_entries(self.store);
        let ghost cap = old(self).spec_capacity();
        proof {
            lemma_remove_key_props(e0, hash@);
        }
        let probe = lru_get(&mut self.store, &hash);
        if probe.is_some() {
            proof {
                let rk = remove_key(e0, hash@);
                let e1 = promote(e0, hash@);
                lemma_push_unique(rk, (hash@, lookup(e0, hash@)));
                assert(e1.drop_last() =~= rk);
                assert(remove_key(e1, hash@) == remove_key(rk, hash@));
                assert(!has_key(rk, hash@));
                lemma_remove_key_props(rk, hash@);
            }
            let _ = lru_insert(&mut self.store, hash, block);
            proof {
                let rk = remove_key(e0, hash@);
                lemma_push_unique(rk, (hash@, block@));
            }
            None
        } else {
            let filled = lru_len(&self.store) == self.capacity;
            if filled {
                let evicted = lru_remove_lru(&mut self.store);
                proof {
                    let e1 = e0.drop_first();
                    lemma_drop_first_unique(e0);
                    assert(!has_key(e1, hash@)) by {
                        if has_key(e1, hash@) {
                            let m = choose|m: int| 0 <= m < e1.len() && e1[m].0 == hash@;
                            assert(e0[m + 1].0 == hash@);
                        }
                    }
                    lemma_remove_key_props(e1, hash@);
                    assert forall|i: int| 0 <= i < e1.len() implies e1[i].0 != hash@ by {
                        if e1[i].0 == hash@ {
                            assert(e0[i + 1].0 == hash@);
                        }
                    }
                }
                let _ = lru_insert(&mut self.store, hash, block);
                proof {
                    let e1 = e0.drop_first();
                    assert(final(self).entries() == e1.push((hash@, block@)));
                    assert(insert_model(e0, hash@, block@, cap) == e0.push(
                        (hash@, block@),
                    ).drop_first());
                    assert(e0.push((hash@, block@)).drop_first() =~= e1.push((hash@, block@)));
                    lemma_push_unique(e1, (hash@, block@));
                }
                evicted
            } else {
                proof {
                    assert forall|i: int| 0 <= i < e0.len() implies e0[i].0 != hash@ by {
                        if e0[i].0 == hash@ {
                            assert(has_key(e0, hash@));
                        }
                    }
                }
                let _ = lru_insert(&mut self.store, hash, block);
                proof {
                    lemma_push_unique(e0, (hash@, block@));
                }
                None
            }
        }
    }
}

} // verus!
