use safe_app_core::cache::{ImmutableBlockCache, IMMUTABLE_BLOCK_CACHE_SIZE};

#[test]
fn capacity_two_insert_three_evicts_first() {
    // Capacity = 2; insert X, Y, Z; final contents = {Y, Z}, X evicted.
    let mut cache = ImmutableBlockCache::with_capacity(2);
    let x = b"hash-x".to_vec();
    let y = b"hash-y".to_vec();
    let z = b"hash-z".to_vec();
    assert_eq!(cache.insert(x.clone(), b"block-x".to_vec()), None);
    assert_eq!(cache.insert(y.clone(), b"block-y".to_vec()), None);
    let evicted = cache.insert(z.clone(), b"block-z".to_vec());
    assert_eq!(evicted, Some((x.clone(), b"block-x".to_vec())));
    assert_eq!(cache.len(), 2);
    assert_eq!(cache.get(&x), None);
    assert_eq!(cache.get(&y), Some(b"block-y".to_vec()));
    assert_eq!(cache.get(&z), Some(b"block-z".to_vec()));
}

#[test]
fn inserting_capacity_plus_one_blocks_retains_capacity() {
    let mut cache = ImmutableBlockCache::with_capacity(3);
    for i in 0u8..4 {
        cache.insert(vec![i], vec![i, i]);
    }
    assert_eq!(cache.len(), 3);
    assert_eq!(cache.get(&vec![0u8]), None);
    for i in 1u8..4 {
        assert_eq!(cache.get(&vec![i]), Some(vec![i, i]));
    }
}

#[test]
fn reading_promotes_to_most_recently_used() {
    let mut cache = ImmutableBlockCache::with_capacity(2);
    let x = b"x".to_vec();
    let y = b"y".to_vec();
    let z = b"z".to_vec();
    cache.insert(x.clone(), b"bx".to_vec());
    cache.insert(y.clone(), b"by".to_vec());
    // Touch X so that Y becomes least recently used.
    assert_eq!(cache.get(&x), Some(b"bx".to_vec()));
    let evicted = cache.insert(z.clone(), b"bz".to_vec());
    assert_eq!(evicted, Some((y, b"by".to_vec())));
    assert_eq!(cache.get(&x), Some(b"bx".to_vec()));
    assert_eq!(cache.get(&z), Some(b"bz".to_vec()));
}

#[test]
fn reinserting_same_hash_does_not_evict() {
    let mut cache = ImmutableBlockCache::with_capacity(2);
    let x = b"x".to_vec();
    let y = b"y".to_vec();
    cache.insert(x.clone(), b"bx".to_vec());
    cache.insert(y.clone(), b"by".to_vec());
    assert_eq!(cache.insert(x.clone(), b"bx".to_vec()), None);
    assert_eq!(cache.len(), 2);
    assert_eq!(cache.get(&y), Some(b"by".to_vec()));
}

#[test]
fn miss_returns_none_and_changes_nothing() {
    let mut cache = ImmutableBlockCache::with_capacity(2);
    assert_eq!(cache.get(&b"absent".to_vec()), None);
    assert_eq!(cache.len(), 0);
    cache.insert(b"x".to_vec(), b"bx".to_vec());
    assert_eq!(cache.get(&b"absent".to_vec()), None);
    assert_eq!(cache.len(), 1);
}

#[test]
fn default_capacity_is_the_process_wide_constant() {
    let cache = ImmutableBlockCache::new();
    assert_eq!(cache.capacity(), IMMUTABLE_BLOCK_CACHE_SIZE);
    assert_eq!(IMMUTABLE_BLOCK_CACHE_SIZE, 300);
}
