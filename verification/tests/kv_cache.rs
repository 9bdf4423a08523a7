use sn_inference::kv_cache::{create_cache_list, plan_update, CacheSize, KVCache};

#[test]
fn test_kv_cache_update_and_fetch() {
    // One entry per position of the sequence axis; each entry stands for the
    // batch x heads x head_dim block of that position.
    let seq_len: usize = 3;

    let mut cache: KVCache<u16, u16> = KVCache::default();
    cache.step = 4; // For testing resize

    // Round 1: Add first key/value
    let keys1 = vec![0u16; seq_len];
    let values1 = vec![0u16; seq_len];
    let (out_k1, out_v1) = cache.update_and_fetch(&keys1, &values1, 0, 0);

    assert_eq!(out_k1.len(), seq_len);
    assert_eq!(out_v1.len(), seq_len);

    // Round 2: Add another key/value
    let keys2 = vec![0u16; seq_len];
    let values2 = vec![0u16; seq_len];
    let (out_k2, out_v2) = cache.update_and_fetch(&keys2, &values2, 0, 0);

    assert_eq!(out_k2.len(), seq_len * 2);
    assert_eq!(out_v2.len(), seq_len * 2);

    // Round 3: Add large input to trigger resize
    let big_seq: usize = 6;
    let keys3 = vec![0u16; big_seq];
    let values3 = vec![0u16; big_seq];
    let (out_k3, out_v3) = cache.update_and_fetch(&keys3, &values3, 0, 0);

    assert_eq!(out_k3.len(), 2 * seq_len + big_seq);
    assert_eq!(out_v3.len(), 2 * seq_len + big_seq);

    // Sanity: Final offset should match total seq_len
    assert_eq!(cache.offset as usize, 2 * seq_len + big_seq);
}

#[test]
fn fetched_entries_are_earlier_ones_then_new_ones() {
    let mut cache: KVCache<u32, i64> = KVCache::default();
    cache.step = 4;
    let (k1, v1) = cache.update_and_fetch(&[1, 2, 3], &[-1, -2, -3], 0, 0);
    assert_eq!(k1, vec![1, 2, 3]);
    assert_eq!(v1, vec![-1, -2, -3]);
    let (k2, v2) = cache.update_and_fetch(&[4, 5], &[-4, -5], 0, 0);
    assert_eq!(k2, vec![1, 2, 3, 4, 5]);
    assert_eq!(v2, vec![-1, -2, -3, -4, -5]);
    assert_eq!(cache.offset, 5);
    // The buffers grew to the next multiple of the step.
    assert_eq!(cache.keys.as_ref().unwrap().len(), 8);
    // The state is the whole buffers, unused positions included.
    assert_eq!(cache.get_state(), (vec![1, 2, 3, 4, 5, 0, 0, 0], vec![-1, -2, -3, -4, -5, 0, 0, 0]));
}

#[test]
fn buffers_grow_in_whole_steps() {
    let mut cache: KVCache<u8, u8> = KVCache::default();
    assert_eq!(cache.step, 256);
    cache.update_and_fetch(&[7; 10], &[8; 10], 0, 0);
    assert_eq!(cache.keys.as_ref().unwrap().len(), 256);
    cache.update_and_fetch(&[9; 246], &[9; 246], 0, 0);
    assert_eq!(cache.keys.as_ref().unwrap().len(), 256);
    cache.update_and_fetch(&[1], &[1], 0, 0);
    assert_eq!(cache.keys.as_ref().unwrap().len(), 512);
    assert_eq!(cache.offset, 257);
}

#[test]
fn empty_cache_has_empty_state_and_no_size() {
    let cache: KVCache<u16, u16> = KVCache::default();
    assert_eq!(cache.get_state(), (vec![], vec![]));
    assert_eq!(cache.cache_size(), 0);
}

#[test]
fn cache_size_counts_whole_buffers_in_bytes() {
    let mut cache: KVCache<u16, u32> = KVCache::default();
    cache.step = 4;
    cache.update_and_fetch(&[1, 2, 3], &[1, 2, 3], 0, 0);
    // Buffers of 4 positions: 4 * 2 bytes of keys and 4 * 4 bytes of values.
    assert_eq!(cache.cache_size(), 8 + 16);
}

#[test]
fn cache_list_size_sums_its_caches() {
    let mut caches: Vec<KVCache<u8, u8>> = create_cache_list(3);
    assert_eq!(caches.len(), 3);
    assert_eq!(caches.cache_size(), 0);
    caches[0].update_and_fetch(&[1], &[1], 0, 0);
    caches[2].update_and_fetch(&[1], &[1], 0, 0);
    assert_eq!(caches.cache_size(), 2 * (256 + 256));
    for c in &caches[1..2] {
        assert!(c.keys.is_none());
        assert_eq!(c.offset, 0);
        assert_eq!(c.step, 256);
    }
}

#[test]
fn plan_grows_to_next_step_and_keeps_cached_positions() {
    let p = plan_update(3, 4, Some(4), 6);
    assert_eq!(p.new_capacity, Some(12));
    assert_eq!(p.copy_len, 3);
    assert_eq!((p.write_start, p.write_end), (3, 9));
    let q = plan_update(3, 4, Some(8), 2);
    assert_eq!(q.new_capacity, None);
    assert_eq!((q.write_start, q.write_end), (3, 5));
    let r = plan_update(0, 256, None, 1);
    assert_eq!(r.new_capacity, Some(256));
    assert_eq!(r.copy_len, 0);
}
