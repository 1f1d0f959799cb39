use voidweb::radix_cache::RadixCacheManager;

#[test]
fn test_basic_lookup_miss() {
    let mut mgr = RadixCacheManager::new(4, 1000);
    let res = mgr.lookup(&[1, 2, 3, 4]);
    assert_eq!(res.matched_len, 0);
    assert!(res.reuse_blocks.is_empty());
}

#[test]
fn test_insert_then_lookup() {
    let mut mgr = RadixCacheManager::new(4, 1000);
    let tokens: Vec<u32> = vec![10, 20, 30, 40, 50, 60];
    let blocks: Vec<u32> = vec![1, 2];
    mgr.insert(&tokens, &blocks);

    let res = mgr.lookup(&[10, 20, 30, 40, 50, 60]);
    assert!(res.matched_len > 0, "should match at least one block");
    assert!(!res.reuse_blocks.is_empty());
}

#[test]
fn test_shared_prefix() {
    let mut mgr = RadixCacheManager::new(4, 1000);
    let seq_a: Vec<u32> = vec![1, 2, 3, 4, 5, 6, 7, 8];
    let seq_b: Vec<u32> = vec![1, 2, 3, 4, 9, 10, 11, 12];

    mgr.insert(&seq_a, &[10, 11]);
    mgr.insert(&seq_b, &[20, 21]);

    let ra = mgr.lookup(&seq_a);
    let rb = mgr.lookup(&seq_b);
    assert!(ra.matched_len >= 4, "seq_a should match the shared prefix");
    assert!(rb.matched_len >= 4, "seq_b should match the shared prefix");
    assert!(!ra.reuse_blocks.is_empty());
    assert!(!rb.reuse_blocks.is_empty());
}

#[test]
fn test_stats() {
    let mut mgr = RadixCacheManager::new(4, 1000);
    assert_eq!(mgr.total_blocks(), 0);
    mgr.insert(&[1, 2, 3, 4], &[42]);
    assert!(mgr.total_blocks() > 0);
}

#[test]
fn insert_splits_into_block_sized_edges() {
    let mut mgr = RadixCacheManager::new(4, 1000);
    mgr.insert(&[10, 20, 30, 40, 50, 60], &[1, 2]);
    let res = mgr.lookup(&[10, 20, 30, 40, 50, 60]);
    assert_eq!(res.matched_len, 6);
    assert_eq!(res.reuse_blocks, vec![1, 2]);
    assert_eq!(mgr.total_blocks(), 2);
}

#[test]
fn shared_prefix_keeps_the_first_prefix_block() {
    let mut mgr = RadixCacheManager::new(4, 1000);
    mgr.insert(&[1, 2, 3, 4, 5, 6, 7, 8], &[10, 11]);
    mgr.insert(&[1, 2, 3, 4, 9, 10, 11, 12], &[20, 21]);
    let ra = mgr.lookup(&[1, 2, 3, 4, 5, 6, 7, 8]);
    let rb = mgr.lookup(&[1, 2, 3, 4, 9, 10, 11, 12]);
    assert_eq!(ra.matched_len, 8);
    assert_eq!(ra.reuse_blocks, vec![10, 11]);
    assert_eq!(rb.matched_len, 8);
    assert_eq!(rb.reuse_blocks, vec![10, 21]);
    assert_eq!(mgr.total_blocks(), 3);
}

#[test]
fn partial_edge_match_returns_the_edge_blocks() {
    let mut mgr = RadixCacheManager::new(4, 1000);
    mgr.insert(&[1, 2, 3, 4], &[7]);
    let res = mgr.lookup(&[1, 2, 9]);
    assert_eq!(res.matched_len, 2);
    assert_eq!(res.reuse_blocks, vec![7]);
}

#[test]
fn lookup_of_nothing_matches_nothing() {
    let mut mgr = RadixCacheManager::new(4, 1000);
    mgr.insert(&[1, 2, 3, 4], &[7]);
    let res = mgr.lookup(&[]);
    assert_eq!(res.matched_len, 0);
    assert!(res.reuse_blocks.is_empty());
}

#[test]
fn repeated_lookups_agree() {
    let mut mgr = RadixCacheManager::new(4, 1000);
    mgr.insert(&[1, 2, 3, 4, 5, 6], &[3, 4]);
    let a = mgr.lookup(&[1, 2, 3, 4, 5, 9]);
    let b = mgr.lookup(&[1, 2, 3, 4, 5, 9]);
    assert_eq!(a.matched_len, b.matched_len);
    assert_eq!(a.reuse_blocks, b.reuse_blocks);
    assert_eq!(a.matched_len, 5);
    assert_eq!(a.reuse_blocks, vec![3, 4]);
}

#[test]
fn insert_over_budget_evicts_one_leaf() {
    let mut mgr = RadixCacheManager::new(4, 1);
    mgr.insert(&[1, 2, 3, 4, 5, 6, 7, 8], &[1, 2]);
    assert_eq!(mgr.total_blocks(), 1);
    let res = mgr.lookup(&[1, 2, 3, 4, 5, 6, 7, 8]);
    assert_eq!(res.matched_len, 8);
    assert_eq!(res.reuse_blocks, vec![1]);
}

#[test]
fn evict_lru_frees_until_target_or_no_leaf() {
    let mut mgr = RadixCacheManager::new(4, 1000);
    mgr.insert(&[1, 2, 3, 4, 5, 6, 7, 8], &[10, 11]);
    mgr.insert(&[1, 2, 3, 4, 9, 10, 11, 12], &[20, 21]);
    assert_eq!(mgr.evict_lru(1), 1);
    assert_eq!(mgr.total_blocks(), 2);
    assert_eq!(mgr.evict_lru(10), 1);
    assert_eq!(mgr.total_blocks(), 1);
    assert_eq!(mgr.evict_lru(5), 0);
    let ra = mgr.lookup(&[1, 2, 3, 4, 5, 6, 7, 8]);
    assert_eq!(ra.matched_len, 8);
    assert_eq!(ra.reuse_blocks, vec![10]);
}

#[test]
fn evict_lru_with_no_target_changes_nothing() {
    let mut mgr = RadixCacheManager::new(4, 1000);
    mgr.insert(&[1, 2, 3, 4, 5, 6, 7, 8], &[10, 11]);
    assert_eq!(mgr.evict_lru(0), 0);
    assert_eq!(mgr.total_blocks(), 2);
    assert_eq!(mgr.lookup(&[1, 2, 3, 4, 5, 6, 7, 8]).reuse_blocks, vec![10, 11]);
}

#[test]
fn evict_lru_stops_once_the_target_is_met() {
    let mut mgr = RadixCacheManager::new(2, 1000);
    mgr.insert(&[1, 2], &[5]);
    mgr.insert(&[3, 4], &[6]);
    mgr.insert(&[7, 8], &[7]);
    assert_eq!(mgr.evict_lru(2), 2);
    assert_eq!(mgr.total_blocks(), 1);
}

#[test]
fn evict_lru_takes_the_oldest_leaf_first() {
    let mut mgr = RadixCacheManager::new(2, 1000);
    mgr.insert(&[1, 2], &[5]);
    mgr.insert(&[3, 4], &[6]);
    let _ = mgr.lookup(&[1, 2]);
    assert_eq!(mgr.evict_lru(1), 1);
    assert_eq!(mgr.lookup(&[1, 2]).reuse_blocks, vec![5]);
    assert!(mgr.lookup(&[3, 4]).reuse_blocks.is_empty());
}

#[test]
fn fresh_insert_with_too_few_blocks() {
    let mut mgr = RadixCacheManager::new(4, 1000);
    mgr.insert(&[1, 2, 3, 4, 5, 6, 7, 8], &[9]);
    let res = mgr.lookup(&[1, 2, 3, 4, 5, 6, 7, 8]);
    assert_eq!(res.matched_len, 4);
    assert_eq!(res.reuse_blocks, vec![9]);
    assert_eq!(mgr.total_blocks(), 1);
}

#[test]
fn longer_queries_match_more() {
    let mut mgr = RadixCacheManager::new(4, 1000);
    mgr.insert(&[1, 2, 3, 4, 5, 6, 7, 8], &[10, 11]);
    let short = mgr.lookup(&[1, 2, 3]);
    let mid = mgr.lookup(&[1, 2, 3, 4, 5]);
    let long = mgr.lookup(&[1, 2, 3, 4, 5, 6, 7, 8, 9]);
    assert_eq!((short.matched_len, short.reuse_blocks), (3, vec![10]));
    assert_eq!((mid.matched_len, mid.reuse_blocks), (5, vec![10, 11]));
    assert_eq!((long.matched_len, long.reuse_blocks), (8, vec![10, 11]));
}

#[test]
fn a_fresh_insert_stores_one_block_per_started_chunk() {
    let mut mgr = RadixCacheManager::new(4, 1000);
    mgr.insert(&[1, 2, 3, 4, 5, 6, 7, 8, 9], &[10, 11, 12, 13]);
    assert_eq!(mgr.total_blocks(), 3);
    let mut mgr = RadixCacheManager::new(4, 1000);
    mgr.insert(&[1, 2, 3, 4, 5, 6, 7, 8, 9], &[10, 11]);
    assert_eq!(mgr.total_blocks(), 2);
}

#[test]
fn a_lookup_changes_no_later_lookup() {
    let mut mgr = RadixCacheManager::new(4, 1000);
    mgr.insert(&[1, 2, 3, 4, 5, 6, 7, 8], &[10, 11]);
    mgr.insert(&[1, 2, 3, 4, 9, 9, 9, 9], &[10, 12]);
    let before = mgr.total_blocks();
    let first = mgr.lookup(&[1, 2, 3, 4, 9, 9]);
    let second = mgr.lookup(&[1, 2, 3, 4, 9, 9]);
    assert_eq!((first.matched_len, first.reuse_blocks), (second.matched_len, second.reuse_blocks));
    assert_eq!(mgr.total_blocks(), before);
}

#[test]
fn an_insert_keeps_what_was_stored() {
    let mut mgr = RadixCacheManager::new(2, 1000);
    mgr.insert(&[1, 2, 3, 4], &[10, 11]);
    mgr.insert(&[1, 2, 5, 6], &[20, 21]);
    let a = mgr.lookup(&[1, 2, 3, 4]);
    assert_eq!((a.matched_len, a.reuse_blocks), (4, vec![10, 11]));
    assert_eq!(mgr.total_blocks(), 3);
}
