use voidweb::kv_cache::{rolling_hash, BlockManager, KvCacheError};

#[test]
fn fresh_manager_has_every_block_free() {
    let m = BlockManager::new(2, 2, 64, 16, 4);
    assert_eq!(m.capacity(), 4);
    assert_eq!(m.free_count(), 4);
    assert_eq!(m.block_size, 16);
    assert_eq!(m.num_layers, 2);
}

#[test]
fn blocks_are_handed_out_in_order() {
    let mut m = BlockManager::new(1, 1, 8, 16, 3);
    assert_eq!(m.alloc_block(), Some(0));
    assert_eq!(m.alloc_block(), Some(1));
    assert_eq!(m.alloc_block(), Some(2));
    assert_eq!(m.alloc_block(), None);
    assert_eq!(m.capacity(), 3);
    assert_eq!(m.free_count(), 0);
}

#[test]
fn alloc_seq_takes_n_blocks_or_fails() {
    let mut m = BlockManager::new(1, 1, 8, 16, 4);
    assert_eq!(m.alloc_seq(3).unwrap(), vec![0, 1, 2]);
    assert_eq!(m.free_count(), 1);
    assert_eq!(m.alloc_seq(2), Err(KvCacheError::OutOfBlocks { needed: 2, free: 1 }));
    assert_eq!(m.free_count(), 1);
    assert_eq!(m.alloc_seq(0).unwrap(), Vec::<u32>::new());
}

#[test]
fn decref_to_zero_returns_the_block_to_the_back() {
    let mut m = BlockManager::new(1, 1, 8, 16, 4);
    assert_eq!(m.alloc_block(), Some(0));
    m.decref(0);
    assert_eq!(m.free_count(), 4);
    assert_eq!(m.capacity(), 4);
    assert_eq!(m.alloc_block(), Some(1));
}

#[test]
fn shared_blocks_stay_until_the_last_reference() {
    let mut m = BlockManager::new(1, 1, 8, 16, 4);
    let id = m.alloc_block().unwrap();
    m.incref(id);
    m.decref(id);
    assert_eq!(m.free_count(), 3);
    m.decref(id);
    assert_eq!(m.free_count(), 4);
}

#[test]
fn decref_of_a_free_block_changes_nothing() {
    let mut m = BlockManager::new(1, 1, 8, 16, 4);
    m.decref(2);
    m.incref(3);
    assert_eq!(m.free_count(), 4);
    assert_eq!(m.capacity(), 4);
}

#[test]
fn free_seq_releases_a_sequence() {
    let mut m = BlockManager::new(1, 1, 8, 16, 4);
    let table = m.alloc_seq(3).unwrap();
    m.free_seq(&table);
    assert_eq!(m.free_count(), 4);
    assert_eq!(m.capacity(), 4);
}

#[test]
fn rolling_hash_values() {
    assert_eq!(rolling_hash(0, &[]), 0);
    assert_eq!(rolling_hash(0, &[1]), 16088033396387240378);
    assert_eq!(rolling_hash(7, &[1, 2, 3]), 5297876676263055924);
    assert_eq!(rolling_hash(0, &[5, 6]), 15540262493211483337);
    assert_eq!(rolling_hash(15540262493211483337, &[7, 8]), 10195269789962093366);
}

#[test]
fn prefix_lookup_follows_registered_chunks() {
    let mut m = BlockManager::new(1, 1, 8, 2, 4);
    let b0 = m.alloc_block().unwrap();
    let b1 = m.alloc_block().unwrap();
    assert!(m.prefix_lookup(&[5, 6, 7, 8]).is_empty());
    let h1 = rolling_hash(0, &[5, 6]);
    m.register_prefix_block(b0, h1);
    assert_eq!(m.prefix_lookup(&[5, 6, 7, 8]), vec![b0]);
    let h2 = rolling_hash(h1, &[7, 8]);
    m.register_prefix_block(b1, h2);
    assert_eq!(m.prefix_lookup(&[5, 6, 7, 8]), vec![b0, b1]);
    assert_eq!(m.prefix_lookup(&[5, 6, 7, 8, 9]), vec![b0, b1]);
    assert!(m.prefix_lookup(&[5]).is_empty());
    assert!(m.prefix_lookup(&[6, 5]).is_empty());
}

#[test]
fn registering_a_prefix_block_holds_a_reference() {
    let mut m = BlockManager::new(1, 1, 8, 2, 2);
    let b = m.alloc_block().unwrap();
    m.register_prefix_block(b, 99);
    m.decref(b);
    assert_eq!(m.free_count(), 1);
    m.decref(b);
    assert_eq!(m.free_count(), 2);
}

#[test]
fn out_of_blocks_message() {
    let e = KvCacheError::OutOfBlocks { needed: 5, free: 2 };
    assert_eq!(e.message(), "KV cache OOM: need 5 blocks, only 2 free");
}

#[test]
fn capacity_holds_over_calls() {
    let mut m = BlockManager::new(1, 1, 8, 2, 4);
    let t = m.alloc_seq(3).unwrap();
    assert_eq!((m.capacity(), m.free_count()), (4, 1));
    m.incref(t[0]);
    m.register_prefix_block(t[1], rolling_hash(0, &[1, 2]));
    m.free_seq(&t);
    assert_eq!((m.capacity(), m.free_count()), (4, 2));
    m.decref(t[0]);
    m.decref(t[1]);
    m.decref(t[1]);
    assert_eq!((m.capacity(), m.free_count()), (4, 4));
    assert_eq!(m.prefix_lookup(&[1, 2, 3]), vec![t[1]]);
}
