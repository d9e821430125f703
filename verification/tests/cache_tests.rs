use voxel_core::cache::{ChunkDataCache, ChunkSet, WorldCache};
use voxel_core::chunk::{BlockPos, ChunkKey};

fn key(x: i32, y: i32, z: i32) -> ChunkKey {
    ChunkKey { x, y, z }
}

#[test]
fn cache_reads_back_what_was_written() {
    let mut cache = ChunkDataCache::new();
    assert_eq!(cache.len(), 0);
    assert!(cache.insert(key(0, 0, 0), vec![1, 2, 3]).is_none());
    assert!(cache.insert(key(1, 0, 0), vec![4]).is_none());
    assert_eq!(cache.get(&key(0, 0, 0)), Some(&vec![1, 2, 3]));
    assert_eq!(cache.len(), 2);
    assert_eq!(cache.insert(key(0, 0, 0), vec![9]), Some(vec![1, 2, 3]));
    assert_eq!(cache.get(&key(0, 0, 0)), Some(&vec![9]));
    assert_eq!(cache.get(&key(1, 0, 0)), Some(&vec![4]));
    assert!(cache.get(&key(0, 1, 0)).is_none());
    assert!(cache.contains_key(&key(1, 0, 0)));
    assert_eq!(cache.len(), 2);
    cache.clear();
    assert_eq!(cache.len(), 0);
    assert!(!cache.contains_key(&key(1, 0, 0)));
}

#[test]
fn chunk_set_insert() {
    let mut set = ChunkSet::new();
    assert!(set.insert(key(1, 2, 3)));
    assert!(!set.insert(key(1, 2, 3)));
    assert!(set.contains_key(&key(1, 2, 3)));
    assert!(!set.contains_key(&key(3, 2, 1)));
    assert_eq!(set.len(), 1);
}

#[test]
fn discovery_of_one_player() {
    let mut set = ChunkSet::new();
    let fresh = set.discover_around(&[BlockPos { x: 0, y: 20, z: 0 }]);
    assert_eq!(fresh.len(), 25);
    assert_eq!(fresh[0], key(-2, 1, -2));
    assert_eq!(fresh[1], key(-2, 1, -1));
    assert_eq!(fresh[5], key(-1, 1, -2));
    assert_eq!(fresh[24], key(2, 1, 2));
    assert_eq!(set.len(), 25);
    let again = set.discover_around(&[BlockPos { x: 3, y: 20, z: 5 }]);
    assert!(again.is_empty());
    let moved = set.discover_around(&[BlockPos { x: 16, y: 20, z: 0 }]);
    assert_eq!(moved, vec![key(3, 1, -2), key(3, 1, -1), key(3, 1, 0), key(3, 1, 1), key(3, 1, 2)]);
    assert_eq!(set.len(), 30);
}

#[test]
fn discovery_sends_each_chunk_once_across_players() {
    let mut set = ChunkSet::new();
    let fresh = set.discover_around(&[BlockPos { x: 0, y: 0, z: 0 }, BlockPos { x: 17, y: 0, z: 0 }]);
    assert_eq!(fresh.len(), 30);
    let mut sorted = fresh.clone();
    sorted.sort_by_key(|k| (k.x, k.y, k.z));
    sorted.dedup();
    assert_eq!(sorted.len(), 30);
}

#[test]
fn discovery_saturates_at_the_world_edge() {
    let mut set = ChunkSet::new();
    let fresh = set.discover_around(&[BlockPos { x: i32::MAX, y: 0, z: 0 }]);
    // offsets beyond the edge land in the last chunk
    assert_eq!(fresh.len(), 15);
    assert!(set.contains_key(&key(134217727, 0, 2)));
    assert!(set.contains_key(&key(134217725, 0, -2)));
}

#[test]
fn world_cache_hands_back_replaced_entities() {
    let mut w = WorldCache::new();
    assert_eq!(w.store_chunk(key(0, 0, 0), vec![1; 4], 10), None);
    assert_eq!(w.store_chunk(key(1, 0, 0), vec![2; 4], 11), None);
    assert_eq!(w.store_chunk(key(0, 0, 0), vec![3; 4], 12), Some(10));
    assert_eq!(w.chunk_entity(&key(0, 0, 0)), Some(12));
    assert_eq!(w.chunk_entity(&key(2, 0, 0)), None);
    assert_eq!(w.chunk_data().get(&key(0, 0, 0)), Some(&vec![3; 4]));
    assert_eq!(w.chunk_data().len(), 2);
    w.add_player(7, 70);
    w.add_player(8, 80);
    assert_eq!(w.player_entity(7), Some(70));
    assert_eq!(w.remove_player(7), Some(70));
    assert_eq!(w.remove_player(7), None);
    assert_eq!(w.player_count(), 1);
    let mut gone = w.clear();
    gone.sort();
    assert_eq!(gone, vec![11, 12]);
    assert_eq!(w.chunk_data().len(), 0);
    assert_eq!(w.player_count(), 0);
    assert_eq!(w.chunk_entity(&key(1, 0, 0)), None);
}
