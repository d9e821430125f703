use voxel_core::cache::ChunkDataCache;
use voxel_core::chunk::{chunk_index, BlockPos, ChunkKey, CHUNK_VOLUME};
use voxel_core::physics::{check_collision, collides_with_world, is_block_filled, is_block_solid};
use voxel_core::protocol::{movement_axes, InputFlags};

fn cache_with(key: ChunkKey, blocks: &[((usize, usize, usize), u8)]) -> ChunkDataCache {
    let mut data = vec![0u8; CHUNK_VOLUME];
    for &((x, y, z), id) in blocks {
        data[chunk_index(x, y, z)] = id;
    }
    let mut cache = ChunkDataCache::new();
    cache.insert(key, data);
    cache
}

#[test]
fn solid_lookup_uses_definitions() {
    let cache = cache_with(ChunkKey { x: -1, y: 0, z: 0 }, &[((15, 2, 3), 3), ((14, 2, 3), 7)]);
    assert!(is_block_solid(&cache, BlockPos { x: -1, y: 2, z: 3 }));
    assert!(!is_block_solid(&cache, BlockPos { x: -2, y: 2, z: 3 }));
    assert!(is_block_filled(&cache, BlockPos { x: -2, y: 2, z: 3 }));
    assert!(!is_block_filled(&cache, BlockPos { x: -3, y: 2, z: 3 }));
    assert!(!is_block_solid(&cache, BlockPos { x: 0, y: 2, z: 3 }));
    assert!(!is_block_filled(&cache, BlockPos { x: 0, y: 2, z: 3 }));
}

#[test]
fn unknown_ids_are_not_solid() {
    let cache = cache_with(ChunkKey { x: 0, y: 0, z: 0 }, &[((1, 1, 1), 200)]);
    assert!(!is_block_solid(&cache, BlockPos { x: 1, y: 1, z: 1 }));
    assert!(is_block_filled(&cache, BlockPos { x: 1, y: 1, z: 1 }));
}

#[test]
fn collision_checks_every_corner() {
    let cache = cache_with(ChunkKey { x: 0, y: 0, z: 0 }, &[((4, 4, 4), 1), ((6, 6, 6), 7)]);
    let free = [BlockPos { x: 0, y: 0, z: 0 }, BlockPos { x: 1, y: 1, z: 1 }];
    let hit = [BlockPos { x: 0, y: 0, z: 0 }, BlockPos { x: 4, y: 4, z: 4 }];
    let water = [BlockPos { x: 6, y: 6, z: 6 }];
    assert!(!check_collision(&cache, &free));
    assert!(check_collision(&cache, &hit));
    assert!(!check_collision(&cache, &water));
    assert!(collides_with_world(&cache, &water));
    assert!(!collides_with_world(&cache, &free));
    assert!(!check_collision(&cache, &[]));
}

#[test]
fn movement_from_keys() {
    assert_eq!(movement_axes(InputFlags::empty()), (0, 0));
    assert_eq!(movement_axes(InputFlags::forward()), (0, -1));
    assert_eq!(movement_axes(InputFlags::backward().union(InputFlags::right())), (1, 1));
    assert_eq!(movement_axes(InputFlags::left().union(InputFlags::right())), (0, 0));
    assert_eq!(movement_axes(InputFlags::from_keys(true, true, true, false, true)), (-1, 0));
}
