use voxel_core::chunk::{
    chunk_coord, chunk_index, generate_chunk_data, is_air, BlockPos, ChunkKey, CHUNK_VOLUME,
};

fn key(x: i32, y: i32, z: i32) -> ChunkKey {
    ChunkKey { x, y, z }
}

fn pos(x: i32, y: i32, z: i32) -> BlockPos {
    BlockPos { x, y, z }
}

#[test]
fn from_world_pos_rounds_down() {
    assert_eq!(ChunkKey::from_world_pos(pos(0, 0, 0)), key(0, 0, 0));
    assert_eq!(ChunkKey::from_world_pos(pos(15, 16, -1)), key(0, 1, -1));
    assert_eq!(ChunkKey::from_world_pos(pos(-16, -17, 31)), key(-1, -2, 1));
    assert_eq!(ChunkKey::from_world_pos(pos(i32::MIN, i32::MAX, -32)), key(-134217728, 134217727, -2));
}

#[test]
fn chunk_coord_edges() {
    assert_eq!(chunk_coord(-1), -1);
    assert_eq!(chunk_coord(-15), -1);
    assert_eq!(chunk_coord(-16), -1);
    assert_eq!(chunk_coord(-17), -2);
    assert_eq!(chunk_coord(16), 1);
}

#[test]
fn world_pos_is_sixteen_times_key() {
    assert_eq!(key(1, -2, 3).world_pos(), (16, -32, 48));
    assert_eq!(key(i32::MIN, 0, i32::MAX).world_pos(), (i32::MIN as i64 * 16, 0, i32::MAX as i64 * 16));
}

#[test]
fn block_lies_in_its_chunk() {
    for &(x, y, z) in &[(0, 0, 0), (-1, 17, 33), (-100, 5, -16), (i32::MIN, i32::MAX, 7)] {
        let k = ChunkKey::from_world_pos(pos(x, y, z));
        let (wx, wy, wz) = k.world_pos();
        assert!(wx <= x as i64 && (x as i64) < wx + 16);
        assert!(wy <= y as i64 && (y as i64) < wy + 16);
        assert!(wz <= z as i64 && (z as i64) < wz + 16);
    }
}

#[test]
fn chunk_index_layout() {
    assert_eq!(chunk_index(0, 0, 0), 0);
    assert_eq!(chunk_index(1, 2, 3), 801);
    assert_eq!(chunk_index(15, 15, 15), 4095);
    let mut seen = vec![false; CHUNK_VOLUME];
    for x in 0..16 {
        for y in 0..16 {
            for z in 0..16 {
                let i = chunk_index(x, y, z);
                assert!(!seen[i]);
                seen[i] = true;
            }
        }
    }
    assert!(seen.iter().all(|s| *s));
}

#[test]
fn is_air_outside_and_inside() {
    let mut data = vec![0u8; CHUNK_VOLUME];
    data[chunk_index(2, 3, 4)] = 5;
    assert!(is_air(&data, -1, 0, 0));
    assert!(is_air(&data, 0, 16, 0));
    assert!(is_air(&data, 0, 0, 0));
    assert!(!is_air(&data, 2, 3, 4));
    assert!(is_air(&[], 16, 0, 0));
}

#[test]
fn generated_chunk_follows_heights() {
    let heights = vec![3i32; 256];
    let data = generate_chunk_data(&heights);
    assert_eq!(data.len(), CHUNK_VOLUME);
    for x in 0..16 {
        for y in 0..16 {
            for z in 0..16 {
                let expected = if y < 3 { 1 } else { 0 };
                assert_eq!(data[x * 256 + y * 16 + z], expected);
            }
        }
    }
}

#[test]
fn generated_chunk_negative_height_fills_column() {
    let mut heights = vec![0i32; 256];
    heights[5 * 16 + 7] = -4;
    heights[1 * 16 + 2] = 20;
    let data = generate_chunk_data(&heights);
    for y in 0..16 {
        assert_eq!(data[5 * 256 + y * 16 + 7], 1);
        assert_eq!(data[1 * 256 + y * 16 + 2], 1);
        assert_eq!(data[0 * 256 + y * 16 + 0], 0);
    }
}

#[test]
fn generated_chunk_read_back_swaps_axes() {
    let mut heights = vec![0i32; 256];
    heights[0 * 16 + 1] = 5;
    let data = generate_chunk_data(&heights);
    // column (x = 0, z = 1) is ground; readers find it at local (1, y, 0)
    assert_eq!(data[chunk_index(1, 2, 0)], 1);
    assert_eq!(data[chunk_index(0, 2, 1)], 0);
}
