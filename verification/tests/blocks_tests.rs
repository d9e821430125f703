use voxel_core::blocks::{
    block_definitions, blocks, get_block_by_id, get_block_by_key, is_solid, solid_map, BlockKey,
    BLOCK_COUNT,
};

#[test]
fn block_by_id_known_and_unknown() {
    let air = get_block_by_id(0).unwrap();
    assert_eq!(air.key, BlockKey::Air);
    assert_eq!(air.name, "Air");
    assert_eq!(air.color, None);
    assert!(!air.solid && air.transparent && !air.opaque && !air.breakable);
    assert_eq!(air.alpha_percent, 0);
    let water = get_block_by_id(7).unwrap();
    assert_eq!(water.key, BlockKey::Water);
    assert_eq!(water.color, Some(0x40a4df));
    assert_eq!(water.alpha_percent, 60);
    assert!(!water.solid);
    let marble = get_block_by_id(27).unwrap();
    assert_eq!(marble.name, "Marble");
    assert!(get_block_by_id(28).is_none());
    assert!(get_block_by_id(u32::MAX).is_none());
}

#[test]
fn block_by_key() {
    let bedrock = get_block_by_key(BlockKey::Bedrock).unwrap();
    assert_eq!(bedrock.id, 23);
    assert!(!bedrock.breakable && bedrock.solid);
    let schematic = get_block_by_key(BlockKey::SchematicBlock).unwrap();
    assert!(schematic.is_entity);
    assert_eq!(schematic.name, "Schematic Block");
    let glass = get_block_by_key(BlockKey::Glass).unwrap();
    assert_eq!((glass.id, glass.alpha_percent, glass.transparent, glass.solid), (10, 30, true, true));
}

#[test]
fn ids_and_keys_correspond() {
    let defs = block_definitions();
    assert_eq!(defs.len() as u32, BLOCK_COUNT);
    for (i, d) in defs.iter().enumerate() {
        assert_eq!(d.id as usize, i);
        assert_eq!(get_block_by_key(d.key).unwrap().id, d.id);
        assert_eq!(get_block_by_id(d.id).unwrap().key, d.key);
    }
    let pairs = blocks();
    assert_eq!(pairs[0], (BlockKey::Air, 0));
    assert_eq!(pairs[27], (BlockKey::Marble, 27));
}

#[test]
fn solidity() {
    assert!(!is_solid(0));
    assert!(is_solid(1));
    assert!(!is_solid(7));
    assert!(is_solid(10));
    assert!(is_solid(23));
    assert!(!is_solid(28));
    assert!(!is_solid(1000));
    let m = solid_map();
    assert_eq!(m.len(), 28);
    assert_eq!(m.get(&14), Some(&true));
    assert_eq!(m.get(&7), Some(&false));
}
