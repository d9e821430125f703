use voxel_core::protocol::{ClientMessage, InputFlags, PORT, PROTOCOL_ID, TICK_RATE};
use voxel_core::chunk::ChunkKey;

#[test]
fn flag_bits() {
    assert_eq!(InputFlags::forward().bits(), 1);
    assert_eq!(InputFlags::backward().bits(), 2);
    assert_eq!(InputFlags::left().bits(), 4);
    assert_eq!(InputFlags::right().bits(), 8);
    assert_eq!(InputFlags::jump().bits(), 16);
    assert_eq!(InputFlags::from_bits_truncate(0xff).bits(), 0x1f);
    assert_eq!(InputFlags::from_bits(0x20), None);
    assert_eq!(InputFlags::from_bits(0x05).map(|f| f.bits()), Some(5));
    assert!(InputFlags::empty().is_empty());
}

#[test]
fn insert_contains_remove() {
    let mut f = InputFlags::empty();
    f.insert(InputFlags::forward());
    f.insert(InputFlags::left());
    assert!(f.contains(InputFlags::forward()));
    assert!(f.contains(InputFlags::forward().union(InputFlags::left())));
    assert!(!f.contains(InputFlags::right()));
    f.remove(InputFlags::forward());
    assert!(!f.contains(InputFlags::forward()));
    assert!(f.contains(InputFlags::left()));
    assert!(f.contains(InputFlags::empty()));
}

#[test]
fn from_keys_sets_exactly_the_held_keys() {
    let f = InputFlags::from_keys(true, false, false, true, false);
    assert_eq!(f.bits(), 0b1001);
    assert_eq!(InputFlags::from_keys(false, false, false, false, false), InputFlags::empty());
}

#[test]
fn constants_and_messages() {
    assert_eq!(PROTOCOL_ID, 1001);
    assert_eq!(PORT, 5000);
    assert_eq!(TICK_RATE, 60);
    let m = ClientMessage::RequestChunk { key: ChunkKey { x: 1, y: 2, z: 3 } };
    assert_eq!(m, ClientMessage::RequestChunk { key: ChunkKey { x: 1, y: 2, z: 3 } });
}

#[test]
fn default_flags_are_empty() {
    assert!(InputFlags::default().is_empty());
    assert_eq!(InputFlags::default(), InputFlags::empty());
}
