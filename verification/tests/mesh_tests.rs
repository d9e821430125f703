use voxel_core::chunk::{chunk_index, CHUNK_VOLUME};
use voxel_core::mesh::generate_chunk_mesh;

#[test]
fn empty_chunk_has_no_geometry() {
    let data = vec![0u8; CHUNK_VOLUME];
    let mesh = generate_chunk_mesh(&data);
    assert!(mesh.positions.is_empty());
    assert!(mesh.normals.is_empty());
    assert!(mesh.indices.is_empty());
}

#[test]
fn single_block_has_six_faces() {
    let mut data = vec![0u8; CHUNK_VOLUME];
    data[chunk_index(0, 0, 0)] = 1;
    let mesh = generate_chunk_mesh(&data);
    assert_eq!(mesh.positions.len(), 24);
    assert_eq!(mesh.normals.len(), 24);
    assert_eq!(mesh.indices.len(), 36);
    assert_eq!(&mesh.positions[0..4], &[(0, 1, 0), (1, 1, 0), (1, 1, 1), (0, 1, 1)]);
    assert_eq!(&mesh.positions[4..8], &[(0, 0, 1), (1, 0, 1), (1, 0, 0), (0, 0, 0)]);
    assert_eq!(&mesh.positions[8..12], &[(1, 0, 0), (1, 0, 1), (1, 1, 1), (1, 1, 0)]);
    assert_eq!(&mesh.positions[12..16], &[(0, 0, 1), (0, 0, 0), (0, 1, 0), (0, 1, 1)]);
    assert_eq!(&mesh.positions[16..20], &[(1, 0, 1), (0, 0, 1), (0, 1, 1), (1, 1, 1)]);
    assert_eq!(&mesh.positions[20..24], &[(0, 0, 0), (1, 0, 0), (1, 1, 0), (0, 1, 0)]);
    let normals: Vec<(i8, i8, i8)> = (0..6).map(|k| mesh.normals[4 * k]).collect();
    assert_eq!(normals, vec![(0, 1, 0), (0, -1, 0), (1, 0, 0), (-1, 0, 0), (0, 0, 1), (0, 0, -1)]);
    assert_eq!(&mesh.indices[0..12], &[0, 1, 2, 0, 2, 3, 4, 5, 6, 4, 6, 7]);
    assert_eq!(&mesh.indices[30..36], &[20, 21, 22, 20, 22, 23]);
}

#[test]
fn shared_faces_are_hidden() {
    let mut data = vec![0u8; CHUNK_VOLUME];
    data[chunk_index(0, 0, 0)] = 1;
    data[chunk_index(1, 0, 0)] = 3;
    let mesh = generate_chunk_mesh(&data);
    assert_eq!(mesh.positions.len(), 40);
    assert_eq!(mesh.indices.len(), 60);
}

#[test]
fn full_chunk_only_shows_its_surface() {
    let data = vec![1u8; CHUNK_VOLUME];
    let mesh = generate_chunk_mesh(&data);
    assert_eq!(mesh.positions.len(), 4 * 6 * 256);
    assert_eq!(mesh.indices.len(), 6 * 6 * 256);
    assert_eq!(*mesh.indices.last().unwrap(), (4 * 6 * 256 - 1) as u32);
}
