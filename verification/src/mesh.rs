use vstd::prelude::*;
use crate::chunk::{
    chunk_index, chunk_index_spec, is_air, is_air_spec, in_local_bounds, CHUNK_VOLUME,
};

verus! {

/// The six sides of a block, in the order in which meshing visits them.
#[derive(Debug, Clone, Copy, PartialEq, Eq, Structural)]
pub enum FaceDir {
    /// Towards `+y`.
    Up,
    /// Towards `-y`.
    Down,
    /// Towards `+x`.
    East,
    /// Towards `-x`.
    West,
    /// Towards `+z`.
    South,
    /// Towards `-z`.
    North,
}

/// One visible side of a block at local coordinates `(x, y, z)`.
#[derive(Debug, Clone, Copy, PartialEq, Eq, Structural)]
pub struct Face {
    pub x: u8,
    pub y: u8,
    pub z: u8,
    pub dir: FaceDir,
}

/// Triangle-list geometry of a chunk in local block units. Every visible face
/// contributes four corners (with one normal each) and two triangles.
pub struct ChunkMesh {
    pub positions: Vec<(u8, u8, u8)>,
    pub normals: Vec<(i8, i8, i8)>,
    pub indices: Vec<u32>,
}

/// The neighbouring block position across side `d` of block `(x, y, z)`.
pub open spec fn neighbor(x: int, y: int, z: int, d: FaceDir) -> (int, int, int) {
    match d {
        FaceDir::Up => (x, y + 1, z),
        FaceDir::Down => (x, y - 1, z),
        FaceDir::East => (x + 1, y, z),
        FaceDir::West => (x - 1, y, z),
        FaceDir::South => (x, y, z + 1),
        FaceDir::North => (x, y, z - 1),
    }
}

/// A side of a block is visible when the block across it is air.
pub open spec fn face_visible(data: Seq<u8>, x: int, y: int, z: int, d: FaceDir) -> bool {
    let n = neighbor(x, y, z, d);
    is_air_spec(data, n.0, n.1, n.2)
}

/// The unit normal of side `d`.
pub open spec fn face_normal(d: FaceDir) -> (i8, i8, i8) {
    match d {
        FaceDir::Up => (0i8, 1i8, 0i8),
        FaceDir::Down => (0i8, -1i8, 0i8),
        FaceDir::East => (1i8, 0i8, 0i8),
        FaceDir::West => (-1i8, 0i8, 0i8),
        FaceDir::South => (0i8, 0i8, 1i8),
        FaceDir::North => (0i8, 0i8, -1i8),
    }
}

/// The `j`-th corner (`0 <= j < 4`) of a face, clockwise seen from outside
/// the block.
pub open spec fn face_corner(f: Face, j: int) -> (u8, u8, u8) {
    let x = f.x as int;
    let y = f.y as int;
    let z = f.z as int;
    let c: (int, int, int) = match f.dir {
        FaceDir::Up => if j == 0 {
            (x, y + 1, z)
        } else if j == 1 {
            (x + 1, y + 1, z)
        } else if j == 2 {
            (x + 1, y + 1, z + 1)
        } else {
            (x, y + 1, z + 1)
        },
        FaceDir::Down => if j == 0 {
            (x, y, z + 1)
        } else if j == 1 {
            (x + 1, y, z + 1)
        } else if j == 2 {
            (x + 1, y, z)
        } else {
            (x, y, z)
        },
        FaceDir::East => if j == 0 {
            (x + 1, y, z)
        } else if j == 1 {
            (x + 1, y, z + 1)
        } else if j == 2 {
            (x + 1, y + 1, z + 1)
        } else {
            (x + 1, y + 1, z)
        },
        FaceDir::West => if j == 0 {
            (x, y, z + 1)
        } else if j == 1 {
            (x, y, z)
        } else if j == 2 {
            (x, y + 1, z)
        } else {
            (x, y + 1, z + 1)
        },
        FaceDir::South => if j == 0 {
            (x + 1, y, z + 1)
        } else if j == 1 {
            (x, y, z + 1)
        } else if j == 2 {
            (x, y + 1, z + 1)
        } else {
            (x + 1, y + 1, z + 1)
        },
        FaceDir::North => if j == 0 {
            (x, y, z)
        } else if j == 1 {
            (x + 1, y, z)
        } else if j == 2 {
            (x + 1, y + 1, z)
        } else {
            (x, y + 1, z)
        },
    };
    (c.0 as u8, c.1 as u8, c.2 as u8)
}

/// Offset, within a face's four corners, of the `j`-th index of its two
/// triangles `(0, 1, 2)` and `(0, 2, 3)`.
pub open spec fn quad_index(j: int) -> int {
    if j == 0 {
        0
    } else if j == 1 {
        1
    } else if j == 2 {
        2
    } else if j == 3 {
        0
    } else if j == 4 {
        2
    } else {
        3
    }
}

/// Local coordinates of the `i`-th block in meshing order (`z` fastest,
/// then `y`, then `x`).
pub open spec fn cell_x(i: int) -> int {
    i / 256
}

pub open spec fn cell_y(i: int) -> int {
    (i / 16) % 16
}

pub open spec fn cell_z(i: int) -> int {
    i % 16
}

/// The face on side `d` of block `(x, y, z)` if it is visible, else nothing.
pub open spec fn opt_face(data: Seq<u8>, x: int, y: int, z: int, d: FaceDir) -> Seq<Face> {
    if face_visible(data, x, y, z, d) {
        seq![Face { x: x as u8, y: y as u8, z: z as u8, dir: d }]
    } else {
        Seq::empty()
    }
}

/// The visible faces of the `i`-th block in meshing order: none for air,
/// else its visible sides in the order up, down, east, west, south, north.
pub open spec fn cell_faces(data: Seq<u8>, i: int) -> Seq<Face> {
    let x = cell_x(i);
    let y = cell_y(i);
    let z = cell_z(i);
    if data[chunk_index_spec(x, y, z)] == 0 {
        Seq::empty()
    } else {
        opt_face(data, x, y, z, FaceDir::Up) + opt_face(data, x, y, z, FaceDir::Down) + opt_face(
            data,
            x,
            y,
            z,
            FaceDir::East,
        ) + opt_face(data, x, y, z, FaceDir::West) + opt_face(data, x, y, z, FaceDir::South)
            + opt_face(data, x, y, z, FaceDir::North)
    }
}

/// The visible faces of the first `n` blocks in meshing order.
pub open spec fn faces_upto(data: Seq<u8>, n: nat) -> Seq<Face>
    decreases n,
{
    if n == 0 {
        Seq::empty()
    } else {
        faces_upto(data, (n - 1) as nat) + cell_faces(data, n - 1)
    }
}

/// All visible faces of a chunk, in meshing order.
pub open spec fn chunk_faces(data: Seq<u8>) -> Seq<Face> {
    faces_upto(data, 4096)
}

/// The mesh holds exactly the geometry of `faces`, one quad per face.
#[verifier::opaque]
pub open spec fn mesh_of(m: ChunkMesh, faces: Seq<Face>) -> bool {
    &&& m.positions@.len() == 4 * faces.len()
    &&& m.normals@.len() == 4 * faces.len()
    &&& m.indices@.len() == 6 * faces.len()
    &&& forall|k: int, j: int|
        #![trigger m.positions@[4 * k + j]]
        0 <= k < faces.len() && 0 <= j < 4 ==> m.positions@[4 * k + j] == face_corner(faces[k], j)
    &&& forall|k: int, j: int|
        #![trigger m.normals@[4 * k + j]]
        0 <= k < faces.len() && 0 <= j < 4 ==> m.normals@[4 * k + j] == face_normal(faces[k].dir)
    &&& forall|k: int, j: int|
        #![trigger m.indices@[6 * k + j]]
        0 <= k < faces.len() && 0 <= j < 6 ==> m.indices@[6 * k + j] == 4 * k + quad_index(j)
}

/// Each block has at most six visible faces.
proof fn lemma_faces_upto_len(data: Seq<u8>, n: nat)
    ensures
        faces_upto(data, n).len() <= 6 * n,
    decreases n,
{
    if n > 0 {
        lemma_faces_upto_len(data, (n - 1) as nat);
    }
}

fn push_face(mesh: &mut ChunkMesh, face: Face, Ghost(faces): Ghost<Seq<Face>>)
    requires
        mesh_of(*old(mesh), faces),
        faces.len() < 30000,
        face.x < 16,
        face.y < 16,
        face.z < 16,
    ensures
        mesh_of(*final(mesh), faces.push(face)),
{
    reveal(mesh_of);
    let x = face.x;
    let y = face.y;
    let z = face.z;
    let ghost n = faces.len();
    let ghost nf = faces.push(face);
    let base: u32 = mesh.positions.len() as u32;
    let ghost op = mesh.positions@;
    let ghost on = mesh.normals@;
    let ghost oi = mesh.indices@;
    match face.dir {
        FaceDir::Up => {
            mesh.positions.push((x, y + 1, z));
            mesh.positions.push((x + 1, y + 1, z));
            mesh.positions.push((x + 1, y + 1, z + 1));
            mesh.positions.push((x, y + 1, z + 1));
        },
        FaceDir::Down => {
            mesh.positions.push((x, y, z + 1));
            mesh.positions.push((x + 1, y, z + 1));
            mesh.positions.push((x + 1, y, z));
            mesh.positions.push((x, y, z));
        },
        FaceDir::East => {
            mesh.positions.push((x + 1, y, z));
            mesh.positions.push((x + 1, y, z + 1));
            mesh.positions.push((x + 1, y + 1, z + 1));
            mesh.positions.push((x + 1, y + 1, z));
        },
        FaceDir::West => {
            mesh.positions.push((x, y, z + 1));
            mesh.positions.push((x, y, z));
            mesh.positions.push((x, y + 1, z));
            mesh.positions.push((x, y + 1, z + 1));
        },
        FaceDir::South => {
            mesh.positions.push((x + 1, y, z + 1));
            mesh.positions.push((x, y, z + 1));
            mesh.positions.push((x, y + 1, z + 1));
            mesh.positions.push((x + 1, y + 1, z + 1));
        },
        FaceDir::North => {
            mesh.positions.push((x, y, z));
            mesh.positions.push((x + 1, y, z));
            mesh.positions.push((x + 1, y + 1, z));
            mesh.positions.push((x, y + 1, z));
        },
    }
    let normal: (i8, i8, i8) = match face.dir {
        FaceDir::Up => (0, 1, 0),
        FaceDir::Down => (0, -1, 0),
        FaceDir::East => (1, 0, 0),
        FaceDir::West => (-1, 0, 0),
        FaceDir::South => (0, 0, 1),
        FaceDir::North => (0, 0, -1),
    };
    mesh.normals.push(normal);
    mesh.normals.push(normal);
    mesh.normals.push(normal);
    mesh.normals.push(normal);
    mesh.indices.push(base);
    mesh.indices.push(base + 1);
    mesh.indices.push(base + 2);
    mesh.indices.push(base);
    mesh.indices.push(base + 2);
    mesh.indices.push(base + 3);
    assert forall|k: int, j: int|
        #![trigger mesh.positions@[4 * k + j]]
        0 <= k < nf.len() && 0 <= j < 4 implies mesh.positions@[4 * k + j] == face_corner(
        nf[k],
        j,
    ) by {
        if k < n {
            assert(mesh.positions@[4 * k + j] == op[4 * k + j]);
        }
    }
    assert forall|k: int, j: int|
        #![trigger mesh.normals@[4 * k + j]]
        0 <= k < nf.len() && 0 <= j < 4 implies mesh.normals@[4 * k + j] == face_normal(
        nf[k].dir,
    ) by {
        if k < n {
            assert(mesh.normals@[4 * k + j] == on[4 * k + j]);
        }
    }
    assert forall|k: int, j: int|
        #![trigger mesh.indices@[6 * k + j]]
        0 <= k < nf.len() && 0 <= j < 6 implies mesh.indices@[6 * k + j] == 4 * k + quad_index(
        j,
    ) by {
        if k < n {
            assert(mesh.indices@[6 * k + j] == oi[6 * k + j]);
        }
    }
}

/// Adds the face on side `d` of block `(x, y, z)` if it is visible.
fn mesh_side(
    data: &[u8],
    mesh: &mut ChunkMesh,
    x: usize,
    y: usize,
    z: usize,
    d: FaceDir,
    Ghost(faces): Ghost<Seq<Face>>,
)
    requires
        data@.len() >= CHUNK_VOLUME,
        x < 16,
        y < 16,
        z < 16,
        faces.len() < 29990,
        mesh_of(*old(mesh), faces),
    ensures
        mesh_of(*final(mesh), faces + opt_face(data@, x as int, y as int, z as int, d)),
{
    let xs = x as isize;
    let ys = y as isize;
    let zs = z as isize;
    let visible = match d {
        FaceDir::Up => is_air(data, xs, ys + 1, zs),
        FaceDir::Down => is_air(data, xs, ys - 1, zs),
        FaceDir::East => is_air(data, xs + 1, ys, zs),
        FaceDir::West => is_air(data, xs - 1, ys, zs),
        FaceDir::South => is_air(data, xs, ys, zs + 1),
        FaceDir::North => is_air(data, xs, ys, zs - 1),
    };
    let face = Face { x: x as u8, y: y as u8, z: z as u8, dir: d };
    if visible {
        push_face(mesh, face, Ghost(faces));
        assert(faces.push(face) =~= faces + opt_face(data@, x as int, y as int, z as int, d));
    } else {
        assert(faces =~= faces + opt_face(data@, x as int, y as int, z as int, d));
    }
}

/// Local coordinates of the `i`-th block in meshing order.
fn cell_of(i: usize) -> (c: (usize, usize, usize))
    requires
        i < CHUNK_VOLUME,
    ensures
        c.0 < 16 && c.1 < 16 && c.2 < 16,
        c.0 as int == cell_x(i as int),
        c.1 as int == cell_y(i as int),
        c.2 as int == cell_z(i as int),
{
    let x = i / 256;
    let y = (i / 16) % 16;
    let z = i % 16;
    assert(x < 16 && y < 16 && z < 16) by (nonlinear_arith)
        requires
            i < 4096,
            x == i / 256,
            y == (i / 16) % 16,
            z == i % 16,
    ;
    (x, y, z)
}

/// Adds the visible faces of the `i`-th block in meshing order.
#[verifier::rlimit(40)]
fn mesh_cell(data: &[u8], mesh: &mut ChunkMesh, i: usize, Ghost(faces): Ghost<Seq<Face>>)
    requires
        data@.len() >= CHUNK_VOLUME,
        i < CHUNK_VOLUME,
        faces == faces_upto(data@, i as nat),
        mesh_of(*old(mesh), faces),
    ensures
        mesh_of(*final(mesh), faces_upto(data@, (i + 1) as nat)),
{
    proof {
        lemma_faces_upto_len(data@, i as nat);
    }
    let (x, y, z) = cell_of(i);
    let ghost s = data@;
    let ghost xi = x as int;
    let ghost yi = y as int;
    let ghost zi = z as int;
    assert(faces_upto(s, (i + 1) as nat) == faces + cell_faces(s, i as int));
    if data[chunk_index(x, y, z)] == 0 {
        assert(faces + cell_faces(s, i as int) =~= faces);
        return;
    }
    let ghost o0 = opt_face(s, xi, yi, zi, FaceDir::Up);
    let ghost o1 = opt_face(s, xi, yi, zi, FaceDir::Down);
    let ghost o2 = opt_face(s, xi, yi, zi, FaceDir::East);
    let ghost o3 = opt_face(s, xi, yi, zi, FaceDir::West);
    let ghost o4 = opt_face(s, xi, yi, zi, FaceDir::South);
    let ghost o5 = opt_face(s, xi, yi, zi, FaceDir::North);
    mesh_side(data, mesh, x, y, z, FaceDir::Up, Ghost(faces));
    mesh_side(data, mesh, x, y, z, FaceDir::Down, Ghost(faces + o0));
    mesh_side(data, mesh, x, y, z, FaceDir::East, Ghost(faces + o0 + o1));
    mesh_side(data, mesh, x, y, z, FaceDir::West, Ghost(faces + o0 + o1 + o2));
    mesh_side(data, mesh, x, y, z, FaceDir::South, Ghost(faces + o0 + o1 + o2 + o3));
    mesh_side(data, mesh, x, y, z, FaceDir::North, Ghost(faces + o0 + o1 + o2 + o3 + o4));
    assert(faces + o0 + o1 + o2 + o3 + o4 + o5 =~= faces + cell_faces(s, i as int));
}

/// Builds the mesh of a chunk: for every non-air block, in meshing order,
/// one quad for each side that faces air (or the chunk's edge).
pub fn generate_chunk_mesh(data: &[u8]) -> (mesh: ChunkMesh)
    requires
        data@.len() >= CHUNK_VOLUME,
    ensures
        mesh_of(mesh, chunk_faces(data@)),
{
    let mut mesh = ChunkMesh { positions: Vec::new(), normals: Vec::new(), indices: Vec::new() };
    proof {
        reveal(mesh_of);
    }
    let mut i: usize = 0;
    while i < CHUNK_VOLUME
        invariant
            i <= CHUNK_VOLUME,
            data@.len() >= CHUNK_VOLUME,
            mesh_of(mesh, faces_upto(data@, i as nat)),
        decreases CHUNK_VOLUME - i,
    {
        mesh_cell(data, &mut mesh, i, Ghost(faces_upto(data@, i as nat)));
        i = i + 1;
    }
    mesh
}

/// The face `f` belongs to a block of the chunk that is not air, and the
/// block across it is air.
pub open spec fn face_present(data: Seq<u8>, f: Face) -> bool {
    &&& in_local_bounds(f.x as int, f.y as int, f.z as int)
    &&& data[chunk_index_spec(f.x as int, f.y as int, f.z as int)] != 0
    &&& face_visible(data, f.x as int, f.y as int, f.z as int, f.dir)
}

proof fn lemma_concat_contains(a: Seq<Face>, b: Seq<Face>, f: Face)
    ensures
        (a + b).contains(f) <==> (a.contains(f) || b.contains(f)),
{
    let c = a + b;
    if c.contains(f) {
        let i = choose|i: int| 0 <= i < c.len() && c[i] == f;
        if i < a.len() {
            assert(a[i] == f);
        } else {
            assert(b[i - a.len()] == f);
        }
    }
    if a.contains(f) {
        let i = choose|i: int| 0 <= i < a.len() && a[i] == f;
        assert(c[i] == f);
    }
    if b.contains(f) {
        let i = choose|i: int| 0 <= i < b.len() && b[i] == f;
        assert(c[a.len() + i] == f);
    }
}

proof fn lemma_cell_coords(i: int)
    requires
        0 <= i < 4096,
    ensures
        in_local_bounds(cell_x(i), cell_y(i), cell_z(i)),
        cell_x(i) * 256 + cell_y(i) * 16 + cell_z(i) == i,
{
    assert(in_local_bounds(cell_x(i), cell_y(i), cell_z(i)) && cell_x(i) * 256 + cell_y(i) * 16
        + cell_z(i) == i) by (nonlinear_arith)
        requires
            0 <= i < 4096,
    ;
}

proof fn lemma_cell_faces_contains(data: Seq<u8>, i: int, f: Face)
    requires
        data.len() >= 4096,
        0 <= i < 4096,
    ensures
        cell_faces(data, i).contains(f) <==> (face_present(data, f) && f.x * 256 + f.y * 16 + f.z
            == i),
{
    lemma_cell_coords(i);
    let x = cell_x(i);
    let y = cell_y(i);
    let z = cell_z(i);
    let here = f.x as int == x && f.y as int == y && f.z as int == z;
    assert forall|d: FaceDir| #[trigger] opt_face(data, x, y, z, d).contains(f) <==> (here && f.dir
        == d && face_visible(data, x, y, z, d)) by {
        let o = opt_face(data, x, y, z, d);
        if o.contains(f) {
            assert(o[0] == f);
        }
        if here && f.dir == d && face_visible(data, x, y, z, d) {
            assert(o[0] == f);
        }
    }
    if data[chunk_index_spec(x, y, z)] != 0 {
        let o0 = opt_face(data, x, y, z, FaceDir::Up);
        let o1 = opt_face(data, x, y, z, FaceDir::Down);
        let o2 = opt_face(data, x, y, z, FaceDir::East);
        let o3 = opt_face(data, x, y, z, FaceDir::West);
        let o4 = opt_face(data, x, y, z, FaceDir::South);
        let o5 = opt_face(data, x, y, z, FaceDir::North);
        lemma_concat_contains(o0, o1, f);
        lemma_concat_contains(o0 + o1, o2, f);
        lemma_concat_contains(o0 + o1 + o2, o3, f);
        lemma_concat_contains(o0 + o1 + o2 + o3, o4, f);
        lemma_concat_contains(o0 + o1 + o2 + o3 + o4, o5, f);
    }
    if f.x * 256 + f.y * 16 + f.z == i && in_local_bounds(f.x as int, f.y as int, f.z as int) {
        assert(here) by (nonlinear_arith)
            requires
                f.x * 256 + f.y * 16 + f.z == i,
                x * 256 + y * 16 + z == i,
                in_local_bounds(f.x as int, f.y as int, f.z as int),
                in_local_bounds(x, y, z),
                here == (f.x as int == x && f.y as int == y && f.z as int == z),
        ;
    }
}

proof fn lemma_faces_upto_contains(data: Seq<u8>, n: nat, f: Face)
    requires
        data.len() >= 4096,
        n <= 4096,
    ensures
        faces_upto(data, n).contains(f) <==> (face_present(data, f) && f.x * 256 + f.y * 16 + f.z
            < n),
    decreases n,
{
    if n > 0 {
        lemma_faces_upto_contains(data, (n - 1) as nat, f);
        lemma_concat_contains(faces_upto(data, (n - 1) as nat), cell_faces(data, n - 1), f);
        lemma_cell_faces_contains(data, n - 1, f);
    }
}

/// The chunk mesh has a face exactly for each side of a non-air block that
/// faces air or the chunk's edge.
pub proof fn lemma_mesh_faces(data: Seq<u8>, f: Face)
    requires
        data.len() >= CHUNK_VOLUME,
    ensures
        chunk_faces(data).contains(f) <==> face_present(data, f),
{
    lemma_faces_upto_contains(data, 4096, f);
    if in_local_bounds(f.x as int, f.y as int, f.z as int) {
        assert(f.x * 256 + f.y * 16 + f.z < 4096) by (nonlinear_arith)
            requires
                in_local_bounds(f.x as int, f.y as int, f.z as int),
        ;
    }
}

/// The six sides point along the six unit axis directions, one each.
pub proof fn lemma_face_normals(d: FaceDir, e: FaceDir)
    ensures
        ({
            let n = face_normal(d);
            &&& -1 <= n.0 <= 1 && -1 <= n.1 <= 1 && -1 <= n.2 <= 1
            &&& (n.0 != 0) as int + (n.1 != 0) as int + (n.2 != 0) as int == 1
        }),
        d != e ==> face_normal(d) != face_normal(e),
{
}

/// A side of a non-air block is in the chunk's mesh exactly when the block
/// one step along that side's normal is air or lies outside the chunk.
pub proof fn lemma_face_toward_normal(data: Seq<u8>, x: u8, y: u8, z: u8, d: FaceDir)
    requires
        data.len() >= CHUNK_VOLUME,
        in_local_bounds(x as int, y as int, z as int),
        data[chunk_index_spec(x as int, y as int, z as int)] != 0,
    ensures
        chunk_faces(data).contains(Face { x, y, z, dir: d }) <==> is_air_spec(
            data,
            x + face_normal(d).0,
            y + face_normal(d).1,
            z + face_normal(d).2,
        ),
{
    lemma_mesh_faces(data, Face { x, y, z, dir: d });
}

/// Every quad of a face lies on the side of its block that the face's
/// normal points through: its corners are corners of the block, and along
/// the normal's axis they sit on the block's far side when the normal is
/// positive and on its near side when it is negative. So the quad is the
/// wall shared with the block across that side.
pub proof fn lemma_face_quad_on_its_side(f: Face, j: int)
    requires
        f.x < 16 && f.y < 16 && f.z < 16,
        0 <= j < 4,
    ensures
        ({
            let c = face_corner(f, j);
            let n = face_normal(f.dir);
            &&& f.x <= c.0 <= f.x + 1 && f.y <= c.1 <= f.y + 1 && f.z <= c.2 <= f.z + 1
            &&& n.0 == 1 ==> c.0 == f.x + 1
            &&& n.0 == -1 ==> c.0 == f.x
            &&& n.1 == 1 ==> c.1 == f.y + 1
            &&& n.1 == -1 ==> c.1 == f.y
            &&& n.2 == 1 ==> c.2 == f.z + 1
            &&& n.2 == -1 ==> c.2 == f.z
        }),
{
}

} // verus!
