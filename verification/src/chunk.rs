use vstd::prelude::*;

verus! {

/// Edge length of a cubic chunk, in blocks.
pub const CHUNK_SIZE: usize = 16;

/// Number of blocks in one chunk.
pub const CHUNK_VOLUME: usize = 4096;

/// Number of block columns in one chunk (one height per column).
pub const CHUNK_COLUMNS: usize = 256;

/// Floor division of a world coordinate by the chunk size.
pub open spec fn floor_chunk(v: int) -> int {
    v / 16
}

/// Integer coordinate of a block in the world.
#[derive(Debug, Clone, Copy, PartialEq, Eq, Hash, Structural)]
pub struct BlockPos {
    pub x: i32,
    pub y: i32,
    pub z: i32,
}

/// Key identifying a chunk in space: the chunk coordinates, that is the
/// world coordinates of its blocks divided by the chunk size, rounded down.
#[derive(Debug, Clone, Copy, PartialEq, Eq, Hash, Structural)]
pub struct ChunkKey {
    pub x: i32,
    pub y: i32,
    pub z: i32,
}

/// The key of the chunk that holds the block at `pos`.
pub open spec fn chunk_of(pos: BlockPos) -> ChunkKey {
    ChunkKey {
        x: floor_chunk(pos.x as int) as i32,
        y: floor_chunk(pos.y as int) as i32,
        z: floor_chunk(pos.z as int) as i32,
    }
}

/// Whether a world coordinate lies in the chunk slab starting at `16 * c`.
pub open spec fn in_chunk_range(v: int, c: int) -> bool {
    16 * c <= v < 16 * c + 16
}

/// Floor division of a coordinate by the chunk size.
pub fn chunk_coord(v: i32) -> (r: i32)
    ensures
        r as int == floor_chunk(v as int),
        in_chunk_range(v as int, r as int),
{
    if v >= 0 {
        let r = v / 16;
        r
    } else {
        let m: i32 = -(v + 1);
        let q = m / 16;
        proof {
            assert((-(q as int) - 1) == (v as int) / 16 && in_chunk_range(v as int, -(q as int) - 1))
                by (nonlinear_arith)
                requires
                    m == -(v + 1),
                    m >= 0,
                    q == m / 16,
            ;
        }
        -q - 1
    }
}

/// Index of the local block `(x, y, z)` in a chunk's block array, as the
/// client reads chunks: `x` varies fastest, then `y`, then `z`.
pub open spec fn chunk_index_spec(x: int, y: int, z: int) -> int {
    x + y * 16 + z * 256
}

/// Index at which the server writes the local block `(x, y, z)` when it
/// generates a chunk: `z` varies fastest, then `y`, then `x`.
pub open spec fn generated_index_spec(x: int, y: int, z: int) -> int {
    x * 256 + y * 16 + z
}

/// Whether `(x, y, z)` are local coordinates inside one chunk.
pub open spec fn in_local_bounds(x: int, y: int, z: int) -> bool {
    &&& 0 <= x < 16
    &&& 0 <= y < 16
    &&& 0 <= z < 16
}

/// Index of the local block `(x, y, z)` in a chunk's block array.
pub fn chunk_index(x: usize, y: usize, z: usize) -> (idx: usize)
    requires
        x < CHUNK_SIZE,
        y < CHUNK_SIZE,
        z < CHUNK_SIZE,
    ensures
        idx as int == chunk_index_spec(x as int, y as int, z as int),
        idx < CHUNK_VOLUME,
{
    x + y * 16 + z * 256
}

/// Distinct local blocks have distinct indices, and every index below the
/// chunk volume belongs to exactly one local block.
pub proof fn lemma_chunk_index_bijective(x1: int, y1: int, z1: int, x2: int, y2: int, z2: int, i: int)
    requires
        in_local_bounds(x1, y1, z1),
        in_local_bounds(x2, y2, z2),
        0 <= i < 4096,
    ensures
        chunk_index_spec(x1, y1, z1) == chunk_index_spec(x2, y2, z2) ==> (x1 == x2 && y1 == y2
            && z1 == z2),
        0 <= chunk_index_spec(x1, y1, z1) < 4096,
        in_local_bounds(i % 16, (i / 16) % 16, i / 256),
        chunk_index_spec(i % 16, (i / 16) % 16, i / 256) == i,
{
    assert(chunk_index_spec(x1, y1, z1) == chunk_index_spec(x2, y2, z2) ==> (x1 == x2 && y1 == y2
        && z1 == z2)) by (nonlinear_arith)
        requires
            in_local_bounds(x1, y1, z1),
            in_local_bounds(x2, y2, z2),
    ;
    assert(0 <= chunk_index_spec(x1, y1, z1) < 4096) by (nonlinear_arith)
        requires
            in_local_bounds(x1, y1, z1),
    ;
    assert(in_local_bounds(i % 16, (i / 16) % 16, i / 256) && chunk_index_spec(
        i % 16,
        (i / 16) % 16,
        i / 256,
    ) == i) by (nonlinear_arith)
        requires
            0 <= i < 4096,
    ;
}

/// Saturating conversion of a mathematical integer to `i32`.
pub open spec fn clamp_i32(v: int) -> int {
    if v < i32::MIN {
        i32::MIN as int
    } else if v > i32::MAX {
        i32::MAX as int
    } else {
        v
    }
}

/// `v + d`, saturating at the bounds of `i32`.
pub fn add_clamped(v: i32, d: i32) -> (r: i32)
    ensures
        r as int == clamp_i32(v as int + d as int),
{
    let s: i64 = v as i64 + d as i64;
    if s < i32::MIN as i64 {
        i32::MIN
    } else if s > i32::MAX as i64 {
        i32::MAX
    } else {
        s as i32
    }
}

impl ChunkKey {
    /// The chunk that contains the block at the given world coordinate.
    pub fn from_world_pos(pos: BlockPos) -> (key: ChunkKey)
        ensures
            key == chunk_of(pos),
            in_chunk_range(pos.x as int, key.x as int),
            in_chunk_range(pos.y as int, key.y as int),
            in_chunk_range(pos.z as int, key.z as int),
    {
        ChunkKey { x: chunk_coord(pos.x), y: chunk_coord(pos.y), z: chunk_coord(pos.z) }
    }

    /// World coordinate of the chunk's first block (its corner with the
    /// smallest coordinates).
    pub fn world_pos(&self) -> (p: (i64, i64, i64))
        ensures
            p.0 == 16 * self.x,
            p.1 == 16 * self.y,
            p.2 == 16 * self.z,
    {
        (self.x as i64 * 16, self.y as i64 * 16, self.z as i64 * 16)
    }
}

/// Every block lies in the chunk that `from_world_pos` names for it, and
/// that chunk's `world_pos` is the corner of the slab that holds the block.
pub proof fn lemma_block_in_its_chunk(pos: BlockPos)
    ensures
        in_chunk_range(pos.x as int, chunk_of(pos).x as int),
        in_chunk_range(pos.y as int, chunk_of(pos).y as int),
        in_chunk_range(pos.z as int, chunk_of(pos).z as int),
        forall|c: int| in_chunk_range(pos.x as int, c) ==> c == chunk_of(pos).x,
{
    assert forall|v: int| #![trigger floor_chunk(v)] in_chunk_range(v, floor_chunk(v)) by {
        assert(in_chunk_range(v, floor_chunk(v))) by (nonlinear_arith);
    }
    assert(i32::MIN <= floor_chunk(pos.x as int) <= i32::MAX) by (nonlinear_arith)
        requires
            i32::MIN <= pos.x <= i32::MAX,
    ;
    assert(i32::MIN <= floor_chunk(pos.y as int) <= i32::MAX) by (nonlinear_arith)
        requires
            i32::MIN <= pos.y <= i32::MAX,
    ;
    assert(i32::MIN <= floor_chunk(pos.z as int) <= i32::MAX) by (nonlinear_arith)
        requires
            i32::MIN <= pos.z <= i32::MAX,
    ;
    assert forall|c: int| in_chunk_range(pos.x as int, c) implies c == chunk_of(pos).x by {
        let f = floor_chunk(pos.x as int);
        assert(in_chunk_range(pos.x as int, f));
    }
}

/// Whether the column with the given terrain height is filled at layer `y`:
/// every layer below the height is filled; a negative height, read as an
/// unsigned size, exceeds every layer.
pub open spec fn column_filled(height: i32, y: int) -> bool {
    height < 0 || y < height
}

/// Index of the column `(x, z)` in a chunk's height map.
pub open spec fn column_index_spec(x: int, z: int) -> int {
    x * 16 + z
}

/// Builds a chunk's blocks from the terrain height of each of its columns:
/// the block at local `(x, y, z)` is ground (`1`) where `y` lies below the
/// height of column `(x, z)` and air (`0`) elsewhere. Blocks are written with
/// `z` varying fastest, then `y`, then `x`.
pub fn generate_chunk_data(heights: &[i32]) -> (data: Vec<u8>)
    requires
        heights@.len() == CHUNK_COLUMNS,
    ensures
        data@.len() == CHUNK_VOLUME,
        forall|x: int, y: int, z: int|
            #![trigger data@[generated_index_spec(x, y, z)]]
            in_local_bounds(x, y, z) ==> data@[generated_index_spec(x, y, z)] == (if column_filled(
                heights@[column_index_spec(x, z)],
                y,
            ) {
                1u8
            } else {
                0u8
            }),
{
    let mut data: Vec<u8> = Vec::with_capacity(CHUNK_VOLUME);
    let mut x: usize = 0;
    while x < CHUNK_SIZE
        invariant
            x <= 16,
            heights@.len() == 256,
            data@.len() == x * 256,
            forall|a: int, b: int, c: int|
                #![trigger data@[generated_index_spec(a, b, c)]]
                in_local_bounds(a, b, c) && a < x ==> data@[generated_index_spec(a, b, c)] == (
                if column_filled(heights@[column_index_spec(a, c)], b) {
                    1u8
                } else {
                    0u8
                }),
        decreases 16 - x,
    {
        let mut y: usize = 0;
        while y < CHUNK_SIZE
            invariant
                x < 16,
                y <= 16,
                heights@.len() == 256,
                data@.len() == x * 256 + y * 16,
                forall|a: int, b: int, c: int|
                    #![trigger data@[generated_index_spec(a, b, c)]]
                    in_local_bounds(a, b, c) && (a < x || (a == x && b < y))
                        ==> data@[generated_index_spec(a, b, c)] == (if column_filled(
                        heights@[column_index_spec(a, c)],
                        b,
                    ) {
                        1u8
                    } else {
                        0u8
                    }),
            decreases 16 - y,
        {
            let mut z: usize = 0;
            while z < CHUNK_SIZE
                invariant
                    x < 16,
                    y < 16,
                    z <= 16,
                    heights@.len() == 256,
                    data@.len() == x * 256 + y * 16 + z,
                    forall|a: int, b: int, c: int|
                        #![trigger data@[generated_index_spec(a, b, c)]]
                        in_local_bounds(a, b, c) && (a < x || (a == x && b < y) || (a == x && b
                            == y && c < z)) ==> data@[generated_index_spec(a, b, c)] == (
                        if column_filled(heights@[column_index_spec(a, c)], b) {
                            1u8
                        } else {
                            0u8
                        }),
                decreases 16 - z,
            {
                let height = heights[x * 16 + z];
                let block: u8 = if height < 0 || (y as i32) < height {
                    1
                } else {
                    0
                };
                data.push(block);
                z = z + 1;
            }
            y = y + 1;
        }
        x = x + 1;
    }
    data
}

/// Whether the local block `(x, y, z)` counts as air for meshing: positions
/// outside the chunk are air, and so is every block whose id is `0`.
pub open spec fn is_air_spec(data: Seq<u8>, x: int, y: int, z: int) -> bool {
    if !in_local_bounds(x, y, z) {
        true
    } else {
        data[chunk_index_spec(x, y, z)] == 0
    }
}

/// Whether the local block `(x, y, z)` of a chunk is air; coordinates outside
/// the chunk count as air.
pub fn is_air(data: &[u8], x: isize, y: isize, z: isize) -> (r: bool)
    requires
        in_local_bounds(x as int, y as int, z as int) ==> chunk_index_spec(
            x as int,
            y as int,
            z as int,
        ) < data@.len(),
    ensures
        r == is_air_spec(data@, x as int, y as int, z as int),
{
    if x < 0 || y < 0 || z < 0 {
        return true;
    }
    let x = x as usize;
    let y = y as usize;
    let z = z as usize;
    if x >= CHUNK_SIZE || y >= CHUNK_SIZE || z >= CHUNK_SIZE {
        return true;
    }
    data[chunk_index(x, y, z)] == 0
}

/// What the client reads from a generated chunk. Generation writes block
/// `(x, y, z)` at `x * 256 + y * 16 + z`, while readers look block
/// `(x, y, z)` up at `x + y * 16 + z * 256`: so at local `(x, y, z)` a reader
/// finds the ground of column `(z, x)` (the two horizontal axes swap).
pub proof fn lemma_generated_chunk_as_read(heights: Seq<i32>, data: Seq<u8>, x: int, y: int, z: int)
    requires
        heights.len() == CHUNK_COLUMNS,
        data.len() == CHUNK_VOLUME,
        forall|a: int, b: int, c: int|
            #![trigger data[generated_index_spec(a, b, c)]]
            in_local_bounds(a, b, c) ==> data[generated_index_spec(a, b, c)] == (if column_filled(
                heights[column_index_spec(a, c)],
                b,
            ) {
                1u8
            } else {
                0u8
            }),
        in_local_bounds(x, y, z),
    ensures
        data[chunk_index_spec(x, y, z)] == (if column_filled(heights[column_index_spec(z, x)], y) {
            1u8
        } else {
            0u8
        }),
{
    assert(chunk_index_spec(x, y, z) == generated_index_spec(z, y, x));
}

/// The chunk key packed into one integer: `x`, `y` and `z` as 32-bit
/// patterns from the high bits down (the top 32 bits stay zero).
pub open spec fn packed(k: ChunkKey) -> u128 {
    ((k.x as u32 as u128) << 64u128) | ((k.y as u32 as u128) << 32u128) | (k.z as u32 as u128)
}

/// The chunk key that an integer below `2^96` packs.
pub open spec fn unpacked(u: u128) -> ChunkKey {
    ChunkKey {
        x: ((u >> 64u128) as u32) as i32,
        y: ((u >> 32u128) as u32) as i32,
        z: (u as u32) as i32,
    }
}

/// Packing is one to one, gives integers below `2^96`, and unpacking undoes
/// it; below `2^96` packing also undoes unpacking.
pub proof fn lemma_packing(k: ChunkKey, u: u128)
    ensures
        unpacked(packed(k)) == k,
        packed(k) >> 96u128 == 0,
        u >> 96u128 == 0 ==> packed(unpacked(u)) == u,
{
    let x = k.x;
    let y = k.y;
    let z = k.z;
    assert((((((x as u32 as u128) << 64u128) | ((y as u32 as u128) << 32u128) | (z as u32 as u128))
        >> 64u128) as u32) as i32 == x) by (bit_vector);
    assert((((((x as u32 as u128) << 64u128) | ((y as u32 as u128) << 32u128) | (z as u32 as u128))
        >> 32u128) as u32) as i32 == y) by (bit_vector);
    assert(((((x as u32 as u128) << 64u128) | ((y as u32 as u128) << 32u128) | (z as u32 as u128))
        as u32) as i32 == z) by (bit_vector);
    assert((((x as u32 as u128) << 64u128) | ((y as u32 as u128) << 32u128) | (z as u32 as u128))
        >> 96u128 == 0) by (bit_vector);
    assert(u >> 96u128 == 0 ==> ((((((u >> 64u128) as u32) as i32) as u32 as u128) << 64u128) | (
    (((u >> 32u128) as u32) as i32) as u32 as u128) << 32u128) | (((u as u32) as i32) as u32
        as u128) == u) by (bit_vector);
}

/// The chunk key packed into one integer (see `packed`).
pub fn pack_key(k: ChunkKey) -> (u: u128)
    ensures
        u == packed(k),
{
    ((k.x as u32 as u128) << 64u128) | ((k.y as u32 as u128) << 32u128) | (k.z as u32 as u128)
}

} // verus!
