use vstd::prelude::*;
use crate::blocks::{is_solid, solid_spec};
use crate::cache::ChunkDataCache;
use crate::chunk::{chunk_index, chunk_index_spec, chunk_of, BlockPos, ChunkKey};

verus! {

/// Index, in its chunk's block array, of the block at world position `pos`.
pub open spec fn local_index(pos: BlockPos) -> int {
    let k = chunk_of(pos);
    chunk_index_spec(
        pos.x as int - 16 * k.x,
        pos.y as int - 16 * k.y,
        pos.z as int - 16 * k.z,
    )
}

/// The cached chunk that holds `pos`, if any, is long enough to hold it.
pub open spec fn lookup_in_bounds(cache: Map<ChunkKey, Seq<u8>>, pos: BlockPos) -> bool {
    cache.contains_key(chunk_of(pos)) ==> local_index(pos) < cache[chunk_of(pos)].len()
}

/// The block id at `pos`, if its chunk is cached.
pub open spec fn block_id_at(cache: Map<ChunkKey, Seq<u8>>, pos: BlockPos) -> Option<u8> {
    if cache.contains_key(chunk_of(pos)) {
        Some(cache[chunk_of(pos)][local_index(pos)])
    } else {
        None
    }
}

/// The block at `pos` is known and solid by the block definitions; blocks of
/// chunks that are not cached are not solid.
pub open spec fn solid_at(cache: Map<ChunkKey, Seq<u8>>, pos: BlockPos) -> bool {
    match block_id_at(cache, pos) {
        Some(id) => solid_spec(id as u32),
        None => false,
    }
}

/// The block at `pos` is anything but air (id `0`); blocks of chunks that
/// are not cached count as empty.
pub open spec fn filled_at(cache: Map<ChunkKey, Seq<u8>>, pos: BlockPos) -> bool {
    match block_id_at(cache, pos) {
        Some(id) => id != 0,
        None => false,
    }
}

/// The block id at `pos`, if its chunk is cached.
fn block_id(cache: &ChunkDataCache, pos: BlockPos) -> (r: Option<u8>)
    requires
        cache.wf(),
        lookup_in_bounds(cache@, pos),
    ensures
        r == block_id_at(cache@, pos),
{
    let key = ChunkKey::from_world_pos(pos);
    match cache.get(&key) {
        Some(chunk) => {
            let lx = (pos.x as i64 - key.x as i64 * 16) as usize;
            let ly = (pos.y as i64 - key.y as i64 * 16) as usize;
            let lz = (pos.z as i64 - key.z as i64 * 16) as usize;
            if lx < 16 && ly < 16 && lz < 16 {
                let idx = chunk_index(lx, ly, lz);
                Some(chunk[idx])
            } else {
                None
            }
        },
        None => None,
    }
}

/// Whether the block at world position `pos` is solid according to the block
/// definitions; positions in chunks that are not cached are not solid.
pub fn is_block_solid(cache: &ChunkDataCache, pos: BlockPos) -> (r: bool)
    requires
        cache.wf(),
        lookup_in_bounds(cache@, pos),
    ensures
        r == solid_at(cache@, pos),
{
    match block_id(cache, pos) {
        Some(id) => is_solid(id as u32),
        None => false,
    }
}

/// Whether the block at world position `pos` is anything but air; positions
/// in chunks that are not cached are empty.
pub fn is_block_filled(cache: &ChunkDataCache, pos: BlockPos) -> (r: bool)
    requires
        cache.wf(),
        lookup_in_bounds(cache@, pos),
    ensures
        r == filled_at(cache@, pos),
{
    match block_id(cache, pos) {
        Some(id) => id != 0,
        None => false,
    }
}

/// Whether any of the given blocks (the corners of a body) is solid.
pub fn check_collision(cache: &ChunkDataCache, corners: &[BlockPos]) -> (r: bool)
    requires
        cache.wf(),
        forall|i: int| 0 <= i < corners@.len() ==> lookup_in_bounds(cache@, #[trigger] corners@[i]),
    ensures
        r == exists|i: int| 0 <= i < corners@.len() && solid_at(cache@, #[trigger] corners@[i]),
{
    let mut i: usize = 0;
    while i < corners.len()
        invariant
            cache.wf(),
            i <= corners@.len(),
            forall|j: int|
                0 <= j < corners@.len() ==> lookup_in_bounds(cache@, #[trigger] corners@[j]),
            forall|j: int| 0 <= j < i ==> !solid_at(cache@, #[trigger] corners@[j]),
        decreases corners@.len() - i,
    {
        if is_block_solid(cache, corners[i]) {
            return true;
        }
        i = i + 1;
    }
    false
}

/// Whether any of the given blocks (the corners of a body) is anything but
/// air.
pub fn collides_with_world(cache: &ChunkDataCache, corners: &[BlockPos]) -> (r: bool)
    requires
        cache.wf(),
        forall|i: int| 0 <= i < corners@.len() ==> lookup_in_bounds(cache@, #[trigger] corners@[i]),
    ensures
        r == exists|i: int| 0 <= i < corners@.len() && filled_at(cache@, #[trigger] corners@[i]),
{
    let mut i: usize = 0;
    while i < corners.len()
        invariant
            cache.wf(),
            i <= corners@.len(),
            forall|j: int|
                0 <= j < corners@.len() ==> lookup_in_bounds(cache@, #[trigger] corners@[j]),
            forall|j: int| 0 <= j < i ==> !filled_at(cache@, #[trigger] corners@[j]),
        decreases corners@.len() - i,
    {
        if is_block_filled(cache, corners[i]) {
            return true;
        }
        i = i + 1;
    }
    false
}

/// What a body does along one axis in one physics step.
#[derive(Debug, Clone, Copy, PartialEq, Eq, Structural)]
pub struct AxisStep {
    /// Whether the body moves by its velocity along the axis.
    pub moves: bool,
    /// Whether the body's velocity along the axis drops to zero.
    pub stops: bool,
    /// Whether the body stands on the ground afterwards.
    pub on_ground: bool,
}

/// Resolves one axis of a physics step from whether the moved body would
/// collide: a free body moves; a blocked body stops instead. Along the
/// vertical axis a body that moves leaves the ground, and a body blocked
/// while falling lands; other steps keep the ground state.
pub fn resolve_axis(collides: bool, vertical: bool, falling: bool, on_ground: bool) -> (step:
    AxisStep)
    ensures
        step.moves == !collides,
        step.stops == collides,
        step.on_ground == (if !vertical {
            on_ground
        } else if !collides {
            false
        } else if falling {
            true
        } else {
            on_ground
        }),
{
    if !collides {
        AxisStep { moves: true, stops: false, on_ground: if vertical {
            false
        } else {
            on_ground
        } }
    } else {
        AxisStep { moves: false, stops: true, on_ground: if vertical && falling {
            true
        } else {
            on_ground
        } }
    }
}

} // verus!
