use vstd::prelude::*;
use std::collections::HashMap;
use crate::chunk::{
    add_clamped, chunk_of, clamp_i32, lemma_packing, pack_key, packed, unpacked, BlockPos, ChunkKey,
};

verus! {

broadcast use vstd::std_specs::hash::group_hash_axioms;

/// A map from chunk keys to values, held in a hash map under the packed
/// key (see `packed`).
pub struct ChunkMap<V> {
    map: HashMap<u128, V>,
}

impl<V> ChunkMap<V> {
    /// The contents: each chunk key in the map with its value.
    pub closed spec fn view(&self) -> Map<ChunkKey, V> {
        Map::new(
            |k: ChunkKey| self.map@.contains_key(packed(k)),
            |k: ChunkKey| self.map@[packed(k)],
        )
    }

    /// Only packed keys are stored.
    pub closed spec fn wf(&self) -> bool {
        forall|u: u128| #[trigger] self.map@.contains_key(u) ==> u >> 96u128 == 0
    }

    /// An empty map.
    pub fn new() -> (m: ChunkMap<V>)
        ensures
            m.wf(),
            m@ == Map::<ChunkKey, V>::empty(),
    {
        let m = ChunkMap { map: HashMap::new() };
        assert(m@ =~= Map::<ChunkKey, V>::empty());
        m
    }

    /// The value of chunk `key`, if any.
    pub fn get(&self, key: &ChunkKey) -> (r: Option<&V>)
        ensures
            match r {
                Some(v) => self@.contains_key(*key) && *v == self@[*key],
                None => !self@.contains_key(*key),
            },
    {
        let u = pack_key(*key);
        self.map.get(&u)
    }

    /// Whether chunk `key` has a value.
    pub fn contains_key(&self, key: &ChunkKey) -> (r: bool)
        ensures
            r == self@.contains_key(*key),
    {
        let u = pack_key(*key);
        self.map.contains_key(&u)
    }

    /// Sets the value of chunk `key` and returns the one it replaces.
    pub fn insert(&mut self, key: ChunkKey, value: V) -> (prev: Option<V>)
        requires
            old(self).wf(),
        ensures
            final(self).wf(),
            final(self)@ == old(self)@.insert(key, value),
            match prev {
                Some(v) => old(self)@.contains_key(key) && v == old(self)@[key],
                None => !old(self)@.contains_key(key),
            },
    {
        let u = pack_key(key);
        proof {
            lemma_packing(key, 0);
        }
        let prev = self.map.insert(u, value);
        assert forall|k: ChunkKey| #[trigger] packed(k) == packed(key) implies k == key by {
            lemma_packing(k, 0);
            lemma_packing(key, 0);
        }
        assert(self@ =~= old(self)@.insert(key, value));
        prev
    }

    /// Removes every entry.
    pub fn clear(&mut self)
        ensures
            final(self).wf(),
            final(self)@ == Map::<ChunkKey, V>::empty(),
    {
        self.map.clear();
        assert(self@ =~= Map::<ChunkKey, V>::empty());
    }

    /// Number of entries.
    pub fn len(&self) -> (n: usize)
        requires
            self.wf(),
        ensures
            n == self@.len(),
    {
        proof {
            self.lemma_len();
        }
        self.map.len()
    }

    /// Every value in the map, each entry's once, in no particular order.
    pub fn values(&self) -> (r: Vec<V>)
        where V: Copy,
        requires
            self.wf(),
        ensures
            r@.len() == self@.len(),
            r@.to_set() == self@.values(),
    {
        let mut r: Vec<V> = Vec::new();
        for v in it: self.map.values()
            invariant
                r@ == it.seq().take(it.index() as int).unref(),
                it.seq().unref().to_set() == self.map@.values(),
                it.seq().len() == self.map@.dom().len(),
                it.index() == it.seq().len() ==> r@.to_set() == self.map@.values() && r@.len()
                    == self.map@.dom().len(),
        {
            r.push(*v);
            assert(r@ =~= it.seq().take(it.index() + 1).unref());
            assert(it.index() + 1 == it.seq().len() ==> it.seq().take(it.index() + 1).unref()
                =~= it.seq().unref());
        }
        proof {
            self.lemma_len();
            assert(self.map@.values() =~= self@.values()) by {
                assert forall|v: V| self.map@.values().contains(v) implies self@.values().contains(v) by {
                    let u = choose|u: u128| self.map@.contains_key(u) && self.map@[u] == v;
                    lemma_packing(unpacked(u), u);
                    assert(self@.contains_key(unpacked(u)) && self@[unpacked(u)] == v);
                }
                assert forall|v: V| self@.values().contains(v) implies self.map@.values().contains(v) by {
                    let k = choose|k: ChunkKey| self@.contains_key(k) && self@[k] == v;
                    assert(self.map@.contains_key(packed(k)));
                }
            }
        }
        r
    }

    proof fn lemma_len(&self)
        requires
            self.wf(),
        ensures
            self@.dom().finite(),
            self@.len() == self.map@.len(),
    {
        let f = |u: u128| unpacked(u);
        let x = self.map@.dom();
        assert(x.finite());
        assert forall|a: u128, b: u128| x.contains(a) && x.contains(b) && #[trigger] f(a) == #[trigger] f(b)
            implies a == b by {
            lemma_packing(unpacked(a), a);
            lemma_packing(unpacked(b), b);
        }
        assert(vstd::relations::injective_on(f, x));
        assert(x.map(f) =~= self@.dom()) by {
            assert forall|k: ChunkKey| self@.dom().contains(k) implies x.map(f).contains(k) by {
                lemma_packing(k, 0);
                assert(x.contains(packed(k)) && f(packed(k)) == k);
            }
            assert forall|k: ChunkKey| x.map(f).contains(k) implies self@.dom().contains(k) by {
                let u = choose|u: u128| x.contains(u) && f(u) == k;
                lemma_packing(k, u);
            }
        }
        vstd::set_lib::lemma_map_size(x, self@.dom(), f);
    }
}

/// The block data of every chunk that the client has received, by chunk key.
pub struct ChunkDataCache {
    chunks: ChunkMap<Vec<u8>>,
}

impl ChunkDataCache {
    /// The cache's contents: each cached chunk key mapped to its block data.
    pub closed spec fn view(&self) -> Map<ChunkKey, Seq<u8>> {
        Map::new(|k: ChunkKey| self.chunks@.contains_key(k), |k: ChunkKey| self.chunks@[k]@)
    }

    /// The store is well formed.
    pub closed spec fn wf(&self) -> bool {
        self.chunks.wf()
    }

    /// An empty cache.
    pub fn new() -> (c: ChunkDataCache)
        ensures
            c.wf(),
            c@ == Map::<ChunkKey, Seq<u8>>::empty(),
    {
        let c = ChunkDataCache { chunks: ChunkMap::new() };
        assert(c@ =~= Map::<ChunkKey, Seq<u8>>::empty());
        c
    }

    /// The block data of chunk `key`, if it is cached.
    pub fn get(&self, key: &ChunkKey) -> (r: Option<&Vec<u8>>)
        requires
            self.wf(),
        ensures
            match r {
                Some(v) => self@.contains_key(*key) && v@ == self@[*key],
                None => !self@.contains_key(*key),
            },
    {
        self.chunks.get(key)
    }

    /// Whether chunk `key` is cached.
    pub fn contains_key(&self, key: &ChunkKey) -> (r: bool)
        requires
            self.wf(),
        ensures
            r == self@.contains_key(*key),
    {
        self.chunks.contains_key(key)
    }

    /// Stores the block data of chunk `key`, replacing what was cached for it,
    /// and returns the replaced data.
    pub fn insert(&mut self, key: ChunkKey, data: Vec<u8>) -> (prev: Option<Vec<u8>>)
        requires
            old(self).wf(),
        ensures
            final(self).wf(),
            final(self)@ == old(self)@.insert(key, data@),
            match prev {
                Some(v) => old(self)@.contains_key(key) && v@ == old(self)@[key],
                None => !old(self)@.contains_key(key),
            },
    {
        let ghost d = data@;
        let prev = self.chunks.insert(key, data);
        assert(self@ =~= old(self)@.insert(key, d));
        prev
    }

    /// Forgets every cached chunk.
    pub fn clear(&mut self)
        ensures
            final(self).wf(),
            final(self)@ == Map::<ChunkKey, Seq<u8>>::empty(),
    {
        self.chunks.clear();
        assert(self@ =~= Map::<ChunkKey, Seq<u8>>::empty());
    }

    /// Number of cached chunks.
    pub fn len(&self) -> (n: usize)
        requires
            self.wf(),
        ensures
            n == self@.len(),
    {
        let n = self.chunks.len();
        assert(self@.dom() =~= self.chunks@.dom());
        n
    }
}

/// What the client shows of the world: the block data of each received
/// chunk with the entity that draws it, and the entity of each player, by
/// player id. Entities are held by their `u64` ids.
pub struct WorldCache {
    chunk_data: ChunkDataCache,
    chunk_entities: ChunkMap<u64>,
    players: HashMap<u64, u64>,
}

impl WorldCache {
    /// The block data of each received chunk.
    pub closed spec fn chunks(&self) -> Map<ChunkKey, Seq<u8>> {
        self.chunk_data@
    }

    /// The entity that draws each received chunk.
    pub closed spec fn chunk_entities(&self) -> Map<ChunkKey, u64> {
        self.chunk_entities@
    }

    /// The entity of each player, by player id.
    pub closed spec fn players(&self) -> Map<u64, u64> {
        self.players@
    }

    /// The stores are well formed and every chunk with data has an entity
    /// and the other way round.
    pub closed spec fn wf(&self) -> bool {
        &&& self.chunk_data.wf()
        &&& self.chunk_entities.wf()
        &&& self.chunk_data@.dom() == self.chunk_entities@.dom()
    }

    /// Nothing received yet.
    pub fn new() -> (w: WorldCache)
        ensures
            w.wf(),
            w.chunks() == Map::<ChunkKey, Seq<u8>>::empty(),
            w.chunk_entities() == Map::<ChunkKey, u64>::empty(),
            w.players() == Map::<u64, u64>::empty(),
    {
        let w = WorldCache {
            chunk_data: ChunkDataCache::new(),
            chunk_entities: ChunkMap::new(),
            players: HashMap::new(),
        };
        assert(w.chunk_data@.dom() =~= w.chunk_entities@.dom());
        w
    }

    /// The block data of the received chunks.
    pub fn chunk_data(&self) -> (c: &ChunkDataCache)
        requires
            self.wf(),
        ensures
            c.wf(),
            c@ == self.chunks(),
    {
        &self.chunk_data
    }

    /// The entity that draws chunk `key`, if it was received.
    pub fn chunk_entity(&self, key: &ChunkKey) -> (r: Option<u64>)
        ensures
            r == (if self.chunk_entities().contains_key(*key) {
                Some(self.chunk_entities()[*key])
            } else {
                None
            }),
    {
        match self.chunk_entities.get(key) {
            Some(e) => Some(*e),
            None => None,
        }
    }

    /// Records a received chunk: its block data and the entity spawned to
    /// draw it replace what was held for the chunk; the entity that drew it
    /// before, if any, is handed back to be despawned.
    pub fn store_chunk(&mut self, key: ChunkKey, data: Vec<u8>, entity: u64) -> (replaced: Option<
        u64,
    >)
        requires
            old(self).wf(),
        ensures
            final(self).wf(),
            final(self).chunks() == old(self).chunks().insert(key, data@),
            final(self).chunk_entities() == old(self).chunk_entities().insert(key, entity),
            final(self).players() == old(self).players(),
            replaced == (if old(self).chunk_entities().contains_key(key) {
                Some(old(self).chunk_entities()[key])
            } else {
                None
            }),
    {
        let ghost d = data@;
        self.chunk_data.insert(key, data);
        let replaced = self.chunk_entities.insert(key, entity);
        assert(self.chunk_data@.dom() =~= self.chunk_entities@.dom());
        replaced
    }

    /// The entity of player `id`, if the player is shown.
    pub fn player_entity(&self, id: u64) -> (r: Option<u64>)
        ensures
            r == (if self.players().contains_key(id) {
                Some(self.players()[id])
            } else {
                None
            }),
    {
        match self.players.get(&id) {
            Some(e) => Some(*e),
            None => None,
        }
    }

    /// Records the entity spawned for player `id`.
    pub fn add_player(&mut self, id: u64, entity: u64)
        requires
            old(self).wf(),
        ensures
            final(self).wf(),
            final(self).players() == old(self).players().insert(id, entity),
            final(self).chunks() == old(self).chunks(),
            final(self).chunk_entities() == old(self).chunk_entities(),
    {
        self.players.insert(id, entity);
    }

    /// Forgets player `id` and hands back its entity, to be despawned.
    pub fn remove_player(&mut self, id: u64) -> (r: Option<u64>)
        requires
            old(self).wf(),
        ensures
            final(self).wf(),
            final(self).players() == old(self).players().remove(id),
            final(self).chunks() == old(self).chunks(),
            final(self).chunk_entities() == old(self).chunk_entities(),
            r == (if old(self).players().contains_key(id) {
                Some(old(self).players()[id])
            } else {
                None
            }),
    {
        self.players.remove(&id)
    }

    /// Number of players shown.
    pub fn player_count(&self) -> (n: usize)
        ensures
            n == self.players().len(),
    {
        self.players.len()
    }

    /// Forgets every chunk and player and hands back the entities that drew
    /// the chunks, to be despawned.
    pub fn clear(&mut self) -> (despawn: Vec<u64>)
        requires
            old(self).wf(),
        ensures
            final(self).wf(),
            final(self).chunks() == Map::<ChunkKey, Seq<u8>>::empty(),
            final(self).chunk_entities() == Map::<ChunkKey, u64>::empty(),
            final(self).players() == Map::<u64, u64>::empty(),
            despawn@.to_set() == old(self).chunk_entities().values(),
            despawn@.len() == old(self).chunk_entities().len(),
    {
        let despawn = self.chunk_entities.values();
        self.players.clear();
        self.chunk_entities.clear();
        self.chunk_data.clear();
        assert(self.chunk_data@.dom() =~= self.chunk_entities@.dom());
        despawn
    }
}

/// A world cache that is well formed holds data for exactly the chunks
/// that have an entity.
pub proof fn lemma_chunk_keys_agree(w: &WorldCache)
    requires
        w.wf(),
    ensures
        w.chunks().dom() == w.chunk_entities().dom(),
{
}

/// How many chunks around a player's chunk, along `x` and along `z`, the
/// server generates.
pub const VIEW_DISTANCE: i32 = 2;

/// The chunk that holds the block `dx` chunks along `x` and `dz` chunks along
/// `z` from block `p` (coordinates saturate at the bounds of `i32`).
pub open spec fn view_key(p: BlockPos, dx: int, dz: int) -> ChunkKey {
    chunk_of(
        BlockPos {
            x: clamp_i32(p.x as int + 16 * dx) as i32,
            y: p.y,
            z: clamp_i32(p.z as int + 16 * dz) as i32,
        },
    )
}

/// The chunks within view distance of block `p`, `x` offset outer and `z`
/// offset inner, each from `-VIEW_DISTANCE` to `VIEW_DISTANCE`.
pub open spec fn view_ring(p: BlockPos) -> Seq<ChunkKey> {
    Seq::new(25, |j: int| view_key(p, j / 5 - 2, j % 5 - 2))
}

/// The chunks within view distance of each player, player by player.
pub open spec fn view_candidates(players: Seq<BlockPos>) -> Seq<ChunkKey>
    decreases players.len(),
{
    if players.len() == 0 {
        Seq::empty()
    } else {
        view_candidates(players.drop_last()) + view_ring(players.last())
    }
}

/// The keys of `s` that are not in `known`, each once, in order of first
/// occurrence.
pub open spec fn fresh_keys(known: Set<ChunkKey>, s: Seq<ChunkKey>) -> Seq<ChunkKey>
    decreases s.len(),
{
    if s.len() == 0 {
        Seq::empty()
    } else {
        let r = fresh_keys(known, s.drop_last());
        if known.contains(s.last()) || r.contains(s.last()) {
            r
        } else {
            r.push(s.last())
        }
    }
}

/// `fresh_keys` holds each key of `s` outside `known` exactly once.
pub proof fn lemma_fresh_keys(known: Set<ChunkKey>, s: Seq<ChunkKey>)
    ensures
        forall|c: ChunkKey| #[trigger]
            fresh_keys(known, s).contains(c) <==> (s.contains(c) && !known.contains(c)),
        fresh_keys(known, s).no_duplicates(),
    decreases s.len(),
{
    if s.len() > 0 {
        let t = s.drop_last();
        lemma_fresh_keys(known, t);
        assert forall|c: ChunkKey| #[trigger] s.contains(c) <==> (t.contains(c) || c == s.last()) by {
            if s.contains(c) {
                let i = choose|i: int| 0 <= i < s.len() && s[i] == c;
                if i < s.len() - 1 {
                    assert(t[i] == c);
                }
            }
            if t.contains(c) {
                let i = choose|i: int| 0 <= i < t.len() && t[i] == c;
                assert(s[i] == c);
            }
            if c == s.last() {
                assert(s[s.len() - 1] == c);
            }
        }
        let r = fresh_keys(known, t);
        if !(known.contains(s.last()) || r.contains(s.last())) {
            let r2 = r.push(s.last());
            assert forall|c: ChunkKey| #[trigger] r2.contains(c) <==> (r.contains(c) || c == s.last()) by {
                if r2.contains(c) {
                    let i = choose|i: int| 0 <= i < r2.len() && r2[i] == c;
                    if i < r.len() {
                        assert(r[i] == c);
                    }
                }
                if r.contains(c) {
                    let i = choose|i: int| 0 <= i < r.len() && r[i] == c;
                    assert(r2[i] == c);
                }
                if c == s.last() {
                    assert(r2[r.len() as int] == c);
                }
            }
            assert(r2.no_duplicates()) by {
                assert forall|i: int, j: int| 0 <= i < r2.len() && 0 <= j < r2.len() && i != j
                    implies r2[i] != r2[j] by {
                    if i == r.len() {
                        assert(r.contains(r2[j]));
                    } else if j == r.len() {
                        assert(r.contains(r2[i]));
                    }
                }
            }
        }
    }
}

/// A set of chunk keys: the chunks that the server has generated, each
/// recorded with the mark `true`.
pub struct ChunkSet {
    chunks: ChunkMap<bool>,
}

impl ChunkSet {
    /// The keys in the set.
    pub closed spec fn view(&self) -> Set<ChunkKey> {
        self.chunks@.dom()
    }

    /// The set is well formed.
    pub closed spec fn wf(&self) -> bool {
        self.chunks.wf()
    }

    /// An empty set.
    pub fn new() -> (s: ChunkSet)
        ensures
            s.wf(),
            s@ == Set::<ChunkKey>::empty(),
    {
        let s = ChunkSet { chunks: ChunkMap::new() };
        assert(s@ =~= Set::<ChunkKey>::empty());
        s
    }

    /// Whether `key` is in the set.
    pub fn contains_key(&self, key: &ChunkKey) -> (r: bool)
        ensures
            r == self@.contains(*key),
    {
        self.chunks.contains_key(key)
    }

    /// Adds `key`; returns whether it was absent.
    pub fn insert(&mut self, key: ChunkKey) -> (added: bool)
        requires
            old(self).wf(),
        ensures
            final(self).wf(),
            final(self)@ == old(self)@.insert(key),
            added == !old(self)@.contains(key),
    {
        let prev = self.chunks.insert(key, true);
        assert(self@ =~= old(self)@.insert(key));
        prev.is_none()
    }

    /// Number of keys in the set.
    pub fn len(&self) -> (n: usize)
        requires
            self.wf(),
        ensures
            n == self@.len(),
    {
        self.chunks.len()
    }

    /// Records every chunk within view distance of each player's block
    /// position, players in the given order, and returns the chunks that
    /// were not yet recorded, in the order met and each once: the chunks
    /// that still have to be generated and sent.
    pub fn discover_around(&mut self, players: &[BlockPos]) -> (fresh: Vec<ChunkKey>)
        requires
            old(self).wf(),
            players@.len() * 25 <= usize::MAX,
        ensures
            final(self).wf(),
            fresh@ == fresh_keys(old(self)@, view_candidates(players@)),
            forall|k: ChunkKey| #[trigger]
                final(self)@.contains(k) <==> (old(self)@.contains(k) || view_candidates(
                    players@,
                ).contains(k)),
    {
        let cands = candidates_of(players);
        let ghost known = self@;
        let ghost s = cands@;
        let mut fresh: Vec<ChunkKey> = Vec::new();
        let mut k: usize = 0;
        while k < cands.len()
            invariant
                s == cands@,
                k <= s.len(),
                self.wf(),
                fresh@ == fresh_keys(known, s.take(k as int)),
                forall|c: ChunkKey| #[trigger]
                    self@.contains(c) <==> (known.contains(c) || s.take(k as int).contains(c)),
            decreases s.len() - k,
        {
            let c = cands[k];
            proof {
                lemma_fresh_keys(known, s.take(k as int));
                assert(s.take(k + 1).drop_last() =~= s.take(k as int));
                assert(s.take(k + 1).last() == c);
            }
            let added = self.insert(c);
            if added {
                fresh.push(c);
            }
            proof {
                assert forall|d: ChunkKey| #[trigger] s.take(k + 1).contains(d) <==> (s.take(
                    k as int,
                ).contains(d) || d == c) by {
                    if s.take(k + 1).contains(d) {
                        let t = s.take(k + 1);
                        let i = choose|i: int| 0 <= i < t.len() && t[i] == d;
                        if i < k {
                            assert(s.take(k as int)[i] == d);
                        }
                    }
                    if s.take(k as int).contains(d) {
                        let t = s.take(k as int);
                        let i = choose|i: int| 0 <= i < t.len() && t[i] == d;
                        assert(s.take(k + 1)[i] == d);
                    }
                    if d == c {
                        assert(s.take(k + 1)[k as int] == d);
                    }
                }
            }
            k = k + 1;
        }
        assert(s.take(s.len() as int) =~= s);
        fresh
    }
}

/// The chunks within view distance of block `p`, in `view_ring` order.
fn ring_of(p: BlockPos) -> (ring: Vec<ChunkKey>)
    ensures
        ring@ == view_ring(p),
{
    let mut ring: Vec<ChunkKey> = Vec::new();
    let mut j: i32 = 0;
    while j < 25
        invariant
            0 <= j <= 25,
            ring@.len() == j,
            forall|i: int| 0 <= i < j ==> #[trigger] ring@[i] == view_key(p, i / 5 - 2, i % 5 - 2),
        decreases 25 - j,
    {
        let dx: i32 = j / 5 - VIEW_DISTANCE;
        let dz: i32 = j % 5 - VIEW_DISTANCE;
        let pos = BlockPos { x: add_clamped(p.x, 16 * dx), y: p.y, z: add_clamped(p.z, 16 * dz) };
        ring.push(ChunkKey::from_world_pos(pos));
        j = j + 1;
    }
    assert(ring@ =~= view_ring(p));
    ring
}

/// The chunks within view distance of each player, in `view_candidates` order.
fn candidates_of(players: &[BlockPos]) -> (cands: Vec<ChunkKey>)
    requires
        players@.len() * 25 <= usize::MAX,
    ensures
        cands@ == view_candidates(players@),
{
    let mut cands: Vec<ChunkKey> = Vec::new();
    let mut i: usize = 0;
    while i < players.len()
        invariant
            i <= players@.len(),
            cands@ == view_candidates(players@.take(i as int)),
        decreases players@.len() - i,
    {
        let mut ring = ring_of(players[i]);
        proof {
            assert(players@.take(i + 1).drop_last() =~= players@.take(i as int));
        }
        cands.append(&mut ring);
        i = i + 1;
    }
    assert(players@.take(players@.len() as int) =~= players@);
    cands
}

/// Reading a chunk back from the cache gives the data last stored for it,
/// and storing a chunk leaves every other chunk as it was.
pub proof fn lemma_cache_read_after_write(
    before: Map<ChunkKey, Seq<u8>>,
    key: ChunkKey,
    data: Seq<u8>,
    other: ChunkKey,
)
    ensures
        before.insert(key, data).contains_key(key),
        before.insert(key, data)[key] == data,
        other != key ==> before.insert(key, data).contains_key(other) == before.contains_key(
            other,
        ),
        other != key && before.contains_key(other) ==> before.insert(key, data)[other]
            == before[other],
{
}

/// The chunks around one player are all among the candidates of a list of
/// players that holds that player.
proof fn lemma_ring_in_candidates(players: Seq<BlockPos>, i: int, j: int)
    requires
        0 <= i < players.len(),
        0 <= j < 25,
    ensures
        view_candidates(players).contains(view_ring(players[i])[j]),
    decreases players.len(),
{
    let init = players.drop_last();
    let c = view_candidates(players);
    assert(c == view_candidates(init) + view_ring(players.last()));
    if i == players.len() - 1 {
        let n = view_candidates(init).len();
        assert(c[n + j] == view_ring(players[i])[j]);
    } else {
        lemma_ring_in_candidates(init, i, j);
        assert(init[i] == players[i]);
        let w = view_ring(players[i])[j];
        let k = choose|k: int| 0 <= k < view_candidates(init).len() && view_candidates(init)[k] == w;
        assert(c[k] == w);
    }
}

/// After the chunks around a set of players are discovered, every chunk
/// within view distance of each of those players is known.
pub proof fn lemma_discovery_covers_view(
    players: Seq<BlockPos>,
    i: int,
    dx: int,
    dz: int,
)
    requires
        0 <= i < players.len(),
        -VIEW_DISTANCE <= dx <= VIEW_DISTANCE,
        -VIEW_DISTANCE <= dz <= VIEW_DISTANCE,
    ensures
        view_candidates(players).contains(view_key(players[i], dx, dz)),
{
    let j = 5 * (dx + 2) + (dz + 2);
    assert(j / 5 - 2 == dx && j % 5 - 2 == dz);
    lemma_ring_in_candidates(players, i, j);
}

/// A chunk is handed out for generation at most once: the chunks that a
/// second discovery returns are disjoint from those of the first, because
/// the first discovery records all the chunks it met.
pub proof fn lemma_discovery_sends_once(
    known: Set<ChunkKey>,
    first: Seq<ChunkKey>,
    second: Seq<ChunkKey>,
    k: ChunkKey,
)
    ensures
        !(fresh_keys(known, first).contains(k) && fresh_keys(
            known.union(first.to_set()),
            second,
        ).contains(k)),
{
    lemma_fresh_keys(known, first);
    lemma_fresh_keys(known.union(first.to_set()), second);
    if fresh_keys(known, first).contains(k) {
        assert(first.to_set().contains(k));
    }
}

} // verus!
