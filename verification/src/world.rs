use vstd::prelude::*;

use std::hash::BuildHasherDefault;
use std::sync::Arc;

use crate::block::BlockId;
use crate::chunk::{xyz_index, ChunkData, LocalPos};
use crate::task_pool::{kept, NoThreads, Task};
use crate::geometry::{boundary_quads, buffer_view, inner_quads, ChunkBuildContext, ChunkGeometry, ChunkNeighborhood, ChunkUploadContext, Face, QuadInstance};

verus! {

/// The position of a chunk, in chunks.
#[derive(Debug, Clone, Copy, PartialEq, Eq, Structural, Hash)]
pub struct ChunkPos {
    pub x: i32,
    pub y: i32,
    pub z: i32,
}

impl ChunkPos {
    /// The key under which the chunk is stored.
    pub open spec fn key(self) -> (i32, i32, i32) {
        (self.x, self.y, self.z)
    }

    /// Creates a new [`ChunkPos`].
    pub fn new(x: i32, y: i32, z: i32) -> (r: ChunkPos)
        ensures
            r == (ChunkPos { x, y, z }),
    {
        ChunkPos { x, y, z }
    }
}

/// The chunk coordinate that holds the world coordinate `c`.
pub open spec fn chunk_coord(c: int) -> int {
    c / 32
}

/// The coordinate within its chunk of the world coordinate `c`.
pub open spec fn local_coord(c: int) -> int {
    c % 32
}

/// Splits a world block position into the position of its chunk and its position within that
/// chunk.
pub fn chunk_and_local_pos(x: i32, y: i32, z: i32) -> (r: (ChunkPos, LocalPos))
    ensures
        r.0 == (ChunkPos { x: chunk_coord(x as int) as i32, y: chunk_coord(y as int) as i32, z: chunk_coord(z as int) as i32 }),
        r.1@ == xyz_index(local_coord(x as int), local_coord(y as int), local_coord(z as int)),
        r.1.sx() == local_coord(x as int),
        r.1.sy() == local_coord(y as int),
        r.1.sz() == local_coord(z as int),
{
    let cx = x.checked_div_euclid(32).unwrap();
    let cy = y.checked_div_euclid(32).unwrap();
    let cz = z.checked_div_euclid(32).unwrap();
    let lx = x.checked_rem_euclid(32).unwrap();
    let ly = y.checked_rem_euclid(32).unwrap();
    let lz = z.checked_rem_euclid(32).unwrap();
    (ChunkPos { x: cx, y: cy, z: cz }, LocalPos::from_xyz(lx, ly, lz))
}

/// Stores the state of a chunk loaded in memory.
pub struct LoadedChunk {
    /// The blocks of the chunk.
    pub data: Box<ChunkData>,
    /// The geometry of the chunk.
    pub geometry: ChunkGeometry,
    /// Whether the chunk's geometry is dirty and must be rebuilt.
    pub is_dirty: bool,
}

/// The state of a freshly loaded chunk holding `data`.
pub open spec fn fresh_chunk(data: Box<ChunkData>) -> LoadedChunk {
    LoadedChunk {
        data,
        geometry: ChunkGeometry { opaque_quads: None, transparent_quads: None },
        is_dirty: true,
    }
}

impl LoadedChunk {
    /// Creates a new [`LoadedChunk`] with the given data, whose geometry must be built.
    pub fn new(data: Box<ChunkData>) -> (r: LoadedChunk)
        ensures
            r == fresh_chunk(data),
    {
        LoadedChunk { data, geometry: ChunkGeometry::new(), is_dirty: true }
    }
}

/// An entry of the chunk map.
pub enum ChunkEntry {
    /// The chunk is already properly loaded.
    Loaded(LoadedChunk),
    /// The chunk is currently generating.
    Generating,
}

impl ChunkEntry {
    /// Returns the loaded chunk, if any.
    pub fn loaded(&self) -> (r: Option<&LoadedChunk>)
        ensures
            match self {
                ChunkEntry::Loaded(c) => r == Some(c),
                ChunkEntry::Generating => r is None,
            },
    {
        match self {
            ChunkEntry::Loaded(chunk) => Some(chunk),
            ChunkEntry::Generating => None,
        }
    }
}

/// The map from chunk positions to their entries, held in a `hashbrown` map.
#[verifier::external_body]
pub struct ChunkMap {
    inner: hashbrown::HashMap<(i32, i32, i32), ChunkEntry, BuildHasherDefault<rustc_hash::FxHasher>>,
}

/// A chunk map with no entries.
pub open spec fn no_chunks() -> Map<(i32, i32, i32), ChunkEntry> {
    Map::empty()
}

/// The entries that a chunk map holds.
pub uninterp spec fn chunk_map_contents(m: ChunkMap) -> Map<(i32, i32, i32), ChunkEntry>;

impl ChunkMap {
    /// Creates an empty map (`hashbrown::HashMap::default`).
    #[verifier::external_body]
    pub(crate) fn new() -> (r: ChunkMap)
        ensures
            chunk_map_contents(r) == no_chunks(),
    {
        ChunkMap { inner: hashbrown::HashMap::default() }
    }

    /// The number of entries (`hashbrown::HashMap::len`).
    #[verifier::external_body]
    pub(crate) fn len(&self) -> (r: usize)
        ensures
            r == chunk_map_contents(*self).dom().len(),
    {
        self.inner.len()
    }

    /// The entry stored under `key`, if any (`hashbrown::HashMap::get`).
    #[verifier::external_body]
    pub(crate) fn get(&self, key: (i32, i32, i32)) -> (r: Option<&ChunkEntry>)
        ensures
            chunk_map_contents(*self).dom().contains(key) ==> r == Some(&chunk_map_contents(*self)[key]),
            !chunk_map_contents(*self).dom().contains(key) ==> r is None,
    {
        self.inner.get(&key)
    }

    /// A mutable reference to the entry stored under `key`, if any
    /// (`hashbrown::HashMap::get_mut`).
    #[verifier::external_body]
    pub(crate) fn get_mut(&mut self, key: (i32, i32, i32)) -> (r: Option<&mut ChunkEntry>)
        ensures
            chunk_map_contents(*old(self)).dom().contains(key) ==> r is Some && *r.unwrap()
                == chunk_map_contents(*old(self))[key] && chunk_map_contents(*final(self))
                == chunk_map_contents(*old(self)).insert(key, *final(r.unwrap())),
            !chunk_map_contents(*old(self)).dom().contains(key) ==> r is None
                && chunk_map_contents(*final(self)) == chunk_map_contents(*old(self)),
    {
        self.inner.get_mut(&key)
    }

    /// Stores `value` under `key`, returning the entry it replaces (`hashbrown::HashMap::insert`).
    #[verifier::external_body]
    pub(crate) fn insert(&mut self, key: (i32, i32, i32), value: ChunkEntry) -> (r: Option<ChunkEntry>)
        ensures
            chunk_map_contents(*final(self)) == chunk_map_contents(*old(self)).insert(key, value),
            chunk_map_contents(*old(self)).dom().contains(key) ==> r == Some(chunk_map_contents(*old(self))[key]),
            !chunk_map_contents(*old(self)).dom().contains(key) ==> r is None,
    {
        self.inner.insert(key, value)
    }

    /// Keeps only the chunks that [`chunk_is_retained`] keeps around `center`
    /// (`hashbrown::HashMap::retain`).
    #[verifier::external_body]
    pub(crate) fn retain_around(&mut self, center: ChunkPos, h_radius: u32, v_radius: u32)
        ensures
            chunk_map_contents(*final(self)) == chunk_map_contents(*old(self)).restrict(
                chunk_map_contents(*old(self)).dom().filter(|k: (i32, i32, i32)| retained(k, center, h_radius, v_radius)),
            ),
    {
        self.inner.retain(|k, _| chunk_is_retained(ChunkPos { x: k.0, y: k.1, z: k.2 }, center, h_radius, v_radius))
    }

    /// Shrinks the capacity of the map (`hashbrown::HashMap::shrink_to`); the entries do not
    /// change.
    #[verifier::external_body]
    pub(crate) fn shrink_to(&mut self, min_capacity: usize)
        ensures
            chunk_map_contents(*final(self)) == chunk_map_contents(*old(self)),
    {
        self.inner.shrink_to(min_capacity)
    }
}

/// Whether the chunk at `pos` stays loaded around `center`: its horizontal squared distance is
/// below `h_radius²` and its vertical distance below `v_radius`.
pub open spec fn retained(pos: (i32, i32, i32), center: ChunkPos, h_radius: u32, v_radius: u32) -> bool {
    let dx = pos.0 - center.x;
    let dy = pos.1 - center.y;
    let dz = pos.2 - center.z;
    &&& dx * dx + dz * dz < h_radius * h_radius
    &&& -v_radius < dy < v_radius
}

/// Returns whether the chunk at `pos` stays loaded around `center`.
pub fn chunk_is_retained(pos: ChunkPos, center: ChunkPos, h_radius: u32, v_radius: u32) -> (r: bool)
    ensures
        r == retained(pos.key(), center, h_radius, v_radius),
{
    let dx = pos.x as i64 - center.x as i64;
    let dz = pos.z as i64 - center.z as i64;
    let dy = pos.y as i64 - center.y as i64;
    let (dx2, dz2) = (dx as i128, dz as i128);
    assert(0 <= dx2 * dx2 <= 0x1_0000_0000 * 0x1_0000_0000) by (nonlinear_arith)
        requires
            -0x1_0000_0000 <= dx2 <= 0x1_0000_0000,
    ;
    assert(0 <= dz2 * dz2 <= 0x1_0000_0000 * 0x1_0000_0000) by (nonlinear_arith)
        requires
            -0x1_0000_0000 <= dz2 <= 0x1_0000_0000,
    ;
    let hr2 = h_radius as i128;
    assert(0 <= hr2 * hr2 <= 0x1_0000_0000 * 0x1_0000_0000) by (nonlinear_arith)
        requires
            0 <= hr2 <= 0x1_0000_0000,
    ;
    let hd = dx2 * dx2 + dz2 * dz2;
    let hr = hr2 * hr2;
    hd < hr && -(v_radius as i64) < dy && dy < v_radius as i64
}

} // verus!

verus! {

/// The abstract state of a loaded chunk.
pub struct LoadedState {
    /// The blocks of the chunk.
    pub blocks: Seq<BlockId>,
    /// The opaque quads uploaded for the chunk, if any.
    pub opaque: Option<Seq<QuadInstance>>,
    /// The transparent quads uploaded for the chunk, if any.
    pub transparent: Option<Seq<QuadInstance>>,
    /// Whether the geometry must be rebuilt.
    pub dirty: bool,
}

/// The abstract state of an entry of the chunk map.
pub enum ChunkState {
    Generating,
    Loaded(LoadedState),
}

impl View for LoadedChunk {
    type V = LoadedState;

    open spec fn view(&self) -> LoadedState {
        LoadedState {
            blocks: self.data@,
            opaque: buffer_view(self.geometry.opaque_quads),
            transparent: buffer_view(self.geometry.transparent_quads),
            dirty: self.is_dirty,
        }
    }
}

impl View for ChunkEntry {
    type V = ChunkState;

    open spec fn view(&self) -> ChunkState {
        match self {
            ChunkEntry::Loaded(c) => ChunkState::Loaded(c@),
            ChunkEntry::Generating => ChunkState::Generating,
        }
    }
}

/// The abstract states of the entries of a chunk map.
pub open spec fn states(m: Map<(i32, i32, i32), ChunkEntry>) -> Map<(i32, i32, i32), ChunkState> {
    m.map_values(|e: ChunkEntry| e@)
}

/// The blocks of the chunk stored under `k`, if it is loaded.
pub open spec fn loaded_blocks(m: Map<(i32, i32, i32), ChunkState>, k: (i32, i32, i32)) -> Option<Seq<BlockId>> {
    if m.dom().contains(k) {
        match m[k] {
            ChunkState::Loaded(s) => Some(s.blocks),
            ChunkState::Generating => None,
        }
    } else {
        None
    }
}

/// Marks the chunk stored under `k` dirty, if it is loaded.
pub open spec fn mark_dirty(m: Map<(i32, i32, i32), ChunkState>, k: (i32, i32, i32)) -> Map<(i32, i32, i32), ChunkState> {
    if m.dom().contains(k) {
        match m[k] {
            ChunkState::Loaded(s) => m.insert(k, ChunkState::Loaded(LoadedState { dirty: true, ..s })),
            ChunkState::Generating => m,
        }
    } else {
        m
    }
}

/// The key of the chunk at offset `(dx, dy, dz)` from `pos`.
pub open spec fn offset_key(pos: ChunkPos, dx: int, dy: int, dz: int) -> (i32, i32, i32) {
    ((pos.x + dx) as i32, (pos.y + dy) as i32, (pos.z + dz) as i32)
}

/// Whether each coordinate of `pos` has both neighbours in the `i32` range.
pub open spec fn has_neighbors(pos: ChunkPos) -> bool {
    &&& i32::MIN < pos.x < i32::MAX
    &&& i32::MIN < pos.y < i32::MAX
    &&& i32::MIN < pos.z < i32::MAX
}

/// Whether the entry stored under `k` is a chunk being generated.
pub open spec fn is_generating(m: Map<(i32, i32, i32), ChunkState>, k: (i32, i32, i32)) -> bool {
    m.dom().contains(k) && m[k] is Generating
}

/// Whether the chunk stored under `k` is loaded and its geometry must be rebuilt.
pub open spec fn needs_rebuild(m: Map<(i32, i32, i32), ChunkState>, k: (i32, i32, i32)) -> bool {
    &&& m.dom().contains(k)
    &&& m[k] matches ChunkState::Loaded(s) && s.dirty
}

/// Marks the six chunks around `pos` dirty (those that are loaded), in the order +X, -X, +Y,
/// -Y, +Z, -Z.
pub open spec fn mark_neighbors(m: Map<(i32, i32, i32), ChunkState>, pos: ChunkPos) -> Map<(i32, i32, i32), ChunkState> {
    let m1 = mark_dirty(m, offset_key(pos, 1, 0, 0));
    let m2 = mark_dirty(m1, offset_key(pos, -1, 0, 0));
    let m3 = mark_dirty(m2, offset_key(pos, 0, 1, 0));
    let m4 = mark_dirty(m3, offset_key(pos, 0, -1, 0));
    let m5 = mark_dirty(m4, offset_key(pos, 0, 0, 1));
    mark_dirty(m5, offset_key(pos, 0, 0, -1))
}

/// The block at world position `(x, y, z)`, if its chunk is loaded.
pub open spec fn block_at(m: Map<(i32, i32, i32), ChunkState>, x: int, y: int, z: int) -> Option<BlockId> {
    let k = (chunk_coord(x) as i32, chunk_coord(y) as i32, chunk_coord(z) as i32);
    match loaded_blocks(m, k) {
        Some(b) => Some(b[xyz_index(local_coord(x), local_coord(y), local_coord(z))]),
        None => None,
    }
}

/// Marks the neighbour across one axis dirty when a block at local coordinate `c` on that axis
/// changes: the previous chunk when `c` is `0`, the next chunk when `c` is `31`.
pub open spec fn mark_edge(
    m: Map<(i32, i32, i32), ChunkState>,
    prev: (i32, i32, i32),
    next: (i32, i32, i32),
    c: int,
) -> Map<(i32, i32, i32), ChunkState> {
    if c == 0 {
        mark_dirty(m, prev)
    } else if c == 31 {
        mark_dirty(m, next)
    } else {
        m
    }
}

/// The chunk states after the block at world position `(x, y, z)` becomes `block`: the chunk
/// holding it gets the block and is marked dirty, and so are the loaded neighbours that share
/// the face the block touches.
pub open spec fn with_block(m: Map<(i32, i32, i32), ChunkState>, x: int, y: int, z: int, block: BlockId) -> Map<(i32, i32, i32), ChunkState> {
    let c = ChunkPos { x: chunk_coord(x) as i32, y: chunk_coord(y) as i32, z: chunk_coord(z) as i32 };
    let (lx, ly, lz) = (local_coord(x), local_coord(y), local_coord(z));
    match m[c.key()] {
        ChunkState::Loaded(s) => {
            let m0 = m.insert(
                c.key(),
                ChunkState::Loaded(LoadedState { blocks: s.blocks.update(xyz_index(lx, ly, lz), block), dirty: true, ..s }),
            );
            let m1 = mark_edge(m0, offset_key(c, -1, 0, 0), offset_key(c, 1, 0, 0), lx);
            let m2 = mark_edge(m1, offset_key(c, 0, -1, 0), offset_key(c, 0, 1, 0), ly);
            mark_edge(m2, offset_key(c, 0, 0, -1), offset_key(c, 0, 0, 1), lz)
        },
        ChunkState::Generating => m,
    }
}

/// The quads that the borders of the chunk at `pos` get, when its six neighbours are loaded;
/// none otherwise.
pub open spec fn outer_part(m: Map<(i32, i32, i32), ChunkState>, pos: ChunkPos, opaque: bool) -> Seq<QuadInstance> {
    let me = loaded_blocks(m, pos.key()).unwrap();
    match (
        loaded_blocks(m, offset_key(pos, 1, 0, 0)),
        loaded_blocks(m, offset_key(pos, -1, 0, 0)),
        loaded_blocks(m, offset_key(pos, 0, 1, 0)),
        loaded_blocks(m, offset_key(pos, 0, -1, 0)),
        loaded_blocks(m, offset_key(pos, 0, 0, 1)),
        loaded_blocks(m, offset_key(pos, 0, 0, -1)),
    ) {
        (Some(x), Some(nx), Some(y), Some(ny), Some(z), Some(nz)) => boundary_quads(me, x, Face::X, 1024, opaque)
            + boundary_quads(me, nx, Face::NegX, 1024, opaque) + boundary_quads(me, y, Face::Y, 1024, opaque)
            + boundary_quads(me, ny, Face::NegY, 1024, opaque) + boundary_quads(me, z, Face::Z, 1024, opaque)
            + boundary_quads(me, nz, Face::NegZ, 1024, opaque),
        _ => seq![],
    }
}

/// The quads built for the chunk at `pos`: all its blocks, then its borders.
pub open spec fn built_quads(m: Map<(i32, i32, i32), ChunkState>, pos: ChunkPos, opaque: bool) -> Seq<QuadInstance> {
    inner_quads(loaded_blocks(m, pos.key()).unwrap(), 32768, opaque) + outer_part(m, pos, opaque)
}

/// What a geometry list holds after `quads` is uploaded to it.
pub open spec fn uploaded(quads: Seq<QuadInstance>) -> Option<Seq<QuadInstance>> {
    if quads.len() > 0 {
        Some(quads)
    } else {
        None
    }
}

/// The chunk states after the geometry of the loaded chunk at `pos` is rebuilt.
pub open spec fn rebuilt(m: Map<(i32, i32, i32), ChunkState>, pos: ChunkPos) -> Map<(i32, i32, i32), ChunkState> {
    m.insert(
        pos.key(),
        ChunkState::Loaded(LoadedState {
            blocks: loaded_blocks(m, pos.key()).unwrap(),
            opaque: uploaded(built_quads(m, pos, true)),
            transparent: uploaded(built_quads(m, pos, false)),
            dirty: false,
        }),
    )
}

/// The chunk states after a generated chunk holding `blocks` arrives for `pos`: it is stored
/// when the chunk is being generated, and its loaded neighbours are marked dirty; otherwise it is
/// discarded.
pub open spec fn receive(m: Map<(i32, i32, i32), ChunkState>, pos: ChunkPos, blocks: Seq<BlockId>) -> Map<(i32, i32, i32), ChunkState> {
    if m.dom().contains(pos.key()) && m[pos.key()] is Generating {
        mark_neighbors(
            m.insert(
                pos.key(),
                ChunkState::Loaded(LoadedState { blocks, opaque: None, transparent: None, dirty: true }),
            ),
            pos,
        )
    } else {
        m
    }
}

/// The chunk states after the generated chunks `outputs` arrive, in order.
pub open spec fn receive_all(m: Map<(i32, i32, i32), ChunkState>, outputs: Seq<(ChunkPos, Seq<BlockId>)>) -> Map<(i32, i32, i32), ChunkState>
    decreases outputs.len(),
{
    if outputs.len() == 0 {
        m
    } else {
        let last = outputs.last();
        receive(receive_all(m, outputs.drop_last()), last.0, last.1)
    }
}

/// The views of generated chunks.
pub open spec fn outputs_view(outputs: Seq<(ChunkPos, Box<ChunkData>)>) -> Seq<(ChunkPos, Seq<BlockId>)> {
    outputs.map_values(|o: (ChunkPos, Box<ChunkData>)| (o.0, o.1@))
}

/// The blocks of the chunk stored under `key` in `chunks`, if it is loaded.
fn loaded_data(chunks: &ChunkMap, key: (i32, i32, i32)) -> (r: Option<&ChunkData>)
    ensures
        match loaded_blocks(states(chunk_map_contents(*chunks)), key) {
            Some(b) => r is Some && r.unwrap()@ == b,
            None => r is None,
        },
{
    match chunks.get(key) {
        Some(entry) => match entry {
            ChunkEntry::Loaded(chunk) => Some(&*chunk.data),
            ChunkEntry::Generating => None,
        },
        None => None,
    }
}

/// The key by which waiting chunks are ordered: the opposite of their squared distance to
/// `center`, so that the closest chunks come last.
pub open spec fn pending_key(p: ChunkPos, center: ChunkPos) -> int {
    let (dx, dy, dz) = (p.x - center.x, p.y - center.y, p.z - center.z);
    -(dx * dx + dy * dy + dz * dz)
}

/// The squared distance between two chunk positions, over the three axes.
pub open spec fn distance_squared(p: ChunkPos, q: ChunkPos) -> int {
    (p.x - q.x) * (p.x - q.x) + (p.y - q.y) * (p.y - q.y) + (p.z - q.z) * (p.z - q.z)
}

/// The key by which waiting chunks are ordered grows as chunks get closer to the center: a chunk
/// with a key below another's is at least as far away.
pub proof fn lemma_key_is_closeness(center: ChunkPos)
    ensures
        forall|p: ChunkPos, q: ChunkPos| #[trigger] pending_key(p, center) <= #[trigger] pending_key(q, center)
            <==> distance_squared(p, center) >= distance_squared(q, center),
{
}

/// Whether `s` is ordered by increasing [`pending_key`].
pub open spec fn sorted_by_key(s: Seq<ChunkPos>, center: ChunkPos) -> bool {
    forall|i: int, j: int| 0 <= i < j < s.len() ==> pending_key(s[i], center) <= pending_key(s[j], center)
}

/// Computes [`pending_key`].
fn pending_key_of(p: ChunkPos, center: ChunkPos) -> (r: i128)
    ensures
        r == pending_key(p, center),
{
    let dx = p.x as i128 - center.x as i128;
    let dy = p.y as i128 - center.y as i128;
    let dz = p.z as i128 - center.z as i128;
    assert(0 <= dx * dx <= 0x1_0000_0000 * 0x1_0000_0000) by (nonlinear_arith)
        requires
            -0x1_0000_0000 <= dx <= 0x1_0000_0000,
    ;
    assert(0 <= dy * dy <= 0x1_0000_0000 * 0x1_0000_0000) by (nonlinear_arith)
        requires
            -0x1_0000_0000 <= dy <= 0x1_0000_0000,
    ;
    assert(0 <= dz * dz <= 0x1_0000_0000 * 0x1_0000_0000) by (nonlinear_arith)
        requires
            -0x1_0000_0000 <= dz <= 0x1_0000_0000,
    ;
    -(dx * dx + dy * dy + dz * dz)
}

/// Contains a dynamic collection of chunks.
pub struct World {
    /// The chunks that are loaded or being generated.
    chunks: ChunkMap,
    /// The buffers used to build chunk geometry.
    chunk_build_context: ChunkBuildContext,
    /// The buffers that chunk geometry is uploaded to.
    upload_context: ChunkUploadContext,
    /// The chunks that must be submitted for generation.
    tasks_to_submit: Vec<ChunkPos>,
}

impl World {
    /// The states of the chunks of the world.
    pub closed spec fn chunk_states(&self) -> Map<(i32, i32, i32), ChunkState> {
        states(chunk_map_contents(self.chunks))
    }

    /// The number of entries of the chunk map.
    pub closed spec fn entry_count(&self) -> nat {
        chunk_map_contents(self.chunks).dom().len()
    }

    /// The chunks waiting to be submitted for generation, the last one first.
    pub closed spec fn pending(&self) -> Seq<ChunkPos> {
        self.tasks_to_submit@
    }

    /// Creates a new, empty world.
    pub fn new() -> (r: World)
        ensures
            r.chunk_states() == Map::<(i32, i32, i32), ChunkState>::empty(),
            r.entry_count() == 0,
            r.pending() == Seq::<ChunkPos>::empty(),
    {
        let r = World {
            chunks: ChunkMap::new(),
            chunk_build_context: ChunkBuildContext::new(),
            upload_context: ChunkUploadContext::new(),
            tasks_to_submit: Vec::new(),
        };
        assert(r.chunk_states() =~= Map::<(i32, i32, i32), ChunkState>::empty());
        assert(r.pending() =~= Seq::<ChunkPos>::empty());
        r
    }

    /// Returns the number of chunks that are loaded in memory or being generated.
    pub fn loaded_chunk_count(&self) -> (r: usize)
        ensures
            r == self.entry_count(),
    {
        self.chunks.len()
    }

    /// Gets the block at the provided world position, or `None` if its chunk is not loaded.
    pub fn get_block(&self, x: i32, y: i32, z: i32) -> (r: Option<BlockId>)
        ensures
            r == block_at(self.chunk_states(), x as int, y as int, z as int),
    {
        let (chunk_pos, local_pos) = chunk_and_local_pos(x, y, z);
        match self.chunks.get((chunk_pos.x, chunk_pos.y, chunk_pos.z)) {
            Some(entry) => match entry.loaded() {
                Some(chunk) => Some(chunk.data.get_block(local_pos)),
                None => None,
            },
            None => None,
        }
    }

    /// Returns the chunk at the provided position, or `None` if it is not loaded yet.
    ///
    /// This neither requests the chunk nor rebuilds its geometry when it is dirty.
    pub fn get_chunk(&self, pos: ChunkPos) -> (r: Option<&LoadedChunk>)
        ensures
            match loaded_blocks(self.chunk_states(), pos.key()) {
                Some(b) => r is Some && ChunkState::Loaded(r.unwrap()@) == self.chunk_states()[pos.key()],
                None => r is None,
            },
    {
        match self.chunks.get((pos.x, pos.y, pos.z)) {
            Some(entry) => entry.loaded(),
            None => None,
        }
    }

    /// Marks the chunk stored under `key` dirty, if it is loaded.
    fn make_dirty(&mut self, key: (i32, i32, i32))
        ensures
            final(self).chunk_states() == mark_dirty(old(self).chunk_states(), key),
            final(self).entry_count() == old(self).entry_count(),
            final(self).pending() == old(self).pending(),
    {
        let ghost old_m = chunk_map_contents(self.chunks);
        match self.chunks.get_mut(key) {
            Some(entry) => match entry {
                ChunkEntry::Loaded(chunk) => {
                    chunk.is_dirty = true;
                },
                ChunkEntry::Generating => {},
            },
            None => {},
        }
        assert(chunk_map_contents(self.chunks).dom() =~= old_m.dom());
        assert(self.chunk_states() =~= mark_dirty(states(old_m), key));
    }

    /// Replaces the block at the provided world position.
    ///
    /// Returns `true` if the block was replaced, or `false` if the position is part of a chunk
    /// that is not loaded. The chunk holding the block, and the loaded neighbours that share the
    /// face the block touches, are marked dirty.
    pub fn set_block(&mut self, x: i32, y: i32, z: i32, block: BlockId) -> (r: bool)
        ensures
            r == (loaded_blocks(
                old(self).chunk_states(),
                (chunk_coord(x as int) as i32, chunk_coord(y as int) as i32, chunk_coord(z as int) as i32),
            ) is Some),
            r ==> final(self).chunk_states() == with_block(old(self).chunk_states(), x as int, y as int, z as int, block),
            r ==> block_at(final(self).chunk_states(), x as int, y as int, z as int) == Some(block),
            r ==> forall|x2: i32, y2: i32, z2: i32| (x2, y2, z2) != (x, y, z) ==> #[trigger] block_at(
                final(self).chunk_states(),
                x2 as int,
                y2 as int,
                z2 as int,
            ) == block_at(old(self).chunk_states(), x2 as int, y2 as int, z2 as int),
            !r ==> final(self).chunk_states() == old(self).chunk_states(),
            final(self).entry_count() == old(self).entry_count(),
            final(self).pending() == old(self).pending(),
    {
        proof {
            lemma_loaded_chunks_full(self);
        }
        let ghost before = self.chunk_states();
        let (chunk_pos, local_pos) = chunk_and_local_pos(x, y, z);
        let key = (chunk_pos.x, chunk_pos.y, chunk_pos.z);
        let ghost m0 = chunk_map_contents(self.chunks);
        let loaded = match self.chunks.get(key) {
            Some(entry) => entry.loaded().is_some(),
            None => false,
        };
        if !loaded {
            return false;
        }
        match self.chunks.get_mut(key) {
            Some(entry) => match entry {
                ChunkEntry::Loaded(chunk) => {
                    chunk.data.set_block(local_pos, block);
                    chunk.is_dirty = true;
                },
                ChunkEntry::Generating => {},
            },
            None => {},
        }
        let ghost s0 = match states(m0)[key] {
            ChunkState::Loaded(s) => s,
            ChunkState::Generating => arbitrary(),
        };
        assert(chunk_map_contents(self.chunks).dom() =~= m0.dom());
        assert(self.chunk_states() =~= states(m0).insert(
            key,
            ChunkState::Loaded(LoadedState { blocks: s0.blocks.update(local_pos@ as int, block), dirty: true, ..s0 }),
        ));
        let lx = local_pos.x();
        let ly = local_pos.y();
        let lz = local_pos.z();
        if lx == 0 {
            self.make_dirty((chunk_pos.x - 1, chunk_pos.y, chunk_pos.z));
        } else if lx == crate::chunk::CHUNK_SIDE - 1 {
            self.make_dirty((chunk_pos.x + 1, chunk_pos.y, chunk_pos.z));
        }
        if ly == 0 {
            self.make_dirty((chunk_pos.x, chunk_pos.y - 1, chunk_pos.z));
        } else if ly == crate::chunk::CHUNK_SIDE - 1 {
            self.make_dirty((chunk_pos.x, chunk_pos.y + 1, chunk_pos.z));
        }
        if lz == 0 {
            self.make_dirty((chunk_pos.x, chunk_pos.y, chunk_pos.z - 1));
        } else if lz == crate::chunk::CHUNK_SIDE - 1 {
            self.make_dirty((chunk_pos.x, chunk_pos.y, chunk_pos.z + 1));
        }
        proof {
            lemma_get_after_set(before, x, y, z, block, x, y, z);
            assert forall|x2: i32, y2: i32, z2: i32| (x2, y2, z2) != (x, y, z) implies #[trigger] block_at(
                self.chunk_states(),
                x2 as int,
                y2 as int,
                z2 as int,
            ) == block_at(before, x2 as int, y2 as int, z2 as int) by {
                lemma_get_after_set(before, x, y, z, block, x2, y2, z2);
            }
        }
        true
    }

    /// Unloads the chunks that are too far from `center`: only those that [`retained`] keeps
    /// stay (horizontal squared distance below `h_radius²`, vertical distance below `v_radius`).
    ///
    /// The generator and the task pool, which live outside of this type, are cleaned up with the
    /// same predicate by [`cleanup_generation`].
    pub fn request_cleanup(&mut self, center: ChunkPos, h_radius: u32, v_radius: u32)
        ensures
            final(self).chunk_states() == old(self).chunk_states().restrict(
                old(self).chunk_states().dom().filter(|k: (i32, i32, i32)| retained(k, center, h_radius, v_radius)),
            ),
            final(self).pending() == old(self).pending(),
    {
        let ghost m0 = chunk_map_contents(self.chunks);
        self.chunks.retain_around(center, h_radius, v_radius);
        let capacity = match (h_radius as usize).checked_mul(h_radius as usize) {
            Some(a) => match a.checked_mul(v_radius as usize) {
                Some(b) => b,
                None => usize::MAX,
            },
            None => usize::MAX,
        };
        self.chunks.shrink_to(capacity);
        assert(self.chunk_states() =~= states(m0).restrict(
            states(m0).dom().filter(|k: (i32, i32, i32)| retained(k, center, h_radius, v_radius)),
        ));
    }

    /// Rebuilds the geometry of the loaded chunk at `pos`: all its blocks, then its borders when
    /// its six neighbours are loaded.
    fn rebuild(&mut self, pos: ChunkPos)
        requires
            loaded_blocks(old(self).chunk_states(), pos.key()) is Some,
            has_neighbors(pos),
        ensures
            final(self).chunk_states() == rebuilt(old(self).chunk_states(), pos),
            final(self).entry_count() == old(self).entry_count(),
            final(self).pending() == old(self).pending(),
    {
        let key = (pos.x, pos.y, pos.z);
        let ghost m0 = self.chunk_states();
        self.chunk_build_context.clear();
        match loaded_data(&self.chunks, key) {
            Some(me) => {
                self.chunk_build_context.build_inner(me);
                let x = loaded_data(&self.chunks, (pos.x + 1, pos.y, pos.z));
                let neg_x = loaded_data(&self.chunks, (pos.x - 1, pos.y, pos.z));
                let y = loaded_data(&self.chunks, (pos.x, pos.y + 1, pos.z));
                let neg_y = loaded_data(&self.chunks, (pos.x, pos.y - 1, pos.z));
                let z = loaded_data(&self.chunks, (pos.x, pos.y, pos.z + 1));
                let neg_z = loaded_data(&self.chunks, (pos.x, pos.y, pos.z - 1));
                match (x, neg_x, y, neg_y, z, neg_z) {
                    (Some(x), Some(neg_x), Some(y), Some(neg_y), Some(z), Some(neg_z)) => {
                        self.chunk_build_context.build_outer(
                            ChunkNeighborhood { me, x, neg_x, y, neg_y, z, neg_z },
                        );
                    },
                    _ => {},
                }
            },
            None => {},
        }
        assert(self.chunk_build_context.opaque_quads@ =~= built_quads(m0, pos, true));
        assert(self.chunk_build_context.transparent_quads@ =~= built_quads(m0, pos, false));
        let ghost c0 = chunk_map_contents(self.chunks);
        match self.chunks.get_mut(key) {
            Some(entry) => match entry {
                ChunkEntry::Loaded(chunk) => {
                    self.upload_context.upload(&self.chunk_build_context, &mut chunk.geometry);
                    chunk.is_dirty = false;
                },
                ChunkEntry::Generating => {},
            },
            None => {},
        }
        assert(chunk_map_contents(self.chunks).dom() =~= c0.dom());
        assert(self.chunk_states() =~= rebuilt(m0, pos));
    }

    /// Requests a chunk.
    ///
    /// If the chunk is unknown, it is recorded as being generated, queued for submission, and
    /// `None` is returned. If it is being generated, `None` is returned. If it is loaded, it is
    /// returned, after its geometry is rebuilt when it was dirty.
    pub fn request_chunk(&mut self, pos: ChunkPos) -> (r: Option<&LoadedChunk>)
        requires
            needs_rebuild(old(self).chunk_states(), pos.key()) ==> has_neighbors(pos),
        ensures
            !old(self).chunk_states().dom().contains(pos.key()) ==> {
                &&& final(self).chunk_states() == old(self).chunk_states().insert(pos.key(), ChunkState::Generating)
                &&& final(self).pending() == old(self).pending().push(pos)
                &&& r is None
            },
            old(self).chunk_states().dom().contains(pos.key()) ==> final(self).pending() == old(self).pending(),
            old(self).chunk_states().dom().contains(pos.key()) ==> match old(self).chunk_states()[pos.key()] {
                ChunkState::Generating => final(self).chunk_states() == old(self).chunk_states() && r is None,
                ChunkState::Loaded(s) => {
                    &&& !s.dirty ==> final(self).chunk_states() == old(self).chunk_states()
                    &&& s.dirty ==> final(self).chunk_states() == rebuilt(old(self).chunk_states(), pos)
                    &&& r is Some
                    &&& final(self).chunk_states()[pos.key()] == ChunkState::Loaded(r.unwrap()@)
                },
            },
    {
        let key = (pos.x, pos.y, pos.z);
        let state: u8 = match self.chunks.get(key) {
            None => 0,
            Some(entry) => match entry {
                ChunkEntry::Generating => 1,
                ChunkEntry::Loaded(chunk) => if chunk.is_dirty { 2 } else { 3 },
            },
        };
        if state == 0 {
            let ghost c0 = chunk_map_contents(self.chunks);
            self.chunks.insert(key, ChunkEntry::Generating);
            self.tasks_to_submit.push(pos);
            assert(self.chunk_states() =~= states(c0).insert(key, ChunkState::Generating));
            return None;
        }
        if state == 1 {
            return None;
        }
        if state == 2 {
            self.rebuild(pos);
        }
        assert(self.chunk_states().dom().contains(key));
        assert(self.chunk_states()[key] == chunk_map_contents(self.chunks)[key]@);
        match self.chunks.get(key) {
            Some(entry) => entry.loaded(),
            None => None,
        }
    }

    /// Receives the chunks that were generated, in order, and returns the chunks waiting to be
    /// submitted for generation (the last one is to be generated first), leaving none waiting.
    ///
    /// A received chunk is stored when it is being generated, and its loaded neighbours are then
    /// marked dirty; it is discarded when it is already loaded or no longer wanted.
    pub fn flush_pending_chunks(&mut self, outputs: Vec<(ChunkPos, Box<ChunkData>)>) -> (r: Vec<ChunkPos>)
        requires
            forall|i: int| 0 <= i < outputs@.len() && is_generating(old(self).chunk_states(), (#[trigger] outputs@[i]).0.key())
                ==> has_neighbors(outputs@[i].0),
        ensures
            final(self).chunk_states() == receive_all(old(self).chunk_states(), outputs_view(outputs@)),
            r@ == old(self).pending(),
            final(self).pending() == Seq::<ChunkPos>::empty(),
    {
        let ghost all = outputs@;
        let n = outputs.len();
        assert(all.len() == n);
        let mut rest = outputs;
        let mut i: usize = 0;
        while rest.len() > 0
            invariant
                rest@ == all.subrange(i as int, all.len() as int),
                0 <= i <= all.len(),
                i + rest@.len() == all.len(),
                all.len() <= usize::MAX,
                forall|j: int| 0 <= j < all.len() && is_generating(old(self).chunk_states(), (#[trigger] all[j]).0.key())
                    ==> has_neighbors(all[j].0),
                forall|k: (i32, i32, i32)| #[trigger] is_generating(self.chunk_states(), k) ==> is_generating(old(self).chunk_states(), k),
                self.chunk_states() == receive_all(old(self).chunk_states(), outputs_view(all.take(i as int))),
                self.pending() == old(self).pending(),
            decreases rest@.len(),
        {
            let (pos, chunk) = rest.remove(0);
            assert(all[i as int] == (pos, chunk));
            let ghost before = self.chunk_states();
            self.receive(pos, chunk);
            proof {
                assert forall|k: (i32, i32, i32)| #[trigger] is_generating(self.chunk_states(), k) implies is_generating(
                    old(self).chunk_states(),
                    k,
                ) by {
                    lemma_receive_keeps_generating(before, pos, chunk@, k);
                }
            }
            assert(outputs_view(all.take(i as int + 1)).drop_last() =~= outputs_view(all.take(i as int)));
            assert(outputs_view(all.take(i as int + 1)).last() == (pos, chunk@));
            i = i + 1;
        }
        assert(all.take(i as int) =~= all);
        let mut batch: Vec<ChunkPos> = Vec::new();
        std::mem::swap(&mut batch, &mut self.tasks_to_submit);
        batch
    }

    /// Stores a generated chunk for `pos` when it is being generated, and marks its loaded
    /// neighbours dirty; discards it otherwise.
    fn receive(&mut self, pos: ChunkPos, chunk: Box<ChunkData>)
        requires
            is_generating(old(self).chunk_states(), pos.key()) ==> has_neighbors(pos),
        ensures
            final(self).chunk_states() == receive(old(self).chunk_states(), pos, chunk@),
            final(self).pending() == old(self).pending(),
    {
        let key = (pos.x, pos.y, pos.z);
        let generating = match self.chunks.get(key) {
            Some(entry) => match entry {
                ChunkEntry::Generating => true,
                ChunkEntry::Loaded(_) => false,
            },
            None => false,
        };
        if generating {
            let ghost c0 = chunk_map_contents(self.chunks);
            self.chunks.insert(key, ChunkEntry::Loaded(LoadedChunk::new(chunk)));
            assert(self.chunk_states() =~= states(c0).insert(
                key,
                ChunkState::Loaded(LoadedState { blocks: chunk@, opaque: None, transparent: None, dirty: true }),
            ));
            self.make_dirty((pos.x + 1, pos.y, pos.z));
            self.make_dirty((pos.x - 1, pos.y, pos.z));
            self.make_dirty((pos.x, pos.y + 1, pos.z));
            self.make_dirty((pos.x, pos.y - 1, pos.z));
            self.make_dirty((pos.x, pos.y, pos.z + 1));
            self.make_dirty((pos.x, pos.y, pos.z - 1));
        }
    }

    /// Orders the chunks waiting to be submitted by decreasing distance to `center`, so that the
    /// closest chunks, which come last, are submitted first.
    pub fn sort_pending_chunks(&mut self, center: ChunkPos)
        ensures
            sorted_by_key(final(self).pending(), center),
            forall|i: int, j: int| 0 <= i < j < final(self).pending().len() ==> distance_squared(
                #[trigger] final(self).pending()[i],
                center,
            ) >= distance_squared(#[trigger] final(self).pending()[j], center),
            final(self).pending().to_multiset() == old(self).pending().to_multiset(),
            final(self).chunk_states() == old(self).chunk_states(),
            final(self).entry_count() == old(self).entry_count(),
    {
        proof {
            lemma_key_is_closeness(center);
        }
        broadcast use vstd::seq_lib::to_multiset_insert;
        let mut input: Vec<ChunkPos> = Vec::new();
        std::mem::swap(&mut input, &mut self.tasks_to_submit);
        let mut out: Vec<ChunkPos> = Vec::new();
        assert(out@ =~= input@.take(0));
        let mut i: usize = 0;
        while i < input.len()
            invariant
                0 <= i <= input@.len(),
                input@ == old(self).pending(),
                sorted_by_key(out@, center),
                out@.to_multiset() == input@.take(i as int).to_multiset(),
            decreases input@.len() - i,
        {
            let e = input[i];
            let ke = pending_key_of(e, center);
            let mut p: usize = 0;
            while p < out.len() && pending_key_of(out[p], center) <= ke
                invariant
                    0 <= p <= out@.len(),
                    sorted_by_key(out@, center),
                    ke == pending_key(e, center),
                    forall|k: int| 0 <= k < p ==> pending_key(#[trigger] out@[k], center) <= ke,
                decreases out@.len() - p,
            {
                p = p + 1;
            }
            assert(forall|k: int| p <= k < out@.len() ==> pending_key(#[trigger] out@[k], center) > ke) by {
                if p < out@.len() {
                    assert(pending_key(out@[p as int], center) > ke);
                }
            }
            let ghost before = out@;
            out.insert(p, e);
            assert(out@ == before.insert(p as int, e));
            assert(input@.take(i as int + 1) =~= input@.take(i as int).push(e));
            proof {
                vstd::seq_lib::to_multiset_build(input@.take(i as int), e);
                vstd::seq_lib::to_multiset_insert(before, p as int, e);
            }
            assert forall|a: int, b: int| 0 <= a < b < out@.len() implies pending_key(out@[a], center) <= pending_key(out@[b], center) by {
                if a < p && b < p {
                } else if a < p && b == p {
                } else if a < p {
                    assert(out@[b] == before[b - 1]);
                } else if a == p {
                    assert(out@[b] == before[b - 1]);
                } else {
                    assert(out@[a] == before[a - 1]);
                    assert(out@[b] == before[b - 1]);
                }
            }
            i = i + 1;
        }
        assert(input@.take(i as int) =~= input@);
        self.tasks_to_submit = out;
    }
}

} // verus!

verus! {

/// A world coordinate is its chunk coordinate times the chunk side plus its local coordinate,
/// which lies in `0..32`.
pub proof fn lemma_chunk_local_split(c: int)
    ensures
        chunk_coord(c) * 32 + local_coord(c) == c,
        0 <= local_coord(c) < 32,
{
}

/// Marking a chunk dirty never changes the blocks of any chunk.
pub proof fn lemma_mark_dirty_keeps_blocks(m: Map<(i32, i32, i32), ChunkState>, k: (i32, i32, i32), j: (i32, i32, i32))
    ensures
        loaded_blocks(mark_dirty(m, k), j) == loaded_blocks(m, j),
        mark_dirty(m, k).dom() == m.dom(),
{
    assert(mark_dirty(m, k).dom() =~= m.dom());
}

proof fn lemma_mark_edge_keeps_blocks(
    m: Map<(i32, i32, i32), ChunkState>,
    prev: (i32, i32, i32),
    next: (i32, i32, i32),
    c: int,
    j: (i32, i32, i32),
)
    ensures
        loaded_blocks(mark_edge(m, prev, next, c), j) == loaded_blocks(m, j),
{
    lemma_mark_dirty_keeps_blocks(m, prev, j);
    lemma_mark_dirty_keeps_blocks(m, next, j);
}

/// Every loaded chunk of a world holds a full chunk of blocks.
pub proof fn lemma_loaded_chunks_full(w: &World)
    ensures
        forall|k: (i32, i32, i32)| #[trigger] loaded_blocks(w.chunk_states(), k) is Some ==> loaded_blocks(
            w.chunk_states(),
            k,
        ).unwrap().len() == 32768,
{
    assert forall|k: (i32, i32, i32)| #[trigger] loaded_blocks(w.chunk_states(), k) is Some implies loaded_blocks(
        w.chunk_states(),
        k,
    ).unwrap().len() == 32768 by {
        let m = chunk_map_contents(w.chunks);
        if m.dom().contains(k) {
            match m[k] {
                ChunkEntry::Loaded(c) => {
                    assert(c.data@.len() == 32768);
                },
                ChunkEntry::Generating => {},
            }
        }
    }
}

/// Reading a block back after writing it gives the written block, and writing a block leaves
/// every other block of the world unchanged.
pub proof fn lemma_get_after_set(
    m: Map<(i32, i32, i32), ChunkState>,
    x: i32,
    y: i32,
    z: i32,
    block: BlockId,
    x2: i32,
    y2: i32,
    z2: i32,
)
    requires
        loaded_blocks(m, (chunk_coord(x as int) as i32, chunk_coord(y as int) as i32, chunk_coord(z as int) as i32)) matches Some(b)
            && b.len() == 32768,
    ensures
        block_at(with_block(m, x as int, y as int, z as int, block), x as int, y as int, z as int) == Some(block),
        (x2, y2, z2) != (x, y, z) ==> block_at(with_block(m, x as int, y as int, z as int, block), x2 as int, y2 as int, z2 as int)
            == block_at(m, x2 as int, y2 as int, z2 as int),
{
    let c = ChunkPos { x: chunk_coord(x as int) as i32, y: chunk_coord(y as int) as i32, z: chunk_coord(z as int) as i32 };
    let (lx, ly, lz) = (local_coord(x as int), local_coord(y as int), local_coord(z as int));
    crate::chunk::lemma_xyz_roundtrip(lx, ly, lz);
    let s = match m[c.key()] {
        ChunkState::Loaded(s) => s,
        ChunkState::Generating => arbitrary(),
    };
    let m0 = m.insert(
        c.key(),
        ChunkState::Loaded(LoadedState { blocks: s.blocks.update(xyz_index(lx, ly, lz), block), dirty: true, ..s }),
    );
    let m1 = mark_edge(m0, offset_key(c, -1, 0, 0), offset_key(c, 1, 0, 0), lx);
    let m2 = mark_edge(m1, offset_key(c, 0, -1, 0), offset_key(c, 0, 1, 0), ly);
    let m3 = mark_edge(m2, offset_key(c, 0, 0, -1), offset_key(c, 0, 0, 1), lz);
    let c2 = (chunk_coord(x2 as int) as i32, chunk_coord(y2 as int) as i32, chunk_coord(z2 as int) as i32);
    lemma_mark_edge_keeps_blocks(m0, offset_key(c, -1, 0, 0), offset_key(c, 1, 0, 0), lx, c.key());
    lemma_mark_edge_keeps_blocks(m1, offset_key(c, 0, -1, 0), offset_key(c, 0, 1, 0), ly, c.key());
    lemma_mark_edge_keeps_blocks(m2, offset_key(c, 0, 0, -1), offset_key(c, 0, 0, 1), lz, c.key());
    lemma_mark_edge_keeps_blocks(m0, offset_key(c, -1, 0, 0), offset_key(c, 1, 0, 0), lx, c2);
    lemma_mark_edge_keeps_blocks(m1, offset_key(c, 0, -1, 0), offset_key(c, 0, 1, 0), ly, c2);
    lemma_mark_edge_keeps_blocks(m2, offset_key(c, 0, 0, -1), offset_key(c, 0, 0, 1), lz, c2);
    assert(with_block(m, x as int, y as int, z as int, block) == m3);
    if (x2, y2, z2) != (x, y, z) {
        let (lx2, ly2, lz2) = (local_coord(x2 as int), local_coord(y2 as int), local_coord(z2 as int));
        lemma_chunk_local_split(x as int);
        lemma_chunk_local_split(y as int);
        lemma_chunk_local_split(z as int);
        lemma_chunk_local_split(x2 as int);
        lemma_chunk_local_split(y2 as int);
        lemma_chunk_local_split(z2 as int);
        crate::chunk::lemma_xyz_roundtrip(lx2, ly2, lz2);
        if c2 == c.key() {
            assert(xyz_index(lx, ly, lz) != xyz_index(lx2, ly2, lz2));
        }
    }
}

/// Writing a block never loads or unloads a chunk, nor changes the number of blocks of one.
pub proof fn lemma_set_keeps_chunks_loaded(
    m: Map<(i32, i32, i32), ChunkState>,
    x: int,
    y: int,
    z: int,
    block: BlockId,
    j: (i32, i32, i32),
)
    requires
        loaded_blocks(m, (chunk_coord(x) as i32, chunk_coord(y) as i32, chunk_coord(z) as i32)) is Some,
    ensures
        (loaded_blocks(with_block(m, x, y, z, block), j) is Some) == (loaded_blocks(m, j) is Some),
        j != (chunk_coord(x) as i32, chunk_coord(y) as i32, chunk_coord(z) as i32) ==> loaded_blocks(
            with_block(m, x, y, z, block),
            j,
        ) == loaded_blocks(m, j),
        loaded_blocks(m, j) matches Some(b) && b.len() == 32768 ==> loaded_blocks(
            with_block(m, x, y, z, block),
            j,
        ).unwrap().len() == 32768,
{
    let c = ChunkPos { x: chunk_coord(x) as i32, y: chunk_coord(y) as i32, z: chunk_coord(z) as i32 };
    let (lx, ly, lz) = (local_coord(x), local_coord(y), local_coord(z));
    let s = match m[c.key()] {
        ChunkState::Loaded(s) => s,
        ChunkState::Generating => arbitrary(),
    };
    let m0 = m.insert(
        c.key(),
        ChunkState::Loaded(LoadedState { blocks: s.blocks.update(xyz_index(lx, ly, lz), block), dirty: true, ..s }),
    );
    let m1 = mark_edge(m0, offset_key(c, -1, 0, 0), offset_key(c, 1, 0, 0), lx);
    let m2 = mark_edge(m1, offset_key(c, 0, -1, 0), offset_key(c, 0, 1, 0), ly);
    lemma_mark_edge_keeps_blocks(m0, offset_key(c, -1, 0, 0), offset_key(c, 1, 0, 0), lx, j);
    lemma_mark_edge_keeps_blocks(m1, offset_key(c, 0, -1, 0), offset_key(c, 0, 1, 0), ly, j);
    lemma_mark_edge_keeps_blocks(m2, offset_key(c, 0, 0, -1), offset_key(c, 0, 0, 1), lz, j);
    lemma_chunk_local_split(x);
    lemma_chunk_local_split(y);
    lemma_chunk_local_split(z);
    crate::chunk::lemma_xyz_roundtrip(lx, ly, lz);
}

/// Marking a chunk dirty never turns an entry into a chunk being generated.
proof fn lemma_mark_dirty_keeps_generating(m: Map<(i32, i32, i32), ChunkState>, k: (i32, i32, i32), j: (i32, i32, i32))
    ensures
        is_generating(mark_dirty(m, k), j) ==> is_generating(m, j),
{
}

/// Receiving a generated chunk never turns an entry into a chunk being generated.
proof fn lemma_receive_keeps_generating(
    m: Map<(i32, i32, i32), ChunkState>,
    pos: ChunkPos,
    blocks: Seq<BlockId>,
    j: (i32, i32, i32),
)
    ensures
        is_generating(receive(m, pos, blocks), j) ==> is_generating(m, j),
{
    if is_generating(m, pos.key()) {
        let m0 = m.insert(pos.key(), ChunkState::Loaded(LoadedState { blocks, opaque: None, transparent: None, dirty: true }));
        let m1 = mark_dirty(m0, offset_key(pos, 1, 0, 0));
        let m2 = mark_dirty(m1, offset_key(pos, -1, 0, 0));
        let m3 = mark_dirty(m2, offset_key(pos, 0, 1, 0));
        let m4 = mark_dirty(m3, offset_key(pos, 0, -1, 0));
        let m5 = mark_dirty(m4, offset_key(pos, 0, 0, 1));
        lemma_mark_dirty_keeps_generating(m0, offset_key(pos, 1, 0, 0), j);
        lemma_mark_dirty_keeps_generating(m1, offset_key(pos, -1, 0, 0), j);
        lemma_mark_dirty_keeps_generating(m2, offset_key(pos, 0, 1, 0), j);
        lemma_mark_dirty_keeps_generating(m3, offset_key(pos, 0, -1, 0), j);
        lemma_mark_dirty_keeps_generating(m4, offset_key(pos, 0, 0, 1), j);
        lemma_mark_dirty_keeps_generating(m5, offset_key(pos, 0, 0, -1), j);
    }
}

/// Whether the entry stored under `k` is a loaded chunk.
pub open spec fn loaded_at(m: Map<(i32, i32, i32), ChunkState>, k: (i32, i32, i32)) -> bool {
    m.dom().contains(k) && m[k] is Loaded
}

/// Whether the entry stored under `k` is a loaded chunk whose geometry must be rebuilt.
pub open spec fn dirty_at(m: Map<(i32, i32, i32), ChunkState>, k: (i32, i32, i32)) -> bool {
    &&& m.dom().contains(k)
    &&& m[k] matches ChunkState::Loaded(s) && s.dirty
}

/// Whether the entry stored under `k` is the same in `m` and `m2`.
pub open spec fn unchanged_at(
    m: Map<(i32, i32, i32), ChunkState>,
    m2: Map<(i32, i32, i32), ChunkState>,
    k: (i32, i32, i32),
) -> bool {
    &&& m2.dom().contains(k) == m.dom().contains(k)
    &&& m.dom().contains(k) ==> m2[k] == m[k]
}

/// The key of the chunk at chunk coordinates `(cx, cy, cz)`.
pub open spec fn chunk_key(cx: int, cy: int, cz: int) -> (i32, i32, i32) {
    (cx as i32, cy as i32, cz as i32)
}

/// Marking a chunk dirty: the chunk, if loaded, becomes dirty; every other entry stays as it
/// was; a dirty chunk stays dirty.
proof fn lemma_mark_dirty_effect(m: Map<(i32, i32, i32), ChunkState>, k: (i32, i32, i32), j: (i32, i32, i32))
    ensures
        j != k ==> unchanged_at(m, mark_dirty(m, k), j),
        j == k && loaded_at(m, k) ==> dirty_at(mark_dirty(m, k), j),
        dirty_at(m, j) ==> dirty_at(mark_dirty(m, k), j),
{
}

/// Writing a block marks dirty the chunk that holds it, and, on each axis, the loaded
/// neighbouring chunk that the block touches: the previous one when the block's local
/// coordinate on that axis is `0`, the next one when it is `31`. A neighbour on an axis that the
/// block does not touch on that side is left as it was.
pub proof fn lemma_set_marks_touching_neighbors(
    m: Map<(i32, i32, i32), ChunkState>,
    x: i32,
    y: i32,
    z: i32,
    block: BlockId,
)
    requires
        loaded_blocks(m, chunk_key(chunk_coord(x as int), chunk_coord(y as int), chunk_coord(z as int))) is Some,
    ensures
        ({
            let (cx, cy, cz) = (chunk_coord(x as int), chunk_coord(y as int), chunk_coord(z as int));
            let (lx, ly, lz) = (local_coord(x as int), local_coord(y as int), local_coord(z as int));
            let m2 = with_block(m, x as int, y as int, z as int, block);
            &&& dirty_at(m2, chunk_key(cx, cy, cz))
            &&& lx == 0 && loaded_at(m, chunk_key(cx - 1, cy, cz)) ==> dirty_at(m2, chunk_key(cx - 1, cy, cz))
            &&& lx != 0 ==> unchanged_at(m, m2, chunk_key(cx - 1, cy, cz))
            &&& lx == 31 && loaded_at(m, chunk_key(cx + 1, cy, cz)) ==> dirty_at(m2, chunk_key(cx + 1, cy, cz))
            &&& lx != 31 ==> unchanged_at(m, m2, chunk_key(cx + 1, cy, cz))
            &&& ly == 0 && loaded_at(m, chunk_key(cx, cy - 1, cz)) ==> dirty_at(m2, chunk_key(cx, cy - 1, cz))
            &&& ly != 0 ==> unchanged_at(m, m2, chunk_key(cx, cy - 1, cz))
            &&& ly == 31 && loaded_at(m, chunk_key(cx, cy + 1, cz)) ==> dirty_at(m2, chunk_key(cx, cy + 1, cz))
            &&& ly != 31 ==> unchanged_at(m, m2, chunk_key(cx, cy + 1, cz))
            &&& lz == 0 && loaded_at(m, chunk_key(cx, cy, cz - 1)) ==> dirty_at(m2, chunk_key(cx, cy, cz - 1))
            &&& lz != 0 ==> unchanged_at(m, m2, chunk_key(cx, cy, cz - 1))
            &&& lz == 31 && loaded_at(m, chunk_key(cx, cy, cz + 1)) ==> dirty_at(m2, chunk_key(cx, cy, cz + 1))
            &&& lz != 31 ==> unchanged_at(m, m2, chunk_key(cx, cy, cz + 1))
        }),
{
    let c = ChunkPos { x: chunk_coord(x as int) as i32, y: chunk_coord(y as int) as i32, z: chunk_coord(z as int) as i32 };
    let (lx, ly, lz) = (local_coord(x as int), local_coord(y as int), local_coord(z as int));
    let s = match m[c.key()] {
        ChunkState::Loaded(s) => s,
        ChunkState::Generating => arbitrary(),
    };
    let m0 = m.insert(
        c.key(),
        ChunkState::Loaded(LoadedState { blocks: s.blocks.update(xyz_index(lx, ly, lz), block), dirty: true, ..s }),
    );
    let m1 = mark_edge(m0, offset_key(c, -1, 0, 0), offset_key(c, 1, 0, 0), lx);
    let m2 = mark_edge(m1, offset_key(c, 0, -1, 0), offset_key(c, 0, 1, 0), ly);
    let m_z = mark_edge(m2, offset_key(c, 0, 0, -1), offset_key(c, 0, 0, 1), lz);
    assert(with_block(m, x as int, y as int, z as int, block) == m_z);
    assert(-0x400_0000 <= chunk_coord(x as int) < 0x400_0000);
    assert(-0x400_0000 <= chunk_coord(y as int) < 0x400_0000);
    assert(-0x400_0000 <= chunk_coord(z as int) < 0x400_0000);
    assert(dirty_at(m0, c.key()));
    let keys = seq![
        c.key(),
        offset_key(c, -1, 0, 0),
        offset_key(c, 1, 0, 0),
        offset_key(c, 0, -1, 0),
        offset_key(c, 0, 1, 0),
        offset_key(c, 0, 0, -1),
        offset_key(c, 0, 0, 1),
    ];
    assert forall|i: int| 0 <= i < 7 implies {
        let j = #[trigger] keys[i];
        &&& j != c.key() ==> unchanged_at(m, m0, j)
        &&& (j == c.key() ==> dirty_at(m0, j))
    } by {}
    assert forall|i: int| 0 <= i < 7 implies {
        let j = #[trigger] keys[i];
        let m1s = mark_edge(m0, offset_key(c, -1, 0, 0), offset_key(c, 1, 0, 0), lx);
        let m2s = mark_edge(m1s, offset_key(c, 0, -1, 0), offset_key(c, 0, 1, 0), ly);
        &&& lx == 0 && j == offset_key(c, -1, 0, 0) && loaded_at(m0, j) ==> dirty_at(m1s, j)
        &&& lx == 31 && j == offset_key(c, 1, 0, 0) && loaded_at(m0, j) ==> dirty_at(m1s, j)
        &&& !(lx == 0 && j == offset_key(c, -1, 0, 0)) && !(lx == 31 && j == offset_key(c, 1, 0, 0)) ==> unchanged_at(m0, m1s, j)
        &&& dirty_at(m0, j) ==> dirty_at(m1s, j)
        &&& ly == 0 && j == offset_key(c, 0, -1, 0) && loaded_at(m1s, j) ==> dirty_at(m2s, j)
        &&& ly == 31 && j == offset_key(c, 0, 1, 0) && loaded_at(m1s, j) ==> dirty_at(m2s, j)
        &&& !(ly == 0 && j == offset_key(c, 0, -1, 0)) && !(ly == 31 && j == offset_key(c, 0, 1, 0)) ==> unchanged_at(m1s, m2s, j)
        &&& dirty_at(m1s, j) ==> dirty_at(m2s, j)
        &&& lz == 0 && j == offset_key(c, 0, 0, -1) && loaded_at(m2s, j) ==> dirty_at(m_z, j)
        &&& lz == 31 && j == offset_key(c, 0, 0, 1) && loaded_at(m2s, j) ==> dirty_at(m_z, j)
        &&& !(lz == 0 && j == offset_key(c, 0, 0, -1)) && !(lz == 31 && j == offset_key(c, 0, 0, 1)) ==> unchanged_at(m2s, m_z, j)
        &&& dirty_at(m2s, j) ==> dirty_at(m_z, j)
    } by {
        let j = keys[i];
        lemma_mark_edge_effect(m0, offset_key(c, -1, 0, 0), offset_key(c, 1, 0, 0), lx, j);
        lemma_mark_edge_effect(m1, offset_key(c, 0, -1, 0), offset_key(c, 0, 1, 0), ly, j);
        lemma_mark_edge_effect(m2, offset_key(c, 0, 0, -1), offset_key(c, 0, 0, 1), lz, j);
    }
    assert(keys[0] == c.key());
    assert(keys[1] == offset_key(c, -1, 0, 0));
    assert(keys[2] == offset_key(c, 1, 0, 0));
    assert(keys[3] == offset_key(c, 0, -1, 0));
    assert(keys[4] == offset_key(c, 0, 1, 0));
    assert(keys[5] == offset_key(c, 0, 0, -1));
    assert(keys[6] == offset_key(c, 0, 0, 1));
}

/// Marking the previous chunk when `cc` is `0`, or the next one when it is `31`: the marked
/// chunk, if loaded, becomes dirty, every other entry stays as it was, and dirty chunks stay
/// dirty.
proof fn lemma_mark_edge_effect(
    m: Map<(i32, i32, i32), ChunkState>,
    prev: (i32, i32, i32),
    next: (i32, i32, i32),
    cc: int,
    j: (i32, i32, i32),
)
    ensures
        cc == 0 && j == prev && loaded_at(m, prev) ==> dirty_at(mark_edge(m, prev, next, cc), j),
        cc == 31 && j == next && loaded_at(m, next) ==> dirty_at(mark_edge(m, prev, next, cc), j),
        !(cc == 0 && j == prev) && !(cc == 31 && j == next) ==> unchanged_at(m, mark_edge(m, prev, next, cc), j),
        dirty_at(m, j) ==> dirty_at(mark_edge(m, prev, next, cc), j),
{
    lemma_mark_dirty_effect(m, prev, j);
    lemma_mark_dirty_effect(m, next, j);
}

/// A generated chunk is only stored for a chunk that is being generated: otherwise the states
/// do not change.
pub proof fn lemma_receive_ignores_unrequested(m: Map<(i32, i32, i32), ChunkState>, pos: ChunkPos, blocks: Seq<BlockId>)
    requires
        !(m.dom().contains(pos.key()) && m[pos.key()] is Generating),
    ensures
        receive(m, pos, blocks) == m,
{
}

/// A rebuilt chunk is clean and keeps its blocks.
pub proof fn lemma_rebuilt_is_clean(m: Map<(i32, i32, i32), ChunkState>, pos: ChunkPos)
    requires
        loaded_blocks(m, pos.key()) is Some,
    ensures
        rebuilt(m, pos)[pos.key()] matches ChunkState::Loaded(s) && !s.dirty && s.blocks == loaded_blocks(m, pos.key()).unwrap(),
        loaded_blocks(rebuilt(m, pos), pos.key()) == loaded_blocks(m, pos.key()),
{
}

} // verus!

verus! {

/// A world generator: it fills the chunk at a position, and may keep data of its own, which it
/// can drop for the chunks far from a center.
pub trait WorldGenerator {
    /// Generates the blocks of the chunk at `pos`.
    fn generate(&self, pos: ChunkPos) -> Box<ChunkData>;

    /// Hints the generator that the chunks that are not retained around `center` (see
    /// [`chunk_is_retained`]) are unlikely to be needed soon.
    fn request_cleanup(&self, center: ChunkPos, h_radius: u32, v_radius: u32);
}

/// The task that generates the chunk at `pos`.
pub struct GenerateChunk<G> {
    /// The generator that fills the chunk.
    pub generator: Arc<G>,
    /// The position of the chunk.
    pub pos: ChunkPos,
}

impl<G: WorldGenerator> Task for GenerateChunk<G> {
    type Output = (ChunkPos, Box<ChunkData>);

    fn execute(self) -> (r: (ChunkPos, Box<ChunkData>))
        ensures
            r.0 == self.pos,
    {
        let generator: &G = &*self.generator;
        let data = generator.generate(self.pos);
        (self.pos, data)
    }
}

/// Whether the generation task `t` is kept around `center`.
pub open spec fn task_retained<G>(t: GenerateChunk<G>, center: ChunkPos, h_radius: u32, v_radius: u32) -> bool {
    retained(t.pos.key(), center, h_radius, v_radius)
}

/// Keeping the tasks of `s` whose flag is set is filtering `s` by the predicate that sets them.
proof fn lemma_kept_is_filter<T>(s: Seq<T>, keep: Seq<bool>, pred: spec_fn(T) -> bool)
    requires
        keep.len() == s.len(),
        forall|i: int| 0 <= i < s.len() ==> keep[i] == pred(s[i]),
    ensures
        kept(s, keep) == s.filter(pred),
    decreases s.len(),
{
    reveal(Seq::filter);
    if s.len() == 0 {
        assert(s.filter(pred) =~= Seq::<T>::empty());
    } else {
        let n = s.len() - 1;
        assert forall|i: int| 0 <= i < n implies keep.take(n as int)[i] == pred(s.drop_last()[i]) by {
            assert(s.drop_last()[i] == s[i]);
        }
        lemma_kept_is_filter(s.drop_last(), keep.take(n as int), pred);
        assert(keep[n as int] == pred(s.last()));
    }
}

/// Cleans up the generation side of a world around `center`, with the predicate that
/// [`World::request_cleanup`] applies to the chunk map: the generator is told to drop its data,
/// and the single-threaded task pool keeps, in order, only the tasks for chunks that are
/// retained.
pub fn cleanup_generation<G: WorldGenerator>(
    generator: &G,
    pool: &mut NoThreads<GenerateChunk<G>>,
    center: ChunkPos,
    h_radius: u32,
    v_radius: u32,
)
    ensures
        final(pool).pending_view() == old(pool).pending_view().filter(
            |t: GenerateChunk<G>| task_retained(t, center, h_radius, v_radius),
        ),
{
    generator.request_cleanup(center, h_radius, v_radius);
    let ghost before = pool.pending_view();
    let keep_task = |t: &GenerateChunk<G>| -> (b: bool)
        ensures
            b == task_retained(*t, center, h_radius, v_radius),
        { chunk_is_retained(t.pos, center, h_radius, v_radius) };
    pool.retain_tasks(keep_task);
    proof {
        let keep = choose|keep: Seq<bool>| {
            &&& keep.len() == before.len()
            &&& forall|i: int| 0 <= i < keep.len() ==> #[trigger] keep_task.ensures((&before[i],), keep[i])
            &&& pool.pending_view() == kept(before, keep)
        };
        let pred = |t: GenerateChunk<G>| task_retained(t, center, h_radius, v_radius);
        assert forall|i: int| 0 <= i < before.len() implies keep[i] == pred(before[i]) by {
            assert(keep_task.ensures((&before[i],), keep[i]));
        }
        lemma_kept_is_filter(before, keep, pred);
    }
}

} // verus!
