use vstd::prelude::*;

use std::hash::BuildHasherDefault;

use crate::block::BlockId;
use crate::chunk::{xyz_index, ChunkData, LocalPos};
use crate::world::{chunk_coord, local_coord, ChunkPos};

verus! {

/// What a standard biome places at some height of a column.
#[derive(Debug, Clone, Copy, PartialEq, Eq, Structural)]
pub enum StandardLayer {
    /// The underground block, below the dirt.
    Underground,
    /// Sand, near the sea level.
    Sand,
    /// The dirt block, between the underground and the surface.
    Dirt,
    /// The surface block, at the column's height.
    Surface,
    /// Water, below the sea level.
    Water,
    /// A prop may be placed, just above the surface.
    Prop,
    /// Nothing is placed.
    Empty,
}

/// The layer that a standard biome places at height `y` of a column whose surface is at
/// `height` and whose dirt is `dirt_depth` blocks deep.
pub open spec fn standard_layer_spec(y: int, height: int, dirt_depth: int) -> StandardLayer {
    if y <= height {
        if y < height - dirt_depth {
            StandardLayer::Underground
        } else if y <= 2 {
            StandardLayer::Sand
        } else if y < height {
            StandardLayer::Dirt
        } else {
            StandardLayer::Surface
        }
    } else if y < 0 {
        StandardLayer::Water
    } else if y == height + 1 && y >= 4 {
        StandardLayer::Prop
    } else {
        StandardLayer::Empty
    }
}

/// The layers of a standard column, by height: below the dirt the underground; the dirt layer
/// (`dirt_depth` blocks under the surface, surface included) is sand at and below `y = 2`, and
/// above that dirt topped by the surface block; above the surface, water below `y = 0`, and a
/// prop just above a surface at `y >= 3`.
pub proof fn lemma_standard_layers(y: int, height: int, dirt_depth: int)
    ensures
        (standard_layer_spec(y, height, dirt_depth) == StandardLayer::Underground) == (y <= height && y < height
            - dirt_depth),
        (standard_layer_spec(y, height, dirt_depth) == StandardLayer::Sand) == (height - dirt_depth <= y <= height
            && y <= 2),
        (standard_layer_spec(y, height, dirt_depth) == StandardLayer::Dirt) == (height - dirt_depth <= y < height
            && y > 2),
        (standard_layer_spec(y, height, dirt_depth) == StandardLayer::Surface) == (y == height && height
            - dirt_depth <= y && y > 2),
        (standard_layer_spec(y, height, dirt_depth) == StandardLayer::Water) == (height < y < 0),
        (standard_layer_spec(y, height, dirt_depth) == StandardLayer::Prop) == (y == height + 1 && y >= 4),
{
}

/// Returns the layer that a standard biome places at height `y` of a column whose surface is at
/// `height` and whose dirt is `dirt_depth` blocks deep.
pub fn standard_layer(y: i32, height: i32, dirt_depth: i32) -> (r: StandardLayer)
    ensures
        r == standard_layer_spec(y as int, height as int, dirt_depth as int),
{
    let (y, height, dirt_depth) = (y as i64, height as i64, dirt_depth as i64);
    if y <= height {
        if y < height - dirt_depth {
            StandardLayer::Underground
        } else if y <= 2 {
            StandardLayer::Sand
        } else if y < height {
            StandardLayer::Dirt
        } else {
            StandardLayer::Surface
        }
    } else if y < 0 {
        StandardLayer::Water
    } else if y == height + 1 && y >= 4 {
        StandardLayer::Prop
    } else {
        StandardLayer::Empty
    }
}

/// What the ocean biome places at some height of a column.
#[derive(Debug, Clone, Copy, PartialEq, Eq, Structural)]
pub enum OceanLayer {
    Sand,
    Stone,
    Gravel,
    Water,
    Empty,
}

/// The layer that the ocean places at height `y` of a column whose floor is at `height` under
/// `gravel` blocks of gravel.
pub open spec fn ocean_layer_spec(y: int, height: int, gravel: int) -> OceanLayer {
    if y <= height {
        if y >= -1 {
            OceanLayer::Sand
        } else if y < height - gravel {
            OceanLayer::Stone
        } else {
            OceanLayer::Gravel
        }
    } else if y < 0 {
        OceanLayer::Water
    } else {
        OceanLayer::Empty
    }
}

/// Returns the layer that the ocean places at height `y` of a column whose floor is at `height`
/// under `gravel` blocks of gravel.
pub fn ocean_layer(y: i32, height: i32, gravel: i32) -> (r: OceanLayer)
    ensures
        r == ocean_layer_spec(y as int, height as int, gravel as int),
{
    let (y, height, gravel) = (y as i64, height as i64, gravel as i64);
    if y <= height {
        if y >= -1 {
            OceanLayer::Sand
        } else if y < height - gravel {
            OceanLayer::Stone
        } else {
            OceanLayer::Gravel
        }
    } else if y < 0 {
        OceanLayer::Water
    } else {
        OceanLayer::Empty
    }
}

/// The index of the last prop whose noise value is a multiple of its probability, if any: props
/// are placed in order, each one replacing the previous.
pub open spec fn last_prop(noises: Seq<u64>, probabilities: Seq<u64>, n: int) -> Option<int>
    decreases n,
{
    if n <= 0 {
        None
    } else if noises[n - 1] % probabilities[n - 1] == 0 {
        Some(n - 1)
    } else {
        last_prop(noises, probabilities, n - 1)
    }
}

/// Returns the prop placed above the surface: the last one whose noise value is a multiple of
/// its probability. Probabilities must be positive.
pub fn select_prop(noises: &Vec<u64>, probabilities: &Vec<u64>) -> (r: Option<usize>)
    requires
        noises@.len() == probabilities@.len(),
        forall|i: int| 0 <= i < probabilities@.len() ==> #[trigger] probabilities@[i] > 0,
    ensures
        match last_prop(noises@, probabilities@, noises@.len() as int) {
            Some(i) => r == Some(i as usize),
            None => r is None,
        },
{
    let mut chosen: Option<usize> = None;
    let mut i: usize = 0;
    while i < noises.len()
        invariant
            0 <= i <= noises@.len(),
            noises@.len() == probabilities@.len(),
            forall|k: int| 0 <= k < probabilities@.len() ==> #[trigger] probabilities@[k] > 0,
            match last_prop(noises@, probabilities@, i as int) {
                Some(k) => chosen == Some(k as usize),
                None => chosen is None,
            },
        decreases noises@.len() - i,
    {
        if noises[i] % probabilities[i] == 0 {
            chosen = Some(i);
        }
        i = i + 1;
    }
    chosen
}

/// The rotation applied to a spawned structure.
#[derive(Debug, Clone, Copy, PartialEq, Eq, Structural)]
pub enum Rotation {
    Identity,
    Rotate90,
    Rotate180,
    Rotate270,
}

/// The transformation applied to a structure, from its transform noise: a rotation from the
/// noise modulo 4, and a horizontal flip when bit 5 of the noise is set.
pub fn structure_transform(noise: u64) -> (r: (Rotation, bool))
    ensures
        r.0 == match noise % 4 {
            0 => Rotation::Identity,
            1 => Rotation::Rotate90,
            2 => Rotation::Rotate180,
            _ => Rotation::Rotate270,
        },
        r.1 == ((noise / 32) % 2 == 1),
{
    let rotation = match noise % 4 % 4 {
        0 => Rotation::Identity,
        1 => Rotation::Rotate90,
        2 => Rotation::Rotate180,
        _ => Rotation::Rotate270,
    };
    assert((noise >> 5u64) & 1 == (noise / 32) % 2) by (bit_vector);
    (rotation, (noise >> 5u64) & 1 != 0)
}

/// Whether a structure rooted at a column of height `height` belongs to the chunk whose lowest
/// block is at `origin_y`.
pub fn structure_in_chunk(height: i32, origin_y: i32) -> (r: bool)
    ensures
        r == (origin_y <= height < origin_y + 32),
{
    let (height, origin_y) = (height as i64, origin_y as i64);
    !(height < origin_y || height >= origin_y + 32)
}

/// The variant of a structure set that the value noise picks: the value, truncated to a
/// `usize`, modulo the number of variants.
pub fn structure_variant(value: u64, count: usize) -> (r: usize)
    requires
        count > 0,
    ensures
        r == (value as usize) % count,
        r < count,
{
    let v: usize = #[verifier::truncate] (value as usize);
    v % count
}

/// A block position in the world.
#[derive(Debug, Clone, Copy, PartialEq, Eq, Structural, Hash)]
pub struct WorldPos {
    pub x: i32,
    pub y: i32,
    pub z: i32,
}

/// An edit that a structure applies: a block placed at a position relative to its origin.
#[derive(Debug, Clone, Copy, PartialEq, Eq, Structural)]
pub struct StructureEdit {
    pub position: WorldPos,
    pub block: BlockId,
}

/// A structure that hasn't been inserted into the world completely yet.
pub struct PendingStructure {
    /// The position of the insertion (the origin of the spawned structure in world-space).
    pub position: WorldPos,
    /// The ID of the structure.
    pub id: u32,
    /// The maximum bound of the structure, relative to its origin.
    pub bounds: WorldPos,
    /// The edits that the structure applies.
    pub edits: Vec<StructureEdit>,
}

/// The local position within the chunk at `chunk` of the world block `(x, y, z)`, if the chunk
/// holds it.
pub fn checked_local_pos(chunk: ChunkPos, x: i32, y: i32, z: i32) -> (r: Option<LocalPos>)
    ensures
        (chunk_coord(x as int) == chunk.x && chunk_coord(y as int) == chunk.y && chunk_coord(z as int) == chunk.z)
            ==> r is Some && r.unwrap()@ == xyz_index(local_coord(x as int), local_coord(y as int), local_coord(z as int)),
        !(chunk_coord(x as int) == chunk.x && chunk_coord(y as int) == chunk.y && chunk_coord(z as int) == chunk.z)
            ==> r is None,
{
    let (c, l) = crate::world::chunk_and_local_pos(x, y, z);
    if c.x == chunk.x && c.y == chunk.y && c.z == chunk.z {
        Some(l)
    } else {
        None
    }
}

/// Whether the box `[min, max)` of world blocks overlaps the chunk at `pos`.
pub open spec fn overlaps_chunk(min: (int, int, int), max: (int, int, int), pos: ChunkPos) -> bool {
    &&& min != max
    &&& chunk_coord(min.0) <= pos.x <= chunk_coord(max.0 - 1)
    &&& chunk_coord(min.1) <= pos.y <= chunk_coord(max.1 - 1)
    &&& chunk_coord(min.2) <= pos.z <= chunk_coord(max.2 - 1)
}

/// The blocks of the chunk at `pos` after the first `n` edits of a structure placed at `origin`
/// are written: each edit whose world position lies in the chunk replaces the block there.
pub open spec fn written(
    blocks: Seq<BlockId>,
    origin: WorldPos,
    edits: Seq<StructureEdit>,
    pos: ChunkPos,
    n: int,
) -> Seq<BlockId>
    decreases n,
{
    if n <= 0 {
        blocks
    } else {
        let prev = written(blocks, origin, edits, pos, n - 1);
        let e = edits[n - 1];
        let (x, y, z) = (origin.x + e.position.x, origin.y + e.position.y, origin.z + e.position.z);
        if chunk_coord(x) == pos.x && chunk_coord(y) == pos.y && chunk_coord(z) == pos.z {
            prev.update(xyz_index(local_coord(x), local_coord(y), local_coord(z)), e.block)
        } else {
            prev
        }
    }
}

impl PendingStructure {
    /// Whether each coordinate of the far corner of the structure lies above `i32::MIN`, so that
    /// the last block inside it can be computed.
    pub open spec fn max_above_min(&self) -> bool {
        &&& i32::MIN < self.position.x + self.bounds.x
        &&& i32::MIN < self.position.y + self.bounds.y
        &&& i32::MIN < self.position.z + self.bounds.z
    }

    /// Whether the sums of the position and bounds stay in the `i32` range.
    pub open spec fn bounds_fit(&self) -> bool {
        &&& i32::MIN <= self.position.x + self.bounds.x <= i32::MAX
        &&& i32::MIN <= self.position.y + self.bounds.y <= i32::MAX
        &&& i32::MIN <= self.position.z + self.bounds.z <= i32::MAX
    }

    /// The bounds of the inserted structure in world-space: its origin and its origin moved by
    /// its bounds.
    pub fn bounds(&self) -> (r: (WorldPos, WorldPos))
        requires
            self.bounds_fit(),
        ensures
            r.0 == self.position,
            r.1 == (WorldPos {
                x: (self.position.x + self.bounds.x) as i32,
                y: (self.position.y + self.bounds.y) as i32,
                z: (self.position.z + self.bounds.z) as i32,
            }),
    {
        let min = self.position;
        let max = WorldPos {
            x: self.position.x + self.bounds.x,
            y: self.position.y + self.bounds.y,
            z: self.position.z + self.bounds.z,
        };
        (min, max)
    }

    /// Returns whether this structure is at least partially part of the chunk at `pos`.
    pub fn is_part_of_chunk(&self, pos: ChunkPos) -> (r: bool)
        requires
            self.bounds_fit(),
            self.bounds != (WorldPos { x: 0, y: 0, z: 0 }) ==> self.max_above_min(),
        ensures
            r == overlaps_chunk(
                (self.position.x as int, self.position.y as int, self.position.z as int),
                (
                    self.position.x + self.bounds.x,
                    self.position.y + self.bounds.y,
                    self.position.z + self.bounds.z,
                ),
                pos,
            ),
    {
        let (min, max) = self.bounds();
        if min.x == max.x && min.y == max.y && min.z == max.z {
            return false;
        }
        let (lo, _) = crate::world::chunk_and_local_pos(min.x, min.y, min.z);
        let (hi, _) = crate::world::chunk_and_local_pos(max.x - 1, max.y - 1, max.z - 1);
        lo.x <= pos.x && pos.x <= hi.x && lo.z <= pos.z && pos.z <= hi.z && lo.y <= pos.y && pos.y <= hi.y
    }

    /// Whether every edit's world position stays in the `i32` range.
    pub open spec fn edits_fit(&self) -> bool {
        forall|i: int| 0 <= i < self.edits@.len() ==> {
            &&& i32::MIN <= self.position.x + (#[trigger] self.edits@[i]).position.x <= i32::MAX
            &&& i32::MIN <= self.position.y + self.edits@[i].position.y <= i32::MAX
            &&& i32::MIN <= self.position.z + self.edits@[i].position.z <= i32::MAX
        }
    }

    /// Writes the part of the structure that lies in the chunk at `pos`: its edits, in order.
    pub fn write_to(&self, pos: ChunkPos, chunk: &mut ChunkData)
        requires
            self.edits_fit(),
        ensures
            final(chunk)@ == written(old(chunk)@, self.position, self.edits@, pos, self.edits@.len() as int),
    {
        let mut i: usize = 0;
        while i < self.edits.len()
            invariant
                0 <= i <= self.edits@.len(),
                self.edits_fit(),
                chunk@ == written(old(chunk)@, self.position, self.edits@, pos, i as int),
            decreases self.edits@.len() - i,
        {
            let edit = self.edits[i];
            let x = self.position.x + edit.position.x;
            let y = self.position.y + edit.position.y;
            let z = self.position.z + edit.position.z;
            if let Some(local) = checked_local_pos(pos, x, y, z) {
                chunk.set_block(local, edit.block);
            }
            i = i + 1;
        }
    }
}

} // verus!

verus! {

/// The lexicographic order on world positions, X first, then Y, then Z.
pub open spec fn pos_lt(a: WorldPos, b: (int, int, int)) -> bool {
    a.x < b.0 || (a.x == b.0 && (a.y < b.1 || (a.y == b.1 && a.z < b.2)))
}

/// Whether `p` lies in the box `[min, max]` (bounds included).
pub open spec fn within(p: WorldPos, min: WorldPos, max: WorldPos) -> bool {
    &&& min.x <= p.x <= max.x
    &&& min.y <= p.y <= max.y
    &&& min.z <= p.z <= max.z
}

/// The invariant of the walk over a box at cursor `cur`.
pub open spec fn box_walk_inv(r: Seq<WorldPos>, min: WorldPos, max: WorldPos, cur: (int, int, int), idx: Map<WorldPos, int>) -> bool {
    &&& forall|k: int| 0 <= k < r.len() ==> within(#[trigger] r[k], min, max) && pos_lt(r[k], cur)
    &&& forall|i: int, j: int| 0 <= i < j < r.len() ==> pos_lt(#[trigger] r[i], (r[j].x as int, r[j].y as int, #[trigger] r[j].z as int))
    &&& forall|p: WorldPos| within(p, min, max) && pos_lt(p, cur) ==> {
        &&& #[trigger] idx.dom().contains(p)
        &&& 0 <= idx[p] < r.len()
        &&& r[idx[p]] == p
    }
}

/// Returns every block position of the box `[min, max]` (bounds included), in increasing order
/// (X, then Y, then Z).
pub fn positions_within_bounds(min: WorldPos, max: WorldPos) -> (r: Vec<WorldPos>)
    ensures
        forall|k: int| 0 <= k < r@.len() ==> within(#[trigger] r@[k], min, max),
        forall|i: int, j: int| 0 <= i < j < r@.len() ==> pos_lt(#[trigger] r@[i], (r@[j].x as int, r@[j].y as int, #[trigger] r@[j].z as int)),
        forall|p: WorldPos| #[trigger] within(p, min, max) ==> exists|k: int| 0 <= k < r@.len() && r@[k] == p,
{
    let mut r: Vec<WorldPos> = Vec::new();
    let ghost mut idx: Map<WorldPos, int> = Map::empty();
    if min.x > max.x || min.y > max.y || min.z > max.z {
        assert forall|p: WorldPos| #[trigger] within(p, min, max) implies exists|k: int| 0 <= k < r@.len() && r@[k] == p by {}
        return r;
    }
    let mut x: i64 = min.x as i64;
    while x <= max.x as i64
        invariant
            min.x <= x <= max.x + 1,
            min.y <= max.y,
            min.z <= max.z,
            box_walk_inv(r@, min, max, (x as int, min.y as int, min.z as int), idx),
        decreases max.x + 1 - x,
    {
        let mut y: i64 = min.y as i64;
        while y <= max.y as i64
            invariant
                min.x <= x <= max.x,
                min.y <= y <= max.y + 1,
                min.y <= max.y,
                min.z <= max.z,
                box_walk_inv(r@, min, max, (x as int, y as int, min.z as int), idx),
            decreases max.y + 1 - y,
        {
            let mut z: i64 = min.z as i64;
            while z <= max.z as i64
                invariant
                    min.x <= x <= max.x,
                    min.y <= y <= max.y,
                    min.z <= z <= max.z + 1,
                    min.y <= max.y,
                    min.z <= max.z,
                        box_walk_inv(r@, min, max, (x as int, y as int, z as int), idx),
                decreases max.z + 1 - z,
            {
                let p = WorldPos { x: x as i32, y: y as i32, z: z as i32 };
                let ghost old_r = r@;
                let ghost old_idx = idx;
                let ghost cur = (x as int, y as int, z as int);
                let ghost next = (x as int, y as int, z as int + 1);
                r.push(p);
                proof {
                    idx = idx.insert(p, old_r.len() as int);
                    assert forall|k: int| 0 <= k < r@.len() implies within(#[trigger] r@[k], min, max) && pos_lt(r@[k], next) by {
                        if k < old_r.len() {
                            assert(r@[k] == old_r[k]);
                        }
                    }
                    assert forall|i: int, j: int| 0 <= i < j < r@.len() implies pos_lt(#[trigger] r@[i], (r@[j].x as int, r@[j].y as int, #[trigger] r@[j].z as int)) by {
                        assert(r@[i] == old_r[i]);
                        if j < old_r.len() {
                            assert(r@[j] == old_r[j]);
                        }
                    }
                    assert forall|q: WorldPos| within(q, min, max) && pos_lt(q, next) implies {
                        &&& #[trigger] idx.dom().contains(q)
                        &&& 0 <= idx[q] < r@.len()
                        &&& r@[idx[q]] == q
                    } by {
                        if q != p {
                            assert(pos_lt(q, cur));
                            assert(old_idx.dom().contains(q));
                            assert(r@[idx[q]] == old_r[idx[q]]);
                        }
                    }
                }
                z = z + 1;
            }
            proof {
                let cur = (x as int, y as int, max.z + 1);
                let next = (x as int, y as int + 1, min.z as int);
                assert forall|k: int| 0 <= k < r@.len() implies within(#[trigger] r@[k], min, max) && pos_lt(r@[k], next) by {
                    assert(pos_lt(r@[k], cur));
                }
            }
            y = y + 1;
        }
        proof {
            let cur = (x as int, max.y + 1, min.z as int);
            let next = (x as int + 1, min.y as int, min.z as int);
            assert forall|k: int| 0 <= k < r@.len() implies within(#[trigger] r@[k], min, max) && pos_lt(r@[k], next) by {
                assert(pos_lt(r@[k], cur));
            }
        }
        x = x + 1;
    }
    proof {
        assert forall|p: WorldPos| #[trigger] within(p, min, max) implies exists|k: int| 0 <= k < r@.len() && r@[k] == p by {
            assert(pos_lt(p, (max.x + 1, min.y as int, min.z as int)));
            assert(idx.dom().contains(p));
            assert(r@[idx[p]] == p);
        }
    }
    r
}

} // verus!

verus! {

/// The key under which a pending structure is stored: its origin and its identifier, so that
/// two structures spawned at the same place are told apart.
pub open spec fn structure_key(p: PendingStructure) -> (i32, i32, i32, u32) {
    (p.position.x, p.position.y, p.position.z, p.id)
}

/// The map from structure keys to the structures not yet written, held in a `hashbrown` map.
#[verifier::external_body]
pub struct PendingMap {
    inner: hashbrown::HashMap<(i32, i32, i32, u32), PendingStructure, BuildHasherDefault<rustc_hash::FxHasher>>,
}

/// A pending map with no structures.
pub open spec fn no_pending_structures() -> Map<(i32, i32, i32, u32), PendingStructure> {
    Map::empty()
}

/// The structures that a pending map holds.
pub uninterp spec fn pending_map_contents(m: PendingMap) -> Map<(i32, i32, i32, u32), PendingStructure>;

impl PendingMap {
    /// Creates an empty map (`hashbrown::HashMap::default`).
    #[verifier::external_body]
    pub(crate) fn new() -> (r: PendingMap)
        ensures
            pending_map_contents(r) == no_pending_structures(),
    {
        PendingMap { inner: hashbrown::HashMap::default() }
    }

    /// Stores `value` under `key`, returning the structure it replaces
    /// (`hashbrown::HashMap::insert`).
    #[verifier::external_body]
    pub(crate) fn insert(&mut self, key: (i32, i32, i32, u32), value: PendingStructure) -> (r: Option<PendingStructure>)
        ensures
            pending_map_contents(*final(self)) == pending_map_contents(*old(self)).insert(key, value),
            pending_map_contents(*old(self)).dom().contains(key) ==> r == Some(pending_map_contents(*old(self))[key]),
            !pending_map_contents(*old(self)).dom().contains(key) ==> r is None,
    {
        self.inner.insert(key, value)
    }

    /// The structure stored under `key`, if any (`hashbrown::HashMap::get`).
    #[verifier::external_body]
    pub(crate) fn get(&self, key: (i32, i32, i32, u32)) -> (r: Option<&PendingStructure>)
        ensures
            pending_map_contents(*self).dom().contains(key) ==> r == Some(&pending_map_contents(*self)[key]),
            !pending_map_contents(*self).dom().contains(key) ==> r is None,
    {
        self.inner.get(&key)
    }

    /// The keys of the map, each once, in the order in which the map walks them
    /// (`hashbrown::HashMap::keys`). That order is not stated.
    #[verifier::external_body]
    pub(crate) fn keys(&self) -> (r: Vec<(i32, i32, i32, u32)>)
        ensures
            r@.no_duplicates(),
            forall|k: (i32, i32, i32, u32)| r@.contains(k) <==> pending_map_contents(*self).dom().contains(k),
    {
        self.inner.keys().copied().collect()
    }
}

/// Whether the arithmetic on a structure's position, bounds and edits stays in the `i32` range.
pub open spec fn structure_fits(p: PendingStructure) -> bool {
    &&& p.bounds_fit()
    &&& p.bounds != (WorldPos { x: 0, y: 0, z: 0 }) ==> p.max_above_min()
    &&& p.edits_fit()
}

/// The blocks of the chunk at `pos` after the structures stored under the first `n` keys of
/// `keys` are written, in that order: each one that overlaps the chunk writes its edits.
pub open spec fn written_structures(
    blocks: Seq<BlockId>,
    structures: Map<(i32, i32, i32, u32), PendingStructure>,
    keys: Seq<(i32, i32, i32, u32)>,
    pos: ChunkPos,
    n: int,
) -> Seq<BlockId>
    decreases n,
{
    if n <= 0 {
        blocks
    } else {
        let prev = written_structures(blocks, structures, keys, pos, n - 1);
        let p = structures[keys[n - 1]];
        let min = (p.position.x as int, p.position.y as int, p.position.z as int);
        let max = (p.position.x + p.bounds.x, p.position.y + p.bounds.y, p.position.z + p.bounds.z);
        if overlaps_chunk(min, max, pos) {
            written(prev, p.position, p.edits@, pos, p.edits@.len() as int)
        } else {
            prev
        }
    }
}

/// Whether `keys` lists every key of `structures` exactly once.
pub open spec fn lists_keys_once(
    keys: Seq<(i32, i32, i32, u32)>,
    structures: Map<(i32, i32, i32, u32), PendingStructure>,
) -> bool {
    &&& keys.no_duplicates()
    &&& forall|k: (i32, i32, i32, u32)| keys.contains(k) <==> structures.dom().contains(k)
}

/// Stores the structures that haven't been written into the world yet.
pub struct StructureRegistry {
    /// The pending structures, by key.
    pending: PendingMap,
}

impl StructureRegistry {
    /// The pending structures, by key.
    pub closed spec fn structures(&self) -> Map<(i32, i32, i32, u32), PendingStructure> {
        pending_map_contents(self.pending)
    }

    /// Whether every pending structure can be written without overflow.
    pub open spec fn wf(&self) -> bool {
        forall|k: (i32, i32, i32, u32)| #[trigger] self.structures().dom().contains(k) ==> structure_fits(
            self.structures()[k],
        )
    }

    /// Creates a registry with no pending structure.
    pub fn new() -> (r: StructureRegistry)
        ensures
            r.structures() == Map::<(i32, i32, i32, u32), PendingStructure>::empty(),
            r.wf(),
    {
        StructureRegistry { pending: PendingMap::new() }
    }

    /// Inserts a structure into the registry, replacing the one with the same key.
    pub fn insert(&mut self, structure: PendingStructure)
        ensures
            final(self).structures() == old(self).structures().insert(structure_key(structure), structure),
            old(self).wf() && structure_fits(structure) ==> final(self).wf(),
    {
        let key = (structure.position.x, structure.position.y, structure.position.z, structure.id);
        let _ = self.pending.insert(key, structure);
        assert(old(self).wf() && structure_fits(structure) ==> self.wf()) by {
            if old(self).wf() && structure_fits(structure) {
                assert forall|k: (i32, i32, i32, u32)| #[trigger] self.structures().dom().contains(k) implies structure_fits(
                    self.structures()[k],
                ) by {
                    if k != key {
                        assert(old(self).structures().dom().contains(k));
                    }
                }
            }
        }
    }

    /// Writes into the chunk at `pos` the part of every pending structure that lies in it.
    ///
    /// The structures are written in the order in which the map walks them, which is not stated:
    /// where two of them write the same block, the one written last wins.
    pub fn write_chunk(&self, pos: ChunkPos, chunk: &mut ChunkData)
        requires
            self.wf(),
        ensures
            exists|keys: Seq<(i32, i32, i32, u32)>| {
                &&& lists_keys_once(keys, self.structures())
                &&& final(chunk)@ == written_structures(old(chunk)@, self.structures(), keys, pos, keys.len() as int)
            },
    {
        let keys = self.pending.keys();
        let mut i: usize = 0;
        while i < keys.len()
            invariant
                0 <= i <= keys@.len(),
                self.wf(),
                forall|k: (i32, i32, i32, u32)| keys@.contains(k) <==> self.structures().dom().contains(k),
                chunk@ == written_structures(old(chunk)@, self.structures(), keys@, pos, i as int),
            decreases keys@.len() - i,
        {
            let key = keys[i];
            assert(keys@.contains(key));
            match self.pending.get(key) {
                Some(p) => {
                    assert(structure_fits(*p));
                    if p.is_part_of_chunk(pos) {
                        p.write_to(pos, chunk);
                    }
                },
                None => {},
            }
            i = i + 1;
        }
        assert(lists_keys_once(keys@, self.structures()));
    }
}

} // verus!
