use vstd::prelude::*;

use crate::block::BlockId;
use crate::geometry::ChunkGeometry;

verus! {

/// The size of a chunk in a single dimension.
pub const CHUNK_SIDE: i32 = 32;

/// The total number of blocks in a chunk.
pub const CHUNK_SIZE: usize = 32768;

/// Bits of a local index that hold the X coordinate.
const X_MASK: u16 = 0b11111;
/// Bits of a local index that hold the Y coordinate.
const Y_MASK: u16 = 0b1111100000;
/// Bits of a local index that hold the Z coordinate.
const Z_MASK: u16 = 0b111110000000000;

/// The X coordinate held by a local index.
pub open spec fn index_x(i: int) -> int {
    i % 32
}

/// The Y coordinate held by a local index.
pub open spec fn index_y(i: int) -> int {
    (i / 32) % 32
}

/// The Z coordinate held by a local index.
pub open spec fn index_z(i: int) -> int {
    i / 1024
}

/// The local index of the block at coordinates `(x, y, z)`.
pub open spec fn xyz_index(x: int, y: int, z: int) -> int {
    x + y * 32 + z * 1024
}

/// Whether `c` is a valid coordinate within a chunk.
pub open spec fn in_chunk(c: int) -> bool {
    0 <= c < 32
}

/// A local block position within a chunk.
///
/// Internally the position is a single index `x + y * 32 + z * 32 * 32`, always less than
/// [`CHUNK_SIZE`].
#[derive(Debug, Clone, Copy, PartialEq, Eq, Hash)]
pub struct LocalPos(u16);

impl View for LocalPos {
    type V = nat;

    closed spec fn view(&self) -> nat {
        self.0 as nat
    }
}

impl LocalPos {
    #[verifier::type_invariant]
    spec fn inv(self) -> bool {
        self.0 < 32768
    }

    /// The X coordinate of the position.
    pub open spec fn sx(self) -> int {
        index_x(self@ as int)
    }

    /// The Y coordinate of the position.
    pub open spec fn sy(self) -> int {
        index_y(self@ as int)
    }

    /// The Z coordinate of the position.
    pub open spec fn sz(self) -> int {
        index_z(self@ as int)
    }

    /// Creates a new [`LocalPos`] from the given index, which must be less than
    /// [`CHUNK_SIZE`].
    pub fn new_unchecked(index: usize) -> (r: LocalPos)
        requires
            index < CHUNK_SIZE,
        ensures
            r@ == index,
    {
        LocalPos(index as u16)
    }

    /// The coordinates `(x, y, z)` of the position.
    pub open spec fn coords(self) -> (int, int, int) {
        (self.sx(), self.sy(), self.sz())
    }

    /// Creates a new [`LocalPos`] from coordinates that must all lie in `0..CHUNK_SIDE`.
    pub fn from_xyz_unchecked(x: i32, y: i32, z: i32) -> (r: LocalPos)
        requires
            in_chunk(x as int),
            in_chunk(y as int),
            in_chunk(z as int),
        ensures
            r@ == xyz_index(x as int, y as int, z as int),
            r.sx() == x,
            r.sy() == y,
            r.sz() == z,
    {
        proof {
            lemma_xyz_roundtrip(x as int, y as int, z as int);
        }
        let index = x + y * CHUNK_SIDE + z * CHUNK_SIDE * CHUNK_SIDE;
        Self::new_unchecked(index as usize)
    }

    /// Creates a new [`LocalPos`] from the given coordinates, each of which must lie in
    /// `0..CHUNK_SIDE`.
    pub fn from_xyz(x: i32, y: i32, z: i32) -> (r: LocalPos)
        requires
            in_chunk(x as int),
            in_chunk(y as int),
            in_chunk(z as int),
        ensures
            r@ == xyz_index(x as int, y as int, z as int),
            r.sx() == x,
            r.sy() == y,
            r.sz() == z,
    {
        Self::from_xyz_unchecked(x, y, z)
    }

    /// Clears the X coordinate of the position.
    pub fn clear_x(&mut self)
        ensures
            final(self)@ == xyz_index(0, old(self).sy(), old(self).sz()),
            final(self).coords() == (0int, old(self).sy(), old(self).sz()),
    {
        proof {
            use_type_invariant(&*self);
            lemma_clear_x(self.0);
            lemma_index_decompose(self.0 as int);
        }
        self.0 = self.0 & !X_MASK;
        proof {
            lemma_xyz_roundtrip(0, index_y(old(self)@ as int), index_z(old(self)@ as int));
        }
    }

    /// Clears the Y coordinate of the position.
    pub fn clear_y(&mut self)
        ensures
            final(self)@ == xyz_index(old(self).sx(), 0, old(self).sz()),
            final(self).coords() == (old(self).sx(), 0int, old(self).sz()),
    {
        proof {
            use_type_invariant(&*self);
            lemma_clear_y(self.0);
            lemma_index_decompose(self.0 as int);
        }
        self.0 = self.0 & !Y_MASK;
        proof {
            lemma_xyz_roundtrip(index_x(old(self)@ as int), 0, index_z(old(self)@ as int));
        }
    }

    /// Clears the Z coordinate of the position.
    pub fn clear_z(&mut self)
        ensures
            final(self)@ == xyz_index(old(self).sx(), old(self).sy(), 0),
            final(self).coords() == (old(self).sx(), old(self).sy(), 0int),
    {
        proof {
            use_type_invariant(&*self);
            lemma_clear_z(self.0);
            lemma_index_decompose(self.0 as int);
        }
        self.0 = self.0 & !Z_MASK;
        proof {
            lemma_xyz_roundtrip(index_x(old(self)@ as int), index_y(old(self)@ as int), 0);
        }
    }

    /// Returns the X coordinate of the position.
    pub fn x(&self) -> (r: i32)
        ensures
            r == self.sx(),
            in_chunk(r as int),
    {
        proof {
            use_type_invariant(self);
            lemma_coord_bits(self.0);
        }
        (self.0 & X_MASK) as i32
    }

    /// Returns the Y coordinate of the position.
    pub fn y(&self) -> (r: i32)
        ensures
            r == self.sy(),
            in_chunk(r as int),
    {
        proof {
            use_type_invariant(self);
            lemma_coord_bits(self.0);
        }
        ((self.0 & Y_MASK) >> 5u16) as i32
    }

    /// Returns the Z coordinate of the position.
    pub fn z(&self) -> (r: i32)
        ensures
            r == self.sz(),
            in_chunk(r as int),
    {
        proof {
            use_type_invariant(self);
            lemma_coord_bits(self.0);
        }
        ((self.0 & Z_MASK) >> 10u16) as i32
    }

    /// Returns the index of the block within the chunk, always less than [`CHUNK_SIZE`].
    pub fn index(&self) -> (r: usize)
        ensures
            r == self@,
            r < CHUNK_SIZE,
    {
        proof {
            use_type_invariant(self);
        }
        self.0 as usize
    }

    /// Returns all the positions whose Y coordinate is `y`, the X coordinate varying slowest.
    pub fn iter_surface(y: i32) -> (r: Vec<LocalPos>)
        requires
            in_chunk(y as int),
        ensures
            r.len() == 1024,
            forall|i: int| 0 <= i < 1024 ==> #[trigger] r@[i]@ == xyz_index(i / 32, y as int, i % 32),
    {
        let mut r: Vec<LocalPos> = Vec::new();
        let mut x: i32 = 0;
        while x < CHUNK_SIDE
            invariant
                0 <= x <= 32,
                in_chunk(y as int),
                r.len() == x * 32,
                forall|i: int| 0 <= i < r.len() ==> #[trigger] r@[i]@ == xyz_index(i / 32, y as int, i % 32),
            decreases 32 - x,
        {
            let mut z: i32 = 0;
            while z < CHUNK_SIDE
                invariant
                    0 <= x < 32,
                    0 <= z <= 32,
                    in_chunk(y as int),
                    r.len() == x * 32 + z,
                    forall|i: int| 0 <= i < r.len() ==> #[trigger] r@[i]@ == xyz_index(i / 32, y as int, i % 32),
                decreases 32 - z,
            {
                proof {
                    lemma_split_32(x as int, z as int);
                }
                r.push(Self::from_xyz_unchecked(x, y, z));
                z = z + 1;
            }
            x = x + 1;
        }
        r
    }

    /// Returns the positions of the column that holds this position, the Y coordinate going
    /// from `0` to `CHUNK_SIDE - 1`.
    pub fn iter_column(&self) -> (r: Vec<LocalPos>)
        ensures
            r.len() == 32,
            forall|i: int| 0 <= i < 32 ==> #[trigger] r@[i]@ == xyz_index(self.sx(), i, self.sz()),
    {
        let mut this = *self;
        this.clear_y();
        proof {
            use_type_invariant(&this);
        }
        let mut r: Vec<LocalPos> = Vec::new();
        let mut y: u16 = 0;
        while y < 32
            invariant
                0 <= y <= 32,
                this@ == xyz_index(self.sx(), 0, self.sz()),
                in_chunk(self.sx()),
                in_chunk(self.sz()),
                r.len() == y,
                forall|i: int| 0 <= i < r.len() ==> #[trigger] r@[i]@ == xyz_index(self.sx(), i, self.sz()),
            decreases 32 - y,
        {
            proof {
                lemma_xyz_roundtrip(self.sx(), y as int, self.sz());
            }
            r.push(LocalPos(this.0 + y * 32));
            y = y + 1;
        }
        r
    }

    /// Returns every position of a chunk: X varies slowest, then Z, then Y.
    pub fn iter_all() -> (r: Vec<LocalPos>)
        ensures
            r.len() == CHUNK_SIZE,
            forall|k: int| 0 <= k < 32768 ==> #[trigger] r@[k]@ == all_order_index(k),
    {
        let surface = Self::iter_surface(0);
        let mut r: Vec<LocalPos> = Vec::new();
        let mut j: usize = 0;
        while j < surface.len()
            invariant
                surface.len() == 1024,
                forall|i: int| 0 <= i < 1024 ==> #[trigger] surface@[i]@ == xyz_index(i / 32, 0, i % 32),
                0 <= j <= 1024,
                r.len() == j * 32,
                forall|k: int| 0 <= k < r.len() ==> #[trigger] r@[k]@ == all_order_index(k),
            decreases 1024 - j,
        {
            let column = surface[j].iter_column();
            proof {
                lemma_split_32(j as int / 32, j as int % 32);
                lemma_xyz_roundtrip(j as int / 32, 0, j as int % 32);
            }
            let mut y: usize = 0;
            while y < 32
                invariant
                    0 <= j < 1024,
                    0 <= y <= 32,
                    column.len() == 32,
                    forall|i: int| 0 <= i < 32 ==> #[trigger] column@[i]@ == xyz_index(j as int / 32, i, j as int % 32),
                    r.len() == j * 32 + y,
                    forall|k: int| 0 <= k < r.len() ==> #[trigger] r@[k]@ == all_order_index(k),
                decreases 32 - y,
            {
                proof {
                    lemma_all_order_step(j as int, y as int);
                }
                r.push(column[y]);
                y = y + 1;
            }
            j = j + 1;
        }
        r
    }


    /// The neighbour of this position one step along +X, if it lies in the chunk.
    pub fn next_x(&self) -> (r: Option<LocalPos>)
        ensures
            r.is_some() ==> r.unwrap()@ == self@ + 1,
            r.is_some() <==> self.sx() < 31,
            r.is_some() ==> r.unwrap().coords() == (self.sx() + 1, self.sy(), self.sz()),
    {
        proof {
            use_type_invariant(self);
            lemma_index_decompose(self.0 as int);
            if self.sx() < 31 { lemma_xyz_roundtrip(self.sx() + 1, self.sy(), self.sz()); }
        }
        if self.x() < CHUNK_SIDE - 1 { Some(LocalPos(self.0 + 1)) } else { None }
    }

    /// The neighbour of this position one step along -X, if it lies in the chunk.
    pub fn prev_x(&self) -> (r: Option<LocalPos>)
        ensures
            r.is_some() ==> r.unwrap()@ == self@ - 1,
            r.is_some() <==> self.sx() > 0,
            r.is_some() ==> r.unwrap().coords() == (self.sx() - 1, self.sy(), self.sz()),
    {
        proof {
            use_type_invariant(self);
            lemma_index_decompose(self.0 as int);
            if self.sx() > 0 { lemma_xyz_roundtrip(self.sx() - 1, self.sy(), self.sz()); }
        }
        if self.x() > 0 { Some(LocalPos(self.0 - 1)) } else { None }
    }

    /// The neighbour of this position one step along +Y, if it lies in the chunk.
    pub fn next_y(&self) -> (r: Option<LocalPos>)
        ensures
            r.is_some() ==> r.unwrap()@ == self@ + 32,
            r.is_some() <==> self.sy() < 31,
            r.is_some() ==> r.unwrap().coords() == (self.sx(), self.sy() + 1, self.sz()),
    {
        proof {
            use_type_invariant(self);
            lemma_index_decompose(self.0 as int);
            if self.sy() < 31 { lemma_xyz_roundtrip(self.sx(), self.sy() + 1, self.sz()); }
        }
        if self.y() < CHUNK_SIDE - 1 { Some(LocalPos(self.0 + 32)) } else { None }
    }

    /// The neighbour of this position one step along -Y, if it lies in the chunk.
    pub fn prev_y(&self) -> (r: Option<LocalPos>)
        ensures
            r.is_some() ==> r.unwrap()@ == self@ - 32,
            r.is_some() <==> self.sy() > 0,
            r.is_some() ==> r.unwrap().coords() == (self.sx(), self.sy() - 1, self.sz()),
    {
        proof {
            use_type_invariant(self);
            lemma_index_decompose(self.0 as int);
            if self.sy() > 0 { lemma_xyz_roundtrip(self.sx(), self.sy() - 1, self.sz()); }
        }
        if self.y() > 0 { Some(LocalPos(self.0 - 32)) } else { None }
    }

    /// The neighbour of this position one step along +Z, if it lies in the chunk.
    pub fn next_z(&self) -> (r: Option<LocalPos>)
        ensures
            r.is_some() ==> r.unwrap()@ == self@ + 1024,
            r.is_some() <==> self.sz() < 31,
            r.is_some() ==> r.unwrap().coords() == (self.sx(), self.sy(), self.sz() + 1),
    {
        proof {
            use_type_invariant(self);
            lemma_index_decompose(self.0 as int);
            if self.sz() < 31 { lemma_xyz_roundtrip(self.sx(), self.sy(), self.sz() + 1); }
        }
        if self.z() < CHUNK_SIDE - 1 { Some(LocalPos(self.0 + 1024)) } else { None }
    }

    /// The neighbour of this position one step along -Z, if it lies in the chunk.
    pub fn prev_z(&self) -> (r: Option<LocalPos>)
        ensures
            r.is_some() ==> r.unwrap()@ == self@ - 1024,
            r.is_some() <==> self.sz() > 0,
            r.is_some() ==> r.unwrap().coords() == (self.sx(), self.sy(), self.sz() - 1),
    {
        proof {
            use_type_invariant(self);
            lemma_index_decompose(self.0 as int);
            if self.sz() > 0 { lemma_xyz_roundtrip(self.sx(), self.sy(), self.sz() - 1); }
        }
        if self.z() > 0 { Some(LocalPos(self.0 - 1024)) } else { None }
    }

}

} // verus!

verus! {

/// The index of the position that [`LocalPos::iter_all`] yields at step `k`.
pub open spec fn all_order_index(k: int) -> int {
    xyz_index(k / 1024, k % 32, (k / 32) % 32)
}

/// Splitting `a * 32 + b` by 32 gives `a` and `b` back, for `a` and `b` in `0..32`.
pub proof fn lemma_split_32(a: int, b: int)
    requires
        0 <= a < 32,
        0 <= b < 32,
    ensures
        (a * 32 + b) / 32 == a,
        (a * 32 + b) % 32 == b,
{
    let (u, v) = (a as u32, b as u32);
    assert(u < 32 && v < 32 ==> (u * 32 + v) / 32 == u && (u * 32 + v) % 32 == v) by (bit_vector);
}

proof fn lemma_all_order_step(j: int, y: int)
    requires
        0 <= j < 1024,
        0 <= y < 32,
    ensures
        all_order_index(j * 32 + y) == xyz_index(j / 32, y, j % 32),
{
    let (u, v) = (j as u32, y as u32);
    assert(u < 1024 && v < 32 ==> (u * 32 + v) / 1024 == u / 32 && (u * 32 + v) % 32 == v
        && ((u * 32 + v) / 32) % 32 == u % 32) by (bit_vector);
}

/// Splitting an index into its three coordinates and joining them back is the identity, and
/// each coordinate lies in `0..32`.
pub proof fn lemma_index_decompose(i: int)
    requires
        0 <= i < 32768,
    ensures
        xyz_index(index_x(i), index_y(i), index_z(i)) == i,
        in_chunk(index_x(i)),
        in_chunk(index_y(i)),
        in_chunk(index_z(i)),
{
    let u = i as u32;
    assert(u < 32768u32 ==> (u % 32) + ((u / 32) % 32) * 32 + (u / 1024) * 1024 == u
        && u / 1024 < 32) by (bit_vector);
}

/// Joining three coordinates into an index and splitting it again gives the coordinates back.
pub proof fn lemma_xyz_roundtrip(x: int, y: int, z: int)
    requires
        in_chunk(x),
        in_chunk(y),
        in_chunk(z),
    ensures
        0 <= xyz_index(x, y, z) < 32768,
        index_x(xyz_index(x, y, z)) == x,
        index_y(xyz_index(x, y, z)) == y,
        index_z(xyz_index(x, y, z)) == z,
{
    let (a, b, c) = (x as u32, y as u32, z as u32);
    assert(a < 32 && b < 32 && c < 32 ==> {
        let i = a + b * 32 + c * 1024;
        &&& i < 32768
        &&& i % 32 == a
        &&& (i / 32) % 32 == b
        &&& i / 1024 == c
    }) by (bit_vector);
}

proof fn lemma_clear_x(v: u16)
    requires
        v < 32768,
    ensures
        (v & !0b11111u16) as int == (v / 32) * 32,
        (v & !0b11111u16) < 32768,
{
    assert(v < 32768 ==> (v & !0b11111u16) == (v / 32) * 32 && (v & !0b11111u16) < 32768)
        by (bit_vector);
    assert((v / 32) * 32 == ((v / 32) % 32) * 32 + (v / 1024) * 1024) by (bit_vector);
}

proof fn lemma_clear_y(v: u16)
    requires
        v < 32768,
    ensures
        (v & !0b1111100000u16) as int == v % 32 + (v / 1024) * 1024,
        (v & !0b1111100000u16) < 32768,
{
    assert(v < 32768 ==> (v & !0b1111100000u16) == v % 32 + (v / 1024) * 1024
        && (v & !0b1111100000u16) < 32768) by (bit_vector);
}

proof fn lemma_clear_z(v: u16)
    requires
        v < 32768,
    ensures
        (v & !0b111110000000000u16) as int == v % 1024,
        (v & !0b111110000000000u16) as int == v % 32 + ((v / 32) % 32) * 32,
{
    assert(v < 32768 ==> (v & !0b111110000000000u16) == v % 1024) by (bit_vector);
    assert(v % 1024 == v % 32 + ((v / 32) % 32) * 32) by (bit_vector);
}

proof fn lemma_coord_bits(v: u16)
    requires
        v < 32768,
    ensures
        (v & 0b11111u16) as int == v % 32,
        ((v & 0b1111100000u16) >> 5u16) as int == (v / 32) % 32,
        ((v & 0b111110000000000u16) >> 10u16) as int == v / 1024,
        v / 1024 < 32,
{
    assert(v & 0b11111u16 == v % 32) by (bit_vector);
    assert((v & 0b1111100000u16) >> 5u16 == (v / 32) % 32) by (bit_vector);
    assert(v < 32768 ==> (v & 0b111110000000000u16) >> 10u16 == v / 1024 && v / 1024 < 32)
        by (bit_vector);
}

} // verus!

verus! {

/// Every position of a chunk is yielded by [`LocalPos::iter_all`]: the index `i` is yielded at
/// step `(i % 32) * 1024 + (i / 1024) * 32 + (i / 32) % 32`.
pub proof fn lemma_iter_all_covers(i: int)
    requires
        0 <= i < 32768,
    ensures
        0 <= all_order_step(i) < 32768,
        all_order_index(all_order_step(i)) == i,
{
    let u = i as u32;
    assert(u < 32768 ==> {
        let k = (u % 32) * 1024 + (u / 1024) * 32 + (u / 32) % 32;
        &&& k < 32768
        &&& k / 1024 + (k % 32) * 32 + ((k / 32) % 32) * 1024 == u
    }) by (bit_vector);
}

/// [`LocalPos::iter_all`] never yields the same position twice.
pub proof fn lemma_iter_all_distinct(k1: int, k2: int)
    requires
        0 <= k1 < 32768,
        0 <= k2 < 32768,
        k1 != k2,
    ensures
        all_order_index(k1) != all_order_index(k2),
{
    let (a, b) = (k1 as u32, k2 as u32);
    assert(a < 32768 && b < 32768 && a != b ==> a / 1024 + (a % 32) * 32 + ((a / 32) % 32) * 1024
        != b / 1024 + (b % 32) * 32 + ((b / 32) % 32) * 1024) by (bit_vector);
}

/// The step at which [`LocalPos::iter_all`] yields the index `i`.
pub open spec fn all_order_step(i: int) -> int {
    (i % 32) * 1024 + (i / 1024) * 32 + (i / 32) % 32
}

} // verus!

verus! {

/// The data of a [`Chunk`], not including its built geometry and other metadata.
pub struct ChunkData {
    /// The blocks in the chunk, indexed by [`LocalPos`].
    pub blocks: [BlockId; CHUNK_SIZE],
}

impl View for ChunkData {
    type V = Seq<BlockId>;

    open spec fn view(&self) -> Seq<BlockId> {
        self.blocks@
    }
}

impl ChunkData {
    /// Creates a new chunk whose blocks are all air.
    pub fn empty() -> (r: Box<ChunkData>)
        ensures
            r@.len() == CHUNK_SIZE,
            forall|i: int| 0 <= i < CHUNK_SIZE ==> #[trigger] r@[i] == BlockId::Air,
    {
        Box::new(ChunkData { blocks: [BlockId::Air; CHUNK_SIZE] })
    }

    /// Returns the block at the provided position.
    pub fn index(&self, pos: LocalPos) -> (r: &BlockId)
        ensures
            *r == self@[pos@ as int],
            pos@ < CHUNK_SIZE,
    {
        let i = pos.index();
        &self.blocks[i]
    }

    /// Returns the block at the provided position.
    pub fn get_block(&self, pos: LocalPos) -> (r: BlockId)
        ensures
            r == self@[pos@ as int],
            pos@ < CHUNK_SIZE,
    {
        *self.index(pos)
    }

    /// Replaces the block at the provided position.
    pub fn set_block(&mut self, pos: LocalPos, block: BlockId)
        ensures
            final(self)@ == old(self)@.update(pos@ as int, block),
            pos@ < CHUNK_SIZE,
    {
        let i = pos.index();
        self.blocks[i] = block;
    }
}

/// Stores the state of a chunk loaded in memory.
pub struct Chunk {
    /// The data of the chunk.
    pub data: Box<ChunkData>,
    /// The geometry of the chunk.
    pub geometry: ChunkGeometry,
    /// Whether the geometry of the chunk is dirty and needs to be rebuilt.
    pub dirty: bool,
}

impl Chunk {
    /// Creates a new [`Chunk`] with the given data, with no geometry built yet.
    pub fn new(data: Box<ChunkData>) -> (r: Chunk)
        ensures
            r.data == data,
            r.geometry.is_empty_spec(),
            r.dirty,
    {
        Chunk { data, geometry: ChunkGeometry::new(), dirty: true }
    }
}

} // verus!
