use vstd::prelude::*;

use crate::chunk::LocalPos;

verus! {

/// The size of a chunk column side.
pub const COLUMN_SIDE: i32 = 32;

/// The total number of columns in a chunk column.
pub const COLUMN_SIZE: usize = 1024;

/// A position within a column of chunks: an index `x + z * 32`, always less than
/// [`COLUMN_SIZE`].
#[derive(Debug, Clone, Copy, PartialEq, Eq, Hash, PartialOrd, Ord)]
pub struct ColumnPos(u16);

impl View for ColumnPos {
    type V = nat;

    closed spec fn view(&self) -> nat {
        self.0 as nat
    }
}

/// The column index of the column at `(x, z)`.
pub open spec fn column_index(x: int, z: int) -> int {
    x + z * 32
}

impl ColumnPos {
    #[verifier::type_invariant]
    spec fn inv(self) -> bool {
        self.0 < 1024
    }

    /// Computes the [`ColumnPos`] of the provided world position `(x, z)` within its column.
    pub fn from_world_pos(x: i32, z: i32) -> (r: ColumnPos)
        ensures
            r@ == column_index(x as int % 32, z as int % 32),
            r@ < COLUMN_SIZE,
    {
        let lx = x.checked_rem_euclid(COLUMN_SIDE).unwrap();
        let lz = z.checked_rem_euclid(COLUMN_SIDE).unwrap();
        let index = lx + lz * COLUMN_SIDE;
        ColumnPos(index as u16)
    }

    /// The position of the column that holds the local position `v`.
    pub closed spec fn of_local(v: LocalPos) -> ColumnPos {
        ColumnPos(column_index(v.sx(), v.sz()) as u16)
    }

    /// Creates the [`ColumnPos`] of the column that holds the provided local position.
    pub fn from_local_pos(pos: LocalPos) -> (r: ColumnPos)
        ensures
            r == ColumnPos::of_local(pos),
            r@ == column_index(pos.sx(), pos.sz()),
            r@ < COLUMN_SIZE,
    {
        let index = pos.x() + pos.z() * crate::chunk::CHUNK_SIDE;
        ColumnPos(index as u16)
    }

    /// Returns the index value for that position.
    pub fn index(self) -> (r: usize)
        ensures
            r == self@,
            r < COLUMN_SIZE,
    {
        proof {
            use_type_invariant(&self);
        }
        self.0 as usize
    }

    /// Returns every [`ColumnPos`], in increasing index order.
    pub fn iter_all() -> (r: Vec<ColumnPos>)
        ensures
            r.len() == COLUMN_SIZE,
            forall|i: int| 0 <= i < 1024 ==> #[trigger] r@[i]@ == i,
    {
        let mut r: Vec<ColumnPos> = Vec::new();
        let mut i: u16 = 0;
        while i < 1024
            invariant
                0 <= i <= 1024,
                r.len() == i,
                forall|k: int| 0 <= k < i ==> #[trigger] r@[k]@ == k,
            decreases 1024 - i,
        {
            r.push(ColumnPos(i));
            i = i + 1;
        }
        r
    }

    /// Returns the X coordinate of the position.
    pub fn x(self) -> (r: i32)
        ensures
            r == self@ % 32,
            0 <= r < 32,
    {
        proof {
            use_type_invariant(&self);
        }
        self.index() as i32 % COLUMN_SIDE
    }

    /// Returns the Z coordinate of the position.
    pub fn z(self) -> (r: i32)
        ensures
            r == self@ / 32,
            0 <= r < 32,
    {
        proof {
            use_type_invariant(&self);
        }
        self.index() as i32 / COLUMN_SIDE
    }

    /// Adds `x` to the X coordinate of the position; the resulting X coordinate must lie in
    /// `0..COLUMN_SIDE`.
    pub fn add_x_unchecked(self, x: i32) -> (r: ColumnPos)
        requires
            0 <= self@ % 32 + x < 32,
        ensures
            r@ == self@ + x,
    {
        proof {
            use_type_invariant(&self);
        }
        let v = self.0;
        assert(-1024 < x < 1024 ==> (x as u16) as int == if x >= 0 { x as int } else { x + 65536 })
            by (bit_vector);
        ColumnPos(self.0.wrapping_add(x as u16))
    }

    /// Adds `z` to the Z coordinate of the position; the resulting Z coordinate must lie in
    /// `0..COLUMN_SIDE`.
    pub fn add_z_unchecked(self, z: i32) -> (r: ColumnPos)
        requires
            0 <= self@ / 32 + z < 32,
        ensures
            r@ == self@ + z * 32,
    {
        proof {
            use_type_invariant(&self);
        }
        let v = self.0;
        let zs = z * COLUMN_SIDE;
        assert(-1024 < zs < 1024 ==> (zs as u16) as int == if zs >= 0 { zs as int } else { zs + 65536 })
            by (bit_vector);
        ColumnPos(self.0.wrapping_add(zs as u16))
    }

    /// Returns the X and Z coordinates of the position.
    pub fn to_vec2(self) -> (r: (i32, i32))
        ensures
            r.0 == self@ % 32,
            r.1 == self@ / 32,
    {
        (self.x(), self.z())
    }
}

impl From<LocalPos> for ColumnPos {
    fn from(value: LocalPos) -> (r: ColumnPos)
        ensures
            r == ColumnPos::of_local(value),
            r@ == column_index(value.sx(), value.sz()),
    {
        ColumnPos::from_local_pos(value)
    }
}

impl vstd::std_specs::convert::FromSpecImpl<LocalPos> for ColumnPos {
    open spec fn obeys_from_spec() -> bool {
        true
    }

    open spec fn from_spec(v: LocalPos) -> ColumnPos {
        ColumnPos::of_local(v)
    }
}

/// A store of one value per column of a chunk column, indexed by [`ColumnPos`].
#[derive(Debug, Clone, Copy)]
pub struct ColumnStore<T>(pub [T; COLUMN_SIZE]);

impl<T> View for ColumnStore<T> {
    type V = Seq<T>;

    open spec fn view(&self) -> Seq<T> {
        self.0@
    }
}

impl<T: Copy> ColumnStore<T> {
    /// Creates a new [`ColumnStore`] that holds `val` for every column.
    pub fn new(val: T) -> (r: ColumnStore<T>)
        ensures
            r@.len() == COLUMN_SIZE,
            forall|i: int| 0 <= i < 1024 ==> #[trigger] r@[i] == val,
    {
        ColumnStore([val; COLUMN_SIZE])
    }

    /// Returns the value stored for the provided column.
    pub fn index(&self, pos: ColumnPos) -> (r: &T)
        ensures
            *r == self@[pos@ as int],
            pos@ < COLUMN_SIZE,
    {
        &self.0[pos.index()]
    }

    /// Replaces the value stored for the provided column.
    pub fn set(&mut self, pos: ColumnPos, val: T)
        ensures
            final(self)@ == old(self)@.update(pos@ as int, val),
            pos@ < COLUMN_SIZE,
    {
        let i = pos.index();
        self.0[i] = val;
    }
}

} // verus!
