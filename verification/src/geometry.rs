use vstd::prelude::*;

use crate::block::{block_info, BlockAppearance, BlockId, BlockTransparency, TextureId};
use crate::chunk::{all_order_index, index_x, index_y, index_z, in_chunk, lemma_xyz_roundtrip, xyz_index, ChunkData, LocalPos};

verus! {

/// The built geometry of a chunk: the quad instances to draw, split between opaque and
/// transparent ones.
///
/// A list is `None` when it was never built or when it is empty.
pub struct ChunkGeometry {
    /// The opaque quad instances of the chunk.
    pub opaque_quads: Option<Vec<QuadInstance>>,
    /// The transparent quad instances of the chunk.
    pub transparent_quads: Option<Vec<QuadInstance>>,
}

impl ChunkGeometry {
    /// Whether the chunk holds no geometry.
    pub open spec fn is_empty_spec(&self) -> bool {
        self.opaque_quads is None && self.transparent_quads is None
    }

    /// Creates a new [`ChunkGeometry`] with no built geometry.
    pub fn new() -> (r: ChunkGeometry)
        ensures
            r.is_empty_spec(),
    {
        ChunkGeometry { opaque_quads: None, transparent_quads: None }
    }

    /// Returns whether the chunk contains no geometry.
    pub fn is_empty(&self) -> (r: bool)
        ensures
            r == self.is_empty_spec(),
    {
        self.opaque_quads.is_none() && self.transparent_quads.is_none()
    }
}

/// A quad to draw: one face of one block.
#[derive(Debug, Clone, Copy, PartialEq, Eq, Structural)]
pub struct QuadInstance {
    /// The index, within its chunk, of the block that the quad belongs to.
    pub index: u16,
    /// The face of the block that the quad covers.
    pub face: Face,
    /// Which edges of the quad are darkened by ambient occlusion.
    pub occlusion: Occlusion,
    /// The texture drawn on the quad.
    pub texture: TextureId,
}

/// The edges of a quad that are occluded by an opaque neighbour.
#[derive(Debug, Clone, Copy, PartialEq, Eq, Structural)]
pub struct Occlusion {
    pub left: bool,
    pub right: bool,
    pub bottom: bool,
    pub top: bool,
}

/// A face of a block.
#[derive(Debug, Clone, Copy, PartialEq, Eq, Structural, Hash)]
pub enum Face {
    X,
    NegX,
    Y,
    NegY,
    Z,
    NegZ,
}

} // verus!

verus! {

/// The index of the block next to the block at index `i` across face `f`, if it lies in the
/// same chunk.
pub open spec fn neighbor(i: int, f: Face) -> Option<int> {
    match f {
        Face::X => if index_x(i) < 31 { Some(i + 1) } else { None },
        Face::NegX => if index_x(i) > 0 { Some(i - 1) } else { None },
        Face::Y => if index_y(i) < 31 { Some(i + 32) } else { None },
        Face::NegY => if index_y(i) > 0 { Some(i - 32) } else { None },
        Face::Z => if index_z(i) < 31 { Some(i + 1024) } else { None },
        Face::NegZ => if index_z(i) > 0 { Some(i - 1024) } else { None },
    }
}

/// Whether a face of `me` against `other` is hidden.
pub open spec fn is_culled(me: BlockId, other: BlockId) -> bool {
    block_info(me).transparency == BlockTransparency::Invisible
        || block_info(other).transparency == BlockTransparency::Opaque
}

/// Whether face `f` of the block at index `i` is hidden. Faces on the border of the chunk are
/// always considered hidden.
pub open spec fn face_culled(blocks: Seq<BlockId>, i: int, f: Face) -> bool {
    match neighbor(i, f) {
        None => true,
        Some(n) => is_culled(blocks[i], blocks[n]),
    }
}

/// Whether the block at the optional index is opaque.
pub open spec fn opaque_at(blocks: Seq<BlockId>, o: Option<int>) -> bool {
    match o {
        Some(n) => block_info(blocks[n]).transparency == BlockTransparency::Opaque,
        None => false,
    }
}

/// The occlusion computed around index `n` from the four neighbours in the given directions.
pub open spec fn occlusion_around(
    blocks: Seq<BlockId>,
    n: int,
    left: Face,
    right: Face,
    bottom: Face,
    top: Face,
) -> Occlusion {
    Occlusion {
        left: opaque_at(blocks, neighbor(n, left)),
        right: opaque_at(blocks, neighbor(n, right)),
        bottom: opaque_at(blocks, neighbor(n, bottom)),
        top: opaque_at(blocks, neighbor(n, top)),
    }
}

/// The ambient occlusion of a face `f` whose facing block is at index `n`.
pub open spec fn face_occlusion(blocks: Seq<BlockId>, n: int, f: Face) -> Occlusion {
    match f {
        Face::X => occlusion_around(blocks, n, Face::NegZ, Face::Z, Face::NegY, Face::Y),
        Face::NegX => occlusion_around(blocks, n, Face::Z, Face::NegZ, Face::NegY, Face::Y),
        Face::Y => occlusion_around(blocks, n, Face::NegX, Face::X, Face::NegZ, Face::Z),
        Face::NegY => occlusion_around(blocks, n, Face::NegX, Face::X, Face::Z, Face::NegZ),
        Face::Z => occlusion_around(blocks, n, Face::X, Face::NegX, Face::NegY, Face::Y),
        Face::NegZ => occlusion_around(blocks, n, Face::NegX, Face::X, Face::NegY, Face::Y),
    }
}

/// No edge occluded.
pub open spec fn no_occlusion() -> Occlusion {
    Occlusion { left: false, right: false, bottom: false, top: false }
}

/// The quad of face `f` of the block at index `i`, drawn with texture `tex`.
pub open spec fn regular_quad(blocks: Seq<BlockId>, i: int, f: Face, tex: TextureId) -> QuadInstance {
    QuadInstance {
        index: i as u16,
        face: f,
        occlusion: match neighbor(i, f) {
            Some(n) => face_occlusion(blocks, n, f),
            None => no_occlusion(),
        },
        texture: tex,
    }
}

/// Returns whether a face of `me` against `other` should be culled.
pub fn is_face_culled(me: BlockId, other: BlockId) -> (r: bool)
    ensures
        r == is_culled(me, other),
{
    me.info().transparency == BlockTransparency::Invisible
        || other.info().transparency == BlockTransparency::Opaque
}

/// Whether the block at the optional position is opaque.
fn is_opaque_at(chunk: &ChunkData, pos: Option<LocalPos>) -> (r: bool)
    requires
        chunk@.len() == 32768,
    ensures
        r == opaque_at(chunk@, match pos { Some(p) => Some(p@ as int), None => None }),
{
    match pos {
        Some(p) => chunk.get_block(p).info().transparency == BlockTransparency::Opaque,
        None => false,
    }
}

/// Computes the ambient occlusion of a block face from its four neighbours.
pub fn compute_ambient_occlusion(
    chunk: &ChunkData,
    left: Option<LocalPos>,
    right: Option<LocalPos>,
    bottom: Option<LocalPos>,
    top: Option<LocalPos>,
) -> (r: Occlusion)
    requires
        chunk@.len() == 32768,
    ensures
        r.left == opaque_at(chunk@, match left { Some(p) => Some(p@ as int), None => None }),
        r.right == opaque_at(chunk@, match right { Some(p) => Some(p@ as int), None => None }),
        r.bottom == opaque_at(chunk@, match bottom { Some(p) => Some(p@ as int), None => None }),
        r.top == opaque_at(chunk@, match top { Some(p) => Some(p@ as int), None => None }),
{
    let mut flags = Occlusion { left: false, right: false, bottom: false, top: false };
    if is_opaque_at(chunk, left) {
        flags.left = true;
    }
    if is_opaque_at(chunk, right) {
        flags.right = true;
    }
    if is_opaque_at(chunk, bottom) {
        flags.bottom = true;
    }
    if is_opaque_at(chunk, top) {
        flags.top = true;
    }
    flags
}

/// Computes the ambient occlusion flags for a face facing the X direction, whose facing block
/// is at `pos`.
pub fn compute_ambient_occlusion_x(chunk: &ChunkData, pos: LocalPos) -> (r: Occlusion)
    requires
        chunk@.len() == 32768,
    ensures
        r == face_occlusion(chunk@, pos@ as int, Face::X),
{
    compute_ambient_occlusion(chunk, pos.prev_z(), pos.next_z(), pos.prev_y(), pos.next_y())
}

/// Computes the ambient occlusion flags for a face facing the NegX direction, whose facing block
/// is at `pos`.
pub fn compute_ambient_occlusion_neg_x(chunk: &ChunkData, pos: LocalPos) -> (r: Occlusion)
    requires
        chunk@.len() == 32768,
    ensures
        r == face_occlusion(chunk@, pos@ as int, Face::NegX),
{
    compute_ambient_occlusion(chunk, pos.next_z(), pos.prev_z(), pos.prev_y(), pos.next_y())
}

/// Computes the ambient occlusion flags for a face facing the Y direction, whose facing block
/// is at `pos`.
pub fn compute_ambient_occlusion_y(chunk: &ChunkData, pos: LocalPos) -> (r: Occlusion)
    requires
        chunk@.len() == 32768,
    ensures
        r == face_occlusion(chunk@, pos@ as int, Face::Y),
{
    compute_ambient_occlusion(chunk, pos.prev_x(), pos.next_x(), pos.prev_z(), pos.next_z())
}

/// Computes the ambient occlusion flags for a face facing the NegY direction, whose facing block
/// is at `pos`.
pub fn compute_ambient_occlusion_neg_y(chunk: &ChunkData, pos: LocalPos) -> (r: Occlusion)
    requires
        chunk@.len() == 32768,
    ensures
        r == face_occlusion(chunk@, pos@ as int, Face::NegY),
{
    compute_ambient_occlusion(chunk, pos.prev_x(), pos.next_x(), pos.next_z(), pos.prev_z())
}

/// Computes the ambient occlusion flags for a face facing the Z direction, whose facing block
/// is at `pos`.
pub fn compute_ambient_occlusion_z(chunk: &ChunkData, pos: LocalPos) -> (r: Occlusion)
    requires
        chunk@.len() == 32768,
    ensures
        r == face_occlusion(chunk@, pos@ as int, Face::Z),
{
    compute_ambient_occlusion(chunk, pos.next_x(), pos.prev_x(), pos.prev_y(), pos.next_y())
}

/// Computes the ambient occlusion flags for a face facing the NegZ direction, whose facing block
/// is at `pos`.
pub fn compute_ambient_occlusion_neg_z(chunk: &ChunkData, pos: LocalPos) -> (r: Occlusion)
    requires
        chunk@.len() == 32768,
    ensures
        r == face_occlusion(chunk@, pos@ as int, Face::NegZ),
{
    compute_ambient_occlusion(chunk, pos.prev_x(), pos.next_x(), pos.prev_y(), pos.next_y())
}

/// Builds a face facing the X direction of a block with the "Regular" appearance.
pub fn build_regular_face_x(tex: TextureId, chunk: &ChunkData, pos: LocalPos, out: &mut Vec<QuadInstance>)
    requires
        chunk@.len() == 32768,
    ensures
        final(out)@ == old(out)@.push(regular_quad(chunk@, pos@ as int, Face::X, tex)),
{
    let index = pos.index() as u16;
    let mut occlusion = Occlusion { left: false, right: false, bottom: false, top: false };
    if let Some(n) = pos.next_x() {
        occlusion = compute_ambient_occlusion_x(chunk, n);
    }
    out.push(QuadInstance { index, face: Face::X, occlusion, texture: tex });
}

/// Builds a face facing the NegX direction of a block with the "Regular" appearance.
pub fn build_regular_face_neg_x(tex: TextureId, chunk: &ChunkData, pos: LocalPos, out: &mut Vec<QuadInstance>)
    requires
        chunk@.len() == 32768,
    ensures
        final(out)@ == old(out)@.push(regular_quad(chunk@, pos@ as int, Face::NegX, tex)),
{
    let index = pos.index() as u16;
    let mut occlusion = Occlusion { left: false, right: false, bottom: false, top: false };
    if let Some(n) = pos.prev_x() {
        occlusion = compute_ambient_occlusion_neg_x(chunk, n);
    }
    out.push(QuadInstance { index, face: Face::NegX, occlusion, texture: tex });
}

/// Builds a face facing the Y direction of a block with the "Regular" appearance.
pub fn build_regular_face_y(tex: TextureId, chunk: &ChunkData, pos: LocalPos, out: &mut Vec<QuadInstance>)
    requires
        chunk@.len() == 32768,
    ensures
        final(out)@ == old(out)@.push(regular_quad(chunk@, pos@ as int, Face::Y, tex)),
{
    let index = pos.index() as u16;
    let mut occlusion = Occlusion { left: false, right: false, bottom: false, top: false };
    if let Some(n) = pos.next_y() {
        occlusion = compute_ambient_occlusion_y(chunk, n);
    }
    out.push(QuadInstance { index, face: Face::Y, occlusion, texture: tex });
}

/// Builds a face facing the NegY direction of a block with the "Regular" appearance.
pub fn build_regular_face_neg_y(tex: TextureId, chunk: &ChunkData, pos: LocalPos, out: &mut Vec<QuadInstance>)
    requires
        chunk@.len() == 32768,
    ensures
        final(out)@ == old(out)@.push(regular_quad(chunk@, pos@ as int, Face::NegY, tex)),
{
    let index = pos.index() as u16;
    let mut occlusion = Occlusion { left: false, right: false, bottom: false, top: false };
    if let Some(n) = pos.prev_y() {
        occlusion = compute_ambient_occlusion_neg_y(chunk, n);
    }
    out.push(QuadInstance { index, face: Face::NegY, occlusion, texture: tex });
}

/// Builds a face facing the Z direction of a block with the "Regular" appearance.
pub fn build_regular_face_z(tex: TextureId, chunk: &ChunkData, pos: LocalPos, out: &mut Vec<QuadInstance>)
    requires
        chunk@.len() == 32768,
    ensures
        final(out)@ == old(out)@.push(regular_quad(chunk@, pos@ as int, Face::Z, tex)),
{
    let index = pos.index() as u16;
    let mut occlusion = Occlusion { left: false, right: false, bottom: false, top: false };
    if let Some(n) = pos.next_z() {
        occlusion = compute_ambient_occlusion_z(chunk, n);
    }
    out.push(QuadInstance { index, face: Face::Z, occlusion, texture: tex });
}

/// Builds a face facing the NegZ direction of a block with the "Regular" appearance.
pub fn build_regular_face_neg_z(tex: TextureId, chunk: &ChunkData, pos: LocalPos, out: &mut Vec<QuadInstance>)
    requires
        chunk@.len() == 32768,
    ensures
        final(out)@ == old(out)@.push(regular_quad(chunk@, pos@ as int, Face::NegZ, tex)),
{
    let index = pos.index() as u16;
    let mut occlusion = Occlusion { left: false, right: false, bottom: false, top: false };
    if let Some(n) = pos.prev_z() {
        occlusion = compute_ambient_occlusion_neg_z(chunk, n);
    }
    out.push(QuadInstance { index, face: Face::NegZ, occlusion, texture: tex });
}

} // verus!

verus! {

/// The bit of [`CulledFaces`] that stands for a face.
pub open spec fn face_bit(f: Face) -> u8 {
    match f {
        Face::X => 0,
        Face::NegX => 1,
        Face::Y => 2,
        Face::NegY => 3,
        Face::Z => 4,
        Face::NegZ => 5,
    }
}

/// The set of faces of a block that are hidden, one bit per face.
#[derive(Debug, Clone, Copy)]
pub struct CulledFaces(u8);

impl CulledFaces {
    /// Whether face `f` is in the set.
    pub closed spec fn has(self, f: Face) -> bool {
        (self.0 >> face_bit(f)) & 1u8 == 1u8
    }

    /// The set of all faces.
    pub fn all() -> (r: CulledFaces)
        ensures
            forall|f: Face| #[trigger] r.has(f),
    {
        let r = CulledFaces(0b111111u8);
        assert forall|f: Face| #[trigger] r.has(f) by {
            let k = face_bit(f);
            assert(k < 6 ==> (0b111111u8 >> k) & 1u8 == 1u8) by (bit_vector);
        }
        r
    }

    /// Returns whether face `f` is in the set.
    pub fn contains(&self, f: Face) -> (r: bool)
        ensures
            r == self.has(f),
    {
        let k: u8 = match f {
            Face::X => 0,
            Face::NegX => 1,
            Face::Y => 2,
            Face::NegY => 3,
            Face::Z => 4,
            Face::NegZ => 5,
        };
        (self.0 >> k) & 1u8 == 1u8
    }

    /// Removes face `f` from the set.
    pub fn remove(&mut self, f: Face)
        ensures
            !final(self).has(f),
            forall|g: Face| g != f ==> #[trigger] final(self).has(g) == old(self).has(g),
    {
        let k: u8 = match f {
            Face::X => 0,
            Face::NegX => 1,
            Face::Y => 2,
            Face::NegY => 3,
            Face::Z => 4,
            Face::NegZ => 5,
        };
        let v = self.0;
        self.0 = v & !(1u8 << k);
        assert forall|g: Face| #[trigger] final(self).has(g) == (old(self).has(g) && g != f) by {
            let j = face_bit(g);
            assert(k < 6 && j < 6 ==> ((v & !(1u8 << k)) >> j) & 1u8 == (if j == k { 0u8 } else {
                (v >> j) & 1u8
            })) by (bit_vector);
        }
    }

    /// Returns the faces of the block at `pos` that are hidden.
    ///
    /// Faces on the border of the chunk are always considered hidden.
    pub fn of(chunk: &ChunkData, pos: LocalPos) -> (r: CulledFaces)
        requires
            chunk@.len() == 32768,
        ensures
            forall|f: Face| #[trigger] r.has(f) == face_culled(chunk@, pos@ as int, f),
    {
        let me = chunk.get_block(pos);
        let mut result = CulledFaces::all();
        if let Some(p) = pos.next_x() {
            if !is_face_culled(me, chunk.get_block(p)) {
                result.remove(Face::X);
            }
        }
        if let Some(p) = pos.prev_x() {
            if !is_face_culled(me, chunk.get_block(p)) {
                result.remove(Face::NegX);
            }
        }
        if let Some(p) = pos.next_y() {
            if !is_face_culled(me, chunk.get_block(p)) {
                result.remove(Face::Y);
            }
        }
        if let Some(p) = pos.prev_y() {
            if !is_face_culled(me, chunk.get_block(p)) {
                result.remove(Face::NegY);
            }
        }
        if let Some(p) = pos.next_z() {
            if !is_face_culled(me, chunk.get_block(p)) {
                result.remove(Face::Z);
            }
        }
        if let Some(p) = pos.prev_z() {
            if !is_face_culled(me, chunk.get_block(p)) {
                result.remove(Face::NegZ);
            }
        }
        assert forall|f: Face| #[trigger] result.has(f) == face_culled(chunk@, pos@ as int, f) by {
            match f {
                Face::X => {},
                Face::NegX => {},
                Face::Y => {},
                Face::NegY => {},
                Face::Z => {},
                Face::NegZ => {},
            }
        }
        result
    }
}

} // verus!

verus! {

/// Whether the quads of a block go to the opaque list (rather than the transparent one).
pub open spec fn goes_opaque(id: BlockId) -> bool {
    block_info(id).transparency == BlockTransparency::Opaque
        || block_info(id).transparency == BlockTransparency::SemiOpaque
}

/// The quad of face `f` of the block at `i`, unless the face is hidden.
pub open spec fn maybe_face(blocks: Seq<BlockId>, i: int, f: Face, tex: TextureId) -> Seq<QuadInstance> {
    if face_culled(blocks, i, f) {
        seq![]
    } else {
        seq![regular_quad(blocks, i, f, tex)]
    }
}

/// The visible quads of the block at index `i`, in the order X, -X, Y, -Y, Z, -Z.
pub open spec fn block_faces(blocks: Seq<BlockId>, i: int) -> Seq<QuadInstance> {
    match block_info(blocks[i]).appearance {
        BlockAppearance::Invisible => seq![],
        BlockAppearance::Regular { top, bottom, side } => maybe_face(blocks, i, Face::X, side)
            + maybe_face(blocks, i, Face::NegX, side) + maybe_face(blocks, i, Face::Y, top)
            + maybe_face(blocks, i, Face::NegY, bottom) + maybe_face(blocks, i, Face::Z, side)
            + maybe_face(blocks, i, Face::NegZ, side),
    }
}

/// The quads of the block at index `i` that go to the opaque list (`opaque`) or to the
/// transparent one (`!opaque`).
pub open spec fn bucket_faces(blocks: Seq<BlockId>, i: int, opaque: bool) -> Seq<QuadInstance> {
    if goes_opaque(blocks[i]) == opaque {
        block_faces(blocks, i)
    } else {
        seq![]
    }
}

/// The texture of face `f` of a block with a regular appearance.
pub open spec fn face_texture(f: Face, top: TextureId, bottom: TextureId, side: TextureId) -> TextureId {
    match f {
        Face::Y => top,
        Face::NegY => bottom,
        _ => side,
    }
}

/// The quad drawn for face `f` of the block at `i` on the border of its chunk, whatever the
/// neighbours inside the chunk are.
pub open spec fn single_face(blocks: Seq<BlockId>, i: int, f: Face) -> Seq<QuadInstance> {
    match block_info(blocks[i]).appearance {
        BlockAppearance::Invisible => seq![],
        BlockAppearance::Regular { top, bottom, side } => seq![
            regular_quad(blocks, i, f, face_texture(f, top, bottom, side)),
        ],
    }
}

/// Contains the buffers in which the geometry of a chunk is built.
pub struct ChunkBuildContext {
    pub opaque_quads: Vec<QuadInstance>,
    pub transparent_quads: Vec<QuadInstance>,
}

/// Pushes the quad of face `f` of the block at `pos` to `buffer`, unless the face is hidden.
fn push_face_if_visible(
    chunk: &ChunkData,
    pos: LocalPos,
    culled: CulledFaces,
    f: Face,
    tex: TextureId,
    buffer: &mut Vec<QuadInstance>,
)
    requires
        chunk@.len() == 32768,
        forall|g: Face| #[trigger] culled.has(g) == face_culled(chunk@, pos@ as int, g),
    ensures
        final(buffer)@ == old(buffer)@ + maybe_face(chunk@, pos@ as int, f, tex),
{
    if !culled.contains(f) {
        match f {
            Face::X => build_regular_face_x(tex, chunk, pos, buffer),
            Face::NegX => build_regular_face_neg_x(tex, chunk, pos, buffer),
            Face::Y => build_regular_face_y(tex, chunk, pos, buffer),
            Face::NegY => build_regular_face_neg_y(tex, chunk, pos, buffer),
            Face::Z => build_regular_face_z(tex, chunk, pos, buffer),
            Face::NegZ => build_regular_face_neg_z(tex, chunk, pos, buffer),
        }
    }
    assert(buffer@ =~= old(buffer)@ + maybe_face(chunk@, pos@ as int, f, tex));
}

/// Pushes the visible faces of the block at `pos` to `buffer`.
fn push_block_faces(
    chunk: &ChunkData,
    pos: LocalPos,
    culled: CulledFaces,
    appearance: BlockAppearance,
    buffer: &mut Vec<QuadInstance>,
)
    requires
        chunk@.len() == 32768,
        pos@ < 32768,
        forall|f: Face| #[trigger] culled.has(f) == face_culled(chunk@, pos@ as int, f),
        appearance == block_info(chunk@[pos@ as int]).appearance,
    ensures
        final(buffer)@ == old(buffer)@ + block_faces(chunk@, pos@ as int),
{
    let ghost blocks = chunk@;
    let ghost i = pos@ as int;
    match appearance {
        BlockAppearance::Invisible => {
            assert(buffer@ =~= old(buffer)@ + block_faces(blocks, i));
        },
        BlockAppearance::Regular { top, bottom, side } => {
            push_face_if_visible(chunk, pos, culled, Face::X, side, buffer);
            push_face_if_visible(chunk, pos, culled, Face::NegX, side, buffer);
            push_face_if_visible(chunk, pos, culled, Face::Y, top, buffer);
            push_face_if_visible(chunk, pos, culled, Face::NegY, bottom, buffer);
            push_face_if_visible(chunk, pos, culled, Face::Z, side, buffer);
            push_face_if_visible(chunk, pos, culled, Face::NegZ, side, buffer);
            assert(buffer@ =~= old(buffer)@ + block_faces(blocks, i));
        },
    }
}

/// Builds the geometry of one of the inner blocks of the provided chunk: its visible faces go
/// to the opaque or to the transparent list of `ctx`, depending on its transparency.
pub fn build_block(chunk: &ChunkData, pos: LocalPos, ctx: &mut ChunkBuildContext)
    requires
        chunk@.len() == 32768,
    ensures
        final(ctx).opaque_quads@ == old(ctx).opaque_quads@ + bucket_faces(chunk@, pos@ as int, true),
        final(ctx).transparent_quads@ == old(ctx).transparent_quads@ + bucket_faces(
            chunk@,
            pos@ as int,
            false,
        ),
{
    let culled = CulledFaces::of(chunk, pos);
    let block = chunk.get_block(pos);
    let info = block.info();
    match info.transparency {
        BlockTransparency::SemiOpaque | BlockTransparency::Opaque => {
            push_block_faces(chunk, pos, culled, info.appearance, &mut ctx.opaque_quads);
            assert(ctx.transparent_quads@ =~= old(ctx).transparent_quads@ + bucket_faces(
                chunk@,
                pos@ as int,
                false,
            ));
        },
        BlockTransparency::Invisible | BlockTransparency::Transparent => {
            push_block_faces(chunk, pos, culled, info.appearance, &mut ctx.transparent_quads);
            assert(ctx.opaque_quads@ =~= old(ctx).opaque_quads@ + bucket_faces(
                chunk@,
                pos@ as int,
                true,
            ));
        },
    }
}

/// Pushes to `buffer` the quad of face `f` of the block at `pos`, whatever its neighbours.
fn push_single_face(chunk: &ChunkData, pos: LocalPos, f: Face, appearance: BlockAppearance, buffer: &mut Vec<QuadInstance>)
    requires
        chunk@.len() == 32768,
        pos@ < 32768,
        appearance == block_info(chunk@[pos@ as int]).appearance,
    ensures
        final(buffer)@ == old(buffer)@ + single_face(chunk@, pos@ as int, f),
{
    match appearance {
        BlockAppearance::Invisible => {
            assert(buffer@ =~= old(buffer)@ + single_face(chunk@, pos@ as int, f));
        },
        BlockAppearance::Regular { top, bottom, side } => {
            match f {
                Face::X => build_regular_face_x(side, chunk, pos, buffer),
                Face::NegX => build_regular_face_neg_x(side, chunk, pos, buffer),
                Face::Y => build_regular_face_y(top, chunk, pos, buffer),
                Face::NegY => build_regular_face_neg_y(bottom, chunk, pos, buffer),
                Face::Z => build_regular_face_z(side, chunk, pos, buffer),
                Face::NegZ => build_regular_face_neg_z(side, chunk, pos, buffer),
            }
            assert(buffer@ =~= old(buffer)@ + single_face(chunk@, pos@ as int, f));
        },
    }
}

/// Builds face `f` of the block at `pos`, whatever its neighbours: the quad goes to the opaque
/// or to the transparent list of `ctx`, depending on the block's transparency.
pub fn build_single_face(pos: LocalPos, chunk: &ChunkData, f: Face, ctx: &mut ChunkBuildContext)
    requires
        chunk@.len() == 32768,
    ensures
        final(ctx).opaque_quads@ == old(ctx).opaque_quads@ + (if goes_opaque(chunk@[pos@ as int]) {
            single_face(chunk@, pos@ as int, f)
        } else {
            seq![]
        }),
        final(ctx).transparent_quads@ == old(ctx).transparent_quads@ + (if goes_opaque(
            chunk@[pos@ as int],
        ) {
            seq![]
        } else {
            single_face(chunk@, pos@ as int, f)
        }),
{
    let block = chunk.get_block(pos);
    let info = block.info();
    match info.transparency {
        BlockTransparency::SemiOpaque | BlockTransparency::Opaque => {
            push_single_face(chunk, pos, f, info.appearance, &mut ctx.opaque_quads);
            assert(ctx.transparent_quads@ =~= old(ctx).transparent_quads@ + seq![]);
        },
        BlockTransparency::Invisible | BlockTransparency::Transparent => {
            push_single_face(chunk, pos, f, info.appearance, &mut ctx.transparent_quads);
            assert(ctx.opaque_quads@ =~= old(ctx).opaque_quads@ + seq![]);
        },
    }
}

} // verus!

verus! {

/// The position on the border of a chunk and the position on the facing border of its
/// neighbour across face `f`, at step `(a, b)` of a border walk.
pub open spec fn boundary_pair(f: Face, a: int, b: int) -> (int, int) {
    match f {
        Face::X => (xyz_index(31, a, b), xyz_index(0, a, b)),
        Face::NegX => (xyz_index(0, a, b), xyz_index(31, a, b)),
        Face::Y => (xyz_index(a, 31, b), xyz_index(a, 0, b)),
        Face::NegY => (xyz_index(a, 0, b), xyz_index(a, 31, b)),
        Face::Z => (xyz_index(a, b, 31), xyz_index(a, b, 0)),
        Face::NegZ => (xyz_index(a, b, 0), xyz_index(a, b, 31)),
    }
}

/// The quads that step `k` of the walk along the border across face `f` adds to the opaque
/// (`opaque`) or transparent (`!opaque`) list.
pub open spec fn boundary_step(
    data: Seq<BlockId>,
    other: Seq<BlockId>,
    f: Face,
    k: int,
    opaque: bool,
) -> Seq<QuadInstance> {
    let (p, o) = boundary_pair(f, k / 32, k % 32);
    if !is_culled(data[p], other[o]) && goes_opaque(data[p]) == opaque {
        single_face(data, p, f)
    } else {
        seq![]
    }
}

/// The quads that the first `n` steps of the walk along the border across face `f` add.
pub open spec fn boundary_quads(
    data: Seq<BlockId>,
    other: Seq<BlockId>,
    f: Face,
    n: nat,
    opaque: bool,
) -> Seq<QuadInstance>
    decreases n,
{
    if n == 0 {
        seq![]
    } else {
        boundary_quads(data, other, f, (n - 1) as nat, opaque) + boundary_step(
            data,
            other,
            f,
            n - 1,
            opaque,
        )
    }
}

/// The quads that building the first `n` blocks of [`LocalPos::iter_all`] adds.
pub open spec fn inner_quads(blocks: Seq<BlockId>, n: nat, opaque: bool) -> Seq<QuadInstance>
    decreases n,
{
    if n == 0 {
        seq![]
    } else {
        inner_quads(blocks, (n - 1) as nat, opaque) + bucket_faces(
            blocks,
            all_order_index(n - 1),
            opaque,
        )
    }
}

/// The two positions of step `(a, b)` of the walk along the border across face `f`.
fn boundary_positions(f: Face, a: i32, b: i32) -> (r: (LocalPos, LocalPos))
    requires
        in_chunk(a as int),
        in_chunk(b as int),
    ensures
        (r.0@ as int, r.1@ as int) == boundary_pair(f, a as int, b as int),
{
    let last = crate::chunk::CHUNK_SIDE - 1;
    match f {
        Face::X => (LocalPos::from_xyz_unchecked(last, a, b), LocalPos::from_xyz_unchecked(0, a, b)),
        Face::NegX => (LocalPos::from_xyz_unchecked(0, a, b), LocalPos::from_xyz_unchecked(last, a, b)),
        Face::Y => (LocalPos::from_xyz_unchecked(a, last, b), LocalPos::from_xyz_unchecked(a, 0, b)),
        Face::NegY => (LocalPos::from_xyz_unchecked(a, 0, b), LocalPos::from_xyz_unchecked(a, last, b)),
        Face::Z => (LocalPos::from_xyz_unchecked(a, b, last), LocalPos::from_xyz_unchecked(a, b, 0)),
        Face::NegZ => (LocalPos::from_xyz_unchecked(a, b, 0), LocalPos::from_xyz_unchecked(a, b, last)),
    }
}

/// Builds the border of `data` that faces its neighbour `other` across face `f`: the faces of
/// the border blocks that `other` does not hide.
pub fn build_chunk_boundary(data: &ChunkData, other: &ChunkData, f: Face, ctx: &mut ChunkBuildContext)
    requires
        data@.len() == 32768,
        other@.len() == 32768,
    ensures
        final(ctx).opaque_quads@ == old(ctx).opaque_quads@ + boundary_quads(data@, other@, f, 1024, true),
        final(ctx).transparent_quads@ == old(ctx).transparent_quads@ + boundary_quads(
            data@,
            other@,
            f,
            1024,
            false,
        ),
{
    let mut a: i32 = 0;
    while a < crate::chunk::CHUNK_SIDE
        invariant
            0 <= a <= 32,
            data@.len() == 32768,
            other@.len() == 32768,
            ctx.opaque_quads@ == old(ctx).opaque_quads@ + boundary_quads(data@, other@, f, (a * 32) as nat, true),
            ctx.transparent_quads@ == old(ctx).transparent_quads@ + boundary_quads(data@, other@, f, (a * 32) as nat, false),
        decreases 32 - a,
    {
        let mut b: i32 = 0;
        while b < crate::chunk::CHUNK_SIDE
            invariant
                0 <= a < 32,
                0 <= b <= 32,
                data@.len() == 32768,
                other@.len() == 32768,
                ctx.opaque_quads@ == old(ctx).opaque_quads@ + boundary_quads(data@, other@, f, (a * 32 + b) as nat, true),
                ctx.transparent_quads@ == old(ctx).transparent_quads@ + boundary_quads(data@, other@, f, (a * 32 + b) as nat, false),
            decreases 32 - b,
        {
            let ghost k = a * 32 + b;
            proof {
                crate::chunk::lemma_split_32(a as int, b as int);
            }
            let (pos, other_pos) = boundary_positions(f, a, b);
            let ghost o0 = ctx.opaque_quads@;
            let ghost t0 = ctx.transparent_quads@;
            if !is_face_culled(data.get_block(pos), other.get_block(other_pos)) {
                build_single_face(pos, data, f, ctx);
            }
            assert(ctx.opaque_quads@ =~= o0 + boundary_step(data@, other@, f, k, true));
            assert(ctx.transparent_quads@ =~= t0 + boundary_step(data@, other@, f, k, false));
            assert(boundary_quads(data@, other@, f, (k + 1) as nat, true) == boundary_quads(data@, other@, f, k as nat, true) + boundary_step(data@, other@, f, k, true));
            assert(boundary_quads(data@, other@, f, (k + 1) as nat, false) == boundary_quads(data@, other@, f, k as nat, false) + boundary_step(data@, other@, f, k, false));
            b = b + 1;
        }
        a = a + 1;
    }
}

/// Contains references to a chunk and its six neighbours.
pub struct ChunkNeighborhood<'a> {
    pub me: &'a ChunkData,
    pub x: &'a ChunkData,
    pub neg_x: &'a ChunkData,
    pub y: &'a ChunkData,
    pub neg_y: &'a ChunkData,
    pub z: &'a ChunkData,
    pub neg_z: &'a ChunkData,
}

impl<'a> ChunkNeighborhood<'a> {
    /// Whether every chunk of the neighbourhood holds a full set of blocks.
    pub open spec fn wf(&self) -> bool {
        &&& self.me@.len() == 32768
        &&& self.x@.len() == 32768
        &&& self.neg_x@.len() == 32768
        &&& self.y@.len() == 32768
        &&& self.neg_y@.len() == 32768
        &&& self.z@.len() == 32768
        &&& self.neg_z@.len() == 32768
    }

    /// The quads that the border of the central chunk gets, in the order X, -X, Y, -Y, Z, -Z.
    pub open spec fn outer_quads(&self, opaque: bool) -> Seq<QuadInstance> {
        boundary_quads(self.me@, self.x@, Face::X, 1024, opaque)
            + boundary_quads(self.me@, self.neg_x@, Face::NegX, 1024, opaque)
            + boundary_quads(self.me@, self.y@, Face::Y, 1024, opaque)
            + boundary_quads(self.me@, self.neg_y@, Face::NegY, 1024, opaque)
            + boundary_quads(self.me@, self.z@, Face::Z, 1024, opaque)
            + boundary_quads(self.me@, self.neg_z@, Face::NegZ, 1024, opaque)
    }
}

impl ChunkBuildContext {
    /// Creates a new context with empty buffers.
    pub fn new() -> (r: ChunkBuildContext)
        ensures
            r.opaque_quads@.len() == 0,
            r.transparent_quads@.len() == 0,
    {
        ChunkBuildContext { opaque_quads: Vec::new(), transparent_quads: Vec::new() }
    }

    /// Clears the current state of the builder, ensuring that the geometry of the previous
    /// chunk is not reused.
    pub fn clear(&mut self)
        ensures
            final(self).opaque_quads@.len() == 0,
            final(self).transparent_quads@.len() == 0,
    {
        self.opaque_quads.clear();
        self.transparent_quads.clear();
    }

    /// Only builds the inner geometry of the chunk: every block, in the order of
    /// [`LocalPos::iter_all`].
    ///
    /// This operation does not require lookups to the neighbouring chunks.
    pub fn build_inner(&mut self, chunk: &ChunkData)
        requires
            chunk@.len() == 32768,
        ensures
            final(self).opaque_quads@ == old(self).opaque_quads@ + inner_quads(chunk@, 32768, true),
            final(self).transparent_quads@ == old(self).transparent_quads@ + inner_quads(chunk@, 32768, false),
    {
        let all = LocalPos::iter_all();
        let mut i: usize = 0;
        while i < all.len()
            invariant
                chunk@.len() == 32768,
                all.len() == 32768,
                forall|k: int| 0 <= k < 32768 ==> #[trigger] all@[k]@ == all_order_index(k),
                0 <= i <= 32768,
                self.opaque_quads@ == old(self).opaque_quads@ + inner_quads(chunk@, i as nat, true),
                self.transparent_quads@ == old(self).transparent_quads@ + inner_quads(chunk@, i as nat, false),
            decreases 32768 - i,
        {
            let ghost o0 = self.opaque_quads@;
            let ghost t0 = self.transparent_quads@;
            build_block(chunk, all[i], self);
            assert(all@[i as int]@ == all_order_index(i as int));
            assert(inner_quads(chunk@, (i + 1) as nat, true) == inner_quads(chunk@, i as nat, true) + bucket_faces(chunk@, all_order_index(i as int), true));
            assert(inner_quads(chunk@, (i + 1) as nat, false) == inner_quads(chunk@, i as nat, false) + bucket_faces(chunk@, all_order_index(i as int), false));
            assert(self.opaque_quads@ =~= old(self).opaque_quads@ + inner_quads(chunk@, (i + 1) as nat, true));
            assert(self.transparent_quads@ =~= old(self).transparent_quads@ + inner_quads(chunk@, (i + 1) as nat, false));
            i = i + 1;
        }
    }

    /// Only builds the outer geometry of the chunk: its six borders.
    pub fn build_outer(&mut self, neighborhood: ChunkNeighborhood)
        requires
            neighborhood.wf(),
        ensures
            final(self).opaque_quads@ == old(self).opaque_quads@ + neighborhood.outer_quads(true),
            final(self).transparent_quads@ == old(self).transparent_quads@ + neighborhood.outer_quads(false),
    {
        build_chunk_boundary_x(neighborhood.me, neighborhood.x, self);
        build_chunk_boundary_neg_x(neighborhood.me, neighborhood.neg_x, self);
        build_chunk_boundary_y(neighborhood.me, neighborhood.y, self);
        build_chunk_boundary_neg_y(neighborhood.me, neighborhood.neg_y, self);
        build_chunk_boundary_z(neighborhood.me, neighborhood.z, self);
        build_chunk_boundary_neg_z(neighborhood.me, neighborhood.neg_z, self);
        assert(self.opaque_quads@ =~= old(self).opaque_quads@ + neighborhood.outer_quads(true));
        assert(self.transparent_quads@ =~= old(self).transparent_quads@ + neighborhood.outer_quads(false));
    }
}

/// Builds the border of `data` that faces its neighbour `other` across the X face.
pub fn build_chunk_boundary_x(data: &ChunkData, other: &ChunkData, ctx: &mut ChunkBuildContext)
    requires
        data@.len() == 32768,
        other@.len() == 32768,
    ensures
        final(ctx).opaque_quads@ == old(ctx).opaque_quads@ + boundary_quads(data@, other@, Face::X, 1024, true),
        final(ctx).transparent_quads@ == old(ctx).transparent_quads@ + boundary_quads(data@, other@, Face::X, 1024, false),
{
    build_chunk_boundary(data, other, Face::X, ctx)
}

/// Builds the X face of the block at `pos`, whatever its neighbours.
pub fn build_single_face_x(pos: LocalPos, chunk: &ChunkData, ctx: &mut ChunkBuildContext)
    requires
        chunk@.len() == 32768,
    ensures
        final(ctx).opaque_quads@ == old(ctx).opaque_quads@ + (if goes_opaque(chunk@[pos@ as int]) {
            single_face(chunk@, pos@ as int, Face::X)
        } else {
            seq![]
        }),
        final(ctx).transparent_quads@ == old(ctx).transparent_quads@ + (if goes_opaque(chunk@[pos@ as int]) {
            seq![]
        } else {
            single_face(chunk@, pos@ as int, Face::X)
        }),
{
    build_single_face(pos, chunk, Face::X, ctx)
}

/// Builds the border of `data` that faces its neighbour `other` across the NegX face.
pub fn build_chunk_boundary_neg_x(data: &ChunkData, other: &ChunkData, ctx: &mut ChunkBuildContext)
    requires
        data@.len() == 32768,
        other@.len() == 32768,
    ensures
        final(ctx).opaque_quads@ == old(ctx).opaque_quads@ + boundary_quads(data@, other@, Face::NegX, 1024, true),
        final(ctx).transparent_quads@ == old(ctx).transparent_quads@ + boundary_quads(data@, other@, Face::NegX, 1024, false),
{
    build_chunk_boundary(data, other, Face::NegX, ctx)
}

/// Builds the NegX face of the block at `pos`, whatever its neighbours.
pub fn build_single_face_neg_x(pos: LocalPos, chunk: &ChunkData, ctx: &mut ChunkBuildContext)
    requires
        chunk@.len() == 32768,
    ensures
        final(ctx).opaque_quads@ == old(ctx).opaque_quads@ + (if goes_opaque(chunk@[pos@ as int]) {
            single_face(chunk@, pos@ as int, Face::NegX)
        } else {
            seq![]
        }),
        final(ctx).transparent_quads@ == old(ctx).transparent_quads@ + (if goes_opaque(chunk@[pos@ as int]) {
            seq![]
        } else {
            single_face(chunk@, pos@ as int, Face::NegX)
        }),
{
    build_single_face(pos, chunk, Face::NegX, ctx)
}

/// Builds the border of `data` that faces its neighbour `other` across the Y face.
pub fn build_chunk_boundary_y(data: &ChunkData, other: &ChunkData, ctx: &mut ChunkBuildContext)
    requires
        data@.len() == 32768,
        other@.len() == 32768,
    ensures
        final(ctx).opaque_quads@ == old(ctx).opaque_quads@ + boundary_quads(data@, other@, Face::Y, 1024, true),
        final(ctx).transparent_quads@ == old(ctx).transparent_quads@ + boundary_quads(data@, other@, Face::Y, 1024, false),
{
    build_chunk_boundary(data, other, Face::Y, ctx)
}

/// Builds the Y face of the block at `pos`, whatever its neighbours.
pub fn build_single_face_y(pos: LocalPos, chunk: &ChunkData, ctx: &mut ChunkBuildContext)
    requires
        chunk@.len() == 32768,
    ensures
        final(ctx).opaque_quads@ == old(ctx).opaque_quads@ + (if goes_opaque(chunk@[pos@ as int]) {
            single_face(chunk@, pos@ as int, Face::Y)
        } else {
            seq![]
        }),
        final(ctx).transparent_quads@ == old(ctx).transparent_quads@ + (if goes_opaque(chunk@[pos@ as int]) {
            seq![]
        } else {
            single_face(chunk@, pos@ as int, Face::Y)
        }),
{
    build_single_face(pos, chunk, Face::Y, ctx)
}

/// Builds the border of `data` that faces its neighbour `other` across the NegY face.
pub fn build_chunk_boundary_neg_y(data: &ChunkData, other: &ChunkData, ctx: &mut ChunkBuildContext)
    requires
        data@.len() == 32768,
        other@.len() == 32768,
    ensures
        final(ctx).opaque_quads@ == old(ctx).opaque_quads@ + boundary_quads(data@, other@, Face::NegY, 1024, true),
        final(ctx).transparent_quads@ == old(ctx).transparent_quads@ + boundary_quads(data@, other@, Face::NegY, 1024, false),
{
    build_chunk_boundary(data, other, Face::NegY, ctx)
}

/// Builds the NegY face of the block at `pos`, whatever its neighbours.
pub fn build_single_face_neg_y(pos: LocalPos, chunk: &ChunkData, ctx: &mut ChunkBuildContext)
    requires
        chunk@.len() == 32768,
    ensures
        final(ctx).opaque_quads@ == old(ctx).opaque_quads@ + (if goes_opaque(chunk@[pos@ as int]) {
            single_face(chunk@, pos@ as int, Face::NegY)
        } else {
            seq![]
        }),
        final(ctx).transparent_quads@ == old(ctx).transparent_quads@ + (if goes_opaque(chunk@[pos@ as int]) {
            seq![]
        } else {
            single_face(chunk@, pos@ as int, Face::NegY)
        }),
{
    build_single_face(pos, chunk, Face::NegY, ctx)
}

/// Builds the border of `data` that faces its neighbour `other` across the Z face.
pub fn build_chunk_boundary_z(data: &ChunkData, other: &ChunkData, ctx: &mut ChunkBuildContext)
    requires
        data@.len() == 32768,
        other@.len() == 32768,
    ensures
        final(ctx).opaque_quads@ == old(ctx).opaque_quads@ + boundary_quads(data@, other@, Face::Z, 1024, true),
        final(ctx).transparent_quads@ == old(ctx).transparent_quads@ + boundary_quads(data@, other@, Face::Z, 1024, false),
{
    build_chunk_boundary(data, other, Face::Z, ctx)
}

/// Builds the Z face of the block at `pos`, whatever its neighbours.
pub fn build_single_face_z(pos: LocalPos, chunk: &ChunkData, ctx: &mut ChunkBuildContext)
    requires
        chunk@.len() == 32768,
    ensures
        final(ctx).opaque_quads@ == old(ctx).opaque_quads@ + (if goes_opaque(chunk@[pos@ as int]) {
            single_face(chunk@, pos@ as int, Face::Z)
        } else {
            seq![]
        }),
        final(ctx).transparent_quads@ == old(ctx).transparent_quads@ + (if goes_opaque(chunk@[pos@ as int]) {
            seq![]
        } else {
            single_face(chunk@, pos@ as int, Face::Z)
        }),
{
    build_single_face(pos, chunk, Face::Z, ctx)
}

/// Builds the border of `data` that faces its neighbour `other` across the NegZ face.
pub fn build_chunk_boundary_neg_z(data: &ChunkData, other: &ChunkData, ctx: &mut ChunkBuildContext)
    requires
        data@.len() == 32768,
        other@.len() == 32768,
    ensures
        final(ctx).opaque_quads@ == old(ctx).opaque_quads@ + boundary_quads(data@, other@, Face::NegZ, 1024, true),
        final(ctx).transparent_quads@ == old(ctx).transparent_quads@ + boundary_quads(data@, other@, Face::NegZ, 1024, false),
{
    build_chunk_boundary(data, other, Face::NegZ, ctx)
}

/// Builds the NegZ face of the block at `pos`, whatever its neighbours.
pub fn build_single_face_neg_z(pos: LocalPos, chunk: &ChunkData, ctx: &mut ChunkBuildContext)
    requires
        chunk@.len() == 32768,
    ensures
        final(ctx).opaque_quads@ == old(ctx).opaque_quads@ + (if goes_opaque(chunk@[pos@ as int]) {
            single_face(chunk@, pos@ as int, Face::NegZ)
        } else {
            seq![]
        }),
        final(ctx).transparent_quads@ == old(ctx).transparent_quads@ + (if goes_opaque(chunk@[pos@ as int]) {
            seq![]
        } else {
            single_face(chunk@, pos@ as int, Face::NegZ)
        }),
{
    build_single_face(pos, chunk, Face::NegZ, ctx)
}

} // verus!

verus! {

/// The view of an optional quad buffer.
pub open spec fn buffer_view(b: Option<Vec<QuadInstance>>) -> Option<Seq<QuadInstance>> {
    match b {
        Some(v) => Some(v@),
        None => None,
    }
}

/// The buffer pool after a list of the geometry is updated: a buffer is taken from the pool
/// when the list gets content and held none, and the held buffer goes back to the pool when the
/// list gets no content.
pub open spec fn pool_after(
    pool: Seq<Vec<QuadInstance>>,
    wanted: bool,
    held: Option<Vec<QuadInstance>>,
) -> Seq<Vec<QuadInstance>> {
    if wanted {
        if held is None && pool.len() > 0 {
            pool.drop_last()
        } else {
            pool
        }
    } else {
        match held {
            Some(b) => pool.push(b),
            None => pool,
        }
    }
}

impl ChunkGeometry {
    /// Returns the opaque quad instances of the chunk, if there are any.
    pub fn opaque_quad_instances(&self) -> (r: Option<&Vec<QuadInstance>>)
        ensures
            match self.opaque_quads {
                Some(b) => if b@.len() > 0 { r == Some(&b) } else { r is None },
                None => r is None,
            },
    {
        match &self.opaque_quads {
            Some(buf) => if buf.len() > 0 { Some(buf) } else { None },
            None => None,
        }
    }

    /// Returns the transparent quad instances of the chunk, if there are any.
    pub fn transparent_quad_instances(&self) -> (r: Option<&Vec<QuadInstance>>)
        ensures
            match self.transparent_quads {
                Some(b) => if b@.len() > 0 { r == Some(&b) } else { r is None },
                None => r is None,
            },
    {
        match &self.transparent_quads {
            Some(buf) => if buf.len() > 0 { Some(buf) } else { None },
            None => None,
        }
    }
}

/// Holds the buffers that chunk geometry is uploaded to, recycling the ones that chunks stop
/// using.
pub struct ChunkUploadContext {
    /// A pool of buffers ready to be reused.
    pub buffer_pool: Vec<Vec<QuadInstance>>,
}

impl ChunkUploadContext {
    /// Creates a new [`ChunkUploadContext`] with an empty pool.
    pub fn new() -> (r: ChunkUploadContext)
        ensures
            r.buffer_pool@.len() == 0,
    {
        ChunkUploadContext { buffer_pool: Vec::new() }
    }

    /// Acquires a buffer from the pool, or a new one when the pool is empty.
    fn acquire_buffer(&mut self) -> (r: Vec<QuadInstance>)
        ensures
            old(self).buffer_pool@.len() > 0 ==> final(self).buffer_pool@ == old(self).buffer_pool@.drop_last()
                && r == old(self).buffer_pool@.last(),
            old(self).buffer_pool@.len() == 0 ==> final(self).buffer_pool@ == old(self).buffer_pool@
                && r@.len() == 0,
    {
        match self.buffer_pool.pop() {
            Some(b) => b,
            None => Vec::new(),
        }
    }

    /// Releases a buffer to the pool.
    fn release_buffer(&mut self, buf: Vec<QuadInstance>)
        ensures
            final(self).buffer_pool@ == old(self).buffer_pool@.push(buf),
    {
        self.buffer_pool.push(buf);
    }

    /// Makes `held` hold a copy of `quads` when it is non-empty, and nothing otherwise.
    fn upload_list(&mut self, quads: &Vec<QuadInstance>, held: &mut Option<Vec<QuadInstance>>)
        ensures
            buffer_view(*final(held)) == if quads@.len() > 0 { Some(quads@) } else { None::<Seq<QuadInstance>> },
            final(self).buffer_pool@ == pool_after(old(self).buffer_pool@, quads@.len() > 0, *old(held)),
    {
        if quads.len() > 0 {
            let taken = held.take();
            let mut buf = match taken {
                Some(b) => b,
                None => self.acquire_buffer(),
            };
            buf.clear();
            let mut i: usize = 0;
            while i < quads.len()
                invariant
                    0 <= i <= quads@.len(),
                    buf@ == quads@.subrange(0, i as int),
                decreases quads@.len() - i,
            {
                buf.push(quads[i]);
                i = i + 1;
                assert(buf@ =~= quads@.subrange(0, i as int));
            }
            assert(buf@ =~= quads@);
            *held = Some(buf);
        } else {
            let taken = held.take();
            if let Some(buf) = taken {
                self.release_buffer(buf);
            }
        }
    }

    /// Overwrites the provided [`ChunkGeometry`] with the content of the provided
    /// [`ChunkBuildContext`].
    pub fn upload(&mut self, ctx: &ChunkBuildContext, geometry: &mut ChunkGeometry)
        ensures
            buffer_view(final(geometry).opaque_quads) == if ctx.opaque_quads@.len() > 0 {
                Some(ctx.opaque_quads@)
            } else {
                None::<Seq<QuadInstance>>
            },
            buffer_view(final(geometry).transparent_quads) == if ctx.transparent_quads@.len() > 0 {
                Some(ctx.transparent_quads@)
            } else {
                None::<Seq<QuadInstance>>
            },
            final(self).buffer_pool@ == pool_after(
                pool_after(
                    old(self).buffer_pool@,
                    ctx.opaque_quads@.len() > 0,
                    old(geometry).opaque_quads,
                ),
                ctx.transparent_quads@.len() > 0,
                old(geometry).transparent_quads,
            ),
    {
        self.upload_list(&ctx.opaque_quads, &mut geometry.opaque_quads);
        self.upload_list(&ctx.transparent_quads, &mut geometry.transparent_quads);
    }
}

} // verus!

verus! {

/// A block whose six neighbours lie in the chunk and are opaque yields no quad, and neither does
/// an invisible block.
pub proof fn lemma_enclosed_block_has_no_quads(blocks: Seq<BlockId>, i: int)
    requires
        0 <= i < blocks.len(),
        block_info(blocks[i]).transparency == BlockTransparency::Invisible || forall|f: Face| {
            &&& #[trigger] neighbor(i, f) is Some
            &&& block_info(blocks[neighbor(i, f).unwrap()]).transparency == BlockTransparency::Opaque
        },
    ensures
        block_faces(blocks, i) == Seq::<QuadInstance>::empty(),
        bucket_faces(blocks, i, true) == Seq::<QuadInstance>::empty(),
        bucket_faces(blocks, i, false) == Seq::<QuadInstance>::empty(),
{
    assert(face_culled(blocks, i, Face::X));
    assert(face_culled(blocks, i, Face::NegX));
    assert(face_culled(blocks, i, Face::Y));
    assert(face_culled(blocks, i, Face::NegY));
    assert(face_culled(blocks, i, Face::Z));
    assert(face_culled(blocks, i, Face::NegZ));
    assert(block_faces(blocks, i) =~= Seq::<QuadInstance>::empty());
}

/// Every quad of a block faces a side whose neighbour lies in the chunk and is not opaque.
pub proof fn lemma_quads_face_open_sides(blocks: Seq<BlockId>, i: int, k: int)
    requires
        0 <= k < block_faces(blocks, i).len(),
    ensures
        !face_culled(blocks, i, block_faces(blocks, i)[k].face),
        block_faces(blocks, i)[k].index == i as u16,
{
    let q = block_faces(blocks, i);
    match block_info(blocks[i]).appearance {
        BlockAppearance::Invisible => {},
        BlockAppearance::Regular { top, bottom, side } => {
            let a = maybe_face(blocks, i, Face::X, side);
            let b = maybe_face(blocks, i, Face::NegX, side);
            let c = maybe_face(blocks, i, Face::Y, top);
            let d = maybe_face(blocks, i, Face::NegY, bottom);
            let e = maybe_face(blocks, i, Face::Z, side);
            let f = maybe_face(blocks, i, Face::NegZ, side);
            assert(q == a + b + c + d + e + f);
            if k < a.len() {
                assert(q[k] == a[k]);
            } else if k < a.len() + b.len() {
                assert(q[k] == b[k - a.len()]);
            } else if k < a.len() + b.len() + c.len() {
                assert(q[k] == c[k - a.len() - b.len()]);
            } else if k < a.len() + b.len() + c.len() + d.len() {
                assert(q[k] == d[k - a.len() - b.len() - c.len()]);
            } else if k < a.len() + b.len() + c.len() + d.len() + e.len() {
                assert(q[k] == e[k - a.len() - b.len() - c.len() - d.len()]);
            } else {
                assert(q[k] == f[k - a.len() - b.len() - c.len() - d.len() - e.len()]);
            }
        },
    }
}

/// The step from a block to its neighbour across face `f`.
pub open spec fn face_direction(f: Face) -> (int, int, int) {
    match f {
        Face::X => (1, 0, 0),
        Face::NegX => (-1, 0, 0),
        Face::Y => (0, 1, 0),
        Face::NegY => (0, -1, 0),
        Face::Z => (0, 0, 1),
        Face::NegZ => (0, 0, -1),
    }
}

/// Whether the block at local coordinates `(x, y, z)` lies in the chunk and is opaque.
pub open spec fn opaque_block(blocks: Seq<BlockId>, x: int, y: int, z: int) -> bool {
    &&& in_chunk(x)
    &&& in_chunk(y)
    &&& in_chunk(z)
    &&& block_info(blocks[xyz_index(x, y, z)]).transparency == BlockTransparency::Opaque
}

/// The neighbour of the block at `(x, y, z)` across face `f` is the block one step along `f`,
/// when that step stays in the chunk; there is none otherwise. Whether it is opaque is then
/// [`opaque_block`] at that step.
proof fn lemma_neighbor_coords(blocks: Seq<BlockId>, x: int, y: int, z: int, f: Face)
    requires
        in_chunk(x),
        in_chunk(y),
        in_chunk(z),
    ensures
        ({
            let (dx, dy, dz) = face_direction(f);
            &&& (in_chunk(x + dx) && in_chunk(y + dy) && in_chunk(z + dz)) ==> neighbor(xyz_index(x, y, z), f)
                == Some(xyz_index(x + dx, y + dy, z + dz))
            &&& !(in_chunk(x + dx) && in_chunk(y + dy) && in_chunk(z + dz)) ==> neighbor(xyz_index(x, y, z), f)
                is None
            &&& opaque_at(blocks, neighbor(xyz_index(x, y, z), f)) == opaque_block(blocks, x + dx, y + dy, z + dz)
        }),
{
    lemma_xyz_roundtrip(x, y, z);
}

/// The ambient occlusion of a drawn face, over coordinates: for the face `f` of the block at
/// `(x, y, z)` whose neighbour across `f` lies in the chunk, each edge of the quad is darkened
/// exactly when the block beside that neighbour on the edge's side is opaque. Seen from outside
/// the face, `left` and `right` run along X (along Z for the X faces), `bottom` and `top` along
/// Y (along Z for the Y faces). A face on the border of the chunk has no occlusion.
pub proof fn lemma_quad_occlusion(blocks: Seq<BlockId>, x: int, y: int, z: int, f: Face, tex: TextureId)
    requires
        in_chunk(x),
        in_chunk(y),
        in_chunk(z),
    ensures
        f == Face::X && x < 31 ==> regular_quad(blocks, xyz_index(x, y, z), f, tex).occlusion == (Occlusion {
            left: opaque_block(blocks, x + 1, y, z - 1),
            right: opaque_block(blocks, x + 1, y, z + 1),
            bottom: opaque_block(blocks, x + 1, y - 1, z),
            top: opaque_block(blocks, x + 1, y + 1, z),
        }),
        f == Face::NegX && x > 0 ==> regular_quad(blocks, xyz_index(x, y, z), f, tex).occlusion == (Occlusion {
            left: opaque_block(blocks, x - 1, y, z + 1),
            right: opaque_block(blocks, x - 1, y, z - 1),
            bottom: opaque_block(blocks, x - 1, y - 1, z),
            top: opaque_block(blocks, x - 1, y + 1, z),
        }),
        f == Face::Y && y < 31 ==> regular_quad(blocks, xyz_index(x, y, z), f, tex).occlusion == (Occlusion {
            left: opaque_block(blocks, x - 1, y + 1, z),
            right: opaque_block(blocks, x + 1, y + 1, z),
            bottom: opaque_block(blocks, x, y + 1, z - 1),
            top: opaque_block(blocks, x, y + 1, z + 1),
        }),
        f == Face::NegY && y > 0 ==> regular_quad(blocks, xyz_index(x, y, z), f, tex).occlusion == (Occlusion {
            left: opaque_block(blocks, x - 1, y - 1, z),
            right: opaque_block(blocks, x + 1, y - 1, z),
            bottom: opaque_block(blocks, x, y - 1, z + 1),
            top: opaque_block(blocks, x, y - 1, z - 1),
        }),
        f == Face::Z && z < 31 ==> regular_quad(blocks, xyz_index(x, y, z), f, tex).occlusion == (Occlusion {
            left: opaque_block(blocks, x + 1, y, z + 1),
            right: opaque_block(blocks, x - 1, y, z + 1),
            bottom: opaque_block(blocks, x, y - 1, z + 1),
            top: opaque_block(blocks, x, y + 1, z + 1),
        }),
        f == Face::NegZ && z > 0 ==> regular_quad(blocks, xyz_index(x, y, z), f, tex).occlusion == (Occlusion {
            left: opaque_block(blocks, x - 1, y, z - 1),
            right: opaque_block(blocks, x + 1, y, z - 1),
            bottom: opaque_block(blocks, x, y - 1, z - 1),
            top: opaque_block(blocks, x, y + 1, z - 1),
        }),
        neighbor(xyz_index(x, y, z), f) is None ==> regular_quad(blocks, xyz_index(x, y, z), f, tex).occlusion
            == (Occlusion { left: false, right: false, bottom: false, top: false }),
{
    lemma_neighbor_coords(blocks, x, y, z, f);
    let (dx, dy, dz) = face_direction(f);
    let (nx, ny, nz) = (x + dx, y + dy, z + dz);
    if in_chunk(nx) && in_chunk(ny) && in_chunk(nz) {
        lemma_neighbor_coords(blocks, nx, ny, nz, Face::X);
        lemma_neighbor_coords(blocks, nx, ny, nz, Face::NegX);
        lemma_neighbor_coords(blocks, nx, ny, nz, Face::Y);
        lemma_neighbor_coords(blocks, nx, ny, nz, Face::NegY);
        lemma_neighbor_coords(blocks, nx, ny, nz, Face::Z);
        lemma_neighbor_coords(blocks, nx, ny, nz, Face::NegZ);
    }
}

/// The walk along a chunk's border pairs each border block with the block of the neighbouring
/// chunk that touches it: step `(a, b)` across face `f` gives a block of `data` whose face `f`
/// lies on the chunk's border, and the block of `other` one step along `f` from it, wrapped
/// into the neighbouring chunk. Distinct steps give distinct border blocks.
pub proof fn lemma_boundary_pairs_touch(f: Face, a: int, b: int, a2: int, b2: int)
    requires
        in_chunk(a),
        in_chunk(b),
        in_chunk(a2),
        in_chunk(b2),
    ensures
        ({
            let (p, o) = boundary_pair(f, a, b);
            let (dx, dy, dz) = face_direction(f);
            &&& 0 <= p < 32768
            &&& 0 <= o < 32768
            &&& neighbor(p, f) is None
            &&& index_x(o) == (index_x(p) + dx) % 32
            &&& index_y(o) == (index_y(p) + dy) % 32
            &&& index_z(o) == (index_z(p) + dz) % 32
            &&& (a, b) != (a2, b2) ==> boundary_pair(f, a2, b2).0 != p
        }),
{
    lemma_xyz_roundtrip(a, 0, b);
    lemma_xyz_roundtrip(a, 31, b);
    lemma_xyz_roundtrip(0, a, b);
    lemma_xyz_roundtrip(31, a, b);
    lemma_xyz_roundtrip(a, b, 0);
    lemma_xyz_roundtrip(a, b, 31);
    lemma_xyz_roundtrip(a2, 0, b2);
    lemma_xyz_roundtrip(a2, 31, b2);
    lemma_xyz_roundtrip(0, a2, b2);
    lemma_xyz_roundtrip(31, a2, b2);
    lemma_xyz_roundtrip(a2, b2, 0);
    lemma_xyz_roundtrip(a2, b2, 31);
}

} // verus!
