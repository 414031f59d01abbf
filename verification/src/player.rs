use vstd::prelude::*;

use crate::block::BlockId;
use crate::geometry::Face;
use crate::hud::{Hotbar, HOTBAR_SLOT_COUNT};
use crate::world::{
    block_at, chunk_coord, lemma_get_after_set, lemma_set_keeps_chunks_loaded, loaded_blocks, with_block, ChunkPos,
    ChunkState, World,
};

verus! {

/// The largest render distance that the player can select, in chunks.
pub const MAX_RENDER_DISTANCE: i32 = 32;

/// The time window within which a second key press counts as a double press, in milliseconds.
pub const DOUBLE_PRESS_MILLIS: u64 = 300;

/// The drag that applies to the player's velocity.
#[derive(Debug, Clone, Copy, PartialEq, Eq, Structural)]
pub enum DragKind {
    Flying,
    Water,
    Ground,
    Air,
}

/// The speed with which the player moves horizontally.
#[derive(Debug, Clone, Copy, PartialEq, Eq, Structural)]
pub enum SpeedKind {
    /// The flying speed.
    Fly,
    /// The walking speed.
    Walk,
    /// The walking speed reduced by the air control factor.
    AirControl,
}

/// What happens to the vertical velocity of a player that is not flying.
#[derive(Debug, Clone, Copy, PartialEq, Eq, Structural)]
pub enum VerticalAction {
    /// Nothing.
    Stay,
    /// The player swims up.
    Swim,
    /// The player jumps.
    Jump,
}

/// The key presses of a tick that the player's movement state reacts to.
#[derive(Debug, Clone, Copy)]
pub struct ControlInput {
    /// The key that increases the render distance was just pressed.
    pub render_distance_up: bool,
    /// The key that decreases the render distance was just pressed.
    pub render_distance_down: bool,
    /// The sprint key was just pressed.
    pub sprint_just_pressed: bool,
    /// The forward key is held.
    pub forward_held: bool,
    /// The forward key was just pressed.
    pub forward_just_pressed: bool,
    /// The jump key is held.
    pub jump_held: bool,
    /// The jump key was just pressed.
    pub jump_just_pressed: bool,
    /// The time since startup, in milliseconds.
    pub now_millis: u64,
}

/// The discrete part of the player's movement state.
pub struct PlayerControls {
    /// The number of chunks that the player can see from its point of view.
    pub render_distance: i32,
    /// Whether the player is currently sprinting.
    pub sprinting: bool,
    /// Whether the player is currently flying.
    pub is_flying: bool,
    /// Whether the player is currently on ground.
    pub is_on_ground: bool,
    /// Whether the feet of the player are currently underwater.
    pub are_feet_underwater: bool,
    /// The instant of the last jump, in milliseconds since startup.
    pub last_jump_millis: u64,
    /// The instant of the last forward input, in milliseconds since startup.
    pub last_forward_millis: u64,
}

/// The render distance after the render distance keys of a tick: one more when increased below
/// the maximum, then one less when decreased above one.
pub open spec fn adjusted_render_distance(rd: int, up: bool, down: bool) -> int {
    let r1 = if up && rd < MAX_RENDER_DISTANCE { rd + 1 } else { rd };
    if down && r1 > 1 { r1 - 1 } else { r1 }
}

/// Whether a press at `now` comes within [`DOUBLE_PRESS_MILLIS`] of the press at `last`.
pub open spec fn is_double_press(last: u64, now: u64) -> bool {
    last + DOUBLE_PRESS_MILLIS > now
}

impl PlayerControls {
    /// The drag that applies: flying, then water around the feet, then ground, then air.
    pub fn drag(&self) -> (r: DragKind)
        ensures
            r == if self.is_flying {
                DragKind::Flying
            } else if self.are_feet_underwater {
                DragKind::Water
            } else if self.is_on_ground {
                DragKind::Ground
            } else {
                DragKind::Air
            },
    {
        if self.is_flying {
            DragKind::Flying
        } else if self.are_feet_underwater {
            DragKind::Water
        } else if self.is_on_ground {
            DragKind::Ground
        } else {
            DragKind::Air
        }
    }

    /// The horizontal speed that applies: flying, then on ground, then in the air.
    pub fn speed(&self) -> (r: SpeedKind)
        ensures
            r == if self.is_flying {
                SpeedKind::Fly
            } else if self.is_on_ground {
                SpeedKind::Walk
            } else {
                SpeedKind::AirControl
            },
    {
        if self.is_flying {
            SpeedKind::Fly
        } else if self.is_on_ground {
            SpeedKind::Walk
        } else {
            SpeedKind::AirControl
        }
    }

    /// Applies the key presses of a tick, before the player moves. Returns what happens to the
    /// vertical velocity: a player who is not flying swims up while holding the jump key with
    /// the feet underwater, and jumps when pressing it on ground.
    ///
    /// Holding the forward key while pressing the sprint key starts sprinting, and releasing the
    /// forward key stops it; pressing the jump key twice within [`DOUBLE_PRESS_MILLIS`] toggles
    /// flying; pressing the forward key twice within that time starts sprinting.
    pub fn apply_input(&mut self, input: ControlInput) -> (r: VerticalAction)
        requires
            old(self).last_jump_millis + DOUBLE_PRESS_MILLIS <= u64::MAX,
            old(self).last_forward_millis + DOUBLE_PRESS_MILLIS <= u64::MAX,
        ensures
            final(self).render_distance == adjusted_render_distance(
                old(self).render_distance as int,
                input.render_distance_up,
                input.render_distance_down,
            ),
            1 <= old(self).render_distance <= MAX_RENDER_DISTANCE ==> 1 <= final(self).render_distance
                <= MAX_RENDER_DISTANCE,
            r == if old(self).is_flying {
                VerticalAction::Stay
            } else if old(self).are_feet_underwater {
                if input.jump_held { VerticalAction::Swim } else { VerticalAction::Stay }
            } else if old(self).is_on_ground && input.jump_just_pressed {
                VerticalAction::Jump
            } else {
                VerticalAction::Stay
            },
            ({
                let double_jump = input.jump_just_pressed && is_double_press(old(self).last_jump_millis, input.now_millis);
                &&& final(self).is_flying == (old(self).is_flying != double_jump)
                &&& final(self).last_jump_millis == if input.jump_just_pressed && !double_jump {
                    input.now_millis
                } else {
                    old(self).last_jump_millis
                }
            }),
            ({
                let s1 = if input.sprint_just_pressed && input.forward_held { true } else { old(self).sprinting };
                let s2 = if !input.forward_held { false } else { s1 };
                let double_forward = input.forward_just_pressed && is_double_press(old(self).last_forward_millis, input.now_millis);
                &&& final(self).sprinting == (s2 || double_forward)
                &&& final(self).last_forward_millis == if input.forward_just_pressed && !double_forward {
                    input.now_millis
                } else {
                    old(self).last_forward_millis
                }
            }),
            final(self).is_on_ground == old(self).is_on_ground,
            final(self).are_feet_underwater == old(self).are_feet_underwater,
    {
        if input.render_distance_up && self.render_distance < MAX_RENDER_DISTANCE {
            self.render_distance = self.render_distance + 1;
        }
        if input.render_distance_down && self.render_distance > 1 {
            self.render_distance = self.render_distance - 1;
        }
        if input.sprint_just_pressed && input.forward_held {
            self.sprinting = true;
        }
        if !input.forward_held {
            self.sprinting = false;
        }
        let mut action = VerticalAction::Stay;
        if !self.is_flying {
            if self.are_feet_underwater {
                if input.jump_held {
                    action = VerticalAction::Swim;
                }
            } else if self.is_on_ground {
                if input.jump_just_pressed {
                    action = VerticalAction::Jump;
                }
            }
        }
        if input.jump_just_pressed {
            if self.last_jump_millis + DOUBLE_PRESS_MILLIS > input.now_millis {
                self.is_flying = !self.is_flying;
            } else {
                self.last_jump_millis = input.now_millis;
            }
        }
        if input.forward_just_pressed {
            if self.last_forward_millis + DOUBLE_PRESS_MILLIS > input.now_millis {
                self.sprinting = true;
            } else {
                self.last_forward_millis = input.now_millis;
            }
        }
        action
    }

    /// Applies the outcome of the collision sweep of a tick: the player is on ground exactly when
    /// it hit something below, which also stops flying, and it stops sprinting when it hit
    /// something on every horizontal side.
    pub fn apply_collisions(&mut self, hit_below: bool, hit_horizontal: bool)
        ensures
            final(self).is_on_ground == hit_below,
            final(self).is_flying == (old(self).is_flying && !hit_below),
            final(self).sprinting == (old(self).sprinting && !hit_horizontal),
            final(self).render_distance == old(self).render_distance,
            final(self).are_feet_underwater == old(self).are_feet_underwater,
            final(self).last_jump_millis == old(self).last_jump_millis,
            final(self).last_forward_millis == old(self).last_forward_millis,
    {
        self.is_on_ground = false;
        if hit_below {
            self.is_on_ground = true;
            self.is_flying = false;
        }
        if hit_horizontal {
            self.sprinting = false;
        }
    }
}

} // verus!

verus! {

/// Whether the chunk offset `t` lies within view distance: `rd` horizontally (on a disc) and
/// `vrd` vertically.
pub open spec fn in_view_range(t: (int, int, int), rd: int, vrd: int) -> bool {
    &&& -rd <= t.0 <= rd
    &&& -vrd <= t.1 <= vrd
    &&& -rd <= t.2 <= rd
    &&& t.0 * t.0 + t.2 * t.2 <= rd * rd
}

/// The lexicographic order on chunk offsets, X first, then Y, then Z.
pub open spec fn lex_lt(a: (int, int, int), b: (int, int, int)) -> bool {
    a.0 < b.0 || (a.0 == b.0 && (a.1 < b.1 || (a.1 == b.1 && a.2 < b.2)))
}

/// The offset of `p` from `center`.
pub open spec fn offset_from(p: ChunkPos, center: ChunkPos) -> (int, int, int) {
    (p.x - center.x, p.y - center.y, p.z - center.z)
}

/// The invariant of the walk over chunk offsets, at cursor `cur`: every listed chunk is in view
/// range and before the cursor, listed in increasing order, and every offset in view range
/// before the cursor is listed, at the index `idx` gives.
pub open spec fn walk_inv(
    r: Seq<ChunkPos>,
    center: ChunkPos,
    rd: int,
    vrd: int,
    cur: (int, int, int),
    idx: Map<(int, int, int), int>,
) -> bool {
    &&& forall|k: int| 0 <= k < r.len() ==> in_view_range(#[trigger] offset_from(r[k], center), rd, vrd)
        && lex_lt(offset_from(r[k], center), cur)
    &&& forall|i: int, j: int| 0 <= i < j < r.len() ==> lex_lt(
        #[trigger] offset_from(r[i], center),
        #[trigger] offset_from(r[j], center),
    )
    &&& forall|t: (int, int, int)| in_view_range(t, rd, vrd) && lex_lt(t, cur) ==> {
        &&& #[trigger] idx.dom().contains(t)
        &&& 0 <= idx[t] < r.len()
        &&& offset_from(r[idx[t]], center) == t
    }
}

/// Returns the chunks within view distance of `center`: `render_distance` horizontally (on a
/// disc) and `vertical_render_distance` vertically, in increasing order of their offset (X, then
/// Y, then Z).
pub fn chunks_around(center: ChunkPos, render_distance: i32, vertical_render_distance: i32) -> (r: Vec<ChunkPos>)
    requires
        render_distance > i32::MIN,
        vertical_render_distance > i32::MIN,
        render_distance >= 0 ==> 2 * render_distance * render_distance <= i32::MAX,
        render_distance >= 0 ==> i32::MIN <= center.x - render_distance && center.x + render_distance <= i32::MAX,
        render_distance >= 0 ==> i32::MIN <= center.z - render_distance && center.z + render_distance <= i32::MAX,
        vertical_render_distance >= 0 ==> i32::MIN <= center.y - vertical_render_distance && center.y
            + vertical_render_distance <= i32::MAX,
    ensures
        forall|k: int| 0 <= k < r@.len() ==> in_view_range(#[trigger] offset_from(r@[k], center), render_distance as int, vertical_render_distance as int),
        forall|i: int, j: int| 0 <= i < j < r@.len() ==> lex_lt(
            #[trigger] offset_from(r@[i], center),
            #[trigger] offset_from(r@[j], center),
        ),
        forall|t: (int, int, int)| #[trigger] in_view_range(t, render_distance as int, vertical_render_distance as int) ==> exists|k: int|
            0 <= k < r@.len() && offset_from(r@[k], center) == t,
{
    let rd = render_distance as i64;
    let vrd = vertical_render_distance as i64;
    let ghost (rdi, vrdi) = (rd as int, vrd as int);
    let mut r: Vec<ChunkPos> = Vec::new();
    let ghost mut idx: Map<(int, int, int), int> = Map::empty();
    if rd < 0 || vrd < 0 {
        assert forall|t: (int, int, int)| #[trigger] in_view_range(t, rdi, vrdi) implies exists|k: int|
            0 <= k < r@.len() && offset_from(r@[k], center) == t by {}
        return r;
    }
    assert(rd <= 32767) by (nonlinear_arith)
        requires
            0 <= rd,
            2 * rd * rd <= 0x7fff_ffff,
    ;
    let mut x: i64 = -rd;
    while x <= rd
        invariant
            -rd <= x <= rd + 1,
            0 <= rd <= 32767,
            0 <= vrd < 0x8000_0000,
            2 * rd * rd <= i32::MAX,
            rdi == rd,
            vrdi == vrd,
            i32::MIN <= center.x - rd && center.x + rd <= i32::MAX,
            i32::MIN <= center.z - rd && center.z + rd <= i32::MAX,
            i32::MIN <= center.y - vrd && center.y + vrd <= i32::MAX,
            walk_inv(r@, center, rdi, vrdi, (x as int, -vrdi, -rdi), idx),
        decreases rd + 1 - x,
    {
        let mut y: i64 = -vrd;
        while y <= vrd
            invariant
                -rd <= x <= rd,
                -vrd <= y <= vrd + 1,
                0 <= rd <= 32767,
                0 <= vrd < 0x8000_0000,
                2 * rd * rd <= i32::MAX,
                rdi == rd,
                vrdi == vrd,
                i32::MIN <= center.x - rd && center.x + rd <= i32::MAX,
                i32::MIN <= center.z - rd && center.z + rd <= i32::MAX,
                i32::MIN <= center.y - vrd && center.y + vrd <= i32::MAX,
                walk_inv(r@, center, rdi, vrdi, (x as int, y as int, -rdi), idx),
            decreases vrd + 1 - y,
        {
            let mut z: i64 = -rd;
            while z <= rd
                invariant
                    -rd <= x <= rd,
                    -vrd <= y <= vrd,
                    -rd <= z <= rd + 1,
                    0 <= rd <= 32767,
                    0 <= vrd < 0x8000_0000,
                    2 * rd * rd <= i32::MAX,
                    rdi == rd,
                    vrdi == vrd,
                    i32::MIN <= center.x - rd && center.x + rd <= i32::MAX,
                    i32::MIN <= center.z - rd && center.z + rd <= i32::MAX,
                    i32::MIN <= center.y - vrd && center.y + vrd <= i32::MAX,
                    walk_inv(r@, center, rdi, vrdi, (x as int, y as int, z as int), idx),
                decreases rd + 1 - z,
            {
                assert(0 <= x * x <= 32767 * 32767) by (nonlinear_arith)
                    requires
                        -32767 <= x <= 32767,
                ;
                assert(0 <= z * z <= 32767 * 32767) by (nonlinear_arith)
                    requires
                        -32767 <= z <= 32767,
                ;
                assert(0 <= rd * rd <= 32767 * 32767) by (nonlinear_arith)
                    requires
                        0 <= rd <= 32767,
                ;
                let ghost cur = (x as int, y as int, z as int);
                let ghost next = (x as int, y as int, z as int + 1);
                if x * x + z * z <= rd * rd {
                    let ghost old_r = r@;
                    let ghost old_idx = idx;
                    let (px, py, pz) = (center.x as i64 + x, center.y as i64 + y, center.z as i64 + z);
                    assert(i32::MIN <= px <= i32::MAX && i32::MIN <= py <= i32::MAX && i32::MIN <= pz <= i32::MAX);
                    let p = ChunkPos { x: px as i32, y: py as i32, z: pz as i32 };
                    r.push(p);
                    proof {
                        assert(offset_from(p, center) == cur);
                        assert(r@[old_r.len() as int] == p);
                        idx = idx.insert(cur, old_r.len() as int);
                        assert forall|k: int| 0 <= k < r@.len() implies in_view_range(#[trigger] offset_from(r@[k], center), rdi, vrdi)
                            && lex_lt(offset_from(r@[k], center), next) by {
                            if k < old_r.len() {
                                assert(r@[k] == old_r[k]);
                            }
                        }
                        assert forall|i: int, j: int| 0 <= i < j < r@.len() implies lex_lt(
                            #[trigger] offset_from(r@[i], center),
                            #[trigger] offset_from(r@[j], center),
                        ) by {
                            assert(r@[i] == old_r[i]);
                            if j < old_r.len() {
                                assert(r@[j] == old_r[j]);
                            }
                        }
                        assert forall|t: (int, int, int)| in_view_range(t, rdi, vrdi) && lex_lt(t, next) implies {
                            &&& #[trigger] idx.dom().contains(t)
                            &&& 0 <= idx[t] < r@.len()
                            &&& offset_from(r@[idx[t]], center) == t
                        } by {
                            if t != cur {
                                assert(lex_lt(t, cur));
                                assert(old_idx.dom().contains(t));
                                assert(idx[t] == old_idx[t]);
                                assert(r@[idx[t]] == old_r[idx[t]]);
                            }
                        }
                    }
                } else {
                    proof {
                        assert(!in_view_range(cur, rdi, vrdi));
                        assert forall|t: (int, int, int)| in_view_range(t, rdi, vrdi) && lex_lt(t, next) implies {
                            &&& #[trigger] idx.dom().contains(t)
                            &&& 0 <= idx[t] < r@.len()
                            &&& offset_from(r@[idx[t]], center) == t
                        } by {
                            assert(t != cur);
                            assert(lex_lt(t, cur));
                            assert(idx.dom().contains(t));
                        }
                    }
                }
                z = z + 1;
            }
            proof {
                let cur = (x as int, y as int, rdi + 1);
                let next = (x as int, y as int + 1, -rdi);
                assert forall|t: (int, int, int)| in_view_range(t, rdi, vrdi) && lex_lt(t, next) implies lex_lt(t, cur) by {}
                assert forall|k: int| 0 <= k < r@.len() implies in_view_range(#[trigger] offset_from(r@[k], center), rdi, vrdi)
                    && lex_lt(offset_from(r@[k], center), next) by {
                    assert(lex_lt(offset_from(r@[k], center), cur));
                }
            }
            y = y + 1;
        }
        proof {
            let cur = (x as int, vrdi + 1, -rdi);
            let next = (x as int + 1, -vrdi, -rdi);
            assert forall|t: (int, int, int)| in_view_range(t, rdi, vrdi) && lex_lt(t, next) implies lex_lt(t, cur) by {}
            assert forall|k: int| 0 <= k < r@.len() implies in_view_range(#[trigger] offset_from(r@[k], center), rdi, vrdi)
                && lex_lt(offset_from(r@[k], center), next) by {
                assert(lex_lt(offset_from(r@[k], center), cur));
            }
        }
        x = x + 1;
    }
    proof {
        assert forall|t: (int, int, int)| #[trigger] in_view_range(t, rdi, vrdi) implies exists|k: int|
            0 <= k < r@.len() && offset_from(r@[k], center) == t by {
            assert(lex_lt(t, (rdi + 1, -vrdi, -rdi)));
            assert(idx.dom().contains(t));
            assert(offset_from(r@[idx[t]], center) == t);
        }
    }
    r
}

} // verus!

verus! {

/// The block that the player looks at: its world position, the face through which the line of
/// sight enters it, and the block itself.
#[derive(Debug, Clone, Copy)]
pub struct LookingAt {
    pub x: i32,
    pub y: i32,
    pub z: i32,
    pub face: Face,
    pub block: BlockId,
}

/// The offset from a block to its neighbour across face `f`.
pub open spec fn face_normal(f: Face) -> (int, int, int) {
    match f {
        Face::X => (1, 0, 0),
        Face::NegX => (-1, 0, 0),
        Face::Y => (0, 1, 0),
        Face::NegY => (0, -1, 0),
        Face::Z => (0, 0, 1),
        Face::NegZ => (0, 0, -1),
    }
}

/// The chunks after `block` is written at world position `(x, y, z)`: written when the chunk
/// holding it is loaded, unchanged otherwise.
pub open spec fn after_set(
    m: Map<(i32, i32, i32), ChunkState>,
    x: int,
    y: int,
    z: int,
    block: BlockId,
) -> Map<(i32, i32, i32), ChunkState> {
    if loaded_blocks(m, (chunk_coord(x) as i32, chunk_coord(y) as i32, chunk_coord(z) as i32)) is Some {
        with_block(m, x, y, z, block)
    } else {
        m
    }
}

/// The chunks after the block interactions of a tick: destroying replaces the block looked at
/// with air, then placing writes the selected material next to it, across the face looked at.
pub open spec fn after_interactions(
    m: Map<(i32, i32, i32), ChunkState>,
    looking_at: Option<LookingAt>,
    destroy: bool,
    place: Option<BlockId>,
) -> Map<(i32, i32, i32), ChunkState> {
    match looking_at {
        None => m,
        Some(l) => {
            let m1 = if destroy { after_set(m, l.x as int, l.y as int, l.z as int, BlockId::Air) } else { m };
            match place {
                Some(b) => {
                    let n = face_normal(l.face);
                    after_set(m1, l.x + n.0, l.y + n.1, l.z + n.2, b)
                },
                None => m1,
            }
        },
    }
}

/// Whether the world position next to `l`, across the face looked at, lies in the `i32` range.
pub open spec fn target_fits(l: LookingAt) -> bool {
    let n = face_normal(l.face);
    &&& i32::MIN <= l.x + n.0 <= i32::MAX
    &&& i32::MIN <= l.y + n.1 <= i32::MAX
    &&& i32::MIN <= l.z + n.2 <= i32::MAX
}

/// Returns whether the world position next to `l`, across the face looked at, lies in the
/// `i32` range, so that a block can be placed there.
pub fn placement_fits(l: LookingAt) -> (r: bool)
    ensures
        r == target_fits(l),
{
    match l.face {
        Face::X => l.x < i32::MAX,
        Face::NegX => l.x > i32::MIN,
        Face::Y => l.y < i32::MAX,
        Face::NegY => l.y > i32::MIN,
        Face::Z => l.z < i32::MAX,
        Face::NegZ => l.z > i32::MIN,
    }
}

/// The world position next to `l`, across the face looked at.
fn placement_target(l: LookingAt) -> (r: (i32, i32, i32))
    requires
        target_fits(l),
    ensures
        r.0 == l.x + face_normal(l.face).0,
        r.1 == l.y + face_normal(l.face).1,
        r.2 == l.z + face_normal(l.face).2,
{
    match l.face {
        Face::X => (l.x + 1, l.y, l.z),
        Face::NegX => (l.x - 1, l.y, l.z),
        Face::Y => (l.x, l.y + 1, l.z),
        Face::NegY => (l.x, l.y - 1, l.z),
        Face::Z => (l.x, l.y, l.z + 1),
        Face::NegZ => (l.x, l.y, l.z - 1),
    }
}

/// Applies the mouse buttons of a tick to the block the player looks at: `destroy` replaces it
/// with air, then `place` writes the material selected in the hotbar, if any, next to it across
/// the face looked at. Blocks of chunks that are not loaded are left alone.
pub fn interact_with_blocks(
    world: &mut World,
    hotbar: &Hotbar,
    looking_at: Option<LookingAt>,
    destroy: bool,
    place: bool,
)
    requires
        hotbar.hotbar_slot < HOTBAR_SLOT_COUNT,
        place && hotbar.materials@[hotbar.hotbar_slot as int] is Some ==> match looking_at {
            Some(l) => target_fits(l),
            None => true,
        },
    ensures
        final(world).chunk_states() == after_interactions(
            old(world).chunk_states(),
            looking_at,
            destroy,
            if place { hotbar.materials@[hotbar.hotbar_slot as int] } else { None },
        ),
        final(world).entry_count() == old(world).entry_count(),
        final(world).pending() == old(world).pending(),
{
    if let Some(l) = looking_at {
        if destroy {
            world.set_block(l.x, l.y, l.z, BlockId::Air);
        }
        if place {
            if let Some(material) = hotbar.current_material() {
                let (x, y, z) = placement_target(l);
                world.set_block(x, y, z, material);
            }
        }
    }
}

/// Whether the chunk holding the world block `(x, y, z)` is loaded, with a full set of blocks.
pub open spec fn holds_block(m: Map<(i32, i32, i32), ChunkState>, x: int, y: int, z: int) -> bool {
    loaded_blocks(m, (chunk_coord(x) as i32, chunk_coord(y) as i32, chunk_coord(z) as i32)) matches Some(b)
        && b.len() == 32768
}

/// The chunk key of the world block `(x, y, z)`.
pub open spec fn key_of(x: int, y: int, z: int) -> (i32, i32, i32) {
    (chunk_coord(x) as i32, chunk_coord(y) as i32, chunk_coord(z) as i32)
}

/// Writing a block keeps a block of a full chunk readable: the chunk holding `(x2, y2, z2)` is
/// still loaded with all its blocks.
proof fn lemma_set_keeps_holding(
    m: Map<(i32, i32, i32), ChunkState>,
    x: int,
    y: int,
    z: int,
    block: BlockId,
    x2: int,
    y2: int,
    z2: int,
)
    requires
        holds_block(m, x2, y2, z2),
    ensures
        holds_block(after_set(m, x, y, z, block), x2, y2, z2),
{
    if loaded_blocks(m, key_of(x, y, z)) is Some {
        lemma_set_keeps_chunks_loaded(m, x, y, z, block, key_of(x2, y2, z2));
    }
}

/// Destroying the block looked at leaves air there, whether or not a material is placed too,
/// and placing a material writes it next to that block, across the face looked at, when the
/// chunks holding them are loaded.
pub proof fn lemma_block_interactions(
    m: Map<(i32, i32, i32), ChunkState>,
    l: LookingAt,
    destroy: bool,
    place: Option<BlockId>,
)
    requires
        target_fits(l),
    ensures
        destroy && holds_block(m, l.x as int, l.y as int, l.z as int) ==> block_at(
            after_interactions(m, Some(l), destroy, place),
            l.x as int,
            l.y as int,
            l.z as int,
        ) == Some(BlockId::Air),
        ({
            let n = face_normal(l.face);
            let (tx, ty, tz) = (l.x + n.0, l.y + n.1, l.z + n.2);
            place is Some && holds_block(m, tx, ty, tz) ==> block_at(
                after_interactions(m, Some(l), destroy, place),
                tx,
                ty,
                tz,
            ) == place
        }),
{
    let n = face_normal(l.face);
    let (tx, ty, tz) = ((l.x + n.0) as i32, (l.y + n.1) as i32, (l.z + n.2) as i32);
    assert((tx, ty, tz) != (l.x, l.y, l.z));
    let m1 = if destroy { after_set(m, l.x as int, l.y as int, l.z as int, BlockId::Air) } else { m };
    if destroy && holds_block(m, l.x as int, l.y as int, l.z as int) {
        lemma_get_after_set(m, l.x, l.y, l.z, BlockId::Air, tx, ty, tz);
        lemma_set_keeps_holding(m, l.x as int, l.y as int, l.z as int, BlockId::Air, l.x as int, l.y as int, l.z as int);
        assert(block_at(m1, l.x as int, l.y as int, l.z as int) == Some(BlockId::Air));
        if let Some(b) = place {
            if loaded_blocks(m1, key_of(tx as int, ty as int, tz as int)) is Some {
                if key_of(tx as int, ty as int, tz as int) == key_of(l.x as int, l.y as int, l.z as int) {
                    lemma_get_after_set(m1, tx, ty, tz, b, l.x, l.y, l.z);
                } else {
                    lemma_set_keeps_chunks_loaded(
                        m1,
                        tx as int,
                        ty as int,
                        tz as int,
                        b,
                        key_of(l.x as int, l.y as int, l.z as int),
                    );
                }
            }
        }
    }
    if let Some(b) = place {
        if holds_block(m, tx as int, ty as int, tz as int) {
            if destroy {
                lemma_set_keeps_holding(m, l.x as int, l.y as int, l.z as int, BlockId::Air, tx as int, ty as int, tz as int);
            }
            lemma_get_after_set(m1, tx, ty, tz, b, l.x, l.y, l.z);
        }
    }
}

/// The render distance keys keep a render distance in `1..=MAX_RENDER_DISTANCE`, and move it by
/// at most one chunk per tick.
pub proof fn lemma_render_distance_steps(rd: int, up: bool, down: bool)
    requires
        1 <= rd <= MAX_RENDER_DISTANCE,
    ensures
        1 <= adjusted_render_distance(rd, up, down) <= MAX_RENDER_DISTANCE,
        -1 <= adjusted_render_distance(rd, up, down) - rd <= 1,
{
}

} // verus!
