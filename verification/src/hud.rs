use vstd::prelude::*;

use crate::block::{block_id_of_value, block_id_value, BlockId, BLOCK_ID_COUNT};

verus! {

/// The total number of slots available in the hotbar.
pub const HOTBAR_SLOT_COUNT: usize = 9;

/// The block that follows `block` when cycling through materials: the next block ID, wrapping
/// around to the first block after air.
pub open spec fn next_material_spec(block: BlockId) -> BlockId {
    let v = block_id_value(block) + 1;
    if v > BLOCK_ID_COUNT - 1 {
        block_id_of_value(1).unwrap()
    } else {
        block_id_of_value(v).unwrap()
    }
}

/// The block that precedes `block` when cycling through materials: the previous block ID,
/// skipping air and wrapping around to the last block.
pub open spec fn previous_material_spec(block: BlockId) -> BlockId {
    let v = block_id_value(block);
    if v == 0 || v - 1 == 0 {
        block_id_of_value(BLOCK_ID_COUNT - 1).unwrap()
    } else {
        block_id_of_value(v - 1).unwrap()
    }
}

/// Returns the block that follows `block` when cycling through materials.
pub fn next_material(block: BlockId) -> (r: BlockId)
    ensures
        r == next_material_spec(block),
        r != BlockId::Air,
{
    let mut new_id = block.to_integer() + 1;
    if new_id as usize > BLOCK_ID_COUNT - 1 {
        new_id = 0 + 1;
    }
    BlockId::from_integer(new_id).unwrap()
}

/// Returns the block that precedes `block` when cycling through materials.
pub fn previous_material(block: BlockId) -> (r: BlockId)
    ensures
        r == previous_material_spec(block),
        r != BlockId::Air,
{
    let id = block.to_integer();
    if id == 0 {
        return BlockId::from_integer((BLOCK_ID_COUNT - 1) as u8).unwrap();
    }
    let mut new_id = id - 1;
    if new_id == 0 {
        new_id = (BLOCK_ID_COUNT - 1) as u8;
    }
    BlockId::from_integer(new_id).unwrap()
}

/// The inputs that the hotbar reacts to during a tick.
#[derive(Debug, Clone, Copy)]
pub struct HotbarInput {
    /// The window was resized.
    pub resized: bool,
    /// The key that selects the next material was pressed.
    pub next_material: bool,
    /// The key that selects the previous material was pressed.
    pub previous_material: bool,
    /// The vertical scroll of the mouse wheel: positive, negative or zero.
    pub scroll: i8,
    /// The digit key (`1` to `9`) that was pressed, if any, as a slot index `0..9`.
    pub digit: Option<u8>,
}

/// The material selection of the player's Head-Up Display.
pub struct Hotbar {
    /// The index of the currently selected hotbar slot.
    pub hotbar_slot: usize,
    /// The materials that are currently available in the hotbar.
    pub materials: [Option<BlockId>; HOTBAR_SLOT_COUNT],
}

/// The material that the slot holds after the material key is pressed.
pub open spec fn cycled(m: Option<BlockId>, forward: bool) -> Option<BlockId> {
    let b = match m {
        Some(b) => b,
        None => BlockId::Air,
    };
    Some(if forward { next_material_spec(b) } else { previous_material_spec(b) })
}

/// The slot selected after scrolling by `scroll` from `slot`: scrolling up goes to the previous
/// slot, scrolling down to the next one, both wrapping around.
pub open spec fn scrolled(slot: int, scroll: int) -> int {
    if scroll > 0 {
        if slot == 0 { 8 } else { slot - 1 }
    } else if scroll < 0 {
        if slot == 8 { 0 } else { slot + 1 }
    } else {
        slot
    }
}

impl Hotbar {
    /// Creates a hotbar holding the provided materials, with the first slot selected.
    pub fn new(materials: [Option<BlockId>; HOTBAR_SLOT_COUNT]) -> (r: Hotbar)
        ensures
            r.hotbar_slot == 0,
            r.materials == materials,
    {
        Hotbar { hotbar_slot: 0, materials }
    }

    /// Returns the material currently selected in the hotbar.
    pub fn current_material(&self) -> (r: Option<BlockId>)
        requires
            self.hotbar_slot < HOTBAR_SLOT_COUNT,
        ensures
            r == self.materials@[self.hotbar_slot as int],
    {
        self.materials[self.hotbar_slot]
    }

    /// Puts `block` in the selected slot: the material picked from the block the player looks at.
    pub fn pick_material(&mut self, block: BlockId)
        requires
            old(self).hotbar_slot < HOTBAR_SLOT_COUNT,
        ensures
            final(self).hotbar_slot == old(self).hotbar_slot,
            final(self).materials@ == old(self).materials@.update(old(self).hotbar_slot as int, Some(block)),
    {
        let slot = self.hotbar_slot;
        self.materials[slot] = Some(block);
    }

    /// Applies the inputs of a tick to the hotbar, in order: the material keys change the
    /// material of the selected slot (next first, then previous), then the mouse wheel moves the
    /// selection, then a digit key selects a slot. Returns whether the UI must be rebuilt.
    pub fn tick(&mut self, input: HotbarInput) -> (r: bool)
        requires
            old(self).hotbar_slot < HOTBAR_SLOT_COUNT,
            input.digit matches Some(d) ==> d < 9,
        ensures
            final(self).hotbar_slot < HOTBAR_SLOT_COUNT,
            ({
                let slot = old(self).hotbar_slot as int;
                let m0 = old(self).materials@;
                let m1 = if input.next_material { m0.update(slot, cycled(m0[slot], true)) } else { m0 };
                let m2 = if input.previous_material { m1.update(slot, cycled(m1[slot], false)) } else { m1 };
                final(self).materials@ == m2
            }),
            ({
                let s1 = scrolled(old(self).hotbar_slot as int, input.scroll as int);
                final(self).hotbar_slot == match input.digit {
                    Some(d) => d as int,
                    None => s1,
                }
            }),
            r == (input.resized || input.next_material || input.previous_material || input.scroll != 0
                || input.digit is Some),
    {
        let mut rebuild = input.resized;
        let slot = self.hotbar_slot;
        if input.next_material {
            let current = match self.materials[slot] {
                Some(b) => b,
                None => BlockId::Air,
            };
            self.materials[slot] = Some(next_material(current));
            rebuild = true;
        }
        if input.previous_material {
            let current = match self.materials[slot] {
                Some(b) => b,
                None => BlockId::Air,
            };
            self.materials[slot] = Some(previous_material(current));
            rebuild = true;
        }
        if input.scroll > 0 {
            if self.hotbar_slot == 0 {
                self.hotbar_slot = HOTBAR_SLOT_COUNT - 1;
            } else {
                self.hotbar_slot = self.hotbar_slot - 1;
            }
            rebuild = true;
        } else if input.scroll < 0 {
            if self.hotbar_slot == HOTBAR_SLOT_COUNT - 1 {
                self.hotbar_slot = 0;
            } else {
                self.hotbar_slot = self.hotbar_slot + 1;
            }
            rebuild = true;
        }
        if let Some(d) = input.digit {
            self.hotbar_slot = d as usize;
            rebuild = true;
        }
        rebuild
    }
}

} // verus!

verus! {

/// Cycling forward then backward through the materials, or backward then forward, comes back
/// to the starting block, for every block but air.
pub proof fn lemma_material_cycle_inverse(block: BlockId)
    requires
        block != BlockId::Air,
    ensures
        previous_material_spec(next_material_spec(block)) == block,
        next_material_spec(previous_material_spec(block)) == block,
{
}

/// Scrolling keeps the selection on a hotbar slot: up goes to the previous slot and down to the
/// next one, wrapping around.
pub proof fn lemma_scroll_stays_in_hotbar(slot: int, scroll: int)
    requires
        0 <= slot < HOTBAR_SLOT_COUNT,
    ensures
        0 <= scrolled(slot, scroll) < HOTBAR_SLOT_COUNT,
        scroll > 0 ==> scrolled(slot, scroll) == (slot + 8) % 9,
        scroll < 0 ==> scrolled(slot, scroll) == (slot + 1) % 9,
        scroll == 0 ==> scrolled(slot, scroll) == slot,
{
}

} // verus!
