use vstd::prelude::*;

use std::sync::Arc;

use crate::block::BlockId;

verus! {

/// A family of sounds: each has three variants, of which one is picked at random.
#[derive(Debug, Clone, Copy, PartialEq, Eq, Structural)]
pub enum SoundFamily {
    Grass,
    Sand,
    Wood,
    Gravel,
    Glass,
    Stone,
}

/// The family of the sound played when a block is broken.
pub open spec fn break_family_spec(block: BlockId) -> SoundFamily {
    match block {
        BlockId::Air => SoundFamily::Stone,
        BlockId::Stone => SoundFamily::Stone,
    }
}

/// The family of the sound played when the player steps on a block.
pub open spec fn step_family_spec(block: BlockId) -> SoundFamily {
    match block {
        BlockId::Air => SoundFamily::Stone,
        BlockId::Stone => SoundFamily::Stone,
    }
}

/// Returns the family of the sound played when a block is broken. The grass, sand, wood, gravel
/// and glass families belong to blocks that this crate's block set does not have: every block of
/// it sounds like stone.
pub fn break_family(block: BlockId) -> (r: SoundFamily)
    ensures
        r == break_family_spec(block),
{
    match block {
        BlockId::Air => SoundFamily::Stone,
        BlockId::Stone => SoundFamily::Stone,
    }
}

/// Returns the family of the sound played when the player steps on a block. As for breaking,
/// every block of this crate's block set sounds like stone.
pub fn step_family(block: BlockId) -> (r: SoundFamily)
    ensures
        r == step_family_spec(block),
{
    match block {
        BlockId::Air => SoundFamily::Stone,
        BlockId::Stone => SoundFamily::Stone,
    }
}

/// Returns another pointer to the same sound (`Arc::clone`).
#[verifier::external_body]
fn share(sound: &Arc<[u8]>) -> (r: Arc<[u8]>)
    ensures
        r == *sound,
{
    sound.clone()
}

/// The loaded sounds.
pub struct Sounds {
    pub background_music: Arc<[u8]>,
    pub step_sand1: Arc<[u8]>,
    pub step_sand2: Arc<[u8]>,
    pub step_sand3: Arc<[u8]>,
    pub step_grass1: Arc<[u8]>,
    pub step_grass2: Arc<[u8]>,
    pub step_grass3: Arc<[u8]>,
    pub step_stone1: Arc<[u8]>,
    pub step_stone2: Arc<[u8]>,
    pub step_stone3: Arc<[u8]>,
    pub step_wood1: Arc<[u8]>,
    pub step_wood2: Arc<[u8]>,
    pub step_wood3: Arc<[u8]>,
    pub break_sand1: Arc<[u8]>,
    pub break_sand2: Arc<[u8]>,
    pub break_sand3: Arc<[u8]>,
    pub break_grass1: Arc<[u8]>,
    pub break_grass2: Arc<[u8]>,
    pub break_grass3: Arc<[u8]>,
    pub break_stone1: Arc<[u8]>,
    pub break_stone2: Arc<[u8]>,
    pub break_stone3: Arc<[u8]>,
    pub break_wood1: Arc<[u8]>,
    pub break_wood2: Arc<[u8]>,
    pub break_wood3: Arc<[u8]>,
    pub break_glass1: Arc<[u8]>,
    pub break_glass2: Arc<[u8]>,
    pub break_glass3: Arc<[u8]>,
    pub break_gravel1: Arc<[u8]>,
    pub break_gravel2: Arc<[u8]>,
    pub break_gravel3: Arc<[u8]>,
}

impl Sounds {
    /// The break sound of `family` whose variant is `variant` (`0`, `1` or `2`).
    pub open spec fn break_sound(&self, family: SoundFamily, variant: int) -> Arc<[u8]> {
        match family {
            SoundFamily::Grass => if variant == 0 { self.break_grass1 } else if variant == 1 { self.break_grass2 } else { self.break_grass3 },
            SoundFamily::Sand => if variant == 0 { self.break_sand1 } else if variant == 1 { self.break_sand2 } else { self.break_sand3 },
            SoundFamily::Wood => if variant == 0 { self.break_wood1 } else if variant == 1 { self.break_wood2 } else { self.break_wood3 },
            SoundFamily::Gravel => if variant == 0 { self.break_gravel1 } else if variant == 1 { self.break_gravel2 } else { self.break_gravel3 },
            SoundFamily::Glass => if variant == 0 { self.break_glass1 } else if variant == 1 { self.break_glass2 } else { self.break_glass3 },
            SoundFamily::Stone => if variant == 0 { self.break_stone1 } else if variant == 1 { self.break_stone2 } else { self.break_stone3 },
        }
    }

    /// The step sound of `family` whose variant is `variant` (`0`, `1` or `2`); gravel steps
    /// sound like sand, and glass steps like stone.
    pub open spec fn step_sound(&self, family: SoundFamily, variant: int) -> Arc<[u8]> {
        match family {
            SoundFamily::Grass => if variant == 0 { self.step_grass1 } else if variant == 1 { self.step_grass2 } else { self.step_grass3 },
            SoundFamily::Sand => if variant == 0 { self.step_sand1 } else if variant == 1 { self.step_sand2 } else { self.step_sand3 },
            SoundFamily::Gravel => if variant == 0 { self.step_sand1 } else if variant == 1 { self.step_sand2 } else { self.step_sand3 },
            SoundFamily::Wood => if variant == 0 { self.step_wood1 } else if variant == 1 { self.step_wood2 } else { self.step_wood3 },
            SoundFamily::Glass => if variant == 0 { self.step_stone1 } else if variant == 1 { self.step_stone2 } else { self.step_stone3 },
            SoundFamily::Stone => if variant == 0 { self.step_stone1 } else if variant == 1 { self.step_stone2 } else { self.step_stone3 },
        }
    }

    /// Returns the sound that must be played when the player breaks the given block: a variant
    /// of its family picked by the random value `random`.
    pub fn get_sound_for_block_break(&self, block: BlockId, random: u32) -> (r: Arc<[u8]>)
        ensures
            r == self.break_sound(break_family_spec(block), (random % 3) as int),
    {
        let v = random % 3;
        match break_family(block) {
            SoundFamily::Grass => if v == 0 { share(&self.break_grass1) } else if v == 1 { share(&self.break_grass2) } else { share(&self.break_grass3) },
            SoundFamily::Sand => if v == 0 { share(&self.break_sand1) } else if v == 1 { share(&self.break_sand2) } else { share(&self.break_sand3) },
            SoundFamily::Wood => if v == 0 { share(&self.break_wood1) } else if v == 1 { share(&self.break_wood2) } else { share(&self.break_wood3) },
            SoundFamily::Gravel => if v == 0 { share(&self.break_gravel1) } else if v == 1 { share(&self.break_gravel2) } else { share(&self.break_gravel3) },
            SoundFamily::Glass => if v == 0 { share(&self.break_glass1) } else if v == 1 { share(&self.break_glass2) } else { share(&self.break_glass3) },
            SoundFamily::Stone => if v == 0 { share(&self.break_stone1) } else if v == 1 { share(&self.break_stone2) } else { share(&self.break_stone3) },
        }
    }

    /// Returns the sound that must be played when the player steps on the given block: a
    /// variant of its family picked by the random value `random`.
    pub fn get_sound_for_block_step(&self, block: BlockId, random: u32) -> (r: Arc<[u8]>)
        ensures
            r == self.step_sound(step_family_spec(block), (random % 3) as int),
    {
        let v = random % 3;
        match step_family(block) {
            SoundFamily::Grass => if v == 0 { share(&self.step_grass1) } else if v == 1 { share(&self.step_grass2) } else { share(&self.step_grass3) },
            SoundFamily::Sand => if v == 0 { share(&self.step_sand1) } else if v == 1 { share(&self.step_sand2) } else { share(&self.step_sand3) },
            SoundFamily::Gravel => if v == 0 { share(&self.step_sand1) } else if v == 1 { share(&self.step_sand2) } else { share(&self.step_sand3) },
            SoundFamily::Wood => if v == 0 { share(&self.step_wood1) } else if v == 1 { share(&self.step_wood2) } else { share(&self.step_wood3) },
            SoundFamily::Glass => if v == 0 { share(&self.step_stone1) } else if v == 1 { share(&self.step_stone2) } else { share(&self.step_stone3) },
            SoundFamily::Stone => if v == 0 { share(&self.step_stone1) } else if v == 1 { share(&self.step_stone2) } else { share(&self.step_stone3) },
        }
    }
}

} // verus!
