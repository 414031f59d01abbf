use std::sync::Arc;

use blocks_n_stuff::biome::{pick_biome, BiomeId, BiomeStage};
use blocks_n_stuff::block::BlockId;
use blocks_n_stuff::column::{ColumnPos, ColumnStore};
use blocks_n_stuff::debug::{DebugChunkState, DebugState};
use blocks_n_stuff::hud::{next_material, previous_material, Hotbar, HotbarInput};
use blocks_n_stuff::player::{chunks_around, ControlInput, DragKind, PlayerControls, SpeedKind, VerticalAction};
use blocks_n_stuff::sounds::Sounds;
use blocks_n_stuff::task_pool::{num_threads, take_last_tasks, wakeup_for_batch, NoThreads, Task, Wakeup};
use blocks_n_stuff::world::ChunkPos;

#[test]
fn biome_pick_follows_weights() {
    let allowed = vec![BiomeId::Plains, BiomeId::OakForest];
    assert_eq!(pick_biome(&allowed, 150), BiomeId::OakForest);
    assert_eq!(pick_biome(&allowed, 50), BiomeId::Plains);
    assert_eq!(pick_biome(&allowed, 0), BiomeId::Plains);
    assert_eq!(pick_biome(&allowed, (1u64 << 32) + 130), BiomeId::OakForest);
    let other = vec![BiomeId::PineForest, BiomeId::Desert];
    assert_eq!(pick_biome(&other, 40), BiomeId::PineForest);
    assert_eq!(pick_biome(&other, 60), BiomeId::Desert);
    // A value on a weight boundary belongs to the next biome.
    assert_eq!(pick_biome(&other, 50), BiomeId::Desert);
    assert_eq!(pick_biome(&other, 0), BiomeId::PineForest);
    // The result is always one of the allowed biomes.
    assert_eq!(pick_biome(&vec![BiomeId::Ocean], 0), BiomeId::Ocean);
    assert_eq!(pick_biome(&vec![BiomeId::Void, BiomeId::Ocean], 0), BiomeId::Ocean);
}

#[test]
fn biome_ids_and_weights() {
    let all = BiomeId::iter_all();
    assert_eq!(all, vec![BiomeId::Plains, BiomeId::OakForest, BiomeId::Desert, BiomeId::PineForest, BiomeId::Ocean]);
    assert_eq!(BiomeId::default(), BiomeId::Void);
    assert_eq!(BiomeId::PineForest.weight(), 50);
    assert_eq!(BiomeId::Void.weight(), 0);
}

#[test]
fn biome_stage_collects_distinct_biomes() {
    let mut ids = ColumnStore::new(BiomeId::Plains);
    let all = ColumnPos::iter_all();
    ids.set(all[5], BiomeId::Ocean);
    ids.set(all[9], BiomeId::Desert);
    ids.set(all[700], BiomeId::Ocean);
    let stage = BiomeStage::from_ids(ids);
    assert_eq!(stage.unique_biomes, vec![BiomeId::Plains, BiomeId::Ocean, BiomeId::Desert]);
    assert_eq!(*stage.ids.index(all[700]), BiomeId::Ocean);
}

struct Doubler(u32);

impl Task for Doubler {
    type Output = u32;

    fn execute(self) -> u32 {
        self.0 * 2
    }
}

#[test]
fn no_threads_pool_runs_last_task_first() {
    let mut pool = NoThreads::new();
    let mut batch = vec![Doubler(1), Doubler(2), Doubler(3), Doubler(4), Doubler(5), Doubler(6), Doubler(7)];
    pool.submit_batch(&mut batch);
    assert!(batch.is_empty());
    assert_eq!(pool.pending_tasks(), 7);
    assert_eq!(pool.fetch_outputs(), vec![14, 12, 10, 8, 6]);
    assert_eq!(pool.pending_tasks(), 2);
    pool.retain_tasks(|t: &Doubler| t.0 != 1);
    assert_eq!(pool.pending_tasks(), 1);
    assert_eq!(pool.fetch_outputs(), vec![4]);
    assert!(pool.fetch_outputs().is_empty());
    let mut two = vec![Doubler(1), Doubler(2)];
    pool.submit_batch(&mut two);
    assert_eq!(pool.fetch_outputs(), vec![4, 2]);
}

#[test]
fn thread_count_and_wakeups() {
    assert_eq!(num_threads(None), 0);
    assert_eq!(num_threads(Some(1)), 0);
    assert_eq!(num_threads(Some(2)), 0);
    assert_eq!(num_threads(Some(3)), 2);
    assert_eq!(num_threads(Some(8)), 4);
    assert_eq!(wakeup_for_batch(5, 4), Wakeup::All);
    assert_eq!(wakeup_for_batch(3, 4), Wakeup::One(3));
}

#[test]
fn take_last_tasks_moves_the_tail() {
    let mut tasks = vec![1, 2, 3, 4, 5];
    let mut out = vec![9];
    take_last_tasks(&mut tasks, &mut out, 2);
    assert_eq!(tasks, vec![1, 2, 3]);
    assert_eq!(out, vec![9, 4, 5]);
    take_last_tasks(&mut tasks, &mut out, 8);
    assert!(tasks.is_empty());
    assert_eq!(out, vec![9, 4, 5, 1, 2, 3]);
}

#[test]
fn materials_cycle_without_air() {
    assert_eq!(next_material(BlockId::Stone), BlockId::Stone);
    assert_eq!(next_material(BlockId::Air), BlockId::Stone);
    assert_eq!(previous_material(BlockId::Air), BlockId::Stone);
    assert_eq!(previous_material(BlockId::Stone), BlockId::Stone);
}

fn no_input() -> HotbarInput {
    HotbarInput { resized: false, next_material: false, previous_material: false, scroll: 0, digit: None }
}

#[test]
fn hotbar_selection() {
    let mut hotbar = Hotbar::new([None; 9]);
    assert_eq!(hotbar.current_material(), None);
    assert!(!hotbar.tick(no_input()));
    assert!(hotbar.tick(HotbarInput { scroll: 1, ..no_input() }));
    assert_eq!(hotbar.hotbar_slot, 8);
    assert!(hotbar.tick(HotbarInput { scroll: -1, ..no_input() }));
    assert_eq!(hotbar.hotbar_slot, 0);
    assert!(hotbar.tick(HotbarInput { next_material: true, ..no_input() }));
    assert_eq!(hotbar.current_material(), Some(BlockId::Stone));
    assert!(hotbar.tick(HotbarInput { digit: Some(4), ..no_input() }));
    assert_eq!(hotbar.hotbar_slot, 4);
    assert_eq!(hotbar.current_material(), None);
}

#[test]
fn debug_chunk_state_cycles() {
    let s = DebugChunkState::Hidden;
    assert_eq!(s.next_state(), DebugChunkState::ShowCurrentChunk);
    assert_eq!(s.next_state().next_state(), DebugChunkState::ShowAllChunks);
    assert_eq!(s.next_state().next_state().next_state(), DebugChunkState::Hidden);
    assert_eq!(DebugChunkState::Hidden.name(), "hidden");
    assert_eq!(DebugChunkState::ShowCurrentChunk.name(), "show current chunk");
    assert_eq!(DebugChunkState::ShowAllChunks.name(), "show all chunks");
}

#[test]
fn debug_state_averages_frame_times() {
    let mut d = DebugState::new();
    d.tick(true, true, 300_000_000);
    assert!(d.overlay);
    assert_eq!(d.chunk_state, DebugChunkState::ShowCurrentChunk);
    assert_eq!(d.average_frame_nanos, 0);
    d.tick(false, false, 300_000_000);
    assert_eq!(d.average_frame_nanos, 300_000_000);
    assert_eq!(d.accumulated_frame_count, 0);
    d.tick(true, false, 10);
    assert!(!d.overlay);
    assert_eq!(d.accumulated_frame_nanos, 10);
}

#[test]
fn chunks_around_a_center() {
    let center = ChunkPos::new(10, -3, 7);
    let chunks = chunks_around(center, 1, 0);
    let offsets: Vec<(i32, i32, i32)> = chunks.iter().map(|c| (c.x - 10, c.y + 3, c.z - 7)).collect();
    assert_eq!(offsets, vec![(-1, 0, 0), (0, 0, -1), (0, 0, 0), (0, 0, 1), (1, 0, 0)]);
    assert_eq!(chunks_around(center, 2, 1).len(), 13 * 3);
    assert_eq!(chunks_around(center, 0, 0), vec![center]);
    assert!(chunks_around(center, -1, 3).is_empty());
    assert!(chunks_around(center, 2, -1).is_empty());
    let corner = ChunkPos::new(i32::MAX, i32::MIN, i32::MAX);
    assert_eq!(chunks_around(corner, 0, 0), vec![corner]);
}

fn controls() -> PlayerControls {
    PlayerControls {
        render_distance: 8,
        sprinting: false,
        is_flying: false,
        is_on_ground: true,
        are_feet_underwater: false,
        last_jump_millis: 0,
        last_forward_millis: 0,
    }
}

fn idle(now: u64) -> ControlInput {
    ControlInput {
        render_distance_up: false,
        render_distance_down: false,
        sprint_just_pressed: false,
        forward_held: false,
        forward_just_pressed: false,
        jump_held: false,
        jump_just_pressed: false,
        now_millis: now,
    }
}

#[test]
fn player_controls_jump_and_fly() {
    let mut c = controls();
    assert_eq!(c.drag(), DragKind::Ground);
    assert_eq!(c.speed(), SpeedKind::Walk);
    let jump = ControlInput { jump_held: true, jump_just_pressed: true, ..idle(1000) };
    assert_eq!(c.apply_input(jump), VerticalAction::Jump);
    assert_eq!(c.last_jump_millis, 1000);
    assert!(!c.is_flying);
    c.apply_collisions(false, false);
    assert!(!c.is_on_ground);
    assert_eq!(c.drag(), DragKind::Air);
    assert_eq!(c.speed(), SpeedKind::AirControl);
    let again = ControlInput { jump_held: true, jump_just_pressed: true, ..idle(1200) };
    assert_eq!(c.apply_input(again), VerticalAction::Stay);
    assert!(c.is_flying);
    assert_eq!(c.drag(), DragKind::Flying);
    c.apply_collisions(true, false);
    assert!(!c.is_flying && c.is_on_ground);
}

#[test]
fn player_controls_sprint_and_render_distance() {
    let mut c = controls();
    c.apply_input(ControlInput { sprint_just_pressed: true, forward_held: true, render_distance_up: true, ..idle(10) });
    assert!(c.sprinting);
    assert_eq!(c.render_distance, 9);
    c.apply_input(idle(20));
    assert!(!c.sprinting);
    c.apply_input(ControlInput { forward_held: true, forward_just_pressed: true, ..idle(5000) });
    assert!(!c.sprinting);
    c.apply_input(ControlInput { forward_held: true, forward_just_pressed: true, ..idle(5100) });
    assert!(c.sprinting);
    c.apply_collisions(false, true);
    assert!(!c.sprinting);
    c.render_distance = 32;
    c.apply_input(ControlInput { render_distance_up: true, ..idle(9000) });
    assert_eq!(c.render_distance, 32);
    c.render_distance = 1;
    c.apply_input(ControlInput { render_distance_down: true, ..idle(9100) });
    assert_eq!(c.render_distance, 1);
    c.are_feet_underwater = true;
    assert_eq!(c.apply_input(ControlInput { jump_held: true, ..idle(9200) }), VerticalAction::Swim);
    assert_eq!(c.drag(), DragKind::Water);
}

#[test]
fn sounds_pick_a_variant() {
    let s = |v: u8| -> Arc<[u8]> { Arc::from(vec![v]) };
    let sounds = Sounds {
        background_music: s(0),
        step_sand1: s(1), step_sand2: s(2), step_sand3: s(3),
        step_grass1: s(4), step_grass2: s(5), step_grass3: s(6),
        step_stone1: s(7), step_stone2: s(8), step_stone3: s(9),
        step_wood1: s(10), step_wood2: s(11), step_wood3: s(12),
        break_sand1: s(13), break_sand2: s(14), break_sand3: s(15),
        break_grass1: s(16), break_grass2: s(17), break_grass3: s(18),
        break_stone1: s(19), break_stone2: s(20), break_stone3: s(21),
        break_wood1: s(22), break_wood2: s(23), break_wood3: s(24),
        break_glass1: s(25), break_glass2: s(26), break_glass3: s(27),
        break_gravel1: s(28), break_gravel2: s(29), break_gravel3: s(30),
    };
    assert_eq!(&*sounds.get_sound_for_block_break(BlockId::Stone, 4), &[20u8][..]);
    assert_eq!(&*sounds.get_sound_for_block_step(BlockId::Stone, 6), &[7u8][..]);
    assert_eq!(&*sounds.get_sound_for_block_break(BlockId::Air, 2), &[21u8][..]);
}
