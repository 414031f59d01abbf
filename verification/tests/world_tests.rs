use blocks_n_stuff::block::BlockId;
use blocks_n_stuff::chunk::{ChunkData, LocalPos};
use blocks_n_stuff::geometry::Face;
use blocks_n_stuff::hud::Hotbar;
use blocks_n_stuff::player::{interact_with_blocks, placement_fits, LookingAt};
use std::cell::Cell;
use std::sync::Arc;

use blocks_n_stuff::task_pool::{NoThreads, Task};
use blocks_n_stuff::world::{cleanup_generation, GenerateChunk, WorldGenerator, chunk_and_local_pos, chunk_is_retained, ChunkEntry, ChunkPos, LoadedChunk, World};

fn load(world: &mut World, pos: ChunkPos, data: Box<ChunkData>) {
    assert!(world.request_chunk(pos).is_none());
    world.flush_pending_chunks(vec![(pos, data)]);
}

#[test]
fn chunk_and_local_pos_splits_coordinates() {
    let (c, l) = chunk_and_local_pos(-1, 33, 64);
    assert_eq!(c, ChunkPos::new(-1, 1, 2));
    assert_eq!((l.x(), l.y(), l.z()), (31, 1, 0));
    let (c, l) = chunk_and_local_pos(0, -32, 31);
    assert_eq!(c, ChunkPos::new(0, -1, 0));
    assert_eq!((l.x(), l.y(), l.z()), (0, 0, 31));
}

#[test]
fn requesting_a_chunk_queues_it_once() {
    let mut world = World::new();
    let pos = ChunkPos::new(0, 0, 0);
    assert!(world.request_chunk(pos).is_none());
    assert!(world.request_chunk(pos).is_none());
    assert_eq!(world.loaded_chunk_count(), 1);
    let batch = world.flush_pending_chunks(Vec::new());
    assert_eq!(batch, vec![pos]);
    assert!(world.flush_pending_chunks(Vec::new()).is_empty());
}

#[test]
fn generated_chunk_becomes_loaded() {
    let mut world = World::new();
    let pos = ChunkPos::new(0, 0, 0);
    assert!(world.get_block(0, 0, 0).is_none());
    let mut data = ChunkData::empty();
    data.set_block(LocalPos::from_xyz(1, 2, 3), BlockId::Stone);
    load(&mut world, pos, data);
    assert_eq!(world.get_block(1, 2, 3), Some(BlockId::Stone));
    assert_eq!(world.get_block(0, 0, 0), Some(BlockId::Air));
    assert!(world.get_chunk(pos).unwrap().is_dirty);
}

#[test]
fn unrequested_chunks_are_discarded() {
    let mut world = World::new();
    world.flush_pending_chunks(vec![(ChunkPos::new(3, 0, 0), ChunkData::empty())]);
    assert_eq!(world.loaded_chunk_count(), 0);
    assert!(world.get_chunk(ChunkPos::new(3, 0, 0)).is_none());
}

#[test]
fn set_block_then_get_block() {
    let mut world = World::new();
    load(&mut world, ChunkPos::new(-1, 0, 0), ChunkData::empty());
    assert!(world.set_block(-5, 7, 9, BlockId::Stone));
    assert_eq!(world.get_block(-5, 7, 9), Some(BlockId::Stone));
    assert_eq!(world.get_block(-5, 7, 10), Some(BlockId::Air));
    assert!(!world.set_block(5, 7, 9, BlockId::Stone));
    assert_eq!(world.get_block(5, 7, 9), None);
}

#[test]
fn request_rebuilds_dirty_chunks() {
    let mut world = World::new();
    let pos = ChunkPos::new(0, 0, 0);
    let mut data = ChunkData::empty();
    data.set_block(LocalPos::from_xyz(4, 4, 4), BlockId::Stone);
    load(&mut world, pos, data);
    let chunk: &LoadedChunk = world.request_chunk(pos).unwrap();
    assert!(!chunk.is_dirty);
    let quads = chunk.geometry.opaque_quad_instances().unwrap();
    assert_eq!(quads.len(), 6);
    assert!(chunk.geometry.transparent_quad_instances().is_none());
    assert!(world.request_chunk(pos).is_some());
}

#[test]
fn borders_are_built_once_neighbours_are_loaded() {
    let mut world = World::new();
    let center = ChunkPos::new(0, 0, 0);
    let mut data = ChunkData::empty();
    data.set_block(LocalPos::from_xyz(31, 0, 0), BlockId::Stone);
    load(&mut world, center, data);
    for (dx, dy, dz) in [(1, 0, 0), (-1, 0, 0), (0, 1, 0), (0, -1, 0), (0, 0, 1), (0, 0, -1)] {
        load(&mut world, ChunkPos::new(dx, dy, dz), ChunkData::empty());
    }
    let chunk = world.request_chunk(center).unwrap();
    let faces: Vec<Face> = chunk.geometry.opaque_quad_instances().unwrap().iter().map(|q| q.face).collect();
    assert_eq!(faces, vec![Face::NegX, Face::Y, Face::Z, Face::X, Face::NegY, Face::NegZ]);
}

#[test]
fn loading_a_neighbour_marks_chunks_dirty() {
    let mut world = World::new();
    let a = ChunkPos::new(0, 0, 0);
    load(&mut world, a, ChunkData::empty());
    assert!(!world.request_chunk(a).unwrap().is_dirty);
    load(&mut world, ChunkPos::new(0, 0, 1), ChunkData::empty());
    assert!(world.get_chunk(a).unwrap().is_dirty);
}

#[test]
fn setting_an_edge_block_marks_the_neighbour_dirty() {
    let mut world = World::new();
    let a = ChunkPos::new(0, 0, 0);
    let b = ChunkPos::new(1, 0, 0);
    load(&mut world, a, ChunkData::empty());
    load(&mut world, b, ChunkData::empty());
    world.request_chunk(a);
    world.request_chunk(b);
    assert!(world.set_block(31, 5, 5, BlockId::Stone));
    assert!(world.get_chunk(b).unwrap().is_dirty);
    world.request_chunk(b);
    assert!(world.set_block(30, 5, 5, BlockId::Stone));
    assert!(!world.get_chunk(b).unwrap().is_dirty);
}

#[test]
fn cleanup_keeps_only_nearby_chunks() {
    let mut world = World::new();
    load(&mut world, ChunkPos::new(0, 0, 0), ChunkData::empty());
    load(&mut world, ChunkPos::new(5, 0, 0), ChunkData::empty());
    load(&mut world, ChunkPos::new(0, 3, 0), ChunkData::empty());
    world.request_cleanup(ChunkPos::new(0, 0, 0), 3, 2);
    assert_eq!(world.loaded_chunk_count(), 1);
    assert!(world.get_chunk(ChunkPos::new(0, 0, 0)).is_some());
    assert!(chunk_is_retained(ChunkPos::new(2, 1, 2), ChunkPos::new(0, 0, 0), 3, 2));
    assert!(!chunk_is_retained(ChunkPos::new(3, 0, 0), ChunkPos::new(0, 0, 0), 3, 2));
    assert!(!chunk_is_retained(ChunkPos::new(0, -2, 0), ChunkPos::new(0, 0, 0), 3, 2));
}

#[test]
fn pending_chunks_sorted_closest_last() {
    let mut world = World::new();
    for p in [ChunkPos::new(1, 0, 0), ChunkPos::new(5, 0, 0), ChunkPos::new(0, 0, 0), ChunkPos::new(0, 3, 0)] {
        world.request_chunk(p);
    }
    world.sort_pending_chunks(ChunkPos::new(0, 0, 0));
    let batch = world.flush_pending_chunks(Vec::new());
    assert_eq!(batch, vec![ChunkPos::new(5, 0, 0), ChunkPos::new(0, 3, 0), ChunkPos::new(1, 0, 0), ChunkPos::new(0, 0, 0)]);
}

#[test]
fn chunk_entry_loaded_accessor() {
    let e = ChunkEntry::Generating;
    assert!(e.loaded().is_none());
    let l = ChunkEntry::Loaded(LoadedChunk::new(ChunkData::empty()));
    assert!(l.loaded().unwrap().is_dirty);
}

#[test]
fn destroying_and_placing_blocks() {
    let mut world = World::new();
    load(&mut world, ChunkPos::new(0, 0, 0), ChunkData::empty());
    world.set_block(4, 4, 4, BlockId::Stone);
    let mut hotbar = Hotbar::new([None; 9]);
    let l = LookingAt { x: 4, y: 4, z: 4, face: Face::NegY, block: BlockId::Stone };

    // Nothing to place: only the destruction happens.
    interact_with_blocks(&mut world, &hotbar, Some(l), true, true);
    assert_eq!(world.get_block(4, 4, 4), Some(BlockId::Air));
    assert_eq!(world.get_block(4, 3, 4), Some(BlockId::Air));

    // The picked material goes next to the block, across the face looked at.
    hotbar.pick_material(BlockId::Stone);
    assert_eq!(hotbar.current_material(), Some(BlockId::Stone));
    interact_with_blocks(&mut world, &hotbar, Some(l), false, true);
    assert_eq!(world.get_block(4, 3, 4), Some(BlockId::Stone));
    assert_eq!(world.get_block(4, 4, 4), Some(BlockId::Air));

    // Placing into a chunk that is not loaded changes nothing.
    let edge = LookingAt { x: 31, y: 0, z: 0, face: Face::X, block: BlockId::Stone };
    interact_with_blocks(&mut world, &hotbar, Some(edge), false, true);
    assert_eq!(world.get_block(32, 0, 0), None);
    assert_eq!(world.get_block(31, 0, 0), Some(BlockId::Air));

    // Looking at nothing changes nothing.
    interact_with_blocks(&mut world, &hotbar, None, true, true);
    assert_eq!(world.get_block(4, 3, 4), Some(BlockId::Stone));
}

#[test]
fn placement_stays_in_range() {
    let l = LookingAt { x: i32::MAX, y: 0, z: i32::MIN, face: Face::X, block: BlockId::Stone };
    assert!(!placement_fits(l));
    assert!(placement_fits(LookingAt { face: Face::NegX, ..l }));
    assert!(!placement_fits(LookingAt { face: Face::NegZ, ..l }));
    assert!(placement_fits(LookingAt { face: Face::Z, ..l }));
    assert!(placement_fits(LookingAt { face: Face::Y, ..l }));
}

#[test]
fn chunks_at_the_edge_of_the_world() {
    let mut world = World::new();
    let corner = ChunkPos::new(i32::MAX, i32::MIN, 0);
    assert!(world.request_chunk(corner).is_none());
    assert!(world.request_chunk(corner).is_none());
    assert_eq!(world.flush_pending_chunks(Vec::new()), vec![corner]);
    let other = ChunkPos::new(i32::MIN, 0, i32::MAX);
    world.flush_pending_chunks(vec![(other, ChunkData::empty())]);
    assert!(world.get_chunk(other).is_none());
    assert_eq!(world.loaded_chunk_count(), 1);
}

struct Counting {
    cleanups: Cell<u32>,
}

impl WorldGenerator for Counting {
    fn generate(&self, _pos: ChunkPos) -> Box<ChunkData> {
        let mut data = ChunkData::empty();
        data.set_block(LocalPos::from_xyz(0, 0, 0), BlockId::Stone);
        data
    }

    fn request_cleanup(&self, _center: ChunkPos, _h_radius: u32, _v_radius: u32) {
        self.cleanups.set(self.cleanups.get() + 1);
    }
}

#[test]
fn generation_cleanup_keeps_the_tasks_around_the_center() {
    let generator = Arc::new(Counting { cleanups: Cell::new(0) });
    let mut pool = NoThreads::new();
    let task = |x: i32| GenerateChunk { generator: generator.clone(), pos: ChunkPos::new(x, 0, 0) };
    let mut batch = vec![task(0), task(5), task(1), task(-2), task(3)];
    pool.submit_batch(&mut batch);
    cleanup_generation(&*generator, &mut pool, ChunkPos::new(0, 0, 0), 3, 2);
    assert_eq!(generator.cleanups.get(), 1);
    assert_eq!(pool.pending_tasks(), 3);
    let outputs = pool.fetch_outputs();
    let positions: Vec<i32> = outputs.iter().map(|(p, _)| p.x).collect();
    assert_eq!(positions, vec![-2, 1, 0]);
    assert_eq!(outputs[0].1.get_block(LocalPos::from_xyz(0, 0, 0)), BlockId::Stone);
    let (pos, _) = GenerateChunk { generator: generator.clone(), pos: ChunkPos::new(7, 8, 9) }.execute();
    assert_eq!(pos, ChunkPos::new(7, 8, 9));
}
