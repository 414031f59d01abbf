use blocks_n_stuff::block::BlockId;
use blocks_n_stuff::chunk::{ChunkData, LocalPos};
use blocks_n_stuff::world::ChunkPos;
use blocks_n_stuff::worldgen::{
    checked_local_pos, ocean_layer, positions_within_bounds, select_prop, standard_layer, structure_in_chunk, structure_transform,
    structure_variant, OceanLayer, PendingStructure, Rotation, StandardLayer, StructureEdit, StructureRegistry,
    WorldPos,
};

#[test]
fn standard_layers_of_a_column() {
    assert_eq!(standard_layer(0, 5, 3), StandardLayer::Underground);
    assert_eq!(standard_layer(2, 5, 3), StandardLayer::Sand);
    assert_eq!(standard_layer(4, 5, 3), StandardLayer::Dirt);
    assert_eq!(standard_layer(5, 5, 3), StandardLayer::Surface);
    assert_eq!(standard_layer(-1, -5, 3), StandardLayer::Water);
    assert_eq!(standard_layer(6, 5, 3), StandardLayer::Prop);
    assert_eq!(standard_layer(3, 2, 3), StandardLayer::Empty);
    assert_eq!(standard_layer(9, 5, 3), StandardLayer::Empty);
}

#[test]
fn ocean_layers_of_a_column() {
    assert_eq!(ocean_layer(-1, 0, 3), OceanLayer::Sand);
    assert_eq!(ocean_layer(-20, -10, 3), OceanLayer::Stone);
    assert_eq!(ocean_layer(-12, -10, 3), OceanLayer::Gravel);
    assert_eq!(ocean_layer(-5, -10, 3), OceanLayer::Water);
    assert_eq!(ocean_layer(5, -10, 3), OceanLayer::Empty);
}

#[test]
fn last_matching_prop_wins() {
    assert_eq!(select_prop(&vec![10, 9, 6], &vec![5, 3, 4]), Some(1));
    assert_eq!(select_prop(&vec![11, 9], &vec![5, 4]), None);
    assert_eq!(select_prop(&vec![], &vec![]), None);
}

#[test]
fn structure_placement_decisions() {
    assert_eq!(structure_transform(33), (Rotation::Rotate90, true));
    assert_eq!(structure_transform(2), (Rotation::Rotate180, false));
    assert_eq!(structure_transform(7), (Rotation::Rotate270, false));
    assert!(structure_in_chunk(10, 0));
    assert!(!structure_in_chunk(32, 0));
    assert!(structure_in_chunk(-32, -32));
    assert_eq!(structure_variant(17, 5), 2);
    assert_eq!(structure_variant(u64::MAX, 7), (u64::MAX as usize) % 7);
}

fn structure() -> PendingStructure {
    PendingStructure {
        position: WorldPos { x: 30, y: 0, z: 0 },
        id: 1,
        bounds: WorldPos { x: 4, y: 2, z: 1 },
        edits: vec![
            StructureEdit { position: WorldPos { x: 0, y: 0, z: 0 }, block: BlockId::Stone },
            StructureEdit { position: WorldPos { x: 3, y: 1, z: 0 }, block: BlockId::Stone },
        ],
    }
}

#[test]
fn structure_overlaps_chunks() {
    let s = structure();
    assert_eq!(s.bounds(), (WorldPos { x: 30, y: 0, z: 0 }, WorldPos { x: 34, y: 2, z: 1 }));
    assert!(s.is_part_of_chunk(ChunkPos::new(0, 0, 0)));
    assert!(s.is_part_of_chunk(ChunkPos::new(1, 0, 0)));
    assert!(!s.is_part_of_chunk(ChunkPos::new(2, 0, 0)));
    assert!(!s.is_part_of_chunk(ChunkPos::new(0, 1, 0)));
    let empty = PendingStructure { bounds: WorldPos { x: 0, y: 0, z: 0 }, ..structure() };
    assert!(!empty.is_part_of_chunk(ChunkPos::new(0, 0, 0)));
}

#[test]
fn structure_writes_its_part_of_a_chunk() {
    let s = structure();
    let mut a = ChunkData::empty();
    s.write_to(ChunkPos::new(0, 0, 0), &mut a);
    assert_eq!(a.get_block(LocalPos::from_xyz(30, 0, 0)), BlockId::Stone);
    let mut b = ChunkData::empty();
    s.write_to(ChunkPos::new(1, 0, 0), &mut b);
    assert_eq!(b.get_block(LocalPos::from_xyz(1, 1, 0)), BlockId::Stone);
    assert_eq!(b.get_block(LocalPos::from_xyz(30, 0, 0)), BlockId::Air);
    assert!(checked_local_pos(ChunkPos::new(1, 0, 0), 31, 0, 0).is_none());
    assert_eq!(checked_local_pos(ChunkPos::new(-1, 0, 0), -1, 0, 0).unwrap().index(), 31);
}

#[test]
fn positions_within_bounds_enumerates_the_box() {
    let ps = positions_within_bounds(WorldPos { x: 0, y: -1, z: 5 }, WorldPos { x: 1, y: 0, z: 6 });
    let tuples: Vec<(i32, i32, i32)> = ps.iter().map(|p| (p.x, p.y, p.z)).collect();
    assert_eq!(
        tuples,
        vec![(0, -1, 5), (0, -1, 6), (0, 0, 5), (0, 0, 6), (1, -1, 5), (1, -1, 6), (1, 0, 5), (1, 0, 6)]
    );
    assert!(positions_within_bounds(WorldPos { x: 1, y: 0, z: 0 }, WorldPos { x: 0, y: 0, z: 0 }).is_empty());
    let top = WorldPos { x: i32::MAX, y: i32::MAX, z: i32::MAX };
    assert_eq!(positions_within_bounds(top, top), vec![top]);
}

#[test]
fn registry_writes_the_structures_touching_a_chunk() {
    let mut registry = StructureRegistry::new();
    let mut chunk = ChunkData::empty();
    registry.write_chunk(ChunkPos::new(0, 0, 0), &mut chunk);
    assert_eq!(chunk.get_block(LocalPos::from_xyz(30, 0, 0)), BlockId::Air);

    registry.insert(structure());
    let far = PendingStructure {
        position: WorldPos { x: 100, y: 0, z: 0 },
        id: 1,
        bounds: WorldPos { x: 1, y: 1, z: 1 },
        edits: vec![StructureEdit { position: WorldPos { x: 0, y: 0, z: 0 }, block: BlockId::Stone }],
    };
    registry.insert(far);
    registry.write_chunk(ChunkPos::new(0, 0, 0), &mut chunk);
    assert_eq!(chunk.get_block(LocalPos::from_xyz(30, 0, 0)), BlockId::Stone);
    let mut next = ChunkData::empty();
    registry.write_chunk(ChunkPos::new(1, 0, 0), &mut next);
    assert_eq!(next.get_block(LocalPos::from_xyz(1, 1, 0)), BlockId::Stone);
    let mut far_chunk = ChunkData::empty();
    registry.write_chunk(ChunkPos::new(3, 0, 0), &mut far_chunk);
    assert_eq!(far_chunk.get_block(LocalPos::from_xyz(4, 0, 0)), BlockId::Stone);

    // A structure with the same key replaces the previous one.
    registry.insert(PendingStructure { edits: Vec::new(), ..structure() });
    let mut replaced = ChunkData::empty();
    registry.write_chunk(ChunkPos::new(0, 0, 0), &mut replaced);
    assert_eq!(replaced.get_block(LocalPos::from_xyz(30, 0, 0)), BlockId::Air);
}
