use blocks_n_stuff::block::{block_registry, BlockAppearance, BlockId, BlockTransparency, TextureId};
use blocks_n_stuff::chunk::{Chunk, ChunkData, LocalPos, CHUNK_SIZE};
use blocks_n_stuff::column::{ColumnPos, ColumnStore};

#[test]
fn local_pos_from_xyz_round_trips() {
    let p = LocalPos::from_xyz(1, 2, 3);
    assert_eq!(p.index(), 1 + 2 * 32 + 3 * 1024);
    assert_eq!((p.x(), p.y(), p.z()), (1, 2, 3));
    let q = LocalPos::from_xyz(31, 31, 31);
    assert_eq!(q.index(), CHUNK_SIZE - 1);
}

#[test]
fn local_pos_clear_coordinates() {
    let mut p = LocalPos::from_xyz(7, 9, 11);
    p.clear_y();
    assert_eq!((p.x(), p.y(), p.z()), (7, 0, 11));
    p.clear_x();
    assert_eq!((p.x(), p.y(), p.z()), (0, 0, 11));
    p.clear_z();
    assert_eq!(p.index(), 0);
}

#[test]
fn local_pos_new_unchecked_keeps_index() {
    let p = LocalPos::new_unchecked(5000);
    assert_eq!(p.index(), 5000);
    assert_eq!((p.x(), p.y(), p.z()), (5000 % 32, (5000 / 32) % 32, 5000 / 1024));
}

#[test]
fn local_pos_iter_all_order_and_coverage() {
    let all = LocalPos::iter_all();
    assert_eq!(all.len(), CHUNK_SIZE);
    assert_eq!(all[0].index(), 0);
    assert_eq!(all[1].index(), 32);
    assert_eq!(all[32].index(), 1024);
    assert_eq!(all[1024].index(), 1);
    let mut seen = vec![false; CHUNK_SIZE];
    for p in &all {
        assert!(!seen[p.index()]);
        seen[p.index()] = true;
    }
    assert!(seen.iter().all(|&s| s));
}

#[test]
fn local_pos_iter_surface_and_column() {
    let surface = LocalPos::iter_surface(5);
    assert_eq!(surface.len(), 1024);
    assert_eq!(surface[0].index(), 5 * 32);
    assert_eq!(surface[1].index(), 5 * 32 + 1024);
    assert_eq!(surface[32].index(), 5 * 32 + 1);
    assert!(surface.iter().all(|p| p.y() == 5));

    let column = LocalPos::from_xyz(3, 7, 9).iter_column();
    assert_eq!(column.len(), 32);
    assert_eq!(column[0].index(), 3 + 9 * 1024);
    assert_eq!(column[1].index(), 3 + 32 + 9 * 1024);
    assert!(column.iter().enumerate().all(|(i, p)| p.y() == i as i32 && p.x() == 3 && p.z() == 9));
}

#[test]
fn local_pos_neighbours_stay_in_chunk() {
    let edge = LocalPos::from_xyz(31, 0, 5);
    assert!(edge.next_x().is_none());
    assert_eq!(edge.prev_x().unwrap().index(), LocalPos::from_xyz(30, 0, 5).index());
    assert!(edge.prev_y().is_none());
    assert_eq!(edge.next_y().unwrap().index(), LocalPos::from_xyz(31, 1, 5).index());
    assert_eq!(edge.next_z().unwrap().index(), LocalPos::from_xyz(31, 0, 6).index());
    assert_eq!(edge.prev_z().unwrap().index(), LocalPos::from_xyz(31, 0, 4).index());
    assert!(LocalPos::from_xyz(0, 0, 31).next_z().is_none());
}

#[test]
fn chunk_data_get_and_set() {
    let mut data = ChunkData::empty();
    let p = LocalPos::from_xyz(4, 5, 6);
    assert_eq!(data.get_block(p), BlockId::Air);
    data.set_block(p, BlockId::Stone);
    assert_eq!(*data.index(p), BlockId::Stone);
    assert_eq!(data.get_block(LocalPos::from_xyz(4, 5, 7)), BlockId::Air);
    let chunk = Chunk::new(data);
    assert!(chunk.dirty);
    assert!(chunk.geometry.is_empty());
}

#[test]
fn block_registry_holds_block_infos() {
    let registry = block_registry();
    assert_eq!(registry.index(BlockId::Air).transparency, BlockTransparency::Invisible);
    assert_eq!(registry.index(BlockId::Air).appearance, BlockAppearance::Invisible);
    assert_eq!(registry.index(BlockId::Stone).transparency, BlockTransparency::Opaque);
    assert_eq!(
        BlockId::Stone.info().appearance,
        BlockAppearance::Regular { top: TextureId::Stone, bottom: TextureId::Stone, side: TextureId::Stone }
    );
    assert_eq!(BlockId::from_integer(1), Some(BlockId::Stone));
    assert_eq!(BlockId::from_integer(2), None);
    assert_eq!(BlockId::Stone.to_integer(), 1);
}

#[test]
fn column_pos_from_world_pos_wraps() {
    let p = ColumnPos::from_world_pos(-1, 33);
    assert_eq!(p.index(), 31 + 32);
    assert_eq!((p.x(), p.z()), (31, 1));
    assert_eq!(p.to_vec2(), (31, 1));
    assert_eq!(ColumnPos::from_world_pos(64, -64).index(), 0);
}

#[test]
fn column_pos_from_local_and_offsets() {
    let p = ColumnPos::from_local_pos(LocalPos::from_xyz(5, 20, 7));
    assert_eq!(p.index(), 5 + 7 * 32);
    let q: ColumnPos = LocalPos::from_xyz(5, 0, 7).into();
    assert_eq!(q, p);
    assert_eq!(p.add_x_unchecked(-5).index(), 7 * 32);
    assert_eq!(p.add_x_unchecked(3).index(), 8 + 7 * 32);
    assert_eq!(p.add_z_unchecked(2).index(), 5 + 9 * 32);
    assert_eq!(p.add_z_unchecked(-7).index(), 5);
}

#[test]
fn column_pos_iter_all_and_store() {
    let all = ColumnPos::iter_all();
    assert_eq!(all.len(), 1024);
    assert!(all.iter().enumerate().all(|(i, p)| p.index() == i));
    let mut store = ColumnStore::new(7i32);
    assert_eq!(*store.index(all[100]), 7);
    store.set(all[100], -3);
    assert_eq!(*store.index(all[100]), -3);
    assert_eq!(*store.index(all[101]), 7);
}
