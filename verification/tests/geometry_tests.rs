use blocks_n_stuff::block::{BlockId, TextureId};
use blocks_n_stuff::chunk::{ChunkData, LocalPos};
use blocks_n_stuff::geometry::{
    build_block, build_chunk_boundary_neg_x, build_chunk_boundary_x, compute_ambient_occlusion_x, is_face_culled,
    ChunkBuildContext, ChunkGeometry, ChunkNeighborhood, ChunkUploadContext, CulledFaces, Face, Occlusion,
};

fn stone_at(data: &mut ChunkData, x: i32, y: i32, z: i32) {
    data.set_block(LocalPos::from_xyz(x, y, z), BlockId::Stone);
}

const NONE: Occlusion = Occlusion { left: false, right: false, bottom: false, top: false };

#[test]
fn face_culling_rules() {
    assert!(is_face_culled(BlockId::Air, BlockId::Air));
    assert!(is_face_culled(BlockId::Air, BlockId::Stone));
    assert!(!is_face_culled(BlockId::Stone, BlockId::Air));
    assert!(is_face_culled(BlockId::Stone, BlockId::Stone));
}

#[test]
fn lone_stone_block_has_six_faces() {
    let mut data = ChunkData::empty();
    stone_at(&mut data, 5, 5, 5);
    let pos = LocalPos::from_xyz(5, 5, 5);
    let mut ctx = ChunkBuildContext::new();
    build_block(&data, pos, &mut ctx);
    assert_eq!(ctx.transparent_quads.len(), 0);
    let faces: Vec<Face> = ctx.opaque_quads.iter().map(|q| q.face).collect();
    assert_eq!(faces, vec![Face::X, Face::NegX, Face::Y, Face::NegY, Face::Z, Face::NegZ]);
    assert!(ctx.opaque_quads.iter().all(|q| q.index as usize == pos.index()));
    assert!(ctx.opaque_quads.iter().all(|q| q.occlusion == NONE && q.texture == TextureId::Stone));
}

#[test]
fn air_block_has_no_faces() {
    let data = ChunkData::empty();
    let mut ctx = ChunkBuildContext::new();
    build_block(&data, LocalPos::from_xyz(1, 1, 1), &mut ctx);
    assert_eq!(ctx.opaque_quads.len() + ctx.transparent_quads.len(), 0);
}

#[test]
fn touching_faces_are_culled() {
    let mut data = ChunkData::empty();
    stone_at(&mut data, 5, 5, 5);
    stone_at(&mut data, 6, 5, 5);
    let culled = CulledFaces::of(&data, LocalPos::from_xyz(5, 5, 5));
    assert!(culled.contains(Face::X));
    assert!(!culled.contains(Face::NegX));
    let mut ctx = ChunkBuildContext::new();
    build_block(&data, LocalPos::from_xyz(5, 5, 5), &mut ctx);
    let faces: Vec<Face> = ctx.opaque_quads.iter().map(|q| q.face).collect();
    assert_eq!(faces, vec![Face::NegX, Face::Y, Face::NegY, Face::Z, Face::NegZ]);
}

#[test]
fn faces_on_the_chunk_border_are_culled_inside() {
    let mut data = ChunkData::empty();
    stone_at(&mut data, 0, 0, 0);
    let culled = CulledFaces::of(&data, LocalPos::from_xyz(0, 0, 0));
    assert!(culled.contains(Face::NegX) && culled.contains(Face::NegY) && culled.contains(Face::NegZ));
    assert!(!culled.contains(Face::X));
}

#[test]
fn ambient_occlusion_sees_diagonal_neighbours() {
    let mut data = ChunkData::empty();
    stone_at(&mut data, 5, 5, 5);
    stone_at(&mut data, 6, 5, 6);
    let occ = compute_ambient_occlusion_x(&data, LocalPos::from_xyz(6, 5, 5));
    assert_eq!(occ, Occlusion { left: false, right: true, bottom: false, top: false });
    let mut ctx = ChunkBuildContext::new();
    build_block(&data, LocalPos::from_xyz(5, 5, 5), &mut ctx);
    assert_eq!(ctx.opaque_quads[0].face, Face::X);
    assert!(ctx.opaque_quads[0].occlusion.right);
}

#[test]
fn inner_build_covers_every_block() {
    let mut data = ChunkData::empty();
    stone_at(&mut data, 5, 5, 5);
    stone_at(&mut data, 20, 3, 9);
    let mut ctx = ChunkBuildContext::new();
    ctx.build_inner(&data);
    assert_eq!(ctx.opaque_quads.len(), 12);
    ctx.clear();
    assert_eq!(ctx.opaque_quads.len(), 0);
}

#[test]
fn boundary_faces_against_neighbour_chunks() {
    let mut data = ChunkData::empty();
    stone_at(&mut data, 31, 0, 0);
    let empty = ChunkData::empty();
    let mut ctx = ChunkBuildContext::new();
    build_chunk_boundary_x(&data, &empty, &mut ctx);
    assert_eq!(ctx.opaque_quads.len(), 1);
    assert_eq!(ctx.opaque_quads[0].face, Face::X);
    assert_eq!(ctx.opaque_quads[0].occlusion, NONE);

    let mut other = ChunkData::empty();
    stone_at(&mut other, 0, 0, 0);
    let mut ctx2 = ChunkBuildContext::new();
    build_chunk_boundary_x(&data, &other, &mut ctx2);
    assert_eq!(ctx2.opaque_quads.len(), 0);
    build_chunk_boundary_neg_x(&data, &empty, &mut ctx2);
    assert_eq!(ctx2.opaque_quads.len(), 0);
}

#[test]
fn outer_build_walks_all_six_borders() {
    let mut data = ChunkData::empty();
    stone_at(&mut data, 0, 0, 0);
    let e = ChunkData::empty();
    let mut ctx = ChunkBuildContext::new();
    ctx.build_outer(ChunkNeighborhood { me: &data, x: &e, neg_x: &e, y: &e, neg_y: &e, z: &e, neg_z: &e });
    let faces: Vec<Face> = ctx.opaque_quads.iter().map(|q| q.face).collect();
    assert_eq!(faces, vec![Face::NegX, Face::NegY, Face::NegZ]);
}

#[test]
fn upload_recycles_buffers() {
    let mut data = ChunkData::empty();
    stone_at(&mut data, 3, 3, 3);
    let mut ctx = ChunkBuildContext::new();
    build_block(&data, LocalPos::from_xyz(3, 3, 3), &mut ctx);
    let mut upload = ChunkUploadContext::new();
    let mut geometry = ChunkGeometry::new();
    upload.upload(&ctx, &mut geometry);
    assert_eq!(geometry.opaque_quad_instances().unwrap().len(), 6);
    assert!(geometry.transparent_quad_instances().is_none());
    assert!(!geometry.is_empty());
    ctx.clear();
    upload.upload(&ctx, &mut geometry);
    assert!(geometry.is_empty());
    assert_eq!(upload.buffer_pool.len(), 1);
}
