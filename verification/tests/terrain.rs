use std::collections::VecDeque;
use std::sync::Arc;
use voxel_game::game::registry::{BlockRegistry, Registry, BlockDataBuilder};
use voxel_game::game::terrain::block::Direction;
use voxel_game::game::terrain::chunk::{locate_cell, Chunk, ChunkPosition};
use voxel_game::game::terrain::chunk_updater::{ChunkOperation, ChunkUpdater, is_near};
use voxel_game::game::terrain::generation::{TerrainBlocks, layered_chunk, filled_chunk, AIR};
use voxel_game::game::terrain::manager::{TerrainManager, MeshOrder, is_in_load_range, LOAD_VOLUME};
use voxel_game::game::terrain::mesher::{facing_blocks_are_known, visible_faces, UNKNOWN_TILE};

#[test]
fn new_chunk_is_filled() {
    let c = Chunk::new(3);
    assert_eq!(c.get_block(0, 0, 0), 3);
    assert_eq!(c.get_block(15, 15, 15), 3);
    assert_eq!(c.get_block(7, 2, 11), 3);
}

#[test]
fn set_then_get_block() {
    let mut c = Chunk::new(0);
    c.set_block(1, 2, 3, 9);
    assert_eq!(c.get_block(1, 2, 3), 9);
    assert_eq!(c.get_block(3, 2, 1), 0);
    assert_eq!(c.get_block(1, 2, 4), 0);
    c.set_block(1, 2, 3, 4);
    assert_eq!(c.get_block(1, 2, 3), 4);
}

#[test]
fn chunk_position_neighbors_order() {
    let p = ChunkPosition::new(1, 2, 3);
    let n = p.neighbors();
    assert_eq!(n[0], ChunkPosition::new(1, 2, 4));
    assert_eq!(n[1], ChunkPosition::new(1, 2, 2));
    assert_eq!(n[2], ChunkPosition::new(2, 2, 3));
    assert_eq!(n[3], ChunkPosition::new(0, 2, 3));
    assert_eq!(n[4], ChunkPosition::new(1, 3, 3));
    assert_eq!(n[5], ChunkPosition::new(1, 1, 3));
}

fn standard_registry() -> Registry {
    let mut r = Registry::new();
    r.setup();
    r
}

#[test]
fn terrain_blocks_from_standard_registry() {
    let r = standard_registry();
    let t = TerrainBlocks::from_registry(r.block_registry());
    assert_eq!(t, TerrainBlocks { grass: 2, dirt: 3, stone: 4, bedrock: 5 });
}

#[test]
fn terrain_blocks_fall_back_when_unknown() {
    let r = BlockRegistry::new();
    let t = TerrainBlocks::from_registry(&r);
    assert_eq!(t, TerrainBlocks { grass: 1, dirt: 1, stone: 1, bedrock: 1 });
}

#[test]
fn layered_chunk_at_surface_level() {
    let blocks = TerrainBlocks { grass: 2, dirt: 3, stone: 4, bedrock: 5 };
    let heights = vec![0i64; 256];
    let c = layered_chunk(ChunkPosition::new(0, 0, 0), &heights, blocks);
    // world height y: 0 is the surface, everything above is air
    assert_eq!(c.get_block(0, 0, 0), 2);
    assert_eq!(c.get_block(5, 0, 9), 2);
    assert_eq!(c.get_block(5, 1, 9), AIR);
    assert_eq!(c.get_block(5, 15, 9), AIR);
}

#[test]
fn layered_chunk_below_surface() {
    let blocks = TerrainBlocks { grass: 2, dirt: 3, stone: 4, bedrock: 5 };
    let heights = vec![0i64; 256];
    // layers -16 ..= -1
    let c = layered_chunk(ChunkPosition::new(0, -1, 0), &heights, blocks);
    assert_eq!(c.get_block(0, 0, 0), 5); // -16: bedrock
    assert_eq!(c.get_block(0, 1, 0), 4); // -15: stone
    assert_eq!(c.get_block(0, 12, 0), 4); // -4: stone
    assert_eq!(c.get_block(0, 13, 0), 3); // -3: dirt
    assert_eq!(c.get_block(0, 15, 0), 3); // -1: dirt
}

#[test]
fn layered_chunk_column_heights() {
    let blocks = TerrainBlocks { grass: 2, dirt: 3, stone: 4, bedrock: 5 };
    let mut heights = vec![0i64; 256];
    heights[3 * 16 + 7] = -5; // surface of column (3, 7) at world height 5
    let c = layered_chunk(ChunkPosition::new(0, 0, 0), &heights, blocks);
    assert_eq!(c.get_block(3, 5, 7), 2);
    assert_eq!(c.get_block(3, 4, 7), 3);
    assert_eq!(c.get_block(3, 2, 7), 3);
    assert_eq!(c.get_block(3, 1, 7), 4);
    assert_eq!(c.get_block(3, 6, 7), AIR);
    assert_eq!(c.get_block(3, 0, 8), 2);
}

#[test]
fn filled_chunk_up_to_floor() {
    let floors = vec![5i64; 256];
    let c = filled_chunk(ChunkPosition::new(0, 0, 0), &floors, 7, 0);
    assert_eq!(c.get_block(0, 5, 0), 7);
    assert_eq!(c.get_block(0, 0, 0), 7);
    assert_eq!(c.get_block(0, 6, 0), 0);
    let above = filled_chunk(ChunkPosition::new(0, 1, 0), &floors, 7, 0);
    assert_eq!(above.get_block(4, 0, 4), 0);
    let below = filled_chunk(ChunkPosition::new(0, -1, 0), &floors, 7, 0);
    assert_eq!(below.get_block(4, 15, 4), 7);
}

fn message(x: isize, y: isize, z: isize, op: ChunkOperation) -> (ChunkPosition, Arc<Chunk>, ChunkOperation) {
    (ChunkPosition::new(x, y, z), Arc::new(Chunk::new(0)), op)
}

#[test]
fn chunk_updater_queue_order() {
    let mut u = ChunkUpdater::new();
    assert_eq!(u.available_chunk_number(), 0);
    assert!(u.retrieve_first().is_none());
    let mut received = VecDeque::new();
    received.push_back(message(0, 0, 0, ChunkOperation::Creation));
    received.push_back(message(1, 0, 0, ChunkOperation::Remotion));
    u.update_available_chunks(received);
    assert_eq!(u.available_chunk_number(), 2);
    let first = u.retrieve_first().unwrap();
    assert_eq!(first.0, ChunkPosition::new(0, 0, 0));
    assert_eq!(first.2, ChunkOperation::Creation);
    assert_eq!(u.available_chunk_number(), 1);
}

#[test]
fn remove_late_chunks_keeps_near_ones_in_order() {
    let mut u = ChunkUpdater::new();
    let mut received = VecDeque::new();
    received.push_back(message(0, 0, 0, ChunkOperation::Creation));
    received.push_back(message(5, 0, 0, ChunkOperation::Creation));
    received.push_back(message(-4, 3, 1, ChunkOperation::Update));
    received.push_back(message(0, 0, -5, ChunkOperation::Creation));
    received.push_back(message(4, 4, 4, ChunkOperation::Remotion));
    u.update_available_chunks(received);
    u.remove_late_chunks(ChunkPosition::new(0, 0, 0), 5);
    assert_eq!(u.available_chunk_number(), 3);
    assert_eq!(u.retrieve_first().unwrap().0, ChunkPosition::new(0, 0, 0));
    assert_eq!(u.retrieve_first().unwrap().0, ChunkPosition::new(-4, 3, 1));
    assert_eq!(u.retrieve_first().unwrap().0, ChunkPosition::new(4, 4, 4));
    // dropping again changes nothing
    let mut v = ChunkUpdater::new();
    let mut again = VecDeque::new();
    again.push_back(message(1, 1, 1, ChunkOperation::Creation));
    v.update_available_chunks(again);
    v.remove_late_chunks(ChunkPosition::new(0, 0, 0), 5);
    v.remove_late_chunks(ChunkPosition::new(0, 0, 0), 5);
    assert_eq!(v.available_chunk_number(), 1);
}

#[test]
fn near_is_strict() {
    let c = ChunkPosition::new(10, 10, 10);
    assert!(is_near(c, 2, ChunkPosition::new(11, 9, 10)));
    assert!(!is_near(c, 2, ChunkPosition::new(12, 10, 10)));
    assert!(!is_near(c, 2, ChunkPosition::new(10, 10, 8)));
}

#[test]
fn manager_setup_lists_the_cube_around_origin() {
    let t = TerrainManager::new();
    let todo = t.setup();
    assert_eq!(todo.len(), LOAD_VOLUME);
    assert_eq!(todo[0], ChunkPosition::new(-6, -6, -6));
    assert_eq!(todo[1], ChunkPosition::new(-5, -6, -6));
    assert_eq!(todo[13], ChunkPosition::new(-6, -5, -6));
    assert_eq!(todo[169], ChunkPosition::new(-6, -6, -5));
    assert_eq!(todo[LOAD_VOLUME - 1], ChunkPosition::new(6, 6, 6));
}

#[test]
fn manager_update_asks_for_missing_chunks_only_when_moved() {
    let mut t = TerrainManager::new();
    // the player starts at (0, 1, 0)
    assert!(t.update(ChunkPosition::new(0, 1, 0)).is_empty());
    t.insert_chunk(ChunkPosition::new(0, 0, 0), Arc::new(Chunk::new(0)));
    let todo = t.update(ChunkPosition::new(0, 0, 0));
    assert_eq!(todo.len(), LOAD_VOLUME - 1);
    assert!(!todo.contains(&ChunkPosition::new(0, 0, 0)));
    assert!(todo.contains(&ChunkPosition::new(6, -6, 6)));
    assert!(!todo.contains(&ChunkPosition::new(7, 0, 0)));
    assert!(t.update(ChunkPosition::new(0, 0, 0)).is_empty());
}

#[test]
fn manager_mesh_orders() {
    let mut t = TerrainManager::new();
    t.update(ChunkPosition::new(0, 0, 0));
    t.insert_chunk(ChunkPosition::new(1, 0, 0), Arc::new(Chunk::new(0)));
    t.insert_chunk(ChunkPosition::new(20, 0, 0), Arc::new(Chunk::new(0)));
    let orders = t.mesh_chunks();
    assert_eq!(orders.len(), 2);
    assert!(orders.iter().any(|o| matches!(o, MeshOrder::Build(p) if *p == ChunkPosition::new(1, 0, 0))));
    assert!(orders.iter().any(|o| matches!(o, MeshOrder::Drop(p) if *p == ChunkPosition::new(20, 0, 0))));
    // a mesh already asked for is not asked for again
    let again = t.mesh_chunks();
    assert_eq!(again.len(), 1);
    assert!(matches!(again[0], MeshOrder::Drop(p) if p == ChunkPosition::new(20, 0, 0)));
    // a dirtied chunk is meshed again
    t.mesh_built(ChunkPosition::new(1, 0, 0));
    t.dirty_chunk(ChunkPosition::new(1, 0, 0));
    let after_dirty = t.mesh_chunks();
    assert!(after_dirty.iter().any(|o| matches!(o, MeshOrder::Build(p) if *p == ChunkPosition::new(1, 0, 0))));
}

#[test]
fn manager_block_lookup_and_neighbors() {
    let mut t = TerrainManager::new();
    let mut c = Chunk::new(0);
    c.set_block(2, 3, 4, 7);
    t.insert_chunk(ChunkPosition::new(0, 0, 0), Arc::new(c));
    t.insert_chunk(ChunkPosition::new(1, 0, 0), Arc::new(Chunk::new(9)));
    assert_eq!(t.block_at(ChunkPosition::new(0, 0, 0), 2, 3, 4), Some(7));
    assert_eq!(t.block_at(ChunkPosition::new(0, 0, 0), 2, 3, 5), Some(0));
    assert_eq!(t.block_at(ChunkPosition::new(5, 0, 0), 2, 3, 4), None);
    assert!(t.get_chunk(ChunkPosition::new(1, 0, 0)).is_some());
    let n = t.chunk_neighbors(ChunkPosition::new(0, 0, 0));
    assert_eq!(n[0].as_ref().unwrap().get_block(0, 0, 0), 9);
    assert!(n[1].is_none() && n[2].is_none() && n[3].is_none() && n[4].is_none() && n[5].is_none());
}

#[test]
fn manager_set_block_edits_loaded_chunk_and_remeshes_it() {
    let mut t = TerrainManager::new();
    t.update(ChunkPosition::new(0, 0, 0));
    t.insert_chunk(ChunkPosition::new(0, 0, 0), Arc::new(Chunk::new(0)));
    t.mesh_built(ChunkPosition::new(0, 0, 0));
    assert!(t.set_block(ChunkPosition::new(0, 0, 0), 1, 2, 3, 5));
    assert_eq!(t.block_at(ChunkPosition::new(0, 0, 0), 1, 2, 3), Some(5));
    assert_eq!(t.block_at(ChunkPosition::new(0, 0, 0), 3, 2, 1), Some(0));
    let orders = t.mesh_chunks();
    assert!(orders.iter().any(|o| matches!(o, MeshOrder::Build(p) if *p == ChunkPosition::new(0, 0, 0))));
    // no chunk loaded there: nothing changes
    assert!(!t.set_block(ChunkPosition::new(3, 0, 0), 1, 2, 3, 5));
    assert_eq!(t.block_at(ChunkPosition::new(3, 0, 0), 1, 2, 3), None);
}

#[test]
fn load_range_is_inclusive() {
    let c = ChunkPosition::new(0, 0, 0);
    assert!(is_in_load_range(c, ChunkPosition::new(6, -6, 0)));
    assert!(!is_in_load_range(c, ChunkPosition::new(7, 0, 0)));
}

#[test]
fn single_block_shows_six_faces() {
    let r = standard_registry();
    let mut c = Chunk::new(0);
    c.set_block(5, 5, 5, 4); // stone
    let none: [Option<Arc<Chunk>>; 6] = [None, None, None, None, None, None];
    let faces = visible_faces(&c, &none, r.block_registry(), 0, 0);
    assert_eq!(faces.len(), 6);
    let dirs: Vec<Direction> = faces.iter().map(|f| f.dir).collect();
    assert_eq!(dirs, vec![Direction::East, Direction::West, Direction::Top, Direction::Bottom, Direction::North, Direction::South]);
    assert!(faces.iter().all(|f| f.x == 5 && f.y == 5 && f.z == 5 && f.tile == [1, 15]));
}

#[test]
fn touching_blocks_hide_shared_faces() {
    let r = standard_registry();
    let mut c = Chunk::new(0);
    c.set_block(5, 5, 5, 2); // grass
    c.set_block(6, 5, 5, 3); // dirt east of it
    let none: [Option<Arc<Chunk>>; 6] = [None, None, None, None, None, None];
    let faces = visible_faces(&c, &none, r.block_registry(), 0, 0);
    assert_eq!(faces.len(), 10);
    let grass_top = faces.iter().find(|f| f.x == 5 && f.dir == Direction::Top).unwrap();
    assert_eq!(grass_top.tile, [0, 15]);
    let grass_bottom = faces.iter().find(|f| f.x == 5 && f.dir == Direction::Bottom).unwrap();
    assert_eq!(grass_bottom.tile, [2, 15]);
    assert!(faces.iter().all(|f| !(f.x == 5 && f.dir == Direction::East)));
    assert!(faces.iter().all(|f| !(f.x == 6 && f.dir == Direction::West)));
}

#[test]
fn border_faces_look_into_neighbors_or_outside() {
    let r = standard_registry();
    let mut c = Chunk::new(0);
    c.set_block(15, 0, 0, 4);
    let solid = Arc::new(Chunk::new(4));
    let east_solid: [Option<Arc<Chunk>>; 6] = [Some(solid), None, None, None, None, None];
    // the east neighbour is stone, so the east face is hidden
    let faces = visible_faces(&c, &east_solid, r.block_registry(), 0, 0);
    assert_eq!(faces.len(), 5);
    // a missing neighbour counts as the `outside` block: stone hides the face
    let none: [Option<Arc<Chunk>>; 6] = [None, None, None, None, None, None];
    let closed = visible_faces(&c, &none, r.block_registry(), 0, 4);
    assert_eq!(closed.len(), 3);
}

#[test]
fn unknown_block_kind_uses_fallback_tile() {
    let mut registry = BlockRegistry::new();
    registry.add("air", BlockDataBuilder::default().transparent(true).build());
    let mut c = Chunk::new(0);
    c.set_block(1, 1, 1, 42);
    let none: [Option<Arc<Chunk>>; 6] = [None, None, None, None, None, None];
    let faces = visible_faces(&c, &none, &registry, 0, 0);
    assert_eq!(faces.len(), 6);
    assert!(faces.iter().all(|f| f.tile == UNKNOWN_TILE));
}

#[test]
fn empty_chunk_shows_nothing() {
    let r = standard_registry();
    let c = Chunk::new(0);
    let none: [Option<Arc<Chunk>>; 6] = [None, None, None, None, None, None];
    assert!(visible_faces(&c, &none, r.block_registry(), 0, 0).is_empty());
}

#[test]
fn cells_are_located_in_their_chunks() {
    assert_eq!(locate_cell(0, 0, 0), (ChunkPosition::new(0, 0, 0), 0, 0, 0));
    assert_eq!(locate_cell(17, 15, 16), (ChunkPosition::new(1, 0, 1), 1, 15, 0));
    assert_eq!(locate_cell(-1, -16, -17), (ChunkPosition::new(-1, -1, -2), 15, 0, 15));
}

#[test]
fn only_blocks_in_front_of_solid_faces_must_be_known() {
    let r = standard_registry();
    let reg = r.block_registry();
    let none: [Option<Arc<Chunk>>; 6] = [None, None, None, None, None, None];
    let mut c = Chunk::new(0);
    // an unknown block kind surrounded by air: only known blocks lie in front of its faces
    c.set_block(3, 4, 5, 99);
    assert!(facing_blocks_are_known(&c, &none, reg, 0, 0));
    // a known block with the unknown one in front of a face
    c.set_block(2, 4, 5, 3);
    assert!(!facing_blocks_are_known(&c, &none, reg, 0, 0));
    // an unknown block beyond the border counts only if something faces it
    let c = Chunk::new(0);
    assert!(facing_blocks_are_known(&c, &none, reg, 0, 99));
    let mut c = Chunk::new(0);
    c.set_block(0, 0, 0, 3);
    assert!(!facing_blocks_are_known(&c, &none, reg, 0, 99));
}
