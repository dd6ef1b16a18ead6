use std::sync::Arc;
use voxel_game::game::terrain::block::Direction;
use voxel_game::game::terrain::block_registry::{BlockDataBuilder, BlockRegistry};
use std::collections::VecDeque;
use voxel_game::engine::mesh::MeshData;
use voxel_game::game::terrain::chunk::{Chunk, ChunkPosition};
use voxel_game::game::terrain::chunk_mesher::{mesh, ChunkMesher};

fn dirt_registry() -> BlockRegistry {
    let mut r = BlockRegistry::new();
    let dirt = BlockDataBuilder::new("dirt")
        .north_face([1, 2])
        .east_face([3, 4])
        .orientation(Direction::North)
        .build();
    r.add_block(1, dirt);
    r
}

fn no_neighbors() -> [Option<Arc<Chunk>>; 6] {
    [None, None, None, None, None, None]
}

#[test]
fn lone_block_shows_six_faces_in_mesher_order() {
    let mut c = Chunk::new(0);
    c.set_block(3, 4, 5, 1);
    let faces = mesh(&c, no_neighbors(), &dirt_registry(), 0, 0);
    let dirs: Vec<Direction> = faces.iter().map(|f| f.dir).collect();
    assert_eq!(
        dirs,
        vec![Direction::North, Direction::South, Direction::East, Direction::West, Direction::Top, Direction::Bottom]
    );
    assert!(faces.iter().all(|f| (f.x, f.y, f.z, f.block) == (3, 4, 5, 1)));
    let coords: Vec<[u32; 2]> = faces.iter().map(|f| f.coords).collect();
    assert_eq!(coords, vec![[1, 2], [1, 2], [3, 4], [1, 2], [1, 2], [1, 2]]);
}

#[test]
fn faces_between_solid_blocks_are_hidden() {
    let mut c = Chunk::new(0);
    c.set_block(3, 4, 5, 1);
    c.set_block(4, 4, 5, 1);
    let faces = mesh(&c, no_neighbors(), &dirt_registry(), 0, 0);
    assert_eq!(faces.len(), 10);
    assert!(!faces.iter().any(|f| f.x == 3 && f.dir == Direction::East));
    assert!(!faces.iter().any(|f| f.x == 4 && f.dir == Direction::West));
}

#[test]
fn border_faces_look_into_the_neighbor_on_that_side() {
    let mut c = Chunk::new(0);
    c.set_block(15, 0, 0, 1);
    // neighbours come north, south, east, west, up, down
    let mut n = no_neighbors();
    n[2] = Some(Arc::new(Chunk::new(1)));
    let faces = mesh(&c, n, &dirt_registry(), 0, 0);
    assert_eq!(faces.len(), 5);
    assert!(!faces.iter().any(|f| f.dir == Direction::East));
    // without that neighbour, what lies beyond counts as `outside`
    let faces = mesh(&c, no_neighbors(), &dirt_registry(), 0, 1);
    let dirs: Vec<Direction> = faces.iter().map(|f| f.dir).collect();
    assert_eq!(dirs, vec![Direction::North, Direction::West, Direction::Top]);
}

#[test]
fn air_chunk_has_no_faces() {
    let c = Chunk::new(0);
    assert!(mesh(&c, no_neighbors(), &dirt_registry(), 0, 0).is_empty());
}

#[test]
fn mesh_queue_hands_meshes_out_in_arrival_order() {
    let mut m: ChunkMesher<u8> = ChunkMesher::new();
    assert!(m.dequeue_mesh().is_none());
    let mut received = VecDeque::new();
    let mut first = MeshData::new();
    first.add(vec![1, 2, 3], vec![0, 1, 2]);
    received.push_back((ChunkPosition::new(1, 0, 0), first));
    received.push_back((ChunkPosition::new(2, 0, 0), MeshData::new()));
    m.update_mesh_queue(received);
    assert_eq!(m.mesh_queue_number(), 2);
    let (p, data) = m.dequeue_mesh().unwrap();
    assert_eq!(p, ChunkPosition::new(1, 0, 0));
    assert_eq!(data.vertices, vec![1, 2, 3]);
    assert_eq!(m.dequeue_mesh().unwrap().0, ChunkPosition::new(2, 0, 0));
    assert_eq!(m.mesh_queue_number(), 0);
}
