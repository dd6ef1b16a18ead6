use std::sync::Arc;
use voxel_game::game::terrain::chunk::{Chunk, ChunkPosition};
use voxel_game::game::terrain::manager_old::{update_chunks, ChunkChange};
use voxel_game::utils::shared_map::ChunkTable;

fn table(keys: &[(isize, isize, isize)]) -> ChunkTable {
    let t = ChunkTable::default();
    for k in keys {
        t.insert(*k, Arc::new(Chunk::new(0)));
    }
    t
}

#[test]
fn update_chunks_removes_outside_and_creates_inside() {
    // the box for distance 1 around the origin spans -1 and 0 on each axis;
    // only the origin is strictly inside the view
    let t = table(&[(-1, 0, 0), (5, 5, 5)]);
    let plan = update_chunks(&t, ChunkPosition::new(0, 0, 0), 1);
    assert_eq!(
        plan,
        vec![
            ChunkChange::Remove(ChunkPosition::new(-1, 0, 0)),
            ChunkChange::Create(ChunkPosition::new(0, 0, 0)),
            // the final pass unloads the chunk far outside the box
            ChunkChange::Remove(ChunkPosition::new(5, 5, 5)),
        ]
    );
}

#[test]
fn update_chunks_keeps_what_is_in_place() {
    let t = table(&[(0, 0, 0)]);
    assert!(update_chunks(&t, ChunkPosition::new(0, 0, 0), 1).is_empty());
    // a view of distance 0 walks no position, and the final pass unloads
    // every loaded chunk
    let t = table(&[(0, 0, 0), (1, 1, 1)]);
    let plan = update_chunks(&t, ChunkPosition::new(0, 0, 0), 0);
    assert_eq!(plan.len(), 2);
    assert!(plan.contains(&ChunkChange::Remove(ChunkPosition::new(0, 0, 0))));
    assert!(plan.contains(&ChunkChange::Remove(ChunkPosition::new(1, 1, 1))));
}

#[test]
fn update_chunks_walks_x_then_y_then_z() {
    let t = table(&[]);
    let plan = update_chunks(&t, ChunkPosition::new(10, 0, 0), 2);
    // strictly inside: 9..=11 on x, -1..=1 on y and z, walked with z fastest
    assert_eq!(plan.len(), 27);
    assert_eq!(plan[0], ChunkChange::Create(ChunkPosition::new(9, -1, -1)));
    assert_eq!(plan[1], ChunkChange::Create(ChunkPosition::new(9, -1, 0)));
    assert_eq!(plan[3], ChunkChange::Create(ChunkPosition::new(9, 0, -1)));
    assert_eq!(plan[9], ChunkChange::Create(ChunkPosition::new(10, -1, -1)));
    assert_eq!(plan[26], ChunkChange::Create(ChunkPosition::new(11, 1, 1)));
}
