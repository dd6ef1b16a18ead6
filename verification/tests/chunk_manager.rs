use std::collections::VecDeque;
use std::sync::Arc;
use voxel_game::game::terrain::chunk::{Chunk, ChunkPosition};
use voxel_game::game::terrain::chunk_manager::{ChunkManager, ChunkOperation};

#[test]
fn jobs_are_applied_in_order() {
    let mut m = ChunkManager::new();
    let p = ChunkPosition::new(1, 2, 3);
    let mut jobs = VecDeque::new();
    jobs.push_back((p, Some(Arc::new(Chunk::new(5))), ChunkOperation::Addition));
    jobs.push_back((p, None, ChunkOperation::Update));
    jobs.push_back((p, None, ChunkOperation::Remotion));
    m.update_chunk_queue(jobs);
    assert_eq!(m.chunk_queue_number(), 3);
    m.dequeue_chunk();
    assert!(m.chunk_exists(p));
    assert_eq!(m.get_chunk(p).unwrap().get_block(0, 0, 0), 5);
    m.dequeue_chunk();
    assert!(m.chunk_exists(p));
    m.dequeue_chunk();
    assert!(!m.chunk_exists(p));
    assert_eq!(m.chunk_queue_number(), 0);
    m.dequeue_chunk();
    assert_eq!(m.chunk_queue_number(), 0);
}

#[test]
fn neighbors_in_north_south_east_west_up_down_order() {
    let mut m = ChunkManager::new();
    let c = ChunkPosition::new(0, 0, 0);
    for (i, p) in c.neighbors().iter().enumerate() {
        m.add_chunk(*p, Arc::new(Chunk::new(i)));
    }
    let n = m.get_neighbors(c);
    for i in 0..6 {
        assert_eq!(n[i].as_ref().unwrap().get_block(0, 0, 0), i);
    }
    m.remove_chunk(ChunkPosition::new(0, 0, 1));
    assert!(m.get_neighbors(c)[0].is_none());
}

#[test]
fn removal_job_only_for_loaded_chunks() {
    let mut m = ChunkManager::new();
    let p = ChunkPosition::new(4, 0, -2);
    assert!(m.async_remove_chunk(p).is_none());
    m.add_chunk(p, Arc::new(Chunk::new(1)));
    let job = m.async_remove_chunk(p).unwrap();
    assert_eq!(job.0, p);
    assert!(job.1.is_none());
    assert_eq!(job.2, ChunkOperation::Remotion);
    // applying it unloads the chunk
    let mut jobs = VecDeque::new();
    jobs.push_back(job);
    m.update_chunk_queue(jobs);
    m.dequeue_chunk();
    assert!(!m.chunk_exists(p));
}

#[test]
fn get_chunks_lists_every_loaded_chunk_once() {
    let mut m = ChunkManager::new();
    assert!(m.get_chunks().is_empty());
    m.add_chunk(ChunkPosition::new(0, 0, 0), Arc::new(Chunk::new(3)));
    m.add_chunk(ChunkPosition::new(0, 1, 0), Arc::new(Chunk::new(4)));
    let mut all: Vec<(ChunkPosition, usize)> =
        m.get_chunks().iter().map(|(p, c)| (*p, c.get_block(0, 0, 0))).collect();
    all.sort_by_key(|(p, _)| p.y);
    assert_eq!(all, vec![(ChunkPosition::new(0, 0, 0), 3), (ChunkPosition::new(0, 1, 0), 4)]);
}
