//! The chunks of the world, and the queue of chunk jobs that worker threads
//! have finished and that wait to be applied to them. The worker threads and
//! the channel they report on are run by the caller, which hands over what it
//! received.
use vstd::prelude::*;
use std::collections::VecDeque;
use std::sync::Arc;
use crate::game::terrain::chunk::{Chunk, ChunkPosition, steppable};
use crate::game::terrain::manager::key_of;
use crate::utils::shared_map::{
    ChunkKey, ChunkTable, chunk_entries, new_chunk_table, insert_chunk_entry, remove_chunk_entry,
    has_chunk_entry, chunk_entry, chunk_keys,
};

verus! {

/// What a finished chunk job asks of the chunk manager.
#[derive(Debug, Clone, Copy, PartialEq, Eq, Structural)]
pub enum ChunkOperation {
    Addition,
    Remotion,
    Update,
}

/// A finished chunk job: where, the chunk if one was made, and what to do.
pub type ChunkUpdaterMessage = (ChunkPosition, Option<Arc<Chunk>>, ChunkOperation);

/// The job at the front of `queue` can be applied: an addition brings a chunk.
pub open spec fn front_applicable(queue: Seq<ChunkUpdaterMessage>) -> bool {
    queue.len() > 0 && queue[0].2 == ChunkOperation::Addition ==> queue[0].1 is Some
}

/// The chunk table after applying job `m`.
pub open spec fn apply_job(chunks: Map<ChunkKey, Seq<usize>>, m: ChunkUpdaterMessage) -> Map<ChunkKey, Seq<usize>> {
    match m.2 {
        ChunkOperation::Addition => chunks.insert(key_of(m.0), m.1.unwrap()@),
        ChunkOperation::Remotion => chunks.remove(key_of(m.0)),
        ChunkOperation::Update => chunks,
    }
}

/// The blocks of the chunk under key `k`, if one is loaded.
pub open spec fn loaded(chunks: Map<ChunkKey, Seq<usize>>, k: ChunkKey) -> Option<Seq<usize>> {
    if chunks.contains_key(k) {
        Some(chunks[k])
    } else {
        None
    }
}

/// The loaded chunks and the finished jobs waiting to be applied to them.
pub struct ChunkManager {
    chunks: ChunkTable,
    chunk_queue: VecDeque<ChunkUpdaterMessage>,
}

impl ChunkManager {
    /// Loaded chunks, by position, as their block ids.
    pub closed spec fn chunks(&self) -> Map<ChunkKey, Seq<usize>> {
        chunk_entries(self.chunks)
    }

    /// Waiting jobs, oldest first.
    pub closed spec fn queue(&self) -> Seq<ChunkUpdaterMessage> {
        self.chunk_queue@
    }

    /// No chunk loaded and no job waiting.
    pub fn new() -> (m: Self)
        ensures
            m.chunks() == Map::<ChunkKey, Seq<usize>>::empty(),
            m.queue() == Seq::<ChunkUpdaterMessage>::empty(),
    {
        Self { chunks: new_chunk_table(), chunk_queue: VecDeque::new() }
    }

    /// The loaded chunks with their positions, each once, in no fixed order.
    pub fn get_chunks(&self) -> (all: Vec<(ChunkPosition, Arc<Chunk>)>)
        ensures
            forall|i: int|
                0 <= i < all@.len() ==> {
                    &&& self.chunks().contains_key(key_of((#[trigger] all@[i]).0))
                    &&& all@[i].1@ == self.chunks()[key_of(all@[i].0)]
                },
            forall|k: ChunkKey|
                self.chunks().contains_key(k) ==> exists|i: int|
                    0 <= i < all@.len() && key_of(#[trigger] all@[i].0) == k,
            forall|i: int, j: int|
                0 <= i < all@.len() && 0 <= j < all@.len() && i != j ==> (#[trigger] all@[i]).0
                    != (#[trigger] all@[j]).0,
    {
        let keys = chunk_keys(&self.chunks);
        let mut all: Vec<(ChunkPosition, Arc<Chunk>)> = Vec::new();
        let mut j: usize = 0;
        while j < keys.len()
            invariant
                j <= keys@.len(),
                keys@.to_set() == self.chunks().dom(),
                keys@.no_duplicates(),
                all@.len() == j,
                forall|i: int|
                    0 <= i < j ==> key_of((#[trigger] all@[i]).0) == keys@[i] && all@[i].1@
                        == self.chunks()[keys@[i]],
            decreases keys@.len() - j,
        {
            let k = keys[j];
            proof {
                assert(keys@.to_set().contains(k));
            }
            match chunk_entry(&self.chunks, k) {
                Some(c) => {
                    all.push((ChunkPosition::new(k.0, k.1, k.2), c));
                },
                None => {},
            }
            j = j + 1;
        }
        proof {
            assert forall|i: int| 0 <= i < all@.len() implies self.chunks().contains_key(
                key_of((#[trigger] all@[i]).0),
            ) by {
                assert(keys@.to_set().contains(keys@[i]));
            }
            assert forall|k: ChunkKey| self.chunks().contains_key(k) implies exists|i: int|
                0 <= i < all@.len() && key_of(#[trigger] all@[i].0) == k by {
                assert(keys@.to_set().contains(k));
                let i = choose|i: int| 0 <= i < keys@.len() && keys@[i] == k;
                assert(key_of(all@[i].0) == k);
            }
            assert forall|i: int, j: int|
                0 <= i < all@.len() && 0 <= j < all@.len() && i != j implies (#[trigger] all@[i]).0
                    != (#[trigger] all@[j]).0 by {
                assert(key_of(all@[i].0) == keys@[i]);
                assert(key_of(all@[j].0) == keys@[j]);
            }
        }
        all
    }

    /// Whether a chunk is loaded at `position`.
    pub fn chunk_exists(&self, position: ChunkPosition) -> (b: bool)
        ensures
            b == self.chunks().contains_key(key_of(position)),
    {
        has_chunk_entry(&self.chunks, (position.x, position.y, position.z))
    }

    /// The chunk loaded at `position`.
    pub fn get_chunk(&self, position: ChunkPosition) -> (c: Option<Arc<Chunk>>)
        ensures
            c is Some == self.chunks().contains_key(key_of(position)),
            c is Some ==> c.unwrap()@ == self.chunks()[key_of(position)],
    {
        chunk_entry(&self.chunks, (position.x, position.y, position.z))
    }

    /// Loads `chunk` at `position`, replacing any chunk there.
    pub fn add_chunk(&mut self, position: ChunkPosition, chunk: Arc<Chunk>)
        ensures
            final(self).chunks() == old(self).chunks().insert(key_of(position), chunk@),
            final(self).queue() == old(self).queue(),
    {
        insert_chunk_entry(&mut self.chunks, (position.x, position.y, position.z), chunk);
    }

    /// Unloads the chunk at `position`, if there is one.
    pub fn remove_chunk(&mut self, position: ChunkPosition)
        ensures
            final(self).chunks() == old(self).chunks().remove(key_of(position)),
            final(self).queue() == old(self).queue(),
    {
        remove_chunk_entry(&mut self.chunks, (position.x, position.y, position.z));
    }

    /// The job a worker reports for removing the chunk at `position`: a
    /// removal when a chunk is loaded there, none otherwise. Handing it to a
    /// worker and sending it back is left to the caller.
    pub fn async_remove_chunk(&self, position: ChunkPosition) -> (job: Option<ChunkUpdaterMessage>)
        ensures
            job == if self.chunks().contains_key(key_of(position)) {
                Some((position, None::<Arc<Chunk>>, ChunkOperation::Remotion))
            } else {
                None::<ChunkUpdaterMessage>
            },
    {
        if self.chunk_exists(position) {
            Some((position, None, ChunkOperation::Remotion))
        } else {
            None
        }
    }

    /// Queues the jobs received since the last call, after the waiting ones.
    pub fn update_chunk_queue(&mut self, received: VecDeque<ChunkUpdaterMessage>)
        ensures
            final(self).queue() == old(self).queue() + received@,
            final(self).chunks() == old(self).chunks(),
    {
        let mut received = received;
        self.chunk_queue.append(&mut received);
    }

    /// Number of waiting jobs.
    pub fn chunk_queue_number(&self) -> (n: usize)
        ensures
            n == self.queue().len(),
    {
        self.chunk_queue.len()
    }

    /// Applies the oldest waiting job, if there is one: an addition loads its
    /// chunk, a removal unloads the chunk there, an update does nothing.
    pub fn dequeue_chunk(&mut self)
        requires
            front_applicable(old(self).queue()),
        ensures
            old(self).queue().len() == 0 ==> final(self).queue() == old(self).queue()
                && final(self).chunks() == old(self).chunks(),
            old(self).queue().len() > 0 ==> final(self).queue() == old(self).queue().drop_first()
                && final(self).chunks() == apply_job(old(self).chunks(), old(self).queue()[0]),
    {
        match self.chunk_queue.pop_front() {
            Some(job) => {
                let (pos, chunk, op) = job;
                match op {
                    ChunkOperation::Addition => {
                        match chunk {
                            Some(c) => self.add_chunk(pos, c),
                            None => {},
                        }
                    },
                    ChunkOperation::Remotion => self.remove_chunk(pos),
                    ChunkOperation::Update => {},
                }
            },
            None => {},
        }
    }

    /// The chunks loaded next to `position`, in the order north (z + 1),
    /// south (z - 1), east (x + 1), west (x - 1), up (y + 1), down (y - 1).
    pub fn get_neighbors(&self, position: ChunkPosition) -> (n: [Option<Arc<Chunk>>; 6])
        requires
            steppable(position.x) && steppable(position.y) && steppable(position.z),
        ensures
            ({
                let ns = position.neighbor_positions();
                forall|i: int|
                    0 <= i < 6 ==> {
                        &&& (#[trigger] n@[i]) is Some == self.chunks().contains_key(key_of(ns[i]))
                        &&& n@[i] is Some ==> n@[i].unwrap()@ == self.chunks()[key_of(ns[i])]
                    }
            }),
    {
        let ps = position.neighbors();
        let north = self.get_chunk(ps[0]);
        let south = self.get_chunk(ps[1]);
        let east = self.get_chunk(ps[2]);
        let west = self.get_chunk(ps[3]);
        let up = self.get_chunk(ps[4]);
        let down = self.get_chunk(ps[5]);
        let n = [north, south, east, west, up, down];
        assert(n@[0] == north && n@[1] == south && n@[2] == east && n@[3] == west && n@[4] == up && n@[5] == down);
        n
    }
}

/// After a job is applied, its position holds the chunk it added, or no
/// chunk if it was a removal, or what it held if it was an update; every
/// other position holds what it held.
pub proof fn law_job_outcome(chunks: Map<ChunkKey, Seq<usize>>, m: ChunkUpdaterMessage, k: ChunkKey)
    requires
        m.2 == ChunkOperation::Addition ==> m.1 is Some,
    ensures
        loaded(apply_job(chunks, m), k) == if key_of(m.0) == k {
            match m.2 {
                ChunkOperation::Addition => Some(m.1.unwrap()@),
                ChunkOperation::Remotion => None,
                ChunkOperation::Update => loaded(chunks, k),
            }
        } else {
            loaded(chunks, k)
        },
{
}

} // verus!
