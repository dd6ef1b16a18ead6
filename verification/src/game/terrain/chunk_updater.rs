//! The queue of chunks that worker threads have finished generating, waiting
//! to be taken into the world. The worker threads and the channel they report
//! on are run by the caller, which hands over what it received.
use vstd::prelude::*;
use std::collections::VecDeque;
use std::sync::Arc;
use crate::game::terrain::chunk::{Chunk, ChunkPosition};

verus! {

/// What a finished chunk job asks of the world.
#[derive(Debug, Clone, Copy, PartialEq, Eq, Structural)]
pub enum ChunkOperation {
    Creation,
    Remotion,
    Update,
}

/// A finished chunk job: where, the chunk, and what to do with it.
pub type ChunkUpdaterMessage = (ChunkPosition, Arc<Chunk>, ChunkOperation);

/// `pos` lies strictly inside the cube of half-width `view_distance` around
/// `center`.
pub open spec fn near(center: ChunkPosition, view_distance: isize, pos: ChunkPosition) -> bool {
    &&& center.x - view_distance < pos.x < center.x + view_distance
    &&& center.y - view_distance < pos.y < center.y + view_distance
    &&& center.z - view_distance < pos.z < center.z + view_distance
}

/// The cube of half-width `view_distance` around `center` has bounds that
/// fit in an `isize`.
pub open spec fn bounds_fit(center: ChunkPosition, view_distance: isize) -> bool {
    &&& isize::MIN <= center.x - view_distance <= isize::MAX
    &&& isize::MIN <= center.x + view_distance <= isize::MAX
    &&& isize::MIN <= center.y - view_distance <= isize::MAX
    &&& isize::MIN <= center.y + view_distance <= isize::MAX
    &&& isize::MIN <= center.z - view_distance <= isize::MAX
    &&& isize::MIN <= center.z + view_distance <= isize::MAX
}

/// Whether `pos` lies strictly inside the cube of half-width `view_distance`
/// around `center`.
pub fn is_near(center: ChunkPosition, view_distance: isize, pos: ChunkPosition) -> (b: bool)
    requires
        bounds_fit(center, view_distance),
    ensures
        b == near(center, view_distance, pos),
{
    pos.x > center.x - view_distance && pos.y > center.y - view_distance && pos.z > center.z
        - view_distance && pos.x < center.x + view_distance && pos.y < center.y + view_distance
        && pos.z < center.z + view_distance
}

/// Finished chunk jobs in the order they arrived.
pub struct ChunkUpdater {
    available: VecDeque<ChunkUpdaterMessage>,
}

impl ChunkUpdater {
    /// The waiting jobs, oldest first.
    pub closed spec fn queue(&self) -> Seq<ChunkUpdaterMessage> {
        self.available@
    }

    pub fn new() -> (u: Self)
        ensures
            u.queue() == Seq::<ChunkUpdaterMessage>::empty(),
    {
        Self { available: VecDeque::new() }
    }

    /// Number of waiting jobs.
    pub fn available_chunk_number(&self) -> (n: usize)
        ensures
            n == self.queue().len(),
    {
        self.available.len()
    }

    /// Takes the oldest waiting job.
    pub fn retrieve_first(&mut self) -> (m: Option<ChunkUpdaterMessage>)
        ensures
            old(self).queue().len() == 0 ==> m is None && final(self).queue() == old(self).queue(),
            old(self).queue().len() > 0 ==> m == Some(old(self).queue()[0]) && final(self).queue()
                == old(self).queue().drop_first(),
    {
        self.available.pop_front()
    }

    /// Drops the waiting jobs for chunks that are no longer strictly inside
    /// the cube of half-width `view_distance` around `position`, keeping the
    /// others in order.
    pub fn remove_late_chunks(&mut self, position: ChunkPosition, view_distance: isize)
        requires
            bounds_fit(position, view_distance),
        ensures
            final(self).queue() == old(self).queue().filter(
                |m: ChunkUpdaterMessage| near(position, view_distance, m.0),
            ),
    {
        let ghost pred = |m: ChunkUpdaterMessage| near(position, view_distance, m.0);
        let ghost initial = self.available@;
        let n = self.available.len();
        let mut kept: VecDeque<ChunkUpdaterMessage> = VecDeque::new();
        let mut i: usize = 0;
        while i < n
            invariant
                n == initial.len(),
                i <= n,
                bounds_fit(position, view_distance),
                pred == (|m: ChunkUpdaterMessage| near(position, view_distance, m.0)),
                self.available@ == initial.subrange(i as int, n as int),
                kept@ == initial.take(i as int).filter(pred),
            decreases n - i,
        {
            let m = self.available.pop_front();
            match m {
                Some(msg) => {
                    proof {
                        assert(msg == initial[i as int]);
                        assert(initial.take(i + 1).drop_last() =~= initial.take(i as int));
                        assert(initial.take(i + 1).last() == initial[i as int]);
                        reveal_with_fuel(Seq::filter, 1);
                        assert(initial.take(i + 1).filter(pred) == if pred(msg) {
                            initial.take(i as int).filter(pred).push(msg)
                        } else {
                            initial.take(i as int).filter(pred)
                        });
                    }
                    let keep = is_near(position, view_distance, msg.0);
                    assert(keep == pred(msg));
                    if keep {
                        kept.push_back(msg);
                    }
                    proof {
                        assert(self.available@ =~= initial.subrange(i + 1, n as int));
                    }
                },
                None => {},
            }
            i = i + 1;
        }
        proof {
            assert(initial.take(n as int) =~= initial);
        }
        self.available = kept;
    }

    /// Queues the jobs received since the last call, after the waiting ones.
    pub fn update_available_chunks(&mut self, received: VecDeque<ChunkUpdaterMessage>)
        ensures
            final(self).queue() == old(self).queue() + received@,
    {
        let mut received = received;
        self.available.append(&mut received);
    }
}

/// Filtering a sequence whose every element passes leaves it unchanged.
proof fn lemma_filter_all_pass<A>(s: Seq<A>, pred: spec_fn(A) -> bool)
    requires
        forall|i: int| 0 <= i < s.len() ==> pred(#[trigger] s[i]),
    ensures
        s.filter(pred) == s,
    decreases s.len(),
{
    reveal_with_fuel(Seq::filter, 1);
    if s.len() > 0 {
        assert forall|i: int| 0 <= i < s.drop_last().len() implies pred(#[trigger] s.drop_last()[i]) by {
            assert(s.drop_last()[i] == s[i]);
        }
        lemma_filter_all_pass(s.drop_last(), pred);
        assert(s.drop_last().push(s.last()) =~= s);
    }
}

/// After dropping the late jobs, every waiting job is for a chunk strictly
/// inside the cube around the player, every such job that waited before is
/// still waiting, and dropping again changes nothing.
pub proof fn law_late_chunks_removed(
    before: Seq<ChunkUpdaterMessage>,
    position: ChunkPosition,
    view_distance: isize,
)
    ensures
        ({
            let pred = |m: ChunkUpdaterMessage| near(position, view_distance, m.0);
            let after = before.filter(pred);
            &&& forall|i: int| 0 <= i < after.len() ==> near(position, view_distance, (#[trigger] after[i]).0)
            &&& forall|i: int|
                0 <= i < before.len() && near(position, view_distance, before[i].0) ==> after.contains(
                    #[trigger] before[i],
                )
            &&& after.filter(pred) == after
        }),
{
    let pred = |m: ChunkUpdaterMessage| near(position, view_distance, m.0);
    let after = before.filter(pred);
    assert forall|i: int| 0 <= i < after.len() implies near(position, view_distance, (#[trigger] after[i]).0) by {
        before.lemma_filter_pred(pred, i);
    }
    assert forall|i: int|
        0 <= i < before.len() && near(position, view_distance, before[i].0) implies after.contains(
            #[trigger] before[i],
        ) by {
        before.lemma_filter_contains(pred, i);
    }
    assert forall|i: int| 0 <= i < after.len() implies pred(#[trigger] after[i]) by {
        before.lemma_filter_pred(pred, i);
    }
    lemma_filter_all_pass(after, pred);
}

} // verus!
