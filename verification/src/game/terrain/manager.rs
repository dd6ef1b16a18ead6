//! Bookkeeping of the loaded terrain around the player: which chunks are
//! loaded, which ones must be generated, which ones are shown and meshed.
//! Generating a chunk and building its mesh are left to the caller, which
//! reports back with `insert_chunk` and `mesh_built`.
use vstd::prelude::*;
use std::sync::Arc;
use crate::game::terrain::chunk::{
    Chunk, ChunkPosition, VOLUME, cell, in_chunk, lemma_cell_decode, lemma_cell_in_range,
    lemma_cell_injective, steppable,
};
use crate::utils::shared_map::{
    ChunkKey, ChunkTable, KeySet, chunk_entries, key_set, new_chunk_table, insert_chunk_entry,
    has_chunk_entry, chunk_entry, chunk_keys, new_key_set, insert_key, remove_key, has_key,
};

verus! {

/// How many chunks the loaded cube reaches out from its center, on each axis.
pub const LOAD_DISTANCE: isize = 6;

/// Chunks in the loaded cube.
pub const LOAD_VOLUME: usize = 2197;

/// The table key of a chunk position.
pub open spec fn key_of(p: ChunkPosition) -> ChunkKey {
    (p.x, p.y, p.z)
}

/// The chunk position of a table key.
pub open spec fn position_of(k: ChunkKey) -> ChunkPosition {
    ChunkPosition { x: k.0, y: k.1, z: k.2 }
}

fn key(p: ChunkPosition) -> (k: ChunkKey)
    ensures
        k == key_of(p),
{
    (p.x, p.y, p.z)
}

/// `p` lies in the cube of chunks within `LOAD_DISTANCE` of `center` on every axis.
pub open spec fn in_load_range(center: ChunkPosition, p: ChunkPosition) -> bool {
    &&& center.x - LOAD_DISTANCE <= p.x <= center.x + LOAD_DISTANCE
    &&& center.y - LOAD_DISTANCE <= p.y <= center.y + LOAD_DISTANCE
    &&& center.z - LOAD_DISTANCE <= p.z <= center.z + LOAD_DISTANCE
}

/// The loaded cube around `center` fits in `isize` coordinates.
pub open spec fn load_range_fits(center: ChunkPosition) -> bool {
    &&& isize::MIN <= center.x - LOAD_DISTANCE && center.x + LOAD_DISTANCE <= isize::MAX
    &&& isize::MIN <= center.y - LOAD_DISTANCE && center.y + LOAD_DISTANCE <= isize::MAX
    &&& isize::MIN <= center.z - LOAD_DISTANCE && center.z + LOAD_DISTANCE <= isize::MAX
}

/// The `i`-th chunk of the loaded cube around `center`, counting with `x`
/// fastest, then `y`, then `z`, each from `-LOAD_DISTANCE` to `LOAD_DISTANCE`.
pub open spec fn cube_member(center: ChunkPosition, i: int) -> ChunkPosition {
    ChunkPosition {
        x: (center.x + i % 13 - LOAD_DISTANCE) as isize,
        y: (center.y + (i / 13) % 13 - LOAD_DISTANCE) as isize,
        z: (center.z + i / 169 - LOAD_DISTANCE) as isize,
    }
}

/// The loaded cube around `center`, in the order of `cube_member`.
pub open spec fn load_cube(center: ChunkPosition) -> Seq<ChunkPosition> {
    Seq::new(LOAD_VOLUME as nat, |i: int| cube_member(center, i))
}

proof fn lemma_cube_decode(i: int)
    requires
        0 <= i < LOAD_VOLUME,
    ensures
        0 <= i % 13 < 13,
        0 <= (i / 13) % 13 < 13,
        0 <= i / 169 < 13,
        i == (i / 169) * 169 + ((i / 13) % 13) * 13 + i % 13,
{
    assert(0 <= i / 169 < 13 && i == (i / 169) * 169 + ((i / 13) % 13) * 13 + i % 13) by (nonlinear_arith)
        requires
            0 <= i < 2197,
    ;
}

/// Every chunk within `LOAD_DISTANCE` of `center` is in the loaded cube, and
/// every member of the cube is within that distance.
pub proof fn law_load_cube_covers_range(center: ChunkPosition, p: ChunkPosition)
    requires
        load_range_fits(center),
    ensures
        in_load_range(center, p) <==> load_cube(center).contains(p),
{
    if in_load_range(center, p) {
        let dx = p.x - center.x + LOAD_DISTANCE;
        let dy = p.y - center.y + LOAD_DISTANCE;
        let dz = p.z - center.z + LOAD_DISTANCE;
        let i = dz * 169 + dy * 13 + dx;
        assert(i % 13 == dx && (i / 13) % 13 == dy && i / 169 == dz && 0 <= i < 2197) by (nonlinear_arith)
            requires
                0 <= dx < 13,
                0 <= dy < 13,
                0 <= dz < 13,
                i == dz * 169 + dy * 13 + dx,
        ;
        assert(load_cube(center)[i] == p);
    }
    if load_cube(center).contains(p) {
        let i = choose|i: int| 0 <= i < load_cube(center).len() && load_cube(center)[i] == p;
        lemma_cube_decode(i);
    }
}

/// What the caller must do about a chunk's mesh.
pub enum MeshOrder {
    /// Build the mesh of the chunk at this position.
    Build(ChunkPosition),
    /// Drop the mesh of the chunk at this position, which left the loaded cube.
    Drop(ChunkPosition),
}

/// The loaded terrain around the player.
pub struct TerrainManager {
    position: ChunkPosition,
    chunks: ChunkTable,
    visible_chunks: KeySet,
    meshed_chunks: KeySet,
}

impl TerrainManager {
    /// The chunk the player is in.
    pub closed spec fn center(&self) -> ChunkPosition {
        self.position
    }

    /// Loaded chunks, by position, as their block ids.
    pub closed spec fn chunks(&self) -> Map<ChunkKey, Seq<usize>> {
        chunk_entries(self.chunks)
    }

    /// Chunks whose mesh has been asked for or built.
    pub closed spec fn visible(&self) -> Set<ChunkKey> {
        key_set(self.visible_chunks)
    }

    /// Chunks whose mesh has been built.
    pub closed spec fn meshed(&self) -> Set<ChunkKey> {
        key_set(self.meshed_chunks)
    }

    /// Every loaded chunk holds a full set of blocks, and the loaded cube
    /// around the player fits in `isize` coordinates.
    pub open spec fn wf(&self) -> bool {
        &&& forall|k: ChunkKey| #[trigger] self.chunks().contains_key(k) ==> self.chunks()[k].len() == VOLUME
        &&& load_range_fits(self.center())
    }

    /// Chunks loaded outside the cube around the player.
    pub open spec fn far_chunks(&self) -> Set<ChunkKey> {
        Set::new(|k: ChunkKey| self.chunks().contains_key(k) && !in_load_range(self.center(), position_of(k)))
    }

    /// Chunks loaded inside the cube around the player whose mesh is not built.
    pub open spec fn unmeshed_near_chunks(&self) -> Set<ChunkKey> {
        Set::new(|k: ChunkKey| self.chunks().contains_key(k) && in_load_range(self.center(), position_of(k))
            && !self.meshed().contains(k))
    }

    /// No chunk loaded, the player at chunk `(0, 1, 0)`.
    pub fn new() -> (t: Self)
        ensures
            t.wf(),
            t.center() == (ChunkPosition { x: 0, y: 1, z: 0 }),
            t.chunks() == Map::<ChunkKey, Seq<usize>>::empty(),
            t.visible() == Set::<ChunkKey>::empty(),
            t.meshed() == Set::<ChunkKey>::empty(),
    {
        Self {
            position: ChunkPosition::new(0, 1, 0),
            chunks: new_chunk_table(),
            visible_chunks: new_key_set(),
            meshed_chunks: new_key_set(),
        }
    }

    /// The chunks to generate when the game starts: the loaded cube around
    /// chunk `(0, 0, 0)`.
    pub fn setup(&self) -> (todo: Vec<ChunkPosition>)
        ensures
            todo@ == load_cube(ChunkPosition { x: 0, y: 0, z: 0 }),
    {
        let origin = ChunkPosition::new(0, 0, 0);
        let mut todo: Vec<ChunkPosition> = Vec::new();
        let mut i: usize = 0;
        while i < LOAD_VOLUME
            invariant
                i <= LOAD_VOLUME,
                origin == (ChunkPosition { x: 0, y: 0, z: 0 }),
                todo@ == load_cube(origin).take(i as int),
            decreases LOAD_VOLUME - i,
        {
            proof {
                lemma_cube_decode(i as int);
            }
            let p = cube_position(origin, i);
            todo.push(p);
            proof {
                assert(todo@ =~= load_cube(origin).take(i + 1));
            }
            i = i + 1;
        }
        proof {
            assert(todo@ =~= load_cube(origin));
        }
        todo
    }

    /// Moves the player to chunk `position`. When it moved, the chunks of the
    /// loaded cube around the new position that are not loaded are returned,
    /// to be generated; otherwise nothing is.
    pub fn update(&mut self, position: ChunkPosition) -> (todo: Vec<ChunkPosition>)
        requires
            load_range_fits(position),
        ensures
            old(self).wf() ==> final(self).wf(),
            final(self).center() == position,
            final(self).chunks() == old(self).chunks(),
            final(self).visible() == old(self).visible(),
            final(self).meshed() == old(self).meshed(),
            position == old(self).center() ==> todo@ == Seq::<ChunkPosition>::empty(),
            position != old(self).center() ==> todo@ == load_cube(position).filter(
                |p: ChunkPosition| !old(self).chunks().contains_key(key_of(p)),
            ),
    {
        let mut todo: Vec<ChunkPosition> = Vec::new();
        if position != self.position {
            self.position = position;
            let ghost pred = |p: ChunkPosition| !self.chunks().contains_key(key_of(p));
            let ghost cube = load_cube(position);
            let mut i: usize = 0;
            while i < LOAD_VOLUME
                invariant
                    i <= LOAD_VOLUME,
                    load_range_fits(position),
                    cube == load_cube(position),
                    pred == (|p: ChunkPosition| !self.chunks().contains_key(key_of(p))),
                    self.center() == position,
                    self.chunks() == old(self).chunks(),
                    self.visible() == old(self).visible(),
                    self.meshed() == old(self).meshed(),
                    todo@ == cube.take(i as int).filter(pred),
                decreases LOAD_VOLUME - i,
            {
                proof {
                    lemma_cube_decode(i as int);
                    assert(cube.take(i + 1).drop_last() =~= cube.take(i as int));
                    assert(cube.take(i + 1).last() == cube[i as int]);
                    reveal_with_fuel(Seq::filter, 1);
                }
                let p = cube_position(position, i);
                let missing = !has_chunk_entry(&self.chunks, key(p));
                assert(missing == pred(p));
                if missing {
                    todo.push(p);
                }
                i = i + 1;
            }
            proof {
                assert(cube.take(LOAD_VOLUME as int) =~= cube);
            }
        }
        todo
    }

    /// Takes a generated chunk into the world at `position`, replacing any
    /// chunk loaded there.
    pub fn insert_chunk(&mut self, position: ChunkPosition, chunk: Arc<Chunk>)
        requires
            old(self).wf(),
            chunk@.len() == VOLUME,
        ensures
            final(self).wf(),
            final(self).chunks() == old(self).chunks().insert(key_of(position), chunk@),
            final(self).center() == old(self).center(),
            final(self).visible() == old(self).visible(),
            final(self).meshed() == old(self).meshed(),
    {
        insert_chunk_entry(&mut self.chunks, key(position), chunk);
        assert forall|k: ChunkKey| #[trigger] self.chunks().contains_key(k) implies self.chunks()[k].len()
            == VOLUME by {
            if k != key_of(position) {
                assert(old(self).chunks().contains_key(k));
            }
        }
    }

    /// Walks the loaded chunks: each one outside the cube around the player
    /// loses its mesh and is no longer shown (a `Drop` order), each one inside
    /// it whose mesh is neither built nor asked for is shown and gets a `Build`
    /// order. Orders come in no fixed order.
    pub fn mesh_chunks(&mut self) -> (orders: Vec<MeshOrder>)
        requires
            old(self).wf(),
        ensures
            final(self).wf(),
            final(self).chunks() == old(self).chunks(),
            final(self).center() == old(self).center(),
            final(self).meshed() == old(self).meshed().difference(old(self).far_chunks()),
            final(self).visible() == old(self).visible().union(old(self).unmeshed_near_chunks()).difference(
                old(self).far_chunks(),
            ),
            forall|p: ChunkPosition|
                orders@.contains(MeshOrder::Build(p)) <==> old(self).unmeshed_near_chunks().contains(
                    key_of(p),
                ) && !old(self).visible().contains(key_of(p)),
            forall|p: ChunkPosition|
                orders@.contains(MeshOrder::Drop(p)) <==> old(self).far_chunks().contains(key_of(p)),
            orders@.no_duplicates(),
    {
        broadcast use vstd::seq_lib::group_seq_properties;

        let ghost vis0 = self.visible();
        let ghost meshed0 = self.meshed();
        let ghost far = self.far_chunks();
        let ghost near = self.unmeshed_near_chunks();
        let keys = chunk_keys(&self.chunks);
        let mut orders: Vec<MeshOrder> = Vec::new();
        let n = keys.len();
        let mut i: usize = 0;
        while i < n
            invariant
                n == keys@.len(),
                i <= n,
                self.wf(),
                self.chunks() == old(self).chunks(),
                self.center() == old(self).center(),
                vis0 == old(self).visible(),
                meshed0 == old(self).meshed(),
                far == old(self).far_chunks(),
                near == old(self).unmeshed_near_chunks(),
                keys@.to_set() == old(self).chunks().dom(),
                keys@.no_duplicates(),
                self.meshed() == meshed0.difference(far.intersect(keys@.take(i as int).to_set())),
                self.visible() == vis0.union(near.intersect(keys@.take(i as int).to_set())).difference(
                    far.intersect(keys@.take(i as int).to_set()),
                ),
                forall|p: ChunkPosition|
                    orders@.contains(MeshOrder::Build(p)) <==> keys@.take(i as int).contains(key_of(p))
                        && near.contains(key_of(p)) && !vis0.contains(key_of(p)),
                forall|p: ChunkPosition|
                    orders@.contains(MeshOrder::Drop(p)) <==> keys@.take(i as int).contains(key_of(p))
                        && far.contains(key_of(p)),
                orders@.no_duplicates(),
            decreases n - i,
        {
            let k = keys[i];
            let p = ChunkPosition::new(k.0, k.1, k.2);
            proof {
                assert(keys@.take(i + 1) =~= keys@.take(i as int).push(k));
                assert(keys@.to_set().contains(k));
                assert(!keys@.take(i as int).contains(k)) by {
                    if keys@.take(i as int).contains(k) {
                        let j = choose|j: int| 0 <= j < i && keys@.take(i as int)[j] == k;
                        assert(keys@[j] == keys@[i as int]);
                    }
                }
            }
            let ghost before_orders = orders@;
            proof {
                assert(key_of(p) == k);
                assert(position_of(k) == p);
                lemma_push_contains(before_orders, MeshOrder::Build(p));
                lemma_push_contains(before_orders, MeshOrder::Drop(p));
            }
            if is_in_load_range(self.position, p) {
                if !has_key(&self.meshed_chunks, k) && !has_key(&self.visible_chunks, k) {
                    orders.push(MeshOrder::Build(p));
                    insert_key(&mut self.visible_chunks, k);
                    assert(near.contains(k) && !vis0.contains(k));
                } else {
                    assert(!(near.contains(k) && !vis0.contains(k)));
                }
                assert(!far.contains(k));
            } else {
                orders.push(MeshOrder::Drop(p));
                remove_key(&mut self.meshed_chunks, k);
                remove_key(&mut self.visible_chunks, k);
                assert(far.contains(k) && !near.contains(k));
            }
            proof {
                let t0 = keys@.take(i as int).to_set();
                let t1 = keys@.take(i + 1).to_set();
                lemma_push_contains(keys@.take(i as int), k);
                assert(t1 =~= t0.insert(k));
                assert(self.meshed() =~= meshed0.difference(far.intersect(t1)));
                assert(self.visible() =~= vis0.union(near.intersect(t1)).difference(far.intersect(t1)));
                assert forall|q: ChunkPosition|
                    orders@.contains(MeshOrder::Build(q)) <==> keys@.take(i + 1).contains(key_of(q))
                        && near.contains(key_of(q)) && !vis0.contains(key_of(q)) by {
                    if q == p {
                        assert(key_of(q) == k);
                    } else {
                        assert(key_of(q) != k);
                    }
                }
                assert forall|q: ChunkPosition|
                    orders@.contains(MeshOrder::Drop(q)) <==> keys@.take(i + 1).contains(key_of(q))
                        && far.contains(key_of(q)) by {
                    if q == p {
                        assert(key_of(q) == k);
                    } else {
                        assert(key_of(q) != k);
                    }
                }
            }
            i = i + 1;
        }
        proof {
            assert(keys@.take(n as int) =~= keys@);
            assert(far.intersect(keys@.to_set()) =~= far);
            assert(near.intersect(keys@.to_set()) =~= near);
        }
        orders
    }

    /// The chunks loaded next to `position`, in the order east (x + 1), west
    /// (x - 1), top (y + 1), bottom (y - 1), north (z + 1), south (z - 1).
    pub fn chunk_neighbors(&self, position: ChunkPosition) -> (n: [Option<Arc<Chunk>>; 6])
        requires
            steppable(position.x),
            steppable(position.y),
            steppable(position.z),
        ensures
            forall|i: int|
                0 <= i < 6 ==> {
                    &&& (#[trigger] n@[i]) is Some == self.chunks().contains_key(face_neighbor(position, i))
                    &&& n@[i] is Some ==> n@[i].unwrap()@ == self.chunks()[face_neighbor(position, i)]
                },
    {
        let east = chunk_entry(&self.chunks, (position.x + 1, position.y, position.z));
        let west = chunk_entry(&self.chunks, (position.x - 1, position.y, position.z));
        let top = chunk_entry(&self.chunks, (position.x, position.y + 1, position.z));
        let bottom = chunk_entry(&self.chunks, (position.x, position.y - 1, position.z));
        let north = chunk_entry(&self.chunks, (position.x, position.y, position.z + 1));
        let south = chunk_entry(&self.chunks, (position.x, position.y, position.z - 1));
        let n = [east, west, top, bottom, north, south];
        assert(n@[0] == east && n@[1] == west && n@[2] == top && n@[3] == bottom && n@[4] == north && n@[5] == south);
        n
    }

    /// Puts block `block` at `(x, y, z)` in the chunk loaded at `position`, and
    /// forgets that chunk's mesh so that it is built again. Returns whether a
    /// chunk is loaded there; if none is, nothing changes.
    pub fn set_block(&mut self, position: ChunkPosition, x: usize, y: usize, z: usize, block: usize) -> (done: bool)
        requires
            old(self).wf(),
            in_chunk(x as int, y as int, z as int),
        ensures
            final(self).wf(),
            done == old(self).chunks().contains_key(key_of(position)),
            final(self).center() == old(self).center(),
            done ==> final(self).chunks() == old(self).chunks().insert(
                key_of(position),
                old(self).chunks()[key_of(position)].update(
                    cell(x as int, y as int, z as int),
                    block,
                ),
            ),
            done ==> final(self).meshed() == old(self).meshed().remove(key_of(position)),
            done ==> final(self).visible() == old(self).visible().remove(key_of(position)),
            !done ==> final(self).chunks() == old(self).chunks() && final(self).meshed() == old(self).meshed()
                && final(self).visible() == old(self).visible(),
    {
        match chunk_entry(&self.chunks, key(position)) {
            Some(chunk) => {
                assert(self.chunks().contains_key(key_of(position)));
                assert(self.chunks()[key_of(position)].len() == VOLUME);
                let mut edited = copy_chunk(&chunk);
                edited.set_block(x, y, z, block);
                self.insert_chunk(position, Arc::new(edited));
                self.dirty_chunk(position);
                true
            },
            None => false,
        }
    }

    /// Forgets the mesh of the chunk at `position`, so that it is built again.
    pub fn dirty_chunk(&mut self, position: ChunkPosition)
        ensures
            final(self).meshed() == old(self).meshed().remove(key_of(position)),
            final(self).visible() == old(self).visible().remove(key_of(position)),
            final(self).chunks() == old(self).chunks(),
            final(self).center() == old(self).center(),
    {
        remove_key(&mut self.meshed_chunks, key(position));
        remove_key(&mut self.visible_chunks, key(position));
    }

    /// Records that the mesh of the chunk at `position` has been built.
    pub fn mesh_built(&mut self, position: ChunkPosition)
        ensures
            final(self).meshed() == old(self).meshed().insert(key_of(position)),
            final(self).visible() == old(self).visible(),
            final(self).chunks() == old(self).chunks(),
            final(self).center() == old(self).center(),
    {
        insert_key(&mut self.meshed_chunks, key(position));
    }

    /// The chunk loaded at `position`.
    pub fn get_chunk(&self, position: ChunkPosition) -> (c: Option<Arc<Chunk>>)
        ensures
            c is Some == self.chunks().contains_key(key_of(position)),
            c is Some ==> c.unwrap()@ == self.chunks()[key_of(position)],
    {
        chunk_entry(&self.chunks, key(position))
    }

    /// Block id at `(x, y, z)` inside the chunk loaded at `position`, if one is.
    pub fn block_at(&self, position: ChunkPosition, x: usize, y: usize, z: usize) -> (b: Option<usize>)
        requires
            in_chunk(x as int, y as int, z as int),
        ensures
            b is Some == self.chunks().contains_key(key_of(position)),
            b is Some ==> b.unwrap() == self.chunks()[key_of(position)][cell(
                x as int,
                y as int,
                z as int,
            )],
    {
        match chunk_entry(&self.chunks, key(position)) {
            Some(chunk) => Some(chunk.get_block(x, y, z)),
            None => None,
        }
    }
}

/// After the player moves to `position`, every chunk within `LOAD_DISTANCE`
/// of it is either loaded or among the chunks `update` asks to generate, and
/// nothing already loaded is asked for.
pub proof fn law_update_covers_load_range(
    loaded: Map<ChunkKey, Seq<usize>>,
    position: ChunkPosition,
    todo: Seq<ChunkPosition>,
    p: ChunkPosition,
)
    requires
        load_range_fits(position),
        todo == load_cube(position).filter(|q: ChunkPosition| !loaded.contains_key(key_of(q))),
    ensures
        in_load_range(position, p) ==> loaded.contains_key(key_of(p)) || todo.contains(p),
        todo.contains(p) ==> in_load_range(position, p) && !loaded.contains_key(key_of(p)),
{
    let pred = |q: ChunkPosition| !loaded.contains_key(key_of(q));
    let cube = load_cube(position);
    law_load_cube_covers_range(position, p);
    if in_load_range(position, p) && !loaded.contains_key(key_of(p)) {
        let i = choose|i: int| 0 <= i < cube.len() && cube[i] == p;
        cube.lemma_filter_contains(pred, i);
    }
    if todo.contains(p) {
        let j = choose|j: int| 0 <= j < todo.len() && todo[j] == p;
        cube.lemma_filter_pred(pred, j);
        reveal_with_fuel(Seq::filter, 1);
        lemma_filter_subset(cube, pred, p);
    }
}

proof fn lemma_filter_subset<A>(s: Seq<A>, pred: spec_fn(A) -> bool, a: A)
    requires
        s.filter(pred).contains(a),
    ensures
        s.contains(a),
    decreases s.len(),
{
    reveal_with_fuel(Seq::filter, 1);
    if s.len() > 0 {
        let rest = s.drop_last();
        if a != s.last() {
            let f = s.filter(pred);
            let j = choose|j: int| 0 <= j < f.len() && f[j] == a;
            if pred(s.last()) {
                assert(f == rest.filter(pred).push(s.last()));
                assert(j < rest.filter(pred).len());
                assert(rest.filter(pred)[j] == a);
            }
            assert(rest.filter(pred).contains(a));
            lemma_filter_subset(rest, pred, a);
            let k = choose|k: int| 0 <= k < rest.len() && rest[k] == a;
            assert(s[k] == a);
        } else {
            assert(s[s.len() - 1] == a);
        }
    }
}

/// After `mesh_chunks`, every loaded chunk within `LOAD_DISTANCE` of the
/// player is shown or meshed, and no loaded chunk farther away is either.
pub proof fn law_mesh_chunks_follow_player(before: TerrainManager, after: TerrainManager, k: ChunkKey)
    requires
        after.chunks() == before.chunks(),
        after.center() == before.center(),
        after.meshed() == before.meshed().difference(before.far_chunks()),
        after.visible() == before.visible().union(before.unmeshed_near_chunks()).difference(
            before.far_chunks(),
        ),
        after.chunks().contains_key(k),
    ensures
        in_load_range(after.center(), position_of(k)) ==> after.visible().contains(k)
            || after.meshed().contains(k),
        !in_load_range(after.center(), position_of(k)) ==> !after.visible().contains(k)
            && !after.meshed().contains(k),
{
}

/// After `set_block` has put `block` at cell `(x, y, z)` of the chunk loaded
/// at `position`, `block_at` reads `block` there, and every other cell of
/// every loaded chunk reads what it read before; no chunk is loaded or
/// unloaded.
pub proof fn law_block_at_after_set_block(
    before: TerrainManager,
    after: TerrainManager,
    position: ChunkPosition,
    x: int,
    y: int,
    z: int,
    block: usize,
    q: ChunkPosition,
    qx: int,
    qy: int,
    qz: int,
)
    requires
        before.wf(),
        in_chunk(x, y, z),
        in_chunk(qx, qy, qz),
        before.chunks().contains_key(key_of(position)),
        after.chunks() == before.chunks().insert(
            key_of(position),
            before.chunks()[key_of(position)].update(cell(x, y, z), block),
        ),
    ensures
        after.chunks().contains_key(key_of(q)) == before.chunks().contains_key(key_of(q)),
        after.chunks().contains_key(key_of(q)) ==> after.chunks()[key_of(q)][cell(
            qx,
            qy,
            qz,
        )] == if key_of(q) == key_of(position) && qx == x && qy == y && qz == z {
            block
        } else {
            before.chunks()[key_of(q)][cell(qx, qy, qz)]
        },
{
    lemma_cell_in_range(x, y, z);
    lemma_cell_in_range(qx, qy, qz);
    if cell(qx, qy, qz) == cell(x, y, z) {
        lemma_cell_injective(qx, qy, qz, x, y, z);
    }
}

/// The key of the chunk next to `p` across face `i`, in the order east,
/// west, top, bottom, north, south.
pub open spec fn face_neighbor(p: ChunkPosition, i: int) -> ChunkKey {
    if i == 0 {
        ((p.x + 1) as isize, p.y, p.z)
    } else if i == 1 {
        ((p.x - 1) as isize, p.y, p.z)
    } else if i == 2 {
        (p.x, (p.y + 1) as isize, p.z)
    } else if i == 3 {
        (p.x, (p.y - 1) as isize, p.z)
    } else if i == 4 {
        (p.x, p.y, (p.z + 1) as isize)
    } else {
        (p.x, p.y, (p.z - 1) as isize)
    }
}

proof fn lemma_push_contains<A>(s: Seq<A>, x: A)
    ensures
        forall|a: A| #[trigger] s.push(x).contains(a) <==> s.contains(a) || a == x,
        s.push(x).to_set() == s.to_set().insert(x),
{
    assert forall|a: A| #[trigger] s.push(x).contains(a) <==> s.contains(a) || a == x by {
        if s.push(x).contains(a) {
            let j = choose|j: int| 0 <= j < s.push(x).len() && s.push(x)[j] == a;
            if j < s.len() {
                assert(s[j] == a);
            }
        }
        if s.contains(a) {
            let j = choose|j: int| 0 <= j < s.len() && s[j] == a;
            assert(s.push(x)[j] == a);
        }
        if a == x {
            assert(s.push(x)[s.len() as int] == x);
        }
    }
    assert(s.push(x).to_set() =~= s.to_set().insert(x));
}

/// Whether `p` lies in the loaded cube around `center`.
pub fn is_in_load_range(center: ChunkPosition, p: ChunkPosition) -> (b: bool)
    requires
        load_range_fits(center),
    ensures
        b == in_load_range(center, p),
{
    (p.x >= center.x - LOAD_DISTANCE && p.x <= center.x + LOAD_DISTANCE) && (p.y >= center.y
        - LOAD_DISTANCE && p.y <= center.y + LOAD_DISTANCE) && (p.z >= center.z - LOAD_DISTANCE
        && p.z <= center.z + LOAD_DISTANCE)
}

/// A chunk holding the same blocks as `chunk`.
fn copy_chunk(chunk: &Chunk) -> (c: Chunk)
    requires
        chunk@.len() == VOLUME,
    ensures
        c@ == chunk@,
{
    let mut c = Chunk::new(0);
    let mut i: usize = 0;
    while i < VOLUME
        invariant
            i <= VOLUME,
            chunk@.len() == VOLUME,
            c@.len() == VOLUME,
            forall|j: int| 0 <= j < i ==> #[trigger] c@[j] == chunk@[j],
        decreases VOLUME - i,
    {
        proof {
            lemma_cell_decode(i as int);
        }
        let x = i / 256;
        let y = (i / 16) % 16;
        let z = i % 16;
        let b = chunk.get_block(x, y, z);
        c.set_block(x, y, z, b);
        i = i + 1;
    }
    assert(c@ =~= chunk@);
    c
}

/// The `i`-th chunk of the loaded cube around `center`.
fn cube_position(center: ChunkPosition, i: usize) -> (p: ChunkPosition)
    requires
        i < LOAD_VOLUME,
        load_range_fits(center),
    ensures
        p == cube_member(center, i as int),
{
    proof {
        lemma_cube_decode(i as int);
    }
    let dx = (i % 13) as isize;
    let dy = ((i / 13) % 13) as isize;
    let dz = (i / 169) as isize;
    ChunkPosition::new(
        center.x - LOAD_DISTANCE + dx,
        center.y - LOAD_DISTANCE + dy,
        center.z - LOAD_DISTANCE + dz,
    )
}

/// The neighbour `chunk_neighbors` hands out at index `i` is the chunk
/// across face `i` of the mesher's face order: its position is `p` moved by
/// that face's outward normal, so index 0 is east (x + 1), 1 west (x - 1),
/// 2 top (y + 1), 3 bottom (y - 1), 4 north (z + 1) and 5 south (z - 1),
/// and the mesher reads index `d.ord()` for face `d`.
pub proof fn law_neighbors_lie_across_faces(p: ChunkPosition, i: int)
    requires
        steppable(p.x) && steppable(p.y) && steppable(p.z),
        0 <= i < 6,
    ensures
        crate::game::terrain::mesher::direction_at(i).ord() == i,
        face_neighbor(p, i) == (
            (p.x + crate::game::terrain::mesher::normal(crate::game::terrain::mesher::direction_at(i)).0) as isize,
            (p.y + crate::game::terrain::mesher::normal(crate::game::terrain::mesher::direction_at(i)).1) as isize,
            (p.z + crate::game::terrain::mesher::normal(crate::game::terrain::mesher::direction_at(i)).2) as isize,
        ),
        face_neighbor(p, 0) == ((p.x + 1) as isize, p.y, p.z),
        face_neighbor(p, 1) == ((p.x - 1) as isize, p.y, p.z),
        face_neighbor(p, 2) == (p.x, (p.y + 1) as isize, p.z),
        face_neighbor(p, 3) == (p.x, (p.y - 1) as isize, p.z),
        face_neighbor(p, 4) == (p.x, p.y, (p.z + 1) as isize),
        face_neighbor(p, 5) == (p.x, p.y, (p.z - 1) as isize),
{
}

} // verus!
