//! The faces of a chunk that border on air, with the texture each shows, as
//! the chunk mesher lists them before they are turned into vertices. Faces
//! are visited block by block in storage order and, for each block, in the
//! order north, south, east, west, up, down; the neighbouring chunks come in
//! that order too.
use vstd::prelude::*;
use std::collections::VecDeque;
use std::sync::Arc;
use crate::engine::mesh::MeshData;
use crate::game::terrain::block::Direction;
use crate::game::terrain::block_registry::{BlockData, BlockRegistry, BlockType, TextureCoords};
use crate::game::terrain::chunk::{
    Chunk, ChunkPosition, VOLUME, cell, cell_x, cell_y, cell_z, in_chunk, lemma_cell_decode, lemma_cell_encode,
    lemma_cell_in_range,
};
use crate::game::terrain::mesher::{FACE_SLOTS, chunk_view, facing_across, facing_in, neighbor_views};

verus! {

/// A face of a block that borders on air.
#[derive(Debug, Clone, Copy)]
pub struct FaceData {
    pub x: u8,
    pub y: u8,
    pub z: u8,
    pub block: BlockType,
    pub dir: Direction,
    /// The texture shown on the face.
    pub coords: TextureCoords,
}

/// The `k`-th face of a block in the order the chunk mesher visits them:
/// north, south, east, west, up, down.
pub open spec fn mesher_direction(k: int) -> Direction {
    if k == 0 {
        Direction::North
    } else if k == 1 {
        Direction::South
    } else if k == 2 {
        Direction::East
    } else if k == 3 {
        Direction::West
    } else if k == 4 {
        Direction::Top
    } else {
        Direction::Bottom
    }
}

/// The texture `data` shows on face `dir`, as `BlockData::get_coords` gives it.
pub open spec fn coords_of(data: BlockData, dir: Direction) -> TextureCoords {
    if dir.ord() < data.tex_coords().len() {
        data.tex_coords()[dir.ord()]
    } else {
        data.tex_coords()[0]
    }
}

/// The block at face slot `i` (block `i / 6`, face `i % 6`) and the block in
/// front of it.
pub open spec fn mesher_slot_blocks(
    chunk: Seq<usize>,
    neighbors: Seq<Option<Seq<usize>>>,
    outside: usize,
    i: int,
) -> (usize, usize) {
    let c = i / 6;
    (
        chunk[c],
        facing_in(chunk, neighbors[i % 6], cell_x(c), cell_y(c), cell_z(c), mesher_direction(i % 6), outside),
    )
}

/// The face at slot `i`, if it borders on air.
pub open spec fn exposed_face(
    chunk: Seq<usize>,
    neighbors: Seq<Option<Seq<usize>>>,
    blocks: Map<BlockType, BlockData>,
    air: usize,
    outside: usize,
    i: int,
) -> Option<FaceData> {
    let c = i / 6;
    let (block, facing) = mesher_slot_blocks(chunk, neighbors, outside, i);
    if block != air && facing == air {
        Some(
            FaceData {
                x: cell_x(c) as u8,
                y: cell_y(c) as u8,
                z: cell_z(c) as u8,
                block,
                dir: mesher_direction(i % 6),
                coords: coords_of(blocks[block], mesher_direction(i % 6)),
            },
        )
    } else {
        None
    }
}

/// The faces bordering on air among the first `n` slots, in slot order.
pub open spec fn exposed_faces(
    chunk: Seq<usize>,
    neighbors: Seq<Option<Seq<usize>>>,
    blocks: Map<BlockType, BlockData>,
    air: usize,
    outside: usize,
    n: int,
) -> Seq<FaceData>
    decreases n,
{
    if n <= 0 {
        Seq::empty()
    } else {
        let rest = exposed_faces(chunk, neighbors, blocks, air, outside, n - 1);
        match exposed_face(chunk, neighbors, blocks, air, outside, n - 1) {
            Some(f) => rest.push(f),
            None => rest,
        }
    }
}

/// Every block with a face bordering on air is registered, with a texture
/// table that `get_coords` can read for that face.
pub open spec fn exposed_blocks_known(
    chunk: Seq<usize>,
    neighbors: Seq<Option<Seq<usize>>>,
    blocks: Map<BlockType, BlockData>,
    air: usize,
    outside: usize,
) -> bool {
    forall|i: int|
        0 <= i < FACE_SLOTS ==> {
            let (block, facing) = #[trigger] mesher_slot_blocks(chunk, neighbors, outside, i);
            block != air && facing == air ==> {
                &&& blocks.contains_key(block)
                &&& blocks[block].tex_coords().len() > 0
                &&& blocks[block].tex_coords().len() != mesher_direction(i % 6).ord()
            }
        }
}

/// The faces of `chunk` that border on air, each with the texture its block
/// kind shows on that side. `neighbors` are the chunks north, south, east,
/// west, up and down; where one is not loaded, the blocks beyond the border
/// count as `outside`.
pub fn mesh(
    chunk: &Chunk,
    neighbors: [Option<Arc<Chunk>>; 6],
    registry: &BlockRegistry,
    air: usize,
    outside: usize,
) -> (faces: Vec<FaceData>)
    requires
        chunk@.len() == VOLUME,
        forall|k: int| 0 <= k < 6 ==> (#[trigger] neighbors@[k]) is Some ==> neighbors@[k].unwrap()@.len() == VOLUME,
        exposed_blocks_known(chunk@, neighbor_views(neighbors), registry.blocks_spec(), air, outside),
    ensures
        faces@ == exposed_faces(
            chunk@,
            neighbor_views(neighbors),
            registry.blocks_spec(),
            air,
            outside,
            FACE_SLOTS as int,
        ),
{
    let ghost nv = neighbor_views(neighbors);
    let mut faces: Vec<FaceData> = Vec::new();
    let mut i: usize = 0;
    while i < FACE_SLOTS
        invariant
            i <= FACE_SLOTS,
            chunk@.len() == VOLUME,
            nv == neighbor_views(neighbors),
            forall|k: int| 0 <= k < 6 ==> (#[trigger] neighbors@[k]) is Some ==> neighbors@[k].unwrap()@.len() == VOLUME,
            exposed_blocks_known(chunk@, nv, registry.blocks_spec(), air, outside),
            faces@ == exposed_faces(chunk@, nv, registry.blocks_spec(), air, outside, i as int),
        decreases FACE_SLOTS - i,
    {
        let c = i / 6;
        let k = i % 6;
        proof {
            lemma_cell_decode(c as int);
        }
        let x = c / 256;
        let y = (c / 16) % 16;
        let z = c % 16;
        let d = match k {
            0 => Direction::North,
            1 => Direction::South,
            2 => Direction::East,
            3 => Direction::West,
            4 => Direction::Top,
            _ => Direction::Bottom,
        };
        assert(d == mesher_direction(k as int));
        let block = chunk.get_block(x, y, z);
        assert(cell(x as int, y as int, z as int) == c);
        if block != air {
            assert(nv[k as int] == chunk_view(neighbors@[k as int]));
            let f = facing_across(chunk, &neighbors[k], x, y, z, d, outside);
            assert(mesher_slot_blocks(chunk@, nv, outside, i as int) == (block, f));
            if f == air {
                match registry.get_block(block) {
                    Some(data) => {
                        let coords = *data.get_coords(d);
                        faces.push(FaceData { x: x as u8, y: y as u8, z: z as u8, block, dir: d, coords });
                    },
                    None => {},
                }
            }
        }
        i = i + 1;
    }
    faces
}

/// A chunk's mesh, built by a worker and waiting to be taken in: where, and
/// its vertices and indices.
pub type ChunkMesherMessage<V> = (ChunkPosition, MeshData<V>);

/// The chunk meshes that workers have built, in the order they arrived,
/// waiting to be uploaded. Running the workers and uploading a mesh are left
/// to the caller.
pub struct ChunkMesher<V> {
    mesh_queue: VecDeque<ChunkMesherMessage<V>>,
}

impl<V> ChunkMesher<V> {
    /// The waiting meshes, oldest first.
    pub closed spec fn queue(&self) -> Seq<ChunkMesherMessage<V>> {
        self.mesh_queue@
    }

    /// No mesh waiting.
    pub fn new() -> (m: Self)
        ensures
            m.queue() == Seq::<ChunkMesherMessage<V>>::empty(),
    {
        Self { mesh_queue: VecDeque::new() }
    }

    /// Number of waiting meshes.
    pub fn mesh_queue_number(&self) -> (n: usize)
        ensures
            n == self.queue().len(),
    {
        self.mesh_queue.len()
    }

    /// Queues the meshes received since the last call, after the waiting ones.
    pub fn update_mesh_queue(&mut self, received: VecDeque<ChunkMesherMessage<V>>)
        ensures
            final(self).queue() == old(self).queue() + received@,
    {
        let mut received = received;
        self.mesh_queue.append(&mut received);
    }

    /// Takes the oldest waiting mesh, to be uploaded.
    pub fn dequeue_mesh(&mut self) -> (m: Option<ChunkMesherMessage<V>>)
        ensures
            old(self).queue().len() == 0 ==> m is None && final(self).queue() == old(self).queue(),
            old(self).queue().len() > 0 ==> m == Some(old(self).queue()[0]) && final(self).queue()
                == old(self).queue().drop_first(),
    {
        self.mesh_queue.pop_front()
    }
}

proof fn lemma_exposed_faces_contain(
    chunk: Seq<usize>,
    neighbors: Seq<Option<Seq<usize>>>,
    blocks: Map<BlockType, BlockData>,
    air: usize,
    outside: usize,
    n: int,
    f: FaceData,
)
    ensures
        exposed_faces(chunk, neighbors, blocks, air, outside, n).contains(f) <==> exists|i: int|
            0 <= i < n && #[trigger] exposed_face(chunk, neighbors, blocks, air, outside, i) == Some(f),
    decreases n,
{
    if n > 0 {
        lemma_exposed_faces_contain(chunk, neighbors, blocks, air, outside, n - 1, f);
        let rest = exposed_faces(chunk, neighbors, blocks, air, outside, n - 1);
        match exposed_face(chunk, neighbors, blocks, air, outside, n - 1) {
            Some(g) => {
                let all = rest.push(g);
                if all.contains(f) {
                    let j = choose|j: int| 0 <= j < all.len() && all[j] == f;
                    if j < rest.len() {
                        assert(rest[j] == f);
                    }
                }
                if exists|i: int| 0 <= i < n && #[trigger] exposed_face(chunk, neighbors, blocks, air, outside, i) == Some(f) {
                    let i = choose|i: int| 0 <= i < n && #[trigger] exposed_face(chunk, neighbors, blocks, air, outside, i) == Some(f);
                    if i < n - 1 {
                        let j = choose|j: int| 0 <= j < rest.len() && rest[j] == f;
                        assert(all[j] == f);
                    } else {
                        assert(all[rest.len() as int] == f);
                    }
                }
            },
            None => {
                if exists|i: int| 0 <= i < n && #[trigger] exposed_face(chunk, neighbors, blocks, air, outside, i) == Some(f) {
                    let i = choose|i: int| 0 <= i < n && #[trigger] exposed_face(chunk, neighbors, blocks, air, outside, i) == Some(f);
                    assert(i < n - 1);
                }
            },
        }
    }
}

/// The faces are visited, and the neighbouring chunks given, in the order
/// north, south, east, west, up, down; face `k` of block `(x, y, z)` is
/// listed exactly when the block is not air and the block in front of that
/// face, read in the chunk or in neighbour `k` (the one on that same side),
/// is air. A listed face shows the block kind's texture for that side.
pub proof fn law_exposed_face_rule(
    chunk: Seq<usize>,
    neighbors: Seq<Option<Seq<usize>>>,
    blocks: Map<BlockType, BlockData>,
    air: usize,
    outside: usize,
    x: int,
    y: int,
    z: int,
    k: int,
)
    requires
        in_chunk(x, y, z),
        0 <= k < 6,
    ensures
        mesher_direction(0) == Direction::North && mesher_direction(1) == Direction::South,
        mesher_direction(2) == Direction::East && mesher_direction(3) == Direction::West,
        mesher_direction(4) == Direction::Top && mesher_direction(5) == Direction::Bottom,
        (exists|f: FaceData|
            #[trigger] exposed_faces(chunk, neighbors, blocks, air, outside, FACE_SLOTS as int).contains(f)
                && f.x == x && f.y == y && f.z == z && f.dir == mesher_direction(k)) <==> chunk[cell(x, y, z)]
            != air && facing_in(chunk, neighbors[k], x, y, z, mesher_direction(k), outside) == air,
        forall|f: FaceData|
            #[trigger] exposed_faces(chunk, neighbors, blocks, air, outside, FACE_SLOTS as int).contains(f)
                && f.x == x && f.y == y && f.z == z && f.dir == mesher_direction(k) ==> f.block == chunk[cell(
                x,
                y,
                z,
            )] && f.coords == coords_of(blocks[chunk[cell(x, y, z)]], mesher_direction(k)),
{
    let c = cell(x, y, z);
    let i = c * 6 + k;
    lemma_cell_in_range(x, y, z);
    lemma_cell_encode(x, y, z);
    vstd::arithmetic::div_mod::lemma_fundamental_div_mod_converse(i, 6, c, k);
    let d = mesher_direction(k);
    let shown = chunk[c] != air && facing_in(chunk, neighbors[k], x, y, z, d, outside) == air;
    if shown {
        let f = exposed_face(chunk, neighbors, blocks, air, outside, i).unwrap();
        lemma_exposed_faces_contain(chunk, neighbors, blocks, air, outside, FACE_SLOTS as int, f);
        assert(exposed_faces(chunk, neighbors, blocks, air, outside, FACE_SLOTS as int).contains(f));
    }
    assert forall|f: FaceData|
        #[trigger] exposed_faces(chunk, neighbors, blocks, air, outside, FACE_SLOTS as int).contains(f) && f.x
            == x && f.y == y && f.z == z && f.dir == d implies shown && f.block == chunk[c] && f.coords
        == coords_of(blocks[chunk[c]], d) by {
        lemma_exposed_faces_contain(chunk, neighbors, blocks, air, outside, FACE_SLOTS as int, f);
        let j = choose|j: int|
            0 <= j < FACE_SLOTS && #[trigger] exposed_face(chunk, neighbors, blocks, air, outside, j) == Some(f);
        lemma_cell_decode(j / 6);
        vstd::arithmetic::div_mod::lemma_fundamental_div_mod(j, 6);
        assert(j % 6 == k);
        assert(j / 6 == c);
        assert(j == i);
    }
}

} // verus!
