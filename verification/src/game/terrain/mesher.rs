//! Which block faces of a chunk are seen, and so must be drawn: a face is
//! drawn when the block is not air and the block in front of the face is
//! transparent.
use vstd::prelude::*;
use std::sync::Arc;
use crate::game::registry::BlockRegistry;
use crate::game::terrain::block::{AtlasCoord, Direction};
use crate::game::terrain::chunk::{
    Chunk, SIZE, VOLUME, cell, cell_x, cell_y, cell_z, in_chunk, lemma_cell_decode, lemma_cell_encode,
    lemma_cell_in_range,
};

verus! {

/// A face of a block that must be drawn.
#[derive(Debug, Clone, Copy)]
pub struct Face {
    pub x: usize,
    pub y: usize,
    pub z: usize,
    pub dir: Direction,
    /// The atlas tile shown on the face.
    pub tile: AtlasCoord,
}

/// Number of (block, face) pairs in a chunk.
pub const FACE_SLOTS: usize = 24576;

/// Atlas tile shown for a block kind the registry does not know.
pub const UNKNOWN_TILE: AtlasCoord = [0, 1];

/// The `k`-th face in the order the mesher visits them: east, west, top,
/// bottom, north, south.
pub open spec fn direction_at(k: int) -> Direction {
    if k == 0 {
        Direction::East
    } else if k == 1 {
        Direction::West
    } else if k == 2 {
        Direction::Top
    } else if k == 3 {
        Direction::Bottom
    } else if k == 4 {
        Direction::North
    } else {
        Direction::South
    }
}

/// Outward normal of a face.
pub open spec fn normal(d: Direction) -> (int, int, int) {
    match d {
        Direction::East => (1, 0, 0),
        Direction::West => (-1, 0, 0),
        Direction::Top => (0, 1, 0),
        Direction::Bottom => (0, -1, 0),
        Direction::North => (0, 0, 1),
        Direction::South => (0, 0, -1),
    }
}

/// A coordinate one step outside a chunk, moved into the next chunk.
pub open spec fn wrap(v: int) -> int {
    if v < 0 {
        v + SIZE
    } else if v >= SIZE {
        v - SIZE
    } else {
        v
    }
}

/// The neighbouring chunks as block ids, in face order; `None` where no
/// chunk is loaded.
pub open spec fn neighbor_views(neighbors: [Option<Arc<Chunk>>; 6]) -> Seq<Option<Seq<usize>>> {
    neighbors@.map_values(|o: Option<Arc<Chunk>>| chunk_view(o))
}

/// The block in front of face `d` of block `(x, y, z)`: read in the chunk
/// itself, or in `neighbor`, the chunk on that side, or `outside` when that
/// chunk is not loaded.
pub open spec fn facing_in(
    chunk: Seq<usize>,
    neighbor: Option<Seq<usize>>,
    x: int,
    y: int,
    z: int,
    d: Direction,
    outside: usize,
) -> usize {
    let nx = x + normal(d).0;
    let ny = y + normal(d).1;
    let nz = z + normal(d).2;
    if in_chunk(nx, ny, nz) {
        chunk[cell(nx, ny, nz)]
    } else {
        match neighbor {
            Some(n) => n[cell(wrap(nx), wrap(ny), wrap(nz))],
            None => outside,
        }
    }
}

/// The block in front of face `d` of block `(x, y, z)`, with the
/// neighbouring chunks given in face order.
pub open spec fn facing_block(
    chunk: Seq<usize>,
    neighbors: Seq<Option<Seq<usize>>>,
    x: int,
    y: int,
    z: int,
    d: Direction,
    outside: usize,
) -> usize {
    facing_in(chunk, neighbors[d.ord()], x, y, z, d, outside)
}

/// A chunk that may be missing, as its block ids.
pub open spec fn chunk_view(o: Option<Arc<Chunk>>) -> Option<Seq<usize>> {
    match o {
        Some(c) => Some(c@),
        None => None,
    }
}

/// The block at face slot `i` (block `i / 6`, face `i % 6`) and the block in front of it.
pub open spec fn slot_blocks(
    chunk: Seq<usize>,
    neighbors: Seq<Option<Seq<usize>>>,
    outside: usize,
    i: int,
) -> (usize, usize) {
    let c = i / 6;
    (chunk[c], facing_block(chunk, neighbors, cell_x(c), cell_y(c), cell_z(c), direction_at(i % 6), outside))
}

/// The face at slot `i`, if it must be drawn.
pub open spec fn slot_face(
    chunk: Seq<usize>,
    neighbors: Seq<Option<Seq<usize>>>,
    registry: BlockRegistry,
    air: usize,
    outside: usize,
    i: int,
) -> Option<Face> {
    let c = i / 6;
    let (block, facing) = slot_blocks(chunk, neighbors, outside, i);
    if block != air && registry.blocks()[facing as int].is_transparent_spec() {
        Some(
            Face {
                x: cell_x(c) as usize,
                y: cell_y(c) as usize,
                z: cell_z(c) as usize,
                dir: direction_at(i % 6),
                tile: if block < registry.blocks().len() {
                    registry.blocks()[block as int].faces()[i % 6]
                } else {
                    UNKNOWN_TILE
                },
            },
        )
    } else {
        None
    }
}

/// The faces to draw among the first `n` slots, in slot order.
pub open spec fn drawn_faces(
    chunk: Seq<usize>,
    neighbors: Seq<Option<Seq<usize>>>,
    registry: BlockRegistry,
    air: usize,
    outside: usize,
    n: int,
) -> Seq<Face>
    decreases n,
{
    if n <= 0 {
        Seq::empty()
    } else {
        let rest = drawn_faces(chunk, neighbors, registry, air, outside, n - 1);
        match slot_face(chunk, neighbors, registry, air, outside, n - 1) {
            Some(f) => rest.push(f),
            None => rest,
        }
    }
}

/// Every block that is not air has only known block kinds in front of its faces.
pub open spec fn facing_blocks_known(
    chunk: Seq<usize>,
    neighbors: Seq<Option<Seq<usize>>>,
    registry: BlockRegistry,
    air: usize,
    outside: usize,
) -> bool {
    forall|i: int|
        0 <= i < FACE_SLOTS ==> #[trigger] slot_blocks(chunk, neighbors, outside, i).0 != air
            ==> slot_blocks(chunk, neighbors, outside, i).1 < registry.blocks().len()
}

/// The block in front of face `d` of block `(x, y, z)` of `chunk`, where
/// `neighbor` is the chunk on that side.
pub(crate) fn facing_across(
    chunk: &Chunk,
    neighbor: &Option<Arc<Chunk>>,
    x: usize,
    y: usize,
    z: usize,
    d: Direction,
    outside: usize,
) -> (b: usize)
    requires
        in_chunk(x as int, y as int, z as int),
        chunk@.len() == VOLUME,
        *neighbor is Some ==> neighbor.unwrap()@.len() == VOLUME,
    ensures
        b == facing_in(chunk@, chunk_view(*neighbor), x as int, y as int, z as int, d, outside),
{
    let (nx, ny, nz): (isize, isize, isize) = match d {
        Direction::East => (x as isize + 1, y as isize, z as isize),
        Direction::West => (x as isize - 1, y as isize, z as isize),
        Direction::Top => (x as isize, y as isize + 1, z as isize),
        Direction::Bottom => (x as isize, y as isize - 1, z as isize),
        Direction::North => (x as isize, y as isize, z as isize + 1),
        Direction::South => (x as isize, y as isize, z as isize - 1),
    };
    if 0 <= nx && nx < 16 && 0 <= ny && ny < 16 && 0 <= nz && nz < 16 {
        chunk.get_block(nx as usize, ny as usize, nz as usize)
    } else {
        let wx: usize = if nx < 0 { 15 } else if nx >= 16 { 0 } else { nx as usize };
        let wy: usize = if ny < 0 { 15 } else if ny >= 16 { 0 } else { ny as usize };
        let wz: usize = if nz < 0 { 15 } else if nz >= 16 { 0 } else { nz as usize };
        match neighbor {
            Some(n) => n.get_block(wx, wy, wz),
            None => outside,
        }
    }
}

/// The block in front of face `d` of block `(x, y, z)` of `chunk`.
fn facing(
    chunk: &Chunk,
    neighbors: &[Option<Arc<Chunk>>; 6],
    x: usize,
    y: usize,
    z: usize,
    d: Direction,
    outside: usize,
) -> (b: usize)
    requires
        in_chunk(x as int, y as int, z as int),
        chunk@.len() == VOLUME,
        forall|k: int| 0 <= k < 6 ==> (#[trigger] neighbors@[k]) is Some ==> neighbors@[k].unwrap()@.len() == VOLUME,
    ensures
        b == facing_block(chunk@, neighbor_views(*neighbors), x as int, y as int, z as int, d, outside),
{
    let k = d.index();
    assert(neighbor_views(*neighbors)[k as int] == chunk_view(neighbors@[k as int]));
    facing_across(chunk, &neighbors[k], x, y, z, d, outside)
}

/// The block of face slot `i`, as its coordinates, and the face: block
/// `i / 6` in storage order, face `i % 6` in the order of `direction_at`.
fn slot(i: usize) -> (r: (usize, usize, usize, Direction))
    requires
        i < FACE_SLOTS,
    ensures
        in_chunk(r.0 as int, r.1 as int, r.2 as int),
        r.0 == cell_x(i as int / 6),
        r.1 == cell_y(i as int / 6),
        r.2 == cell_z(i as int / 6),
        cell(r.0 as int, r.1 as int, r.2 as int) == i as int / 6,
        r.3 == direction_at(i as int % 6),
        r.3.ord() == i as int % 6,
{
    let c = i / 6;
    proof {
        lemma_cell_decode(c as int);
    }
    let d = match i % 6 {
        0 => Direction::East,
        1 => Direction::West,
        2 => Direction::Top,
        3 => Direction::Bottom,
        4 => Direction::North,
        _ => Direction::South,
    };
    (c / 256, (c / 16) % 16, c % 16, d)
}

/// Whether every block that is not `air` has only block kinds the registry
/// knows in front of its faces, which `visible_faces` needs.
pub fn facing_blocks_are_known(
    chunk: &Chunk,
    neighbors: &[Option<Arc<Chunk>>; 6],
    registry: &BlockRegistry,
    air: usize,
    outside: usize,
) -> (b: bool)
    requires
        chunk@.len() == VOLUME,
        forall|k: int| 0 <= k < 6 ==> (#[trigger] neighbors@[k]) is Some ==> neighbors@[k].unwrap()@.len() == VOLUME,
    ensures
        b == facing_blocks_known(chunk@, neighbor_views(*neighbors), *registry, air, outside),
{
    let ghost nv = neighbor_views(*neighbors);
    let mut i: usize = 0;
    while i < FACE_SLOTS
        invariant
            i <= FACE_SLOTS,
            chunk@.len() == VOLUME,
            nv == neighbor_views(*neighbors),
            forall|k: int| 0 <= k < 6 ==> (#[trigger] neighbors@[k]) is Some ==> neighbors@[k].unwrap()@.len() == VOLUME,
            forall|j: int|
                0 <= j < i ==> #[trigger] slot_blocks(chunk@, nv, outside, j).0 != air
                    ==> slot_blocks(chunk@, nv, outside, j).1 < registry.blocks().len(),
        decreases FACE_SLOTS - i,
    {
        let (x, y, z, d) = slot(i);
        let block = chunk.get_block(x, y, z);
        if block != air {
            let f = facing(chunk, neighbors, x, y, z, d, outside);
            assert(slot_blocks(chunk@, nv, outside, i as int) == (block, f));
            if registry.by_id(f).is_none() {
                assert(!(slot_blocks(chunk@, nv, outside, i as int).1 < registry.blocks().len()));
                assert(!facing_blocks_known(chunk@, nv, *registry, air, outside)) by {
                    assert(0 <= i < FACE_SLOTS);
                    assert(slot_blocks(chunk@, nv, outside, i as int).0 == block);
                }
                return false;
            }
        } else {
            assert(slot_blocks(chunk@, nv, outside, i as int).0 == air);
        }
        i = i + 1;
    }
    true
}

/// The faces of `chunk` to draw, block by block in storage order and, for
/// each block, in the order east, west, top, bottom, north, south. A face is
/// drawn when its block is not `air` and the block in front of it is
/// transparent; it shows the block kind's tile for that face, or
/// `UNKNOWN_TILE` for a block kind the registry does not know. In front of
/// the chunk's border lie the `neighbors` (east, west, top, bottom, north,
/// south), or `outside` where one is not loaded.
pub fn visible_faces(
    chunk: &Chunk,
    neighbors: &[Option<Arc<Chunk>>; 6],
    registry: &BlockRegistry,
    air: usize,
    outside: usize,
) -> (faces: Vec<Face>)
    requires
        chunk@.len() == VOLUME,
        forall|k: int| 0 <= k < 6 ==> (#[trigger] neighbors@[k]) is Some ==> neighbors@[k].unwrap()@.len() == VOLUME,
        facing_blocks_known(chunk@, neighbor_views(*neighbors), *registry, air, outside),
    ensures
        faces@ == drawn_faces(chunk@, neighbor_views(*neighbors), *registry, air, outside, FACE_SLOTS as int),
{
    let ghost nv = neighbor_views(*neighbors);
    let mut faces: Vec<Face> = Vec::new();
    let mut i: usize = 0;
    while i < FACE_SLOTS
        invariant
            i <= FACE_SLOTS,
            chunk@.len() == VOLUME,
            nv == neighbor_views(*neighbors),
            forall|k: int| 0 <= k < 6 ==> (#[trigger] neighbors@[k]) is Some ==> neighbors@[k].unwrap()@.len() == VOLUME,
            facing_blocks_known(chunk@, nv, *registry, air, outside),
            faces@ == drawn_faces(chunk@, nv, *registry, air, outside, i as int),
        decreases FACE_SLOTS - i,
    {
        let (x, y, z, d) = slot(i);
        let block = chunk.get_block(x, y, z);
        if block != air {
            let f = facing(chunk, neighbors, x, y, z, d, outside);
            assert(slot_blocks(chunk@, nv, outside, i as int) == (block, f));
            match registry.by_id(f) {
                Some(facing_data) => {
                    if facing_data.is_transparent() {
                        let tile = match registry.by_id(block) {
                            Some(block_data) => block_data.get_face(d),
                            None => UNKNOWN_TILE,
                        };
                        faces.push(Face { x, y, z, dir: d, tile });
                    }
                },
                None => {},
            }
        }
        i = i + 1;
    }
    faces
}

/// Every face that must be drawn is drawn, and every drawn face is one that
/// must be: a face appears among the drawn faces of the first `n` slots
/// exactly when some slot below `n` asks for it.
pub proof fn law_drawn_faces_are_the_visible_ones(
    chunk: Seq<usize>,
    neighbors: Seq<Option<Seq<usize>>>,
    registry: BlockRegistry,
    air: usize,
    outside: usize,
    n: int,
    f: Face,
)
    ensures
        drawn_faces(chunk, neighbors, registry, air, outside, n).contains(f) <==> exists|i: int|
            0 <= i < n && #[trigger] slot_face(chunk, neighbors, registry, air, outside, i) == Some(f),
    decreases n,
{
    if n > 0 {
        law_drawn_faces_are_the_visible_ones(chunk, neighbors, registry, air, outside, n - 1, f);
        let rest = drawn_faces(chunk, neighbors, registry, air, outside, n - 1);
        match slot_face(chunk, neighbors, registry, air, outside, n - 1) {
            Some(g) => {
                let all = rest.push(g);
                if all.contains(f) {
                    let j = choose|j: int| 0 <= j < all.len() && all[j] == f;
                    if j < rest.len() {
                        assert(rest[j] == f);
                        assert(rest.contains(f));
                    } else {
                        assert(slot_face(chunk, neighbors, registry, air, outside, n - 1) == Some(f));
                    }
                }
                if exists|i: int| 0 <= i < n && #[trigger] slot_face(chunk, neighbors, registry, air, outside, i) == Some(f) {
                    let i = choose|i: int| 0 <= i < n && #[trigger] slot_face(chunk, neighbors, registry, air, outside, i) == Some(f);
                    if i < n - 1 {
                        let j = choose|j: int| 0 <= j < rest.len() && rest[j] == f;
                        assert(all[j] == f);
                    } else {
                        assert(all[rest.len() as int] == f);
                    }
                }
            },
            None => {
                if exists|i: int| 0 <= i < n && #[trigger] slot_face(chunk, neighbors, registry, air, outside, i) == Some(f) {
                    let i = choose|i: int| 0 <= i < n && #[trigger] slot_face(chunk, neighbors, registry, air, outside, i) == Some(f);
                    assert(i < n - 1);
                }
            },
        }
    }
}

/// Block `i` of a neighbouring chunk, or `outside` where none is loaded.
pub open spec fn read_neighbor(neighbor: Option<Seq<usize>>, i: int, outside: usize) -> usize {
    match neighbor {
        Some(n) => n[i],
        None => outside,
    }
}

/// The block in front of a face is the next cell of the chunk in the face's
/// direction (east x + 1, west x - 1, top y + 1, bottom y - 1, north z + 1,
/// south z - 1); across the border it is the cell on the near side of the
/// neighbouring chunk on that side, or `outside` where none is loaded.
pub proof fn law_facing_in_by_direction(
    chunk: Seq<usize>,
    neighbor: Option<Seq<usize>>,
    x: int,
    y: int,
    z: int,
    outside: usize,
)
    requires
        in_chunk(x, y, z),
    ensures
        facing_in(chunk, neighbor, x, y, z, Direction::East, outside) == if x < 15 {
            chunk[cell(x + 1, y, z)]
        } else {
            read_neighbor(neighbor, cell(0, y, z), outside)
        },
        facing_in(chunk, neighbor, x, y, z, Direction::West, outside) == if x > 0 {
            chunk[cell(x - 1, y, z)]
        } else {
            read_neighbor(neighbor, cell(15, y, z), outside)
        },
        facing_in(chunk, neighbor, x, y, z, Direction::Top, outside) == if y < 15 {
            chunk[cell(x, y + 1, z)]
        } else {
            read_neighbor(neighbor, cell(x, 0, z), outside)
        },
        facing_in(chunk, neighbor, x, y, z, Direction::Bottom, outside) == if y > 0 {
            chunk[cell(x, y - 1, z)]
        } else {
            read_neighbor(neighbor, cell(x, 15, z), outside)
        },
        facing_in(chunk, neighbor, x, y, z, Direction::North, outside) == if z < 15 {
            chunk[cell(x, y, z + 1)]
        } else {
            read_neighbor(neighbor, cell(x, y, 0), outside)
        },
        facing_in(chunk, neighbor, x, y, z, Direction::South, outside) == if z > 0 {
            chunk[cell(x, y, z - 1)]
        } else {
            read_neighbor(neighbor, cell(x, y, 15), outside)
        },
{
}

/// Face slot `cell(x, y, z) * 6 + d.ord()` is the slot of face `d` of block
/// `(x, y, z)`, and it is the only one.
proof fn lemma_slot_of_face(x: int, y: int, z: int, d: Direction, j: int)
    requires
        in_chunk(x, y, z),
    ensures
        0 <= cell(x, y, z) * 6 + d.ord() < FACE_SLOTS,
        (cell(x, y, z) * 6 + d.ord()) / 6 == cell(x, y, z),
        (cell(x, y, z) * 6 + d.ord()) % 6 == d.ord(),
        direction_at(d.ord()) == d,
        cell_x(cell(x, y, z)) == x && cell_y(cell(x, y, z)) == y && cell_z(cell(x, y, z)) == z,
        0 <= j < FACE_SLOTS && cell_x(j / 6) == x && cell_y(j / 6) == y && cell_z(j / 6) == z
            && direction_at(j % 6) == d ==> j == cell(x, y, z) * 6 + d.ord(),
{
    let c = cell(x, y, z);
    lemma_cell_in_range(x, y, z);
    lemma_cell_encode(x, y, z);
    vstd::arithmetic::div_mod::lemma_fundamental_div_mod_converse(c * 6 + d.ord(), 6, c, d.ord());
    if 0 <= j < FACE_SLOTS && cell_x(j / 6) == x && cell_y(j / 6) == y && cell_z(j / 6) == z && direction_at(
        j % 6,
    ) == d {
        lemma_cell_decode(j / 6);
        vstd::arithmetic::div_mod::lemma_fundamental_div_mod(j, 6);
    }
}

/// Face `d` of block `(x, y, z)` is drawn exactly when the block is not air
/// and the block in front of that face, read in the chunk or in the
/// neighbouring chunk on that side, is transparent in the registry; a drawn
/// face shows the block kind's tile for that side.
pub proof fn law_face_drawn_iff_transparent_in_front(
    chunk: Seq<usize>,
    neighbors: Seq<Option<Seq<usize>>>,
    registry: BlockRegistry,
    air: usize,
    outside: usize,
    x: int,
    y: int,
    z: int,
    d: Direction,
)
    requires
        in_chunk(x, y, z),
    ensures
        (exists|f: Face|
            #[trigger] drawn_faces(chunk, neighbors, registry, air, outside, FACE_SLOTS as int).contains(f)
                && f.x == x && f.y == y && f.z == z && f.dir == d) <==> chunk[cell(x, y, z)] != air
            && registry.blocks()[facing_in(chunk, neighbors[d.ord()], x, y, z, d, outside) as int].is_transparent_spec(),
        forall|f: Face|
            #[trigger] drawn_faces(chunk, neighbors, registry, air, outside, FACE_SLOTS as int).contains(f)
                && f.x == x && f.y == y && f.z == z && f.dir == d ==> f.tile == if chunk[cell(x, y, z)]
                < registry.blocks().len() {
                registry.blocks()[chunk[cell(x, y, z)] as int].faces()[d.ord()]
            } else {
                UNKNOWN_TILE
            },
{
    let i = cell(x, y, z) * 6 + d.ord();
    lemma_slot_of_face(x, y, z, d, 0);
    let shown = chunk[cell(x, y, z)] != air && registry.blocks()[facing_in(
        chunk,
        neighbors[d.ord()],
        x,
        y,
        z,
        d,
        outside,
    ) as int].is_transparent_spec();
    if shown {
        let f = slot_face(chunk, neighbors, registry, air, outside, i).unwrap();
        law_drawn_faces_are_the_visible_ones(chunk, neighbors, registry, air, outside, FACE_SLOTS as int, f);
        assert(drawn_faces(chunk, neighbors, registry, air, outside, FACE_SLOTS as int).contains(f));
    }
    assert forall|f: Face|
        #[trigger] drawn_faces(chunk, neighbors, registry, air, outside, FACE_SLOTS as int).contains(f) && f.x
            == x && f.y == y && f.z == z && f.dir == d implies shown && f.tile == if chunk[cell(x, y, z)]
        < registry.blocks().len() {
        registry.blocks()[chunk[cell(x, y, z)] as int].faces()[d.ord()]
    } else {
        UNKNOWN_TILE
    } by {
        law_drawn_faces_are_the_visible_ones(chunk, neighbors, registry, air, outside, FACE_SLOTS as int, f);
        let j = choose|j: int|
            0 <= j < FACE_SLOTS && #[trigger] slot_face(chunk, neighbors, registry, air, outside, j) == Some(f);
        lemma_cell_decode(j / 6);
        lemma_slot_of_face(x, y, z, d, j);
    }
}

} // verus!
