//! Chunks of block ids and their positions in the grid of chunks.
use vstd::prelude::*;

verus! {

/// Edge length of a chunk, in blocks.
pub const SIZE: usize = 16;

/// Number of blocks held by one chunk.
pub const VOLUME: usize = 4096;

/// Whether `(x, y, z)` addresses a block inside a chunk.
pub open spec fn in_chunk(x: int, y: int, z: int) -> bool {
    &&& 0 <= x < SIZE
    &&& 0 <= y < SIZE
    &&& 0 <= z < SIZE
}

/// Position of block `(x, y, z)` in the flat storage of a chunk.
pub open spec fn cell(x: int, y: int, z: int) -> int {
    (x * SIZE + y) * SIZE + z
}

/// Position of a chunk in the grid of chunks.
#[derive(Debug, Clone, Copy, PartialEq, Eq, Hash, Structural)]
pub struct ChunkPosition {
    pub x: isize,
    pub y: isize,
    pub z: isize,
}

/// `v` can be moved one step either way without leaving the `isize` range.
pub open spec fn steppable(v: isize) -> bool {
    isize::MIN < v < isize::MAX
}

impl ChunkPosition {
    pub fn new(x: isize, y: isize, z: isize) -> (p: Self)
        ensures
            p.x == x && p.y == y && p.z == z,
    {
        Self { x, y, z }
    }

    /// The six chunks that share a face with this one, in the order north
    /// (z + 1), south (z - 1), east (x + 1), west (x - 1), up (y + 1) and
    /// down (y - 1).
    pub open spec fn neighbor_positions(self) -> Seq<ChunkPosition> {
        seq![
            ChunkPosition { x: self.x, y: self.y, z: (self.z + 1) as isize },
            ChunkPosition { x: self.x, y: self.y, z: (self.z - 1) as isize },
            ChunkPosition { x: (self.x + 1) as isize, y: self.y, z: self.z },
            ChunkPosition { x: (self.x - 1) as isize, y: self.y, z: self.z },
            ChunkPosition { x: self.x, y: (self.y + 1) as isize, z: self.z },
            ChunkPosition { x: self.x, y: (self.y - 1) as isize, z: self.z },
        ]
    }

    /// The six chunks that share a face with this one, in the order north
    /// (z + 1), south (z - 1), east (x + 1), west (x - 1), up (y + 1) and
    /// down (y - 1).
    pub fn neighbors(&self) -> (n: [ChunkPosition; 6])
        requires
            steppable(self.x) && steppable(self.y) && steppable(self.z),
        ensures
            n@ == self.neighbor_positions(),
    {
        let north = ChunkPosition::new(self.x, self.y, self.z + 1);
        let south = ChunkPosition::new(self.x, self.y, self.z - 1);
        let east = ChunkPosition::new(self.x + 1, self.y, self.z);
        let west = ChunkPosition::new(self.x - 1, self.y, self.z);
        let up = ChunkPosition::new(self.x, self.y + 1, self.z);
        let down = ChunkPosition::new(self.x, self.y - 1, self.z);
        let n = [north, south, east, west, up, down];
        assert(n@ =~= seq![north, south, east, west, up, down]);
        n
    }
}

/// One coordinate of a world cell split into the chunk coordinate and the
/// offset inside that chunk.
fn split_coordinate(v: isize) -> (r: (isize, usize))
    ensures
        r.0 == (v as int) / 16,
        r.1 == (v as int) % 16,
        r.0 * SIZE + r.1 == v,
        r.1 < SIZE,
{
    let chunk = match v.checked_div_euclid(16) {
        Some(c) => c,
        None => 0,
    };
    let offset = match v.checked_rem_euclid(16) {
        Some(o) => o,
        None => 0,
    };
    (chunk, offset as usize)
}

/// The chunk that holds world cell `(x, y, z)`, and the cell's position
/// inside it: each coordinate is 16 times the chunk's plus the offset, with
/// the offset from 0 to 15 (so cell `-1` is offset 15 of chunk `-1`).
pub fn locate_cell(x: isize, y: isize, z: isize) -> (r: (ChunkPosition, usize, usize, usize))
    ensures
        r.0.x * SIZE + r.1 == x,
        r.0.y * SIZE + r.2 == y,
        r.0.z * SIZE + r.3 == z,
        in_chunk(r.1 as int, r.2 as int, r.3 as int),
{
    let (cx, ox) = split_coordinate(x);
    let (cy, oy) = split_coordinate(y);
    let (cz, oz) = split_coordinate(z);
    (ChunkPosition::new(cx, cy, cz), ox, oy, oz)
}

/// A cubic piece of the world: `SIZE`³ block ids.
#[derive(Debug)]
pub struct Chunk {
    blocks: Vec<usize>,
}

impl View for Chunk {
    type V = Seq<usize>;

    /// The block ids in `x`-major, then `y`, then `z` order.
    closed spec fn view(&self) -> Seq<usize> {
        self.blocks@
    }
}

pub proof fn lemma_cell_in_range(x: int, y: int, z: int)
    requires
        in_chunk(x, y, z),
    ensures
        0 <= cell(x, y, z) < VOLUME,
{
}

pub proof fn lemma_cell_injective(x1: int, y1: int, z1: int, x2: int, y2: int, z2: int)
    requires
        in_chunk(x1, y1, z1),
        in_chunk(x2, y2, z2),
        cell(x1, y1, z1) == cell(x2, y2, z2),
    ensures
        x1 == x2 && y1 == y2 && z1 == z2,
{
}

/// The block addressed by position `i` of the flat storage of a chunk.
pub open spec fn cell_x(i: int) -> int {
    i / 256
}

pub open spec fn cell_y(i: int) -> int {
    (i / 16) % 16
}

pub open spec fn cell_z(i: int) -> int {
    i % 16
}

pub proof fn lemma_cell_decode(i: int)
    requires
        0 <= i < VOLUME,
    ensures
        in_chunk(cell_x(i), cell_y(i), cell_z(i)),
        cell(cell_x(i), cell_y(i), cell_z(i)) == i,
{
    assert(in_chunk(cell_x(i), cell_y(i), cell_z(i)) && cell(cell_x(i), cell_y(i), cell_z(i)) == i)
        by (nonlinear_arith)
        requires
            0 <= i < 4096,
    ;
}

pub proof fn lemma_cell_encode(x: int, y: int, z: int)
    requires
        in_chunk(x, y, z),
    ensures
        cell_x(cell(x, y, z)) == x,
        cell_y(cell(x, y, z)) == y,
        cell_z(cell(x, y, z)) == z,
{
    lemma_cell_in_range(x, y, z);
    lemma_cell_decode(cell(x, y, z));
    lemma_cell_injective(
        cell_x(cell(x, y, z)),
        cell_y(cell(x, y, z)),
        cell_z(cell(x, y, z)),
        x,
        y,
        z,
    );
}

impl Chunk {
    #[verifier::type_invariant]
    spec fn inv(self) -> bool {
        self.blocks@.len() == VOLUME
    }

    /// The block id stored at `(x, y, z)`.
    pub open spec fn block(&self, x: int, y: int, z: int) -> usize {
        self@[cell(x, y, z)]
    }

    /// A chunk filled with `filler` everywhere.
    pub fn new(filler: usize) -> (c: Self)
        ensures
            c@.len() == VOLUME,
            forall|i: int| 0 <= i < VOLUME ==> #[trigger] c@[i] == filler,
            forall|x: int, y: int, z: int| in_chunk(x, y, z) ==> #[trigger] c.block(x, y, z) == filler,
    {
        let blocks = vec![filler; VOLUME];
        let c = Self { blocks };
        assert forall|x: int, y: int, z: int| in_chunk(x, y, z) implies #[trigger] c.block(x, y, z) == filler by {
            lemma_cell_in_range(x, y, z);
        }
        c
    }

    /// Stores `block` at `(x, y, z)`.
    pub fn set_block(&mut self, x: usize, y: usize, z: usize, block: usize)
        requires
            in_chunk(x as int, y as int, z as int),
        ensures
            final(self)@ == old(self)@.update(cell(x as int, y as int, z as int), block),
            final(self).block(x as int, y as int, z as int) == block,
            final(self)@.len() == VOLUME,
        no_unwind
    {
        proof { use_type_invariant(&*self); }
        let i = (x * SIZE + y) * SIZE + z;
        self.blocks[i] = block;
    }

    /// The block id stored at `(x, y, z)`.
    pub fn get_block(&self, x: usize, y: usize, z: usize) -> (b: usize)
        requires
            in_chunk(x as int, y as int, z as int),
        ensures
            b == self.block(x as int, y as int, z as int),
            self@.len() == VOLUME,
    {
        proof { use_type_invariant(self); }
        self.blocks[(x * SIZE + y) * SIZE + z]
    }
}

/// Writing a block and reading it back gives the written id, and every other
/// position keeps the id it had.
pub proof fn law_get_after_set(
    before: Chunk,
    after: Chunk,
    x: int,
    y: int,
    z: int,
    b: usize,
    qx: int,
    qy: int,
    qz: int,
)
    requires
        before@.len() == VOLUME,
        after@ == before@.update(cell(x, y, z), b),
        in_chunk(x, y, z),
        in_chunk(qx, qy, qz),
    ensures
        after.block(qx, qy, qz) == if qx == x && qy == y && qz == z {
            b
        } else {
            before.block(qx, qy, qz)
        },
{
    lemma_cell_in_range(x, y, z);
    lemma_cell_in_range(qx, qy, qz);
    if !(qx == x && qy == y && qz == z) {
        if cell(qx, qy, qz) == cell(x, y, z) {
            lemma_cell_injective(qx, qy, qz, x, y, z);
        }
    }
}

/// The neighbours of a chunk come in the order north (z + 1), south
/// (z - 1), east (x + 1), west (x - 1), up (y + 1), down (y - 1).
pub proof fn law_neighbor_positions_order(p: ChunkPosition)
    requires
        steppable(p.x) && steppable(p.y) && steppable(p.z),
    ensures
        p.neighbor_positions().len() == 6,
        p.neighbor_positions()[0] == (ChunkPosition { x: p.x, y: p.y, z: (p.z + 1) as isize }),
        p.neighbor_positions()[1] == (ChunkPosition { x: p.x, y: p.y, z: (p.z - 1) as isize }),
        p.neighbor_positions()[2] == (ChunkPosition { x: (p.x + 1) as isize, y: p.y, z: p.z }),
        p.neighbor_positions()[3] == (ChunkPosition { x: (p.x - 1) as isize, y: p.y, z: p.z }),
        p.neighbor_positions()[4] == (ChunkPosition { x: p.x, y: (p.y + 1) as isize, z: p.z }),
        p.neighbor_positions()[5] == (ChunkPosition { x: p.x, y: (p.y - 1) as isize, z: p.z }),
{
}

} // verus!
