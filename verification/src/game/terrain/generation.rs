//! How terrain is laid out in a chunk once the height of each column is known.
//! The heights themselves come from a noise function over the column's world
//! coordinates; they are computed outside this module and handed in as
//! integers, one per column, at position `x * 16 + z`.
use vstd::prelude::*;
use crate::game::registry::BlockRegistry;
use crate::game::terrain::chunk::{
    Chunk, ChunkPosition, SIZE, VOLUME, cell, cell_x, cell_y, cell_z, in_chunk, lemma_cell_decode,
    lemma_cell_encode,
};

verus! {

/// Number of columns in a chunk.
pub const COLUMNS: usize = 256;

/// Block id used for a kind the registry does not know.
pub const FALLBACK_BLOCK: usize = 1;

/// Block id of empty space.
pub const AIR: usize = 0;

/// The block ids the layered terrain is made of.
#[derive(Debug, Clone, Copy, PartialEq, Eq, Structural)]
pub struct TerrainBlocks {
    pub grass: usize,
    pub dirt: usize,
    pub stone: usize,
    pub bedrock: usize,
}

/// The id a registry gives `name`, or `FALLBACK_BLOCK` when it has none.
pub open spec fn id_or_fallback(r: BlockRegistry, name: Seq<char>) -> usize {
    if r.ids().contains_key(name) {
        r.ids()[name]
    } else {
        FALLBACK_BLOCK
    }
}

impl TerrainBlocks {
    /// The ids of grass, dirt, stone and bedrock in `registry`, each
    /// `FALLBACK_BLOCK` where the registry lacks it.
    pub fn from_registry(registry: &BlockRegistry) -> (t: Self)
        ensures
            t.grass == id_or_fallback(*registry, "grass"@),
            t.dirt == id_or_fallback(*registry, "dirt"@),
            t.stone == id_or_fallback(*registry, "stone"@),
            t.bedrock == id_or_fallback(*registry, "bedrock"@),
    {
        let grass = match registry.id_of("grass") {
            Some(id) => id,
            None => FALLBACK_BLOCK,
        };
        let dirt = match registry.id_of("dirt") {
            Some(id) => id,
            None => FALLBACK_BLOCK,
        };
        let stone = match registry.id_of("stone") {
            Some(id) => id,
            None => FALLBACK_BLOCK,
        };
        let bedrock = match registry.id_of("bedrock") {
            Some(id) => id,
            None => FALLBACK_BLOCK,
        };
        Self { grass, dirt, stone, bedrock }
    }
}

/// World height of layer `y` of the chunks at height `chunk_y`.
pub open spec fn world_y(chunk_y: int, y: int) -> int {
    chunk_y * SIZE + y
}

/// The block at world height `ny` in a column whose surface lies at
/// `-height`: grass on the surface, bedrock at `-16`, stone more than three
/// blocks below the surface, dirt between, and air above.
pub open spec fn layer_block(ny: int, height: int, t: TerrainBlocks) -> usize {
    if ny == -height {
        t.grass
    } else if ny == -(SIZE as int) {
        t.bedrock
    } else if ny < -height - 3 {
        t.stone
    } else if ny < -height {
        t.dirt
    } else {
        AIR
    }
}

/// The block at world height `ny` in a column whose terrain reaches up to
/// `floor`: `fill` up to and including `floor`, `empty` above.
pub open spec fn fill_block(ny: int, floor: int, fill: usize, empty: usize) -> usize {
    if ny > floor {
        empty
    } else {
        fill
    }
}

/// Every layer of the chunks at height `chunk_y` has a world height that
/// fits in an `isize`.
pub open spec fn layers_fit(chunk_y: isize) -> bool {
    isize::MIN <= world_y(chunk_y as int, 0) && world_y(chunk_y as int, SIZE - 1) <= isize::MAX
}

/// World height of layer `y` of the chunks at height `chunk_y`.
fn layer_height(chunk_y: isize, y: usize) -> (ny: i128)
    requires
        layers_fit(chunk_y),
        y < SIZE,
    ensures
        ny == world_y(chunk_y as int, y as int),
{
    chunk_y as i128 * 16 + y as i128
}

/// The chunk at `position` of a terrain whose column `(x, z)` has its
/// surface at height `-heights[x * 16 + z]`, laid out by `layer_block`.
pub fn layered_chunk(position: ChunkPosition, heights: &Vec<i64>, blocks: TerrainBlocks) -> (c: Chunk)
    requires
        heights@.len() == COLUMNS,
        layers_fit(position.y),
    ensures
        c@.len() == VOLUME,
        forall|x: int, y: int, z: int|
            in_chunk(x, y, z) ==> #[trigger] c.block(x, y, z) == layer_block(
                world_y(position.y as int, y),
                heights@[x * 16 + z] as int,
                blocks,
            ),
{
    let mut chunk = Chunk::new(AIR);
    let mut i: usize = 0;
    while i < VOLUME
        invariant
            i <= VOLUME,
            heights@.len() == COLUMNS,
            layers_fit(position.y),
            chunk@.len() == VOLUME,
            forall|j: int|
                0 <= j < i ==> #[trigger] chunk@[j] == layer_block(
                    world_y(position.y as int, cell_y(j)),
                    heights@[cell_x(j) * 16 + cell_z(j)] as int,
                    blocks,
                ),
            forall|j: int| i <= j < VOLUME ==> #[trigger] chunk@[j] == AIR,
        decreases VOLUME - i,
    {
        proof {
            lemma_cell_decode(i as int);
        }
        let x = i / 256;
        let y = (i / 16) % 16;
        let z = i % 16;
        let ny = layer_height(position.y, y);
        let height = heights[x * 16 + z] as i128;
        let block = if ny == -height {
            blocks.grass
        } else if ny == -16 {
            blocks.bedrock
        } else if ny < -height - 3 {
            blocks.stone
        } else if ny < -height {
            blocks.dirt
        } else {
            AIR
        };
        if block != AIR {
            chunk.set_block(x, y, z, block);
        }
        i = i + 1;
    }
    assert forall|x: int, y: int, z: int| in_chunk(x, y, z) implies #[trigger] chunk.block(x, y, z)
        == layer_block(world_y(position.y as int, y), heights@[x * 16 + z] as int, blocks) by {
        lemma_cell_encode(x, y, z);
        crate::game::terrain::chunk::lemma_cell_in_range(x, y, z);
    }
    chunk
}

/// The chunk at `position` of a terrain filled with `fill` up to height
/// `floors[x * 16 + z]` in column `(x, z)` and with `empty` above.
pub fn filled_chunk(position: ChunkPosition, floors: &Vec<i64>, fill: usize, empty: usize) -> (c: Chunk)
    requires
        floors@.len() == COLUMNS,
        layers_fit(position.y),
    ensures
        c@.len() == VOLUME,
        forall|x: int, y: int, z: int|
            in_chunk(x, y, z) ==> #[trigger] c.block(x, y, z) == fill_block(
                world_y(position.y as int, y),
                floors@[x * 16 + z] as int,
                fill,
                empty,
            ),
{
    let mut chunk = Chunk::new(empty);
    let mut i: usize = 0;
    while i < VOLUME
        invariant
            i <= VOLUME,
            floors@.len() == COLUMNS,
            layers_fit(position.y),
            chunk@.len() == VOLUME,
            forall|j: int|
                0 <= j < i ==> #[trigger] chunk@[j] == fill_block(
                    world_y(position.y as int, cell_y(j)),
                    floors@[cell_x(j) * 16 + cell_z(j)] as int,
                    fill,
                    empty,
                ),
            forall|j: int| i <= j < VOLUME ==> #[trigger] chunk@[j] == empty,
        decreases VOLUME - i,
    {
        proof {
            lemma_cell_decode(i as int);
        }
        let x = i / 256;
        let y = (i / 16) % 16;
        let z = i % 16;
        let ny = layer_height(position.y, y);
        let floor = floors[x * 16 + z] as i128;
        if !(ny > floor) {
            chunk.set_block(x, y, z, fill);
        }
        i = i + 1;
    }
    assert forall|x: int, y: int, z: int| in_chunk(x, y, z) implies #[trigger] chunk.block(x, y, z)
        == fill_block(world_y(position.y as int, y), floors@[x * 16 + z] as int, fill, empty) by {
        lemma_cell_encode(x, y, z);
        crate::game::terrain::chunk::lemma_cell_in_range(x, y, z);
    }
    chunk
}

/// In a chunk laid out by `layered_chunk`, a cell at world height `ny` in a
/// column whose surface lies at `-h` holds: grass when `ny == -h`; otherwise
/// bedrock at `ny == -16`; otherwise stone deeper than three below the
/// surface, dirt in the three layers just below it, and air above it, at
/// whatever depth the column reaches.
pub proof fn law_layered_terrain(
    position: ChunkPosition,
    heights: Seq<i64>,
    blocks: TerrainBlocks,
    c: Chunk,
    x: int,
    y: int,
    z: int,
)
    requires
        heights.len() == COLUMNS,
        in_chunk(x, y, z),
        forall|x: int, y: int, z: int|
            in_chunk(x, y, z) ==> #[trigger] c.block(x, y, z) == layer_block(
                world_y(position.y as int, y),
                heights[x * 16 + z] as int,
                blocks,
            ),
    ensures
        ({
            let ny = position.y * 16 + y;
            let h = heights[x * 16 + z] as int;
            let b = c.block(x, y, z);
            &&& ny == -h ==> b == blocks.grass
            &&& ny != -h && ny == -16 ==> b == blocks.bedrock
            &&& ny != -h && ny != -16 && ny < -h - 3 ==> b == blocks.stone
            &&& ny != -h && ny != -16 && -h - 3 <= ny < -h ==> b == blocks.dirt
            &&& ny != -16 && ny > -h ==> b == AIR
        }),
{
    assert(c.block(x, y, z) == layer_block(world_y(position.y as int, y), heights[x * 16 + z] as int, blocks));
}

/// In a chunk laid out by `filled_chunk`, a cell at world height `ny` in a
/// column whose terrain reaches up to `floor` holds `fill` when `ny <= floor`
/// and `empty` when `ny > floor`.
pub proof fn law_filled_terrain(
    position: ChunkPosition,
    floors: Seq<i64>,
    fill: usize,
    empty: usize,
    c: Chunk,
    x: int,
    y: int,
    z: int,
)
    requires
        floors.len() == COLUMNS,
        in_chunk(x, y, z),
        forall|x: int, y: int, z: int|
            in_chunk(x, y, z) ==> #[trigger] c.block(x, y, z) == fill_block(
                world_y(position.y as int, y),
                floors[x * 16 + z] as int,
                fill,
                empty,
            ),
    ensures
        position.y * 16 + y <= floors[x * 16 + z] ==> c.block(x, y, z) == fill,
        position.y * 16 + y > floors[x * 16 + z] ==> c.block(x, y, z) == empty,
{
    assert(c.block(x, y, z) == fill_block(world_y(position.y as int, y), floors[x * 16 + z] as int, fill, empty));
}

} // verus!
