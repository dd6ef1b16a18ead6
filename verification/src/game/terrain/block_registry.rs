//! Named block kinds whose faces are given as texture coordinates, and a
//! table from block type ids to them.
use vstd::prelude::*;
use std::collections::HashMap;
use crate::game::terrain::block::Direction;

verus! {

broadcast use vstd::std_specs::hash::group_hash_axioms;

/// Column and row of a texture in the texture atlas.
pub type TextureCoords = [u32; 2];

/// The type id of a block, as stored in chunks.
pub type BlockType = usize;

/// Namespace put in front of every block name.
pub const DEFAULT_GAME_NAME: &'static str = "voxel_game";

/// The full name of a block kind: `voxel_game:` followed by its short name.
#[derive(PartialEq, Eq, Hash, Clone, Debug)]
pub struct BlockId {
    id: String,
}

impl BlockId {
    /// The characters of the full name.
    pub closed spec fn name(&self) -> Seq<char> {
        self.id@
    }

    /// The full name of the block kind called `block_name`:
    /// `voxel_game:` followed by `block_name`.
    pub fn new(block_name: &str) -> (b: Self)
        ensures
            b.name() == DEFAULT_GAME_NAME@ + ":"@ + block_name@,
    {
        let mut id = DEFAULT_GAME_NAME.to_owned();
        id.append(":");
        id.append(block_name);
        Self { id }
    }
}

/// `coords` on all six faces.
pub open spec fn six_of(coords: TextureCoords) -> Seq<TextureCoords> {
    Seq::new(6, |_i: int| coords)
}

/// The face table after giving face `dir` the texture `coords`: the first
/// face given fills the whole table, whatever its direction; later ones
/// replace the entry of their own direction.
pub open spec fn with_face(table: Option<Seq<TextureCoords>>, dir: Direction, coords: TextureCoords) -> Option<
    Seq<TextureCoords>,
> {
    match table {
        Some(t) => Some(t.update(dir.ord(), coords)),
        None => Some(six_of(coords)),
    }
}

/// Collects a named block kind's face textures and orientation.
pub struct BlockDataBuilder {
    block_name: BlockId,
    coordinates: Option<Vec<TextureCoords>>,
    orientation: Option<Direction>,
}

impl BlockDataBuilder {
    pub closed spec fn name_spec(&self) -> BlockId {
        self.block_name
    }

    /// The face textures given so far, indexed by `Direction::ord`.
    pub closed spec fn coordinates_spec(&self) -> Option<Seq<TextureCoords>> {
        match self.coordinates {
            Some(c) => Some(c@),
            None => None,
        }
    }

    pub closed spec fn orientation_spec(&self) -> Option<Direction> {
        self.orientation
    }

    /// A face table, once present, has one entry per face.
    pub open spec fn wf(&self) -> bool {
        self.coordinates_spec() is Some ==> self.coordinates_spec().unwrap().len() == 6
    }

    /// A builder for the block kind called `name`, with no face and no
    /// orientation yet.
    pub fn new(name: &str) -> (b: Self)
        ensures
            b.wf(),
            b.name_spec().name() == DEFAULT_GAME_NAME@ + ":"@ + name@,
            b.coordinates_spec() is None,
            b.orientation_spec() is None,
    {
        Self { block_name: BlockId::new(name), coordinates: None, orientation: None }
    }

    fn add_cordinate(&mut self, dir: Direction, coord: TextureCoords)
        requires
            old(self).wf(),
        ensures
            final(self).wf(),
            final(self).coordinates_spec() == with_face(old(self).coordinates_spec(), dir, coord),
            final(self).name_spec() == old(self).name_spec(),
            final(self).orientation_spec() == old(self).orientation_spec(),
    {
        let mut buffer: Vec<TextureCoords> = Vec::new();
        let mut k: usize = 0;
        while k < 6
            invariant
                k <= 6,
                buffer@ =~= Seq::new(k as nat, |_i: int| coord),
            decreases 6 - k,
        {
            buffer.push(coord);
            k = k + 1;
        }
        match self.coordinates.take() {
            Some(coords) => {
                let mut coords = coords;
                let dir = dir.index();
                if dir <= coords.len() {
                    coords.set(dir, coord);
                }
                self.coordinates = Some(coords);
            },
            None => {
                assert(buffer@ =~= six_of(coord));
                self.coordinates = Some(buffer);
            },
        }
    }

    /// Sets the orientation.
    pub fn orientation(self, ori: Direction) -> (b: Self)
        ensures
            b.name_spec() == self.name_spec(),
            b.coordinates_spec() == self.coordinates_spec(),
            b.orientation_spec() == Some(ori),
    {
        let mut this = self;
        this.orientation = Some(ori);
        this
    }

    /// Gives the top face the texture `coords`.
    pub fn top_face(self, coords: TextureCoords) -> (b: Self)
        requires
            self.wf(),
        ensures
            b.wf(),
            b.name_spec() == self.name_spec(),
            b.coordinates_spec() == with_face(self.coordinates_spec(), Direction::Top, coords),
            b.orientation_spec() == self.orientation_spec(),
    {
        let mut this = self;
        this.add_cordinate(Direction::Top, coords);
        this
    }

    /// Gives the bottom face the texture `coords`.
    pub fn bottom_face(self, coords: TextureCoords) -> (b: Self)
        requires
            self.wf(),
        ensures
            b.wf(),
            b.name_spec() == self.name_spec(),
            b.coordinates_spec() == with_face(self.coordinates_spec(), Direction::Bottom, coords),
            b.orientation_spec() == self.orientation_spec(),
    {
        let mut this = self;
        this.add_cordinate(Direction::Bottom, coords);
        this
    }

    /// Gives the east face the texture `coords`.
    pub fn east_face(self, coords: TextureCoords) -> (b: Self)
        requires
            self.wf(),
        ensures
            b.wf(),
            b.name_spec() == self.name_spec(),
            b.coordinates_spec() == with_face(self.coordinates_spec(), Direction::East, coords),
            b.orientation_spec() == self.orientation_spec(),
    {
        let mut this = self;
        this.add_cordinate(Direction::East, coords);
        this
    }

    /// Gives the west face the texture `coords`.
    pub fn west_face(self, coords: TextureCoords) -> (b: Self)
        requires
            self.wf(),
        ensures
            b.wf(),
            b.name_spec() == self.name_spec(),
            b.coordinates_spec() == with_face(self.coordinates_spec(), Direction::West, coords),
            b.orientation_spec() == self.orientation_spec(),
    {
        let mut this = self;
        this.add_cordinate(Direction::West, coords);
        this
    }

    /// Gives the north face the texture `coords`.
    pub fn north_face(self, coords: TextureCoords) -> (b: Self)
        requires
            self.wf(),
        ensures
            b.wf(),
            b.name_spec() == self.name_spec(),
            b.coordinates_spec() == with_face(self.coordinates_spec(), Direction::North, coords),
            b.orientation_spec() == self.orientation_spec(),
    {
        let mut this = self;
        this.add_cordinate(Direction::North, coords);
        this
    }

    /// Gives the south face the texture `coords`.
    pub fn south_face(self, coords: TextureCoords) -> (b: Self)
        requires
            self.wf(),
        ensures
            b.wf(),
            b.name_spec() == self.name_spec(),
            b.coordinates_spec() == with_face(self.coordinates_spec(), Direction::South, coords),
            b.orientation_spec() == self.orientation_spec(),
    {
        let mut this = self;
        this.add_cordinate(Direction::South, coords);
        this
    }

    /// The block data; needs at least one face texture and an orientation.
    pub fn build(self) -> (d: BlockData)
        requires
            self.coordinates_spec() is Some,
            self.orientation_spec() is Some,
        ensures
            d.name_spec() == self.name_spec(),
            d.tex_coords() == self.coordinates_spec().unwrap(),
            d.orientation_spec() == self.orientation_spec().unwrap(),
    {
        let coordinates = match self.coordinates {
            Some(c) => c,
            None => Vec::new(),
        };
        let orientation = match self.orientation {
            Some(o) => o,
            None => Direction::East,
        };
        BlockData::new(self.block_name, coordinates, orientation)
    }
}

/// A named block kind with one texture per face and an orientation.
pub struct BlockData {
    block_name: BlockId,
    tex_coord: Vec<TextureCoords>,
    ori: Direction,
}

impl BlockData {
    pub closed spec fn name_spec(&self) -> BlockId {
        self.block_name
    }

    /// Face textures, indexed by `Direction::ord`.
    pub closed spec fn tex_coords(&self) -> Seq<TextureCoords> {
        self.tex_coord@
    }

    pub closed spec fn orientation_spec(&self) -> Direction {
        self.ori
    }

    pub fn new(block_name: BlockId, tex_coord: Vec<TextureCoords>, ori: Direction) -> (d: Self)
        ensures
            d.name_spec() == block_name,
            d.tex_coords() == tex_coord@,
            d.orientation_spec() == ori,
    {
        Self { tex_coord, block_name, ori }
    }

    /// The texture of face `ori`: the table entry for `ori` where the table
    /// has one, else its first entry. The table must not have exactly
    /// `ori.ord()` entries, and must not be empty.
    pub fn get_coords(&self, ori: Direction) -> (c: &TextureCoords)
        requires
            ori.ord() != self.tex_coords().len(),
            self.tex_coords().len() > 0,
        ensures
            *c == if ori.ord() < self.tex_coords().len() {
                self.tex_coords()[ori.ord()]
            } else {
                self.tex_coords()[0]
            },
    {
        let dir = ori.index();
        if dir <= self.tex_coord.len() {
            &self.tex_coord[dir]
        } else {
            &self.tex_coord[0]
        }
    }
}

/// Block data by block type id.
pub struct BlockRegistry {
    blocks: HashMap<BlockType, BlockData>,
}

impl BlockRegistry {
    pub closed spec fn blocks_spec(&self) -> Map<BlockType, BlockData> {
        self.blocks@
    }

    pub fn new() -> (r: Self)
        ensures
            r.blocks_spec() == Map::<BlockType, BlockData>::empty(),
    {
        Self { blocks: HashMap::new() }
    }

    /// Records `data` for block type `name`, replacing what it had.
    pub fn add_block(&mut self, name: BlockType, data: BlockData)
        ensures
            final(self).blocks_spec() == old(self).blocks_spec().insert(name, data),
    {
        self.blocks.insert(name, data);
    }

    /// The data recorded for block type `name`.
    pub fn get_block(&self, name: BlockType) -> (r: Option<&BlockData>)
        ensures
            r == if self.blocks_spec().contains_key(name) {
                Some(&self.blocks_spec()[name])
            } else {
                None::<&BlockData>
            },
    {
        self.blocks.get(&name)
    }
}

} // verus!
