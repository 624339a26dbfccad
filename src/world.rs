//! Chunks of block ids and the sparse map from chunk coordinates to chunks.

use vstd::prelude::*;

verus! {

/// The properties of one block type.
pub struct Block {
    pub air: bool,
}

/// Edge length of a chunk, in cells.
pub const CHUNK_SIZE: usize = 32;

/// Number of cells in a chunk.
pub const CHUNK_VOLUME: usize = CHUNK_SIZE * CHUNK_SIZE * CHUNK_SIZE;

/// Whether a local coordinate lies inside a chunk.
pub open spec fn in_chunk(c: int) -> bool {
    0 <= c < CHUNK_SIZE as int
}

/// Position of local cell `(x, y, z)` in a chunk's linear buffer: `x` is the
/// slowest axis, `z` the fastest.
pub open spec fn cell_index(x: int, y: int, z: int) -> int {
    x * 1024 + y * 32 + z
}

/// Position of a chunk in the chunk grid (not in block space).
#[derive(Clone, Copy, Debug, PartialEq, Eq, Hash, Structural)]
pub struct ChunkPos {
    pub x: isize,
    pub y: isize,
    pub z: isize,
}

/// A cubic grid of `CHUNK_SIZE`³ block ids, stored flat.
pub struct Chunk {
    blocks: Vec<usize>,
}

impl View for Chunk {
    type V = Seq<usize>;

    closed spec fn view(&self) -> Seq<usize> {
        self.blocks@
    }
}

/// Every local cell has a place in the linear buffer.
pub proof fn lemma_cell_index_bounds(x: int, y: int, z: int)
    requires
        in_chunk(x),
        in_chunk(y),
        in_chunk(z),
    ensures
        0 <= cell_index(x, y, z) < CHUNK_VOLUME as int,
{
}

/// Executable form of `cell_index`.
fn linear_index(x: usize, y: usize, z: usize) -> (r: usize)
    requires
        in_chunk(x as int),
        in_chunk(y as int),
        in_chunk(z as int),
    ensures
        r as int == cell_index(x as int, y as int, z as int),
        r < CHUNK_VOLUME,
{
    x * 1024 + y * 32 + z
}

impl Chunk {
    /// A chunk holds exactly one id per cell.
    pub open spec fn wf(&self) -> bool {
        self@.len() == CHUNK_VOLUME as int
    }

    /// The block id at local cell `(x, y, z)`.
    pub open spec fn block(&self, x: int, y: int, z: int) -> usize {
        self@[cell_index(x, y, z)]
    }

    /// A chunk whose every cell holds `block_id`.
    pub fn filled(block_id: usize) -> (r: Chunk)
        ensures
            r.wf(),
            r@ == Seq::new(CHUNK_VOLUME as nat, |i: int| block_id),
    {
        let mut blocks: Vec<usize> = Vec::with_capacity(CHUNK_VOLUME);
        for i in 0..CHUNK_VOLUME
            invariant
                blocks@ == Seq::new(i as nat, |k: int| block_id),
        {
            blocks.push(block_id);
        }
        Chunk { blocks }
    }

    /// The block id at local cell `(x, y, z)`.
    pub fn get_block(&self, x: usize, y: usize, z: usize) -> (r: usize)
        requires
            self.wf(),
            in_chunk(x as int),
            in_chunk(y as int),
            in_chunk(z as int),
        ensures
            r == self.block(x as int, y as int, z as int),
    {
        self.blocks[linear_index(x, y, z)]
    }

    /// Writes `block_id` into local cell `(x, y, z)`, leaving every other cell.
    pub fn set_block(&mut self, x: usize, y: usize, z: usize, block_id: usize)
        requires
            old(self).wf(),
            in_chunk(x as int),
            in_chunk(y as int),
            in_chunk(z as int),
        ensures
            final(self)@ == old(self)@.update(cell_index(x as int, y as int, z as int), block_id),
            final(self).wf(),
    {
        let i = linear_index(x, y, z);
        self.blocks.set(i, block_id);
    }
}

/// Sparse map from chunk coordinates to chunks, at most one chunk per
/// coordinate.
pub struct ChunkMap {
    positions: Vec<ChunkPos>,
    chunks: Vec<Chunk>,
    contents: Ghost<Map<ChunkPos, Chunk>>,
}

impl View for ChunkMap {
    type V = Map<ChunkPos, Chunk>;

    closed spec fn view(&self) -> Map<ChunkPos, Chunk> {
        self.contents@
    }
}

/// After a chunk is inserted at a position, that position holds exactly
/// that chunk, and a position that held nothing before and is not the
/// inserted one still holds nothing.
pub proof fn lemma_insert_then_get(
    map: Map<ChunkPos, Chunk>,
    pos: ChunkPos,
    chunk: Chunk,
    other: ChunkPos,
)
    ensures
        map.insert(pos, chunk).contains_key(pos),
        map.insert(pos, chunk)[pos] == chunk,
        other != pos && !map.contains_key(other) ==> !map.insert(pos, chunk).contains_key(other),
{
}

impl ChunkMap {
    /// The coordinate list has no repeats, pairs up with the chunk list, and
    /// the two lists hold exactly the entries of the map; every chunk held is
    /// well formed.
    pub closed spec fn wf(&self) -> bool {
        &&& self.positions@.len() == self.chunks@.len()
        &&& forall|i: int, j: int|
            0 <= i < j < self.positions@.len() ==> self.positions@[i] != self.positions@[j]
        &&& forall|i: int|
            0 <= i < self.positions@.len() ==> {
                &&& #[trigger] self.contents@.contains_key(self.positions@[i])
                &&& self.contents@[self.positions@[i]] == self.chunks@[i]
            }
        &&& forall|p: ChunkPos|
            #[trigger] self.contents@.contains_key(p) ==> exists|i: int|
                0 <= i < self.positions@.len() && self.positions@[i] == p
        &&& forall|p: ChunkPos| #[trigger] self.contents@.contains_key(p) ==> self.contents@[p].wf()
    }

    /// An empty map.
    pub fn new() -> (r: ChunkMap)
        ensures
            r.wf(),
            r@ == Map::<ChunkPos, Chunk>::empty(),
    {
        ChunkMap { positions: Vec::new(), chunks: Vec::new(), contents: Ghost(Map::empty()) }
    }

    /// Index of `pos` in the coordinate list, if it is there.
    fn find(&self, pos: &ChunkPos) -> (r: Option<usize>)
        requires
            self.wf(),
        ensures
            match r {
                Some(i) => i < self.positions@.len() && self.positions@[i as int] == *pos,
                None => !self@.contains_key(*pos),
            },
    {
        let mut i: usize = 0;
        while i < self.positions.len()
            invariant
                i <= self.positions@.len(),
                forall|k: int| 0 <= k < i ==> self.positions@[k] != *pos,
            decreases self.positions@.len() - i,
        {
            if self.positions[i] == *pos {
                return Some(i);
            }
            i = i + 1;
        }
        None
    }

    /// The chunk stored at `pos`, or `None` when none has been inserted there.
    pub fn get(&self, pos: &ChunkPos) -> (r: Option<&Chunk>)
        requires
            self.wf(),
        ensures
            r is Some <==> self@.contains_key(*pos),
            r matches Some(c) ==> *c == self@[*pos] && c.wf(),
    {
        match self.find(pos) {
            Some(i) => {
                assert(self.contents@.contains_key(self.positions@[i as int]));
                Some(&self.chunks[i])
            },
            None => None,
        }
    }

    /// Stores `chunk` at `pos`, replacing any chunk that was there.
    pub fn insert(&mut self, pos: ChunkPos, chunk: Chunk)
        requires
            old(self).wf(),
            chunk.wf(),
        ensures
            final(self).wf(),
            final(self)@ == old(self)@.insert(pos, chunk),
    {
        let ghost new_contents = self.contents@.insert(pos, chunk);
        match self.find(&pos) {
            Some(i) => {
                self.chunks.set(i, chunk);
                self.contents = Ghost(new_contents);
                assert forall|p: ChunkPos| #[trigger] self.contents@.contains_key(p) implies exists|k: int|
                    0 <= k < self.positions@.len() && self.positions@[k] == p by {
                    if p == pos {
                        assert(self.positions@[i as int] == p);
                    } else {
                        assert(old(self).contents@.contains_key(p));
                    }
                }
            },
            None => {
                self.positions.push(pos);
                self.chunks.push(chunk);
                self.contents = Ghost(new_contents);
                let ghost n = self.positions@.len() - 1;
                assert forall|p: ChunkPos| #[trigger] self.contents@.contains_key(p) implies exists|k: int|
                    0 <= k < self.positions@.len() && self.positions@[k] == p by {
                    if p == pos {
                        assert(self.positions@[n] == p);
                    } else {
                        assert(old(self).contents@.contains_key(p));
                        let k = choose|k: int| 0 <= k < old(self).positions@.len() && old(self).positions@[k] == p;
                        assert(self.positions@[k] == p);
                    }
                }
                assert forall|a: int, b: int| 0 <= a < b < self.positions@.len() implies
                    self.positions@[a] != self.positions@[b] by {
                    if b == n {
                        assert(old(self).contents@.contains_key(old(self).positions@[a]));
                    }
                }
            },
        }
    }
}

} // verus!
