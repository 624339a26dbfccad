//! Deterministic terrain: a flat slab of dirt below sea level, air above.

use vstd::prelude::*;
use crate::registry::{id_by_name, Registry};
use crate::world::{cell_index, in_chunk, Block, Chunk, ChunkPos, CHUNK_SIZE, CHUNK_VOLUME};

verus! {

/// World height below which terrain is solid.
pub const SEA_LEVEL: isize = 0;

/// The local `y` of the cell at position `n` of a chunk's linear buffer.
pub open spec fn layer_of(n: int) -> int {
    (n / 32) % 32
}

proof fn lemma_layer_of_cell(x: int, y: int, z: int)
    requires
        in_chunk(x),
        in_chunk(y),
        in_chunk(z),
    ensures
        layer_of(cell_index(x, y, z)) == y,
{
    assert((x * 1024 + y * 32 + z) / 32 == x * 32 + y);
    assert((x * 32 + y) % 32 == y);
}

/// Generates chunks from the ids of the two block types it places.
pub struct ChunkGenerator {
    air_block: usize,
    dirt_block: usize,
}

impl ChunkGenerator {
    /// With sea level at 0, every layer of the chunk just below it (world
    /// heights -32 to -1) is dirt, and every layer of the chunk at it (world
    /// heights 0 to 31) is air.
    pub proof fn lemma_layers_around_sea_level(&self)
        ensures
            forall|y: int| in_chunk(y) ==> #[trigger] self.generated_block(-1, y) == self.dirt_block(),
            forall|y: int| in_chunk(y) ==> #[trigger] self.generated_block(0, y) == self.air_block(),
    {
    }

    /// Id placed at and above sea level.
    pub closed spec fn air_block(&self) -> usize {
        self.air_block
    }

    /// Id placed below sea level.
    pub closed spec fn dirt_block(&self) -> usize {
        self.dirt_block
    }

    /// The block generated at local height `y` of a chunk whose grid
    /// coordinate on the vertical axis is `chunk_y`.
    pub open spec fn generated_block(&self, chunk_y: int, y: int) -> usize {
        if y + chunk_y * (CHUNK_SIZE as int) < (SEA_LEVEL as int) {
            self.dirt_block()
        } else {
            self.air_block()
        }
    }

    /// A generator that places the blocks registered as `default:air` and
    /// `default:dirt`, both of which must already be registered.
    pub fn new(block_registry: &Registry<Block>) -> (r: Self)
        requires
            block_registry.wf(),
            block_registry.names().contains("default:air"@),
            block_registry.names().contains("default:dirt"@),
        ensures
            id_by_name(block_registry.names(), "default:air"@) == Some(r.air_block() as int),
            id_by_name(block_registry.names(), "default:dirt"@) == Some(r.dirt_block() as int),
            r.air_block() < block_registry.items().len(),
            r.dirt_block() < block_registry.items().len(),
    {
        let air_block = block_registry.get_item_id("default:air").unwrap();
        let dirt_block = block_registry.get_item_id("default:dirt").unwrap();
        ChunkGenerator { air_block, dirt_block }
    }

    /// The chunk at `pos`: each horizontal layer is dirt where its world
    /// height is below sea level, and air elsewhere. Only `pos.y` matters.
    pub fn generate_chunk(&mut self, pos: &ChunkPos) -> (r: Chunk)
        ensures
            *final(self) == *old(self),
            r.wf(),
            forall|x: int, y: int, z: int|
                in_chunk(x) && in_chunk(y) && in_chunk(z) ==> #[trigger] r.block(x, y, z)
                    == old(self).generated_block(pos.y as int, y),
    {
        let mut chunk = Chunk::filled(self.air_block);
        let ghost gen = *self;
        for i in 0..CHUNK_SIZE
            invariant
                chunk.wf(),
                gen == *self,
                forall|n: int| 0 <= n < i * 1024 ==> #[trigger] chunk@[n]
                    == gen.generated_block(pos.y as int, layer_of(n)),
                forall|n: int| i * 1024 <= n < CHUNK_VOLUME ==> #[trigger] chunk@[n] == gen.air_block(),
        {
            for j in 0..CHUNK_SIZE
                invariant
                    chunk.wf(),
                    gen == *self,
                    0 <= i < 32,
                    forall|n: int| 0 <= n < i * 1024 + j * 32 ==> #[trigger] chunk@[n]
                        == gen.generated_block(pos.y as int, layer_of(n)),
                    forall|n: int| i * 1024 + j * 32 <= n < CHUNK_VOLUME ==> #[trigger] chunk@[n]
                        == gen.air_block(),
            {
                let height: i128 = j as i128 + pos.y as i128 * CHUNK_SIZE as i128;
                let generated_block = if height < SEA_LEVEL as i128 {
                    self.dirt_block
                } else {
                    self.air_block
                };
                for k in 0..CHUNK_SIZE
                    invariant
                        chunk.wf(),
                        gen == *self,
                        0 <= i < 32,
                        0 <= j < 32,
                        generated_block == gen.generated_block(pos.y as int, j as int),
                        forall|n: int| 0 <= n < i * 1024 + j * 32 + k ==> #[trigger] chunk@[n]
                            == gen.generated_block(pos.y as int, layer_of(n)),
                        forall|n: int| i * 1024 + j * 32 + k <= n < CHUNK_VOLUME ==> #[trigger] chunk@[n]
                            == gen.air_block(),
                {
                    proof {
                        lemma_layer_of_cell(i as int, j as int, k as int);
                    }
                    chunk.set_block(i, j, k, generated_block);
                }
            }
        }
        assert forall|x: int, y: int, z: int|
            in_chunk(x) && in_chunk(y) && in_chunk(z) implies #[trigger] chunk.block(x, y, z)
                == gen.generated_block(pos.y as int, y) by {
            lemma_layer_of_cell(x, y, z);
        }
        chunk
    }
}

} // verus!
