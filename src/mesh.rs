//! Meshing of a chunk: one quad for every cell face that separates a solid
//! cell from an air cell, looking into the six neighbour chunks at the border.

use vstd::prelude::*;
use crate::cube::{
    cube_vertices, face_direction, face_normal, face_vertices, generate_face, vec3, Vec3, Vertex,
};
use crate::registry::Registry;
use crate::world::{
    cell_index, in_chunk, lemma_cell_index_bounds, Block, Chunk, ChunkMap, ChunkPos, CHUNK_SIZE,
    CHUNK_VOLUME,
};

verus! {

/// Whether block `id` is air in `registry`.
pub open spec fn is_air(registry: &Registry<Block>, id: usize) -> bool {
    registry.items()[id as int].air
}

/// Every id stored in `chunk` is registered in `registry`.
pub open spec fn ids_registered(chunk: &Chunk, registry: &Registry<Block>) -> bool {
    forall|i: int| 0 <= i < CHUNK_VOLUME ==> #[trigger] chunk@[i] < registry.items().len()
}

/// The inputs a mesher works on: a well-formed registry, a chunk and its six
/// neighbours in adjacency order, all well formed and holding registered ids.
pub open spec fn mesh_inputs_valid(
    chunk: &Chunk,
    adjacent: Seq<&Chunk>,
    registry: &Registry<Block>,
) -> bool {
    &&& registry.wf()
    &&& chunk.wf()
    &&& ids_registered(chunk, registry)
    &&& adjacent.len() == 6
    &&& forall|d: int| 0 <= d < 6 ==> (#[trigger] adjacent[d]).wf()
    &&& forall|d: int| 0 <= d < 6 ==> ids_registered(#[trigger] adjacent[d], registry)
}

/// A local coordinate that left the chunk by one step, brought back into it.
pub open spec fn wrap(c: int) -> int {
    if c < 0 {
        c + CHUNK_SIZE
    } else if c >= CHUNK_SIZE {
        c - CHUNK_SIZE
    } else {
        c
    }
}

/// The block across face `d` of cell `(x, y, z)`: in `chunk` when that cell
/// lies inside it, otherwise in the neighbour chunk across face `d`.
pub open spec fn neighbor_block(chunk: &Chunk, adjacent: Seq<&Chunk>, x: int, y: int, z: int, d: int) -> usize {
    let n = face_normal(d);
    let (nx, ny, nz) = (x + n.x, y + n.y, z + n.z);
    if in_chunk(nx) && in_chunk(ny) && in_chunk(nz) {
        chunk.block(nx, ny, nz)
    } else {
        adjacent[d].block(wrap(nx), wrap(ny), wrap(nz))
    }
}

/// Face `d` of cell `(x, y, z)` is drawn: the cell is solid and the cell
/// across that face is air.
pub open spec fn face_visible(
    chunk: &Chunk,
    adjacent: Seq<&Chunk>,
    registry: &Registry<Block>,
    x: int,
    y: int,
    z: int,
    d: int,
) -> bool {
    !is_air(registry, chunk.block(x, y, z)) && is_air(
        registry,
        neighbor_block(chunk, adjacent, x, y, z, d),
    )
}

/// The vertices of the visible faces among the first `k` faces of cell
/// `(x, y, z)`, in adjacency order.
pub open spec fn cell_faces(
    chunk: &Chunk,
    adjacent: Seq<&Chunk>,
    registry: &Registry<Block>,
    x: int,
    y: int,
    z: int,
    k: int,
) -> Seq<Vertex>
    decreases k,
{
    if k <= 0 {
        Seq::empty()
    } else {
        cell_faces(chunk, adjacent, registry, x, y, z, k - 1) + if face_visible(
            chunk,
            adjacent,
            registry,
            x,
            y,
            z,
            k - 1,
        ) {
            face_vertices(vec3(x, y, z), k - 1)
        } else {
            Seq::empty()
        }
    }
}

/// The local coordinates of the cell at position `m` of the linear order.
pub open spec fn cell_at(m: int) -> (int, int, int) {
    (m / 1024, (m / 32) % 32, m % 32)
}

/// The mesh of the first `m` cells, in the order `x` outer, `y` middle,
/// `z` inner.
pub open spec fn mesh_prefix(
    chunk: &Chunk,
    adjacent: Seq<&Chunk>,
    registry: &Registry<Block>,
    m: int,
) -> Seq<Vertex>
    decreases m,
{
    if m <= 0 {
        Seq::empty()
    } else {
        let (x, y, z) = cell_at(m - 1);
        mesh_prefix(chunk, adjacent, registry, m - 1) + cell_faces(
            chunk,
            adjacent,
            registry,
            x,
            y,
            z,
            6,
        )
    }
}

/// The mesh of a whole chunk.
pub open spec fn chunk_mesh(chunk: &Chunk, adjacent: Seq<&Chunk>, registry: &Registry<Block>) -> Seq<
    Vertex,
> {
    mesh_prefix(chunk, adjacent, registry, CHUNK_VOLUME as int)
}

proof fn lemma_cell_at_index(m: int)
    requires
        0 <= m < CHUNK_VOLUME,
    ensures
        cell_index(cell_at(m).0, cell_at(m).1, cell_at(m).2) == m,
{
}

proof fn lemma_cell_at(x: int, y: int, z: int)
    requires
        in_chunk(x),
        in_chunk(y),
        in_chunk(z),
    ensures
        cell_at(cell_index(x, y, z)) == (x, y, z),
{
    assert((x * 1024 + y * 32 + z) / 1024 == x);
    assert((x * 1024 + y * 32 + z) / 32 == x * 32 + y);
    assert((x * 32 + y) % 32 == y);
    assert((x * 1024 + y * 32 + z) % 32 == z);
}

proof fn lemma_cell_faces_empty(
    chunk: &Chunk,
    adjacent: Seq<&Chunk>,
    registry: &Registry<Block>,
    x: int,
    y: int,
    z: int,
    k: int,
)
    requires
        forall|d: int| 0 <= d < k ==> !#[trigger] face_visible(chunk, adjacent, registry, x, y, z, d),
    ensures
        cell_faces(chunk, adjacent, registry, x, y, z, k) == Seq::<Vertex>::empty(),
    decreases k,
{
    if k > 0 {
        lemma_cell_faces_empty(chunk, adjacent, registry, x, y, z, k - 1);
        assert(cell_faces(chunk, adjacent, registry, x, y, z, k) =~= Seq::<Vertex>::empty());
    }
}

/// No face of any cell of the chunk is visible.
pub open spec fn no_face_visible(chunk: &Chunk, adjacent: Seq<&Chunk>, registry: &Registry<Block>) -> bool {
    forall|x: int, y: int, z: int, d: int|
        in_chunk(x) && in_chunk(y) && in_chunk(z) && 0 <= d < 6 ==> !#[trigger] face_visible(
            chunk,
            adjacent,
            registry,
            x,
            y,
            z,
            d,
        )
}

/// No face of the cell at position `m` of the linear order is visible.
pub open spec fn cell_hidden(chunk: &Chunk, adjacent: Seq<&Chunk>, registry: &Registry<Block>, m: int) -> bool {
    let (x, y, z) = cell_at(m);
    forall|d: int| 0 <= d < 6 ==> !#[trigger] face_visible(chunk, adjacent, registry, x, y, z, d)
}

/// Hidden cells add nothing to the mesh.
proof fn lemma_mesh_prefix_hidden_cells(
    chunk: &Chunk,
    adjacent: Seq<&Chunk>,
    registry: &Registry<Block>,
    s: int,
    m: int,
)
    requires
        0 <= s <= m,
        forall|k: int| s <= k < m ==> #[trigger] cell_hidden(chunk, adjacent, registry, k),
    ensures
        mesh_prefix(chunk, adjacent, registry, m) == mesh_prefix(chunk, adjacent, registry, s),
    decreases m,
{
    if m > s {
        lemma_mesh_prefix_hidden_cells(chunk, adjacent, registry, s, m - 1);
        assert(cell_hidden(chunk, adjacent, registry, m - 1));
        let (x, y, z) = cell_at(m - 1);
        lemma_cell_faces_empty(chunk, adjacent, registry, x, y, z, 6);
        assert(mesh_prefix(chunk, adjacent, registry, m) =~= mesh_prefix(chunk, adjacent, registry, m - 1));
    }
}

/// A chunk none of whose faces is visible meshes to nothing.
pub proof fn lemma_no_visible_face_mesh_empty(
    chunk: &Chunk,
    adjacent: Seq<&Chunk>,
    registry: &Registry<Block>,
)
    requires
        no_face_visible(chunk, adjacent, registry),
    ensures
        chunk_mesh(chunk, adjacent, registry) == Seq::<Vertex>::empty(),
{
    assert forall|k: int| 0 <= k < CHUNK_VOLUME implies #[trigger] cell_hidden(chunk, adjacent, registry, k) by {
        let (x, y, z) = cell_at(k);
        assert(in_chunk(x) && in_chunk(y) && in_chunk(z));
    }
    lemma_mesh_prefix_hidden_cells(chunk, adjacent, registry, 0, CHUNK_VOLUME as int);
}

proof fn lemma_cell_faces_all_visible(
    chunk: &Chunk,
    adjacent: Seq<&Chunk>,
    registry: &Registry<Block>,
    x: int,
    y: int,
    z: int,
    k: int,
)
    requires
        0 <= k <= 6,
        forall|d: int| 0 <= d < k ==> #[trigger] face_visible(chunk, adjacent, registry, x, y, z, d),
    ensures
        cell_faces(chunk, adjacent, registry, x, y, z, k) == cube_vertices(vec3(x, y, z)).take(6 * k),
    decreases k,
{
    let o = vec3(x, y, z);
    if k > 0 {
        lemma_cell_faces_all_visible(chunk, adjacent, registry, x, y, z, k - 1);
        assert(cube_vertices(o).take(6 * k) =~= cube_vertices(o).take(6 * (k - 1)) + face_vertices(o, k - 1));
    } else {
        assert(cube_vertices(o).take(0) =~= Seq::<Vertex>::empty());
    }
}

/// A chunk whose only solid cell is the corner cell `(0, 0, 0)`, among six
/// neighbours made only of air, meshes to the whole unit cube at the origin:
/// 36 vertices, one face after another in adjacency order, each face's normal
/// pointing at the air cell across it.
pub proof fn lemma_single_corner_cell_mesh(
    chunk: &Chunk,
    adjacent: Seq<&Chunk>,
    registry: &Registry<Block>,
)
    requires
        mesh_inputs_valid(chunk, adjacent, registry),
        !is_air(registry, chunk.block(0, 0, 0)),
        forall|i: int| 0 < i < CHUNK_VOLUME ==> is_air(registry, #[trigger] chunk@[i]),
        forall|d: int, i: int|
            0 <= d < 6 && 0 <= i < CHUNK_VOLUME ==> is_air(registry, #[trigger] adjacent[d]@[i]),
    ensures
        chunk_mesh(chunk, adjacent, registry) == cube_vertices(vec3(0, 0, 0)),
{
    assert forall|d: int| 0 <= d < 6 implies #[trigger] face_visible(chunk, adjacent, registry, 0, 0, 0, d) by {
        let n = face_normal(d);
        let (nx, ny, nz) = (n.x as int, n.y as int, n.z as int);
        if in_chunk(nx) && in_chunk(ny) && in_chunk(nz) {
            lemma_cell_index_bounds(nx, ny, nz);
        } else {
            lemma_cell_index_bounds(wrap(nx), wrap(ny), wrap(nz));
            assert(is_air(registry, adjacent[d]@[cell_index(wrap(nx), wrap(ny), wrap(nz))]));
        }
    }
    lemma_cell_faces_all_visible(chunk, adjacent, registry, 0, 0, 0, 6);
    assert(cube_vertices(vec3(0, 0, 0)).take(36) =~= cube_vertices(vec3(0, 0, 0)));
    assert(mesh_prefix(chunk, adjacent, registry, 0) =~= Seq::<Vertex>::empty());
    assert(mesh_prefix(chunk, adjacent, registry, 1) =~= cube_vertices(vec3(0, 0, 0)));
    assert forall|k: int| 1 <= k < CHUNK_VOLUME implies #[trigger] cell_hidden(chunk, adjacent, registry, k) by {
        let (x, y, z) = cell_at(k);
        assert(in_chunk(x) && in_chunk(y) && in_chunk(z));
        lemma_cell_index_bounds(x, y, z);
        lemma_cell_at_index(k);
    }
    lemma_mesh_prefix_hidden_cells(chunk, adjacent, registry, 1, CHUNK_VOLUME as int);
}

/// A chunk made only of air meshes to nothing, whatever its neighbours hold
/// (in particular when they are air too).
pub proof fn lemma_air_chunk_mesh_empty(
    chunk: &Chunk,
    adjacent: Seq<&Chunk>,
    registry: &Registry<Block>,
)
    requires
        mesh_inputs_valid(chunk, adjacent, registry),
        forall|i: int| 0 <= i < CHUNK_VOLUME ==> is_air(registry, #[trigger] chunk@[i]),
    ensures
        chunk_mesh(chunk, adjacent, registry) == Seq::<Vertex>::empty(),
{
    assert forall|x: int, y: int, z: int, d: int|
        in_chunk(x) && in_chunk(y) && in_chunk(z) && 0 <= d < 6 implies !#[trigger] face_visible(
            chunk,
            adjacent,
            registry,
            x,
            y,
            z,
            d,
        ) by {
        lemma_cell_index_bounds(x, y, z);
    }
    lemma_no_visible_face_mesh_empty(chunk, adjacent, registry);
}

/// A chunk made only of solid blocks, whose six neighbours are made only of
/// solid blocks, meshes to nothing: it is fully enclosed.
pub proof fn lemma_enclosed_solid_chunk_mesh_empty(
    chunk: &Chunk,
    adjacent: Seq<&Chunk>,
    registry: &Registry<Block>,
)
    requires
        mesh_inputs_valid(chunk, adjacent, registry),
        forall|i: int| 0 <= i < CHUNK_VOLUME ==> !is_air(registry, #[trigger] chunk@[i]),
        forall|d: int, i: int|
            0 <= d < 6 && 0 <= i < CHUNK_VOLUME ==> !is_air(registry, #[trigger] adjacent[d]@[i]),
    ensures
        chunk_mesh(chunk, adjacent, registry) == Seq::<Vertex>::empty(),
{
    assert forall|x: int, y: int, z: int, d: int|
        in_chunk(x) && in_chunk(y) && in_chunk(z) && 0 <= d < 6 implies !#[trigger] face_visible(
            chunk,
            adjacent,
            registry,
            x,
            y,
            z,
            d,
        ) by {
        let n = face_normal(d);
        let (nx, ny, nz) = (x + n.x, y + n.y, z + n.z);
        if in_chunk(nx) && in_chunk(ny) && in_chunk(nz) {
            lemma_cell_index_bounds(nx, ny, nz);
        } else {
            lemma_cell_index_bounds(wrap(nx), wrap(ny), wrap(nz));
            assert(!is_air(registry, adjacent[d]@[cell_index(wrap(nx), wrap(ny), wrap(nz))]));
        }
    }
    lemma_no_visible_face_mesh_empty(chunk, adjacent, registry);
}

/// The id of the block across face `side` of local cell `(x, y, z)`.
fn neighbor_block_id(
    chunk: &Chunk,
    adjacent_chunks: &[&Chunk; 6],
    x: usize,
    y: usize,
    z: usize,
    side: usize,
) -> (r: usize)
    requires
        chunk.wf(),
        forall|d: int| 0 <= d < 6 ==> (#[trigger] adjacent_chunks@[d]).wf(),
        in_chunk(x as int),
        in_chunk(y as int),
        in_chunk(z as int),
        side < 6,
    ensures
        r == neighbor_block(chunk, adjacent_chunks@, x as int, y as int, z as int, side as int),
{
    let size = CHUNK_SIZE as i64;
    let dir = face_direction(side);
    let mut source: &Chunk = chunk;
    let mut nx: i64 = x as i64 + dir.x;
    let mut ny: i64 = y as i64 + dir.y;
    let mut nz: i64 = z as i64 + dir.z;
    if nx == size {
        nx = nx - size;
        source = adjacent_chunks[0];
    }
    if nx == -1 {
        nx = nx + size;
        source = adjacent_chunks[1];
    }
    if ny == size {
        ny = ny - size;
        source = adjacent_chunks[2];
    }
    if ny == -1 {
        ny = ny + size;
        source = adjacent_chunks[3];
    }
    if nz == size {
        nz = nz - size;
        source = adjacent_chunks[4];
    }
    if nz == -1 {
        nz = nz + size;
        source = adjacent_chunks[5];
    }
    source.get_block(nx as usize, ny as usize, nz as usize)
}

/// The triangle list of `chunk`: for every cell, `x` outer, `y` middle and
/// `z` inner, and for every face of it in adjacency order, the six vertices
/// of that face at the cell's local position when the cell is solid and the
/// cell across the face is air. `adjacent_chunks` holds the neighbour chunks
/// across the faces `+x, -x, +y, -y, +z, -z`, in that order.
pub fn generate_chunk(
    chunk: &Chunk,
    adjacent_chunks: &[&Chunk; 6],
    block_registry: &Registry<Block>,
) -> (r: Vec<Vertex>)
    requires
        mesh_inputs_valid(chunk, adjacent_chunks@, block_registry),
    ensures
        r@ == chunk_mesh(chunk, adjacent_chunks@, block_registry),
{
    let ghost adjacent = adjacent_chunks@;
    let mut output: Vec<Vertex> = Vec::new();
    for x in 0..CHUNK_SIZE
        invariant
            mesh_inputs_valid(chunk, adjacent, block_registry),
            adjacent == adjacent_chunks@,
            output@ == mesh_prefix(chunk, adjacent, block_registry, x * 1024),
    {
        for y in 0..CHUNK_SIZE
            invariant
                mesh_inputs_valid(chunk, adjacent, block_registry),
                adjacent == adjacent_chunks@,
                x < 32,
                output@ == mesh_prefix(chunk, adjacent, block_registry, x * 1024 + y * 32),
        {
            for z in 0..CHUNK_SIZE
                invariant
                    mesh_inputs_valid(chunk, adjacent, block_registry),
                    adjacent == adjacent_chunks@,
                    x < 32,
                    y < 32,
                    output@ == mesh_prefix(chunk, adjacent, block_registry, x * 1024 + y * 32 + z),
            {
                let ghost m = cell_index(x as int, y as int, z as int);
                proof {
                    lemma_cell_at(x as int, y as int, z as int);
                }
                let block_id = chunk.get_block(x, y, z);
                assert(chunk@[m] == block_id);
                let solid = !block_registry.get_item(block_id).air;
                let offset = Vec3 { x: x as i64, y: y as i64, z: z as i64 };
                for side in 0..6
                    invariant
                        mesh_inputs_valid(chunk, adjacent, block_registry),
                        adjacent == adjacent_chunks@,
                        x < 32,
                        y < 32,
                        z < 32,
                        m == cell_index(x as int, y as int, z as int),
                        block_id == chunk.block(x as int, y as int, z as int),
                        solid == !is_air(block_registry, block_id),
                        offset == vec3(x as int, y as int, z as int),
                        output@ == mesh_prefix(chunk, adjacent, block_registry, m) + cell_faces(
                            chunk,
                            adjacent,
                            block_registry,
                            x as int,
                            y as int,
                            z as int,
                            side as int,
                        ),
                {
                    let neighbor_id = neighbor_block_id(chunk, adjacent_chunks, x, y, z, side);
                    proof {
                        let n = face_normal(side as int);
                        let (nx, ny, nz) = (x + n.x, y + n.y, z + n.z);
                        if in_chunk(nx) && in_chunk(ny) && in_chunk(nz) {
                            assert(chunk@[cell_index(nx, ny, nz)] < block_registry.items().len());
                        } else {
                            assert(adjacent[side as int]@[cell_index(wrap(nx), wrap(ny), wrap(nz))]
                                < block_registry.items().len());
                        }
                    }
                    if solid && block_registry.get_item(neighbor_id).air {
                        generate_face(offset, side, &mut output);
                    }
                    assert(output@ =~= mesh_prefix(chunk, adjacent, block_registry, m) + cell_faces(
                        chunk,
                        adjacent,
                        block_registry,
                        x as int,
                        y as int,
                        z as int,
                        side + 1,
                    ));
                }
                assert(output@ =~= mesh_prefix(chunk, adjacent, block_registry, m + 1));
            }
        }
    }
    output
}

/// Whether `v` is a value of `isize`.
pub open spec fn fits_isize(v: int) -> bool {
    isize::MIN <= v <= isize::MAX
}

/// The grid position of the chunk across face `side` of the chunk at `pos`,
/// or `None` when a coordinate of it does not fit in `isize`.
pub fn adjacent_pos(pos: &ChunkPos, side: usize) -> (r: Option<ChunkPos>)
    requires
        side < 6,
    ensures
        ({
            let n = face_normal(side as int);
            let (ax, ay, az) = (pos.x + n.x, pos.y + n.y, pos.z + n.z);
            if fits_isize(ax) && fits_isize(ay) && fits_isize(az) {
                r == Some(ChunkPos { x: ax as isize, y: ay as isize, z: az as isize })
            } else {
                r is None
            }
        }),
{
    let dir = face_direction(side);
    let ax: i128 = pos.x as i128 + dir.x as i128;
    let ay: i128 = pos.y as i128 + dir.y as i128;
    let az: i128 = pos.z as i128 + dir.z as i128;
    let lo = isize::MIN as i128;
    let hi = isize::MAX as i128;
    if lo <= ax && ax <= hi && lo <= ay && ay <= hi && lo <= az && az <= hi {
        Some(ChunkPos { x: ax as isize, y: ay as isize, z: az as isize })
    } else {
        None
    }
}

/// Every chunk stored in `map` holds only ids registered in `registry`.
pub open spec fn map_ids_registered(map: &ChunkMap, registry: &Registry<Block>) -> bool {
    forall|p: ChunkPos| #[trigger] map@.contains_key(p) ==> ids_registered(&map@[p], registry)
}

/// The chunks across the six faces of the chunk at `pos`, in adjacency
/// order, as they stand in `map`; `None` when one of those positions is
/// outside the grid or holds no chunk.
pub open spec fn adjacent_in_map(map: &ChunkMap, pos: ChunkPos) -> Option<Seq<&Chunk>> {
    if forall|d: int|
        0 <= d < 6 ==> (#[trigger] neighbor_pos_spec(pos, d)) is Some && map@.contains_key(
            neighbor_pos_spec(pos, d)->0,
        ) {
        Some(Seq::new(6, |d: int| &map@[neighbor_pos_spec(pos, d)->0]))
    } else {
        None
    }
}

/// Spec form of `adjacent_pos`.
pub open spec fn neighbor_pos_spec(pos: ChunkPos, d: int) -> Option<ChunkPos> {
    let n = face_normal(d);
    let (ax, ay, az) = (pos.x + n.x, pos.y + n.y, pos.z + n.z);
    if fits_isize(ax) && fits_isize(ay) && fits_isize(az) {
        Some(ChunkPos { x: ax as isize, y: ay as isize, z: az as isize })
    } else {
        None
    }
}

fn adjacent_chunk<'a>(map: &'a ChunkMap, pos: &ChunkPos, side: usize) -> (r: Option<&'a Chunk>)
    requires
        map.wf(),
        side < 6,
    ensures
        match neighbor_pos_spec(*pos, side as int) {
            Some(p) => if map@.contains_key(p) {
                r == Some(&map@[p]) && r->0.wf()
            } else {
                r is None
            },
            None => r is None,
        },
{
    match adjacent_pos(pos, side) {
        Some(p) => map.get(&p),
        None => None,
    }
}

/// The mesh of the chunk stored at `pos` in `map`, meshed against the six
/// chunks stored across its faces; `None` when the chunk or one of its
/// neighbours is not in the map.
pub fn mesh_chunk_at(map: &ChunkMap, pos: &ChunkPos, block_registry: &Registry<Block>) -> (r:
    Option<Vec<Vertex>>)
    requires
        map.wf(),
        block_registry.wf(),
        map_ids_registered(map, block_registry),
    ensures
        match r {
            Some(v) => map@.contains_key(*pos) && adjacent_in_map(map, *pos) is Some && v@
                == chunk_mesh(&map@[*pos], adjacent_in_map(map, *pos)->0, block_registry),
            None => !map@.contains_key(*pos) || adjacent_in_map(map, *pos) is None,
        },
{
    let chunk = match map.get(pos) {
        Some(c) => c,
        None => return None,
    };
    let c0 = match adjacent_chunk(map, pos, 0) { Some(c) => c, None => return None };
    let c1 = match adjacent_chunk(map, pos, 1) { Some(c) => c, None => return None };
    let c2 = match adjacent_chunk(map, pos, 2) { Some(c) => c, None => return None };
    let c3 = match adjacent_chunk(map, pos, 3) { Some(c) => c, None => return None };
    let c4 = match adjacent_chunk(map, pos, 4) { Some(c) => c, None => return None };
    let c5 = match adjacent_chunk(map, pos, 5) { Some(c) => c, None => return None };
    let adjacent: [&Chunk; 6] = [c0, c1, c2, c3, c4, c5];
    proof {
        assert(adjacent_in_map(map, *pos) is Some);
        assert(adjacent@ =~= adjacent_in_map(map, *pos)->0);
    }
    Some(generate_chunk(chunk, &adjacent, block_registry))
}

} // verus!
