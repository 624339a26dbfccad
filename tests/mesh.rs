use pearl::cube::{face_direction, generate_cube, Vec3, Vertex};
use pearl::mesh::{adjacent_pos, generate_chunk, mesh_chunk_at};
use pearl::registry::Registry;
use pearl::world::{Block, Chunk, ChunkMap, ChunkPos, CHUNK_SIZE};
use pearl::worldgen::ChunkGenerator;

const AIR: usize = 0;
const DIRT: usize = 1;

fn registry() -> Registry<Block> {
    let mut r = Registry::new();
    r.register("default:air", Block { air: true }).unwrap();
    r.register("default:dirt", Block { air: false }).unwrap();
    r
}

fn mesh_with(chunk: &Chunk, neighbors: [&Chunk; 6]) -> Vec<Vertex> {
    generate_chunk(chunk, &neighbors, &registry())
}

#[test]
fn air_chunk_among_air_meshes_empty() {
    let air = Chunk::filled(AIR);
    let out = mesh_with(&air, [&air, &air, &air, &air, &air, &air]);
    assert!(out.is_empty());
}

#[test]
fn dirt_chunk_among_dirt_meshes_empty() {
    let dirt = Chunk::filled(DIRT);
    let out = mesh_with(&dirt, [&dirt, &dirt, &dirt, &dirt, &dirt, &dirt]);
    assert!(out.is_empty());
}

#[test]
fn single_dirt_cell_among_air_meshes_one_cube() {
    let air = Chunk::filled(AIR);
    let mut c = Chunk::filled(AIR);
    c.set_block(0, 0, 0, DIRT);
    let out = mesh_with(&c, [&air, &air, &air, &air, &air, &air]);
    assert_eq!(out.len(), 36);
    for (i, w) in out.iter().enumerate() {
        assert_eq!(w.normal, face_direction(i / 6));
    }
    let mut cube: Vec<Vertex> = Vec::new();
    generate_cube(Vec3 { x: 0, y: 0, z: 0 }, &mut cube);
    assert_eq!(out, cube);
}

#[test]
fn solid_neighbor_chunk_hides_border_face() {
    let air = Chunk::filled(AIR);
    let dirt = Chunk::filled(DIRT);
    let mut c = Chunk::filled(AIR);
    c.set_block(0, 0, 0, DIRT);
    // the chunk across -x is solid, so the -x face of cell (0, 0, 0) is hidden
    let out = mesh_with(&c, [&air, &dirt, &air, &air, &air, &air]);
    assert_eq!(out.len(), 30);
    assert!(out.iter().all(|w| w.normal != Vec3 { x: -1, y: 0, z: 0 }));
    // the chunk across +x does not touch cell (0, 0, 0)
    let out = mesh_with(&c, [&dirt, &air, &air, &air, &air, &air]);
    assert_eq!(out.len(), 36);
}

#[test]
fn faces_are_culled_one_by_one() {
    let air = Chunk::filled(AIR);
    let mut c = Chunk::filled(AIR);
    c.set_block(5, 6, 7, DIRT);
    c.set_block(5, 6, 8, DIRT);
    let out = mesh_with(&c, [&air, &air, &air, &air, &air, &air]);
    // two cubes sharing one face: 10 faces
    assert_eq!(out.len(), 60);
    // first cell (z = 7) emits every face but +z, in adjacency order
    let normals: Vec<Vec3> = out.iter().step_by(6).map(|w| w.normal).collect();
    let expected = vec![
        face_direction(0),
        face_direction(1),
        face_direction(2),
        face_direction(3),
        face_direction(5),
        face_direction(0),
        face_direction(1),
        face_direction(2),
        face_direction(3),
        face_direction(4),
    ];
    assert_eq!(normals, expected);
    assert_eq!(out[0].position, Vec3 { x: 6, y: 6, z: 8 });
    assert_eq!(out[30].position, Vec3 { x: 6, y: 6, z: 9 });
}

#[test]
fn cell_at_top_border_reads_chunk_above() {
    let air = Chunk::filled(AIR);
    let dirt = Chunk::filled(DIRT);
    let mut c = Chunk::filled(AIR);
    c.set_block(31, 31, 31, DIRT);
    let out = mesh_with(&c, [&air, &air, &dirt, &air, &dirt, &air]);
    // +y and +z faces hidden by the chunks above and in front
    assert_eq!(out.len(), 24);
    let normals: Vec<Vec3> = out.iter().step_by(6).map(|w| w.normal).collect();
    assert_eq!(normals, vec![face_direction(0), face_direction(1), face_direction(3), face_direction(5)]);
}

#[test]
fn generated_ground_meshes_its_top_surface() {
    let r = registry();
    let mut g = ChunkGenerator::new(&r);
    let ground = g.generate_chunk(&ChunkPos { x: 0, y: -1, z: 0 });
    let below = g.generate_chunk(&ChunkPos { x: 0, y: -2, z: 0 });
    let above = g.generate_chunk(&ChunkPos { x: 0, y: 0, z: 0 });
    let side = g.generate_chunk(&ChunkPos { x: 1, y: -1, z: 0 });
    let out = generate_chunk(&ground, &[&side, &side, &above, &below, &side, &side], &r);
    assert_eq!(out.len(), CHUNK_SIZE * CHUNK_SIZE * 6);
    assert!(out.iter().all(|w| w.normal == Vec3 { x: 0, y: 1, z: 0 }));
    assert!(out.iter().all(|w| w.position.y == 32));
}

#[test]
fn adjacent_positions() {
    let p = ChunkPos { x: 1, y: -2, z: 3 };
    assert_eq!(adjacent_pos(&p, 0), Some(ChunkPos { x: 2, y: -2, z: 3 }));
    assert_eq!(adjacent_pos(&p, 1), Some(ChunkPos { x: 0, y: -2, z: 3 }));
    assert_eq!(adjacent_pos(&p, 2), Some(ChunkPos { x: 1, y: -1, z: 3 }));
    assert_eq!(adjacent_pos(&p, 3), Some(ChunkPos { x: 1, y: -3, z: 3 }));
    assert_eq!(adjacent_pos(&p, 4), Some(ChunkPos { x: 1, y: -2, z: 4 }));
    assert_eq!(adjacent_pos(&p, 5), Some(ChunkPos { x: 1, y: -2, z: 2 }));
    let edge = ChunkPos { x: isize::MAX, y: 0, z: isize::MIN };
    assert_eq!(adjacent_pos(&edge, 0), None);
    assert_eq!(adjacent_pos(&edge, 5), None);
    assert_eq!(adjacent_pos(&edge, 1), Some(ChunkPos { x: isize::MAX - 1, y: 0, z: isize::MIN }));
}

#[test]
fn mesh_from_map_needs_all_neighbors() {
    let r = registry();
    let mut g = ChunkGenerator::new(&r);
    let mut m = ChunkMap::new();
    let centre = ChunkPos { x: 0, y: -1, z: 0 };
    assert!(mesh_chunk_at(&m, &centre, &r).is_none());
    m.insert(centre, g.generate_chunk(&centre));
    for side in 0..5 {
        let p = adjacent_pos(&centre, side).unwrap();
        m.insert(p, g.generate_chunk(&p));
    }
    assert!(mesh_chunk_at(&m, &centre, &r).is_none());
    let p = adjacent_pos(&centre, 5).unwrap();
    m.insert(p, g.generate_chunk(&p));
    let out = mesh_chunk_at(&m, &centre, &r).unwrap();
    assert_eq!(out.len(), CHUNK_SIZE * CHUNK_SIZE * 6);
    assert!(out.iter().all(|w| w.normal == Vec3 { x: 0, y: 1, z: 0 }));
}
