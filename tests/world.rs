use pearl::world::{Chunk, ChunkMap, ChunkPos, CHUNK_SIZE, CHUNK_VOLUME};

#[test]
fn chunk_size_and_volume() {
    assert_eq!(CHUNK_SIZE, 32);
    assert_eq!(CHUNK_VOLUME, 32768);
}

#[test]
fn filled_chunk_holds_id_everywhere() {
    let c = Chunk::filled(5);
    for x in 0..CHUNK_SIZE {
        for y in 0..CHUNK_SIZE {
            for z in 0..CHUNK_SIZE {
                assert_eq!(c.get_block(x, y, z), 5);
            }
        }
    }
}

#[test]
fn set_block_changes_one_cell() {
    let mut c = Chunk::filled(0);
    c.set_block(3, 31, 7, 2);
    assert_eq!(c.get_block(3, 31, 7), 2);
    assert_eq!(c.get_block(3, 31, 6), 0);
    assert_eq!(c.get_block(7, 31, 3), 0);
    assert_eq!(c.get_block(3, 30, 7), 0);
}

#[test]
fn chunk_map_insert_then_get() {
    let mut m = ChunkMap::new();
    let p = ChunkPos { x: -3, y: 4, z: 0 };
    let mut c = Chunk::filled(1);
    c.set_block(1, 2, 3, 9);
    m.insert(p, c);
    let got = m.get(&p).unwrap();
    assert_eq!(got.get_block(1, 2, 3), 9);
    assert_eq!(got.get_block(0, 0, 0), 1);
    assert!(m.get(&ChunkPos { x: -3, y: 4, z: 1 }).is_none());
    assert!(m.get(&ChunkPos { x: 4, y: -3, z: 0 }).is_none());
}

#[test]
fn chunk_map_get_on_empty_map_is_none() {
    let m = ChunkMap::new();
    assert!(m.get(&ChunkPos { x: 0, y: 0, z: 0 }).is_none());
}

#[test]
fn chunk_map_insert_replaces() {
    let mut m = ChunkMap::new();
    let p = ChunkPos { x: 1, y: 1, z: 1 };
    let q = ChunkPos { x: 2, y: 1, z: 1 };
    m.insert(p, Chunk::filled(1));
    m.insert(q, Chunk::filled(3));
    m.insert(p, Chunk::filled(2));
    assert_eq!(m.get(&p).unwrap().get_block(0, 0, 0), 2);
    assert_eq!(m.get(&q).unwrap().get_block(31, 31, 31), 3);
}
