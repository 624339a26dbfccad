use pearl::cube::{face_direction, generate_cube, generate_face, TexCoord, Vec3, Vertex};

fn v(x: i64, y: i64, z: i64) -> Vec3 {
    Vec3 { x, y, z }
}

#[test]
fn cube_has_36_vertices_six_per_axis_normal() {
    for offset in [v(0, 0, 0), v(10, -3, 5), v(-1000, 7, i64::MAX - 1)] {
        let mut out: Vec<Vertex> = Vec::new();
        generate_cube(offset, &mut out);
        assert_eq!(out.len(), 36);
        let normals = [v(1, 0, 0), v(-1, 0, 0), v(0, 1, 0), v(0, -1, 0), v(0, 0, 1), v(0, 0, -1)];
        for n in normals.iter() {
            assert_eq!(out.iter().filter(|w| w.normal == *n).count(), 6);
        }
        for (i, w) in out.iter().enumerate() {
            assert_eq!(w.normal, normals[i / 6]);
        }
    }
}

#[test]
fn cube_positions_are_translated_corners() {
    let mut out: Vec<Vertex> = Vec::new();
    generate_cube(v(10, -3, 5), &mut out);
    // +x face: corners 2, 7, 6, 7, 2, 3
    assert_eq!(out[0].position, v(11, -3, 6));
    assert_eq!(out[1].position, v(11, -2, 5));
    assert_eq!(out[2].position, v(11, -2, 6));
    assert_eq!(out[5].position, v(11, -3, 5));
    // -z face: corners 3, 4, 7, 4, 3, 0
    assert_eq!(out[30].position, v(11, -3, 5));
    assert_eq!(out[31].position, v(10, -2, 5));
    assert_eq!(out[35].position, v(10, -3, 5));
    for w in out.iter() {
        assert!(w.position.x == 10 || w.position.x == 11);
        assert!(w.position.y == -3 || w.position.y == -2);
        assert!(w.position.z == 5 || w.position.z == 6);
    }
}

#[test]
fn every_face_vertex_lies_on_its_face() {
    let mut out: Vec<Vertex> = Vec::new();
    generate_cube(v(0, 0, 0), &mut out);
    for w in out.iter() {
        let n = w.normal;
        if n.x != 0 {
            assert_eq!(w.position.x, if n.x > 0 { 1 } else { 0 });
        }
        if n.y != 0 {
            assert_eq!(w.position.y, if n.y > 0 { 1 } else { 0 });
        }
        if n.z != 0 {
            assert_eq!(w.position.z, if n.z > 0 { 1 } else { 0 });
        }
    }
}

#[test]
fn texture_coordinates_repeat_on_every_face() {
    let mut out: Vec<Vertex> = Vec::new();
    generate_cube(v(0, 0, 0), &mut out);
    let uv = [(0, 0), (1, 1), (0, 1), (1, 1), (0, 0), (1, 0)];
    for (i, w) in out.iter().enumerate() {
        let (u, t) = uv[i % 6];
        assert_eq!(w.tex_coord, TexCoord { u, v: t });
    }
}

#[test]
fn generate_cube_appends() {
    let mut out: Vec<Vertex> = Vec::new();
    generate_face(v(0, 0, 0), 2, &mut out);
    assert_eq!(out.len(), 6);
    let first = out[0];
    generate_cube(v(1, 1, 1), &mut out);
    assert_eq!(out.len(), 42);
    assert_eq!(out[0], first);
    assert_eq!(out[0].normal, v(0, 1, 0));
    assert_eq!(out[6].position, v(2, 1, 2));
}

#[test]
fn face_directions_follow_adjacency_order() {
    assert_eq!(face_direction(0), v(1, 0, 0));
    assert_eq!(face_direction(1), v(-1, 0, 0));
    assert_eq!(face_direction(2), v(0, 1, 0));
    assert_eq!(face_direction(3), v(0, -1, 0));
    assert_eq!(face_direction(4), v(0, 0, 1));
    assert_eq!(face_direction(5), v(0, 0, -1));
}
