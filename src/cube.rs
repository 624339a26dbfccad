//! The unit cube as a non-indexed triangle list: six faces of two triangles
//! each, in the adjacency order `+x, -x, +y, -y, +z, -z`.

use vstd::prelude::*;

verus! {

/// An integer 3-vector: a lattice position, an offset or an axis direction.
#[derive(Clone, Copy, Debug, PartialEq, Eq, Structural)]
pub struct Vec3 {
    pub x: i64,
    pub y: i64,
    pub z: i64,
}

/// A texture coordinate; both components are 0 or 1.
#[derive(Clone, Copy, Debug, PartialEq, Eq, Structural)]
pub struct TexCoord {
    pub u: u8,
    pub v: u8,
}

/// One mesh vertex.
#[derive(Clone, Copy, Debug, PartialEq, Eq, Structural)]
pub struct Vertex {
    pub position: Vec3,
    pub normal: Vec3,
    pub tex_coord: TexCoord,
}

/// Number of faces of a cube.
pub const FACE_COUNT: usize = 6;

/// Number of vertices emitted per face.
pub const FACE_VERTEX_COUNT: usize = 6;

/// Number of vertices emitted per cube.
pub const TOTAL_VERTEX_COUNT: usize = 36;

pub open spec fn vec3(x: int, y: int, z: int) -> Vec3 {
    Vec3 { x: x as i64, y: y as i64, z: z as i64 }
}

/// Outward unit normal of face `f`; also the direction from a cell to the
/// neighbour across that face. Order: `+x, -x, +y, -y, +z, -z`.
pub open spec fn face_normal(f: int) -> Vec3 {
    if f == 0 {
        vec3(1, 0, 0)
    } else if f == 1 {
        vec3(-1, 0, 0)
    } else if f == 2 {
        vec3(0, 1, 0)
    } else if f == 3 {
        vec3(0, -1, 0)
    } else if f == 4 {
        vec3(0, 0, 1)
    } else {
        vec3(0, 0, -1)
    }
}

/// Corner `i` of the unit cube: the bottom face (`y = 0`) then the top face,
/// each counterclockwise from `x = 0, z = 0`.
pub open spec fn corner(i: int) -> Vec3 {
    vec3(
        if i == 2 || i == 3 || i == 6 || i == 7 { 1 } else { 0 },
        if i >= 4 { 1 } else { 0 },
        if i == 1 || i == 2 || i == 5 || i == 6 { 1 } else { 0 },
    )
}

/// The four corners `(a, b, c, d)` of face `f`. The face is drawn as the
/// triangles `a b c` and `b a d`, which share the diagonal `a b`.
pub open spec fn face_quad(f: int) -> (int, int, int, int) {
    if f == 0 {
        (2, 7, 6, 3)
    } else if f == 1 {
        (0, 5, 4, 1)
    } else if f == 2 {
        (4, 6, 7, 5)
    } else if f == 3 {
        (1, 3, 2, 0)
    } else if f == 4 {
        (1, 6, 5, 2)
    } else {
        (3, 4, 7, 0)
    }
}

/// The corner used by vertex `v` of face `f`.
pub open spec fn face_corner(f: int, v: int) -> int {
    let (a, b, c, d) = face_quad(f);
    if v == 0 || v == 4 {
        a
    } else if v == 1 || v == 3 {
        b
    } else if v == 2 {
        c
    } else {
        d
    }
}

/// Texture coordinate of vertex `v`, the same on every face.
pub open spec fn face_tex_coord(v: int) -> TexCoord {
    if v == 0 || v == 4 {
        TexCoord { u: 0, v: 0 }
    } else if v == 1 || v == 3 {
        TexCoord { u: 1, v: 1 }
    } else if v == 2 {
        TexCoord { u: 0, v: 1 }
    } else {
        TexCoord { u: 1, v: 0 }
    }
}

/// Offsets for which every corner of the cube is representable.
pub open spec fn offset_in_range(offset: Vec3) -> bool {
    offset.x < i64::MAX && offset.y < i64::MAX && offset.z < i64::MAX
}

/// Vertex `v` of face `f` of the unit cube translated by `offset`.
pub open spec fn cube_vertex(offset: Vec3, f: int, v: int) -> Vertex {
    let c = corner(face_corner(f, v));
    Vertex {
        position: vec3(offset.x + c.x, offset.y + c.y, offset.z + c.z),
        normal: face_normal(f),
        tex_coord: face_tex_coord(v),
    }
}

/// The six vertices of face `f` of the cube at `offset`.
pub open spec fn face_vertices(offset: Vec3, f: int) -> Seq<Vertex> {
    Seq::new(6, |v: int| cube_vertex(offset, f, v))
}

/// The 36 vertices of the cube at `offset`, face after face.
pub open spec fn cube_vertices(offset: Vec3) -> Seq<Vertex> {
    Seq::new(36, |i: int| cube_vertex(offset, i / 6, i % 6))
}

/// A unit vector along one of the three axes.
pub open spec fn is_axis_unit(n: Vec3) -> bool {
    ||| n.y == 0 && n.z == 0 && (n.x == 1 || n.x == -1)
    ||| n.x == 0 && n.z == 0 && (n.y == 1 || n.y == -1)
    ||| n.x == 0 && n.y == 0 && (n.z == 1 || n.z == -1)
}

/// The vertices of `s` whose normal is `n`, in order.
pub open spec fn with_normal(s: Seq<Vertex>, n: Vec3) -> Seq<Vertex> {
    s.filter(|w: Vertex| w.normal == n)
}

proof fn lemma_normal_count_prefix(offset: Vec3, f: int, k: int)
    requires
        0 <= f < 6,
        0 <= k <= 36,
    ensures
        with_normal(cube_vertices(offset).take(k), face_normal(f)).len() == if k <= 6 * f {
            0
        } else if k >= 6 * f + 6 {
            6
        } else {
            k - 6 * f
        },
    decreases k,
{
    let s = cube_vertices(offset);
    if k > 0 {
        lemma_normal_count_prefix(offset, f, k - 1);
        assert(s.take(k) =~= s.take(k - 1).push(s[k - 1]));
        s.take(k - 1).lemma_filter_push(s[k - 1], |w: Vertex| w.normal == face_normal(f));
    } else {
        assert(s.take(0) =~= Seq::<Vertex>::empty());
        assert(with_normal(Seq::<Vertex>::empty(), face_normal(f)) =~= Seq::<Vertex>::empty());
    }
}

/// For every offset the cube has exactly 36 vertices, its six face normals
/// are distinct unit vectors along the axes, and each of them is carried by
/// exactly six vertices.
pub proof fn lemma_cube_normals(offset: Vec3)
    ensures
        cube_vertices(offset).len() == 36,
        forall|f: int, g: int| 0 <= f < g < 6 ==> face_normal(f) != face_normal(g),
        forall|f: int| 0 <= f < 6 ==> is_axis_unit(#[trigger] face_normal(f)),
        forall|f: int|
            0 <= f < 6 ==> #[trigger] with_normal(cube_vertices(offset), face_normal(f)).len() == 6,
{
    assert forall|f: int|
        0 <= f < 6 implies #[trigger] with_normal(cube_vertices(offset), face_normal(f)).len()
        == 6 by {
        lemma_normal_count_prefix(offset, f, 36);
        assert(cube_vertices(offset).take(36) =~= cube_vertices(offset));
    }
}

/// Executable form of `face_normal`.
pub fn face_direction(f: usize) -> (r: Vec3)
    requires
        f < FACE_COUNT,
    ensures
        r == face_normal(f as int),
{
    if f == 0 {
        Vec3 { x: 1, y: 0, z: 0 }
    } else if f == 1 {
        Vec3 { x: -1, y: 0, z: 0 }
    } else if f == 2 {
        Vec3 { x: 0, y: 1, z: 0 }
    } else if f == 3 {
        Vec3 { x: 0, y: -1, z: 0 }
    } else if f == 4 {
        Vec3 { x: 0, y: 0, z: 1 }
    } else {
        Vec3 { x: 0, y: 0, z: -1 }
    }
}

fn corner_position(i: usize) -> (r: Vec3)
    requires
        i < 8,
    ensures
        r == corner(i as int),
{
    Vec3 {
        x: if i == 2 || i == 3 || i == 6 || i == 7 { 1 } else { 0 },
        y: if i >= 4 { 1 } else { 0 },
        z: if i == 1 || i == 2 || i == 5 || i == 6 { 1 } else { 0 },
    }
}

fn corner_of_face_vertex(f: usize, v: usize) -> (r: usize)
    requires
        f < FACE_COUNT,
        v < FACE_VERTEX_COUNT,
    ensures
        r == face_corner(f as int, v as int),
        r < 8,
{
    let (a, b, c, d): (usize, usize, usize, usize) = if f == 0 {
        (2, 7, 6, 3)
    } else if f == 1 {
        (0, 5, 4, 1)
    } else if f == 2 {
        (4, 6, 7, 5)
    } else if f == 3 {
        (1, 3, 2, 0)
    } else if f == 4 {
        (1, 6, 5, 2)
    } else {
        (3, 4, 7, 0)
    };
    if v == 0 || v == 4 {
        a
    } else if v == 1 || v == 3 {
        b
    } else if v == 2 {
        c
    } else {
        d
    }
}

fn tex_coord_of(v: usize) -> (r: TexCoord)
    requires
        v < FACE_VERTEX_COUNT,
    ensures
        r == face_tex_coord(v as int),
{
    if v == 0 || v == 4 {
        TexCoord { u: 0, v: 0 }
    } else if v == 1 || v == 3 {
        TexCoord { u: 1, v: 1 }
    } else if v == 2 {
        TexCoord { u: 0, v: 1 }
    } else {
        TexCoord { u: 1, v: 0 }
    }
}

/// Appends the six vertices of face `face` of the cube at `offset`.
pub fn generate_face(offset: Vec3, face: usize, dest: &mut Vec<Vertex>)
    requires
        face < FACE_COUNT,
        offset_in_range(offset),
    ensures
        final(dest)@ == old(dest)@ + face_vertices(offset, face as int),
{
    let normal = face_direction(face);
    for v in 0..FACE_VERTEX_COUNT
        invariant
            face < FACE_COUNT,
            offset_in_range(offset),
            normal == face_normal(face as int),
            dest@ == old(dest)@ + face_vertices(offset, face as int).take(v as int),
    {
        let c = corner_position(corner_of_face_vertex(face, v));
        dest.push(
            Vertex {
                position: Vec3 { x: offset.x + c.x, y: offset.y + c.y, z: offset.z + c.z },
                normal,
                tex_coord: tex_coord_of(v),
            },
        );
        assert(face_vertices(offset, face as int).take(v + 1) =~= face_vertices(
            offset,
            face as int,
        ).take(v as int).push(cube_vertex(offset, face as int, v as int)));
    }
    assert(face_vertices(offset, face as int).take(6) =~= face_vertices(offset, face as int));
}

/// Appends the 36 vertices of the unit cube translated by `offset`.
pub fn generate_cube(offset: Vec3, dest: &mut Vec<Vertex>)
    requires
        offset_in_range(offset),
    ensures
        final(dest)@ == old(dest)@ + cube_vertices(offset),
{
    dest.reserve(TOTAL_VERTEX_COUNT);
    for f in 0..FACE_COUNT
        invariant
            offset_in_range(offset),
            dest@ == old(dest)@ + cube_vertices(offset).take(6 * f),
    {
        generate_face(offset, f, dest);
        assert(cube_vertices(offset).take(6 * f + 6) =~= cube_vertices(offset).take(6 * f) + face_vertices(
            offset,
            f as int,
        ));
    }
    assert(cube_vertices(offset).take(36) =~= cube_vertices(offset));
}

} // verus!
