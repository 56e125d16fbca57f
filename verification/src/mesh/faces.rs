//! The triangles of the meshes, as indices into their vertices.

use vstd::prelude::*;

verus! {

/// Vertices of the cube.
pub const CUBE_VERTEX_COUNT: usize = 8;

/// Triangles of the cube.
pub const CUBE_FACES: [[usize; 3]; 12] = [
    [0, 1, 2],
    [0, 2, 3],  // Front
    [5, 4, 7],
    [5, 7, 6],  // Back
    [3, 2, 6],
    [3, 6, 7],  // Top
    [4, 5, 1],
    [4, 1, 0],  // Bottom
    [1, 5, 6],
    [1, 6, 2],  // Right
    [4, 0, 3],
    [4, 3, 7],  // Left
];

/// Vertices of the octahedron.
pub const OCTA_VERTEX_COUNT: usize = 6;

/// Triangles of the octahedron.
pub const OCTA_FACES: [[usize; 3]; 8] = [
    [0, 1, 2],
    [0, 2, 3],
    [0, 3, 4],
    [0, 4, 1],
    [5, 2, 1],
    [5, 3, 2],
    [5, 4, 3],
    [5, 1, 4],
];

/// Vertices of the spacecraft.
pub const SPACECRAFT_VERTEX_COUNT: usize = 8;

/// Triangles of the spacecraft: ten seen from the front, then the same ten seen
/// from the back.
pub const SPACECRAFT_FACES: [[usize; 3]; 20] = [
    [0, 3, 1],
    [0, 2, 3],
    [0, 1, 4],
    [0, 4, 2],
    [3, 5, 1],
    [3, 2, 5],
    [1, 6, 4],
    [2, 4, 7],
    [5, 6, 1],
    [5, 2, 7],
    [0, 1, 3],
    [0, 3, 2],
    [0, 4, 1],
    [0, 2, 4],
    [3, 1, 5],
    [3, 5, 2],
    [1, 4, 6],
    [2, 7, 4],
    [5, 1, 6],
    [5, 7, 2],
];

/// Every triangle names three different vertices of its mesh.
pub open spec fn names_vertices(face: [usize; 3], vertices: usize) -> bool {
    &&& face@[0] < vertices && face@[1] < vertices && face@[2] < vertices
    &&& face@[0] != face@[1] && face@[1] != face@[2] && face@[2] != face@[0]
}

/// Every triangle of the three meshes names three different vertices of its mesh.
pub proof fn law_faces_name_vertices(i: int)
    ensures
        0 <= i < 12 ==> names_vertices(#[trigger] CUBE_FACES@[i], CUBE_VERTEX_COUNT),
        0 <= i < 8 ==> names_vertices(#[trigger] OCTA_FACES@[i], OCTA_VERTEX_COUNT),
        0 <= i < 20 ==> names_vertices(#[trigger] SPACECRAFT_FACES@[i], SPACECRAFT_VERTEX_COUNT),
{
}

/// The spacecraft is double-sided: each of its first ten triangles occurs again
/// with the opposite winding.
pub proof fn law_spacecraft_is_double_sided(i: int)
    requires
        0 <= i < 10,
    ensures
        SPACECRAFT_FACES@[i + 10]@[0] == SPACECRAFT_FACES@[i]@[0],
        SPACECRAFT_FACES@[i + 10]@[1] == SPACECRAFT_FACES@[i]@[2],
        SPACECRAFT_FACES@[i + 10]@[2] == SPACECRAFT_FACES@[i]@[1],
{
}

} // verus!
