//! A voxel world held as fixed-size cubic chunks, a deterministic generator
//! of flat terrain, and a mesher that turns a chunk and its six face-adjacent
//! neighbours into the triangle list of its visible faces.
//!
//! Mesh data is integer valued: vertex positions are lattice points, normals
//! are unit axis vectors and texture coordinates are 0 or 1. A renderer turns
//! them into floats at the edge.

pub mod cube;
pub mod mesh;
pub mod registry;
pub mod world;
pub mod worldgen;
