//! Voxel chunk data model, procedural population, face visibility and greedy
//! quad merging for 16x16x16 block volumes.

pub mod block;
pub mod chunk;
pub mod generation;
pub mod geometry;
pub mod input;
pub mod mesh;
pub mod meshing;
pub mod occupancy;
pub mod visibility;
pub mod world;
