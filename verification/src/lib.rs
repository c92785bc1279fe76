//! Voxel-world core: block catalog, chunk store, terrain fill, mesh
//! extraction, chunk streaming and collision against the voxel grid.

pub mod block;
pub mod chunk;
pub mod chunk_data;
pub mod collision;
pub mod config;
pub mod ivec;
pub mod lod;
pub mod manager;
pub mod mesh;
pub mod product;
pub mod seqs;
pub mod store;
pub mod streaming;
pub mod terrain;
