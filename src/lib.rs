//! Integer geometry, chunking, sampling and generation bookkeeping for
//! meshing procedurally defined scalar fields chunk by chunk.

pub mod geometry;
pub mod policy;
pub mod chunks;
pub mod sampling;
pub mod generator;
pub mod drivers;
pub mod mesh;
