//! Verified core of a small voxel sandbox: chunk addressing and storage,
//! terrain layout, chunk meshing, block definitions, input flags, the
//! client's interface state machine and the database configuration.

pub mod chunk;
pub mod mesh;
pub mod blocks;
pub mod browser;
pub mod cache;
pub mod protocol;
pub mod physics;
pub mod text;
pub mod storage;
pub mod ui;
