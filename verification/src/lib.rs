//! Verified CPU-side logic of the voxel renderer: allocation accounting,
//! procedural materials, voxel GI clipmaps, upload planning and render
//! contracts.

pub mod allocation_stats;
pub mod text;
pub mod materials;
pub mod mips;
pub mod ivec;
pub mod clipmap;
pub mod noise;
pub mod upload;
pub mod timing;
pub mod preset;
pub mod views;
pub mod gi;
pub mod voxelize;
pub mod atmosphere;
pub mod clouds;
pub mod bloom;
pub mod gtao;
pub mod depth_pyramid;
pub mod chunk_slots;
pub mod memory;
pub mod readback;
pub mod quality;
pub mod shader_pack;
pub mod half;
pub mod frame_plan;
