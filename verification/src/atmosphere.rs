//! Sizes and formats of the atmosphere lookup textures.

use vstd::prelude::*;

verus! {

pub const TRANSMITTANCE_SIZE: (u32, u32) = (256, 64);
pub const MULTISCATTER_SIZE: (u32, u32) = (32, 32);
pub const SKY_VIEW_SIZE: (u32, u32) = (192, 108);
pub const CUBEMAP_SIZE: u32 = 64;
pub const CUBEMAP_FACES: u32 = 6;
pub const CUBEMAP_MIPS: u32 = 7;
pub const TRANSMITTANCE_STEPS: usize = 40;
pub const MULTISCATTER_DIRECTIONS: usize = 16;
pub const MULTISCATTER_STEPS: usize = 8;
pub const SKY_VIEW_STEPS: usize = 24;
pub const SKY_SUN_STEPS: usize = 8;
pub const SKY_UPDATE_CADENCE: u64 = 8;

/// Shape and texel format of one lookup texture.
#[derive(Clone, Copy, Debug, PartialEq, Eq)]
pub struct LutDescriptor {
    pub width: u32,
    pub height: u32,
    pub layers: u32,
    pub mip_levels: u32,
    pub format: &'static str,
}

pub open spec fn half_float_format() -> Seq<char> {
    "Rgba16Float"@
}

impl LutDescriptor {
    pub fn transmittance() -> (d: Self)
        ensures
            d.width == 256 && d.height == 64 && d.layers == 1 && d.mip_levels == 1,
            d.format@ == half_float_format(),
    {
        LutDescriptor { width: 256, height: 64, layers: 1, mip_levels: 1, format: "Rgba16Float" }
    }

    pub fn multiscatter() -> (d: Self)
        ensures
            d.width == 32 && d.height == 32 && d.layers == 1 && d.mip_levels == 1,
            d.format@ == half_float_format(),
    {
        LutDescriptor { width: 32, height: 32, layers: 1, mip_levels: 1, format: "Rgba16Float" }
    }

    pub fn sky_view() -> (d: Self)
        ensures
            d.width == 192 && d.height == 108 && d.layers == 1 && d.mip_levels == 1,
            d.format@ == half_float_format(),
    {
        LutDescriptor { width: 192, height: 108, layers: 1, mip_levels: 1, format: "Rgba16Float" }
    }

    /// Six faces of 64x64 with a full mip chain down to 1x1.
    pub fn sky_cubemap() -> (d: Self)
        ensures
            d.width == 64 && d.height == 64 && d.layers == 6 && d.mip_levels == 7,
            d.format@ == half_float_format(),
    {
        LutDescriptor { width: 64, height: 64, layers: 6, mip_levels: 7, format: "Rgba16Float" }
    }
}

} // verus!
