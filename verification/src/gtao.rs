//! Sample counts and target shape of the ambient-occlusion pass.

use vstd::prelude::*;

verus! {

pub const HALF_RESOLUTION: u32 = 2;
pub const DIRECTIONS: usize = 8;
pub const STEPS: usize = 4;

#[derive(Clone, Copy, Debug, PartialEq, Eq, Structural)]
pub struct GtaoConfig {
    pub directions: usize,
    pub steps: usize,
    pub temporal: bool,
}

impl Default for GtaoConfig {
    fn default() -> (c: Self)
        ensures
            c == (GtaoConfig { directions: 8, steps: 4, temporal: true }),
    {
        GtaoConfig { directions: DIRECTIONS, steps: STEPS, temporal: true }
    }
}

/// The AO target the later passes rely on.
#[derive(Clone, Copy, Debug, PartialEq, Eq)]
pub struct GtaoTargetContract {
    pub output_format: &'static str,
    pub half_resolution: bool,
    pub max_directions: usize,
    pub max_steps: usize,
}

impl Default for GtaoTargetContract {
    fn default() -> (c: Self)
        ensures
            c.output_format@ == "R8Unorm"@,
            c.half_resolution,
            c.max_directions == 8,
            c.max_steps == 4,
    {
        GtaoTargetContract {
            output_format: "R8Unorm",
            half_resolution: true,
            max_directions: DIRECTIONS,
            max_steps: STEPS,
        }
    }
}

/// Size of the half-resolution AO target for an internal image of `size`.
pub fn ao_size(size: (u32, u32)) -> (r: (u32, u32))
    ensures
        r.0 == (if size.0 <= 1 { 1 } else { (size.0 as int + 1) / 2 }),
        r.1 == (if size.1 <= 1 { 1 } else { (size.1 as int + 1) / 2 }),
{
    let w = size.0 / 2 + size.0 % 2;
    let h = size.1 / 2 + size.1 % 2;
    (if w == 0 { 1 } else { w }, if h == 0 { 1 } else { h })
}

} // verus!
