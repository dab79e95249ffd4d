//! Parameters of one reduction step of the linear-depth pyramid.

use vstd::prelude::*;

verus! {

/// The deepest mip chain of the pyramid.
pub const DEPTH_PYRAMID_MAX_MIPS: usize = 16;

#[derive(Clone, Copy, Debug, PartialEq, Eq)]
pub struct DepthPyramidParams {
    pub source_size: [u32; 2],
    pub destination_size: [u32; 2],
    pub source_mip: u32,
    pub _padding: [u32; 3],
}

impl Default for DepthPyramidParams {
    fn default() -> (p: Self)
        ensures
            p.source_size@ == seq![0u32, 0],
            p.destination_size@ == seq![0u32, 0],
            p.source_mip == 0,
            p._padding@ == seq![0u32, 0, 0],
    {
        let p = DepthPyramidParams {
            source_size: [0, 0],
            destination_size: [0, 0],
            source_mip: 0,
            _padding: [0, 0, 0],
        };
        assert(p.source_size@ =~= seq![0u32, 0]);
        assert(p.destination_size@ =~= seq![0u32, 0]);
        assert(p._padding@ =~= seq![0u32, 0, 0]);
        p
    }
}

} // verus!
