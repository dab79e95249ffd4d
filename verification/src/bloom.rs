//! Level sizes of the six-level bloom pyramid.

use vstd::prelude::*;

verus! {

pub const BLOOM_LEVELS: usize = 6;

/// Width and height of every bloom level, finest first.
#[derive(Clone, Debug, PartialEq, Eq)]
pub struct BloomPyramid {
    pub levels: Vec<(u32, u32)>,
}

/// `v` halved, rounding up, and at least 1.
pub open spec fn half_up(v: u32) -> u32 {
    if v <= 1 {
        1
    } else {
        ((v as int + 1) / 2) as u32
    }
}

/// Size of level `k` of the pyramid of a `width` x `height` image.
pub open spec fn level_size(width: u32, height: u32, k: nat) -> (u32, u32)
    decreases k,
{
    if k == 0 {
        (if width == 0 {
            1
        } else {
            width
        }, if height == 0 {
            1
        } else {
            height
        })
    } else {
        let prev = level_size(width, height, (k - 1) as nat);
        (half_up(prev.0), half_up(prev.1))
    }
}

fn half_up_exec(v: u32) -> (h: u32)
    ensures
        h == half_up(v),
{
    let h = v / 2 + v % 2;
    if h == 0 {
        1
    } else {
        h
    }
}

impl BloomPyramid {
    /// Six levels, the first the image size (at least 1x1), each next one
    /// half the previous, rounded up.
    pub fn new(width: u32, height: u32) -> (p: Self)
        ensures
            p.levels@.len() == BLOOM_LEVELS,
            forall|k: int| 0 <= k < 6 ==> #[trigger] p.levels@[k] == level_size(width, height, k as nat),
    {
        let mut levels: Vec<(u32, u32)> = Vec::new();
        let mut w: u32 = if width == 0 {
            1
        } else {
            width
        };
        let mut h: u32 = if height == 0 {
            1
        } else {
            height
        };
        let mut k: usize = 0;
        while k < BLOOM_LEVELS
            invariant
                k <= 6,
                levels@.len() == k,
                (w, h) == level_size(width, height, k as nat),
                forall|j: int| 0 <= j < k ==> #[trigger] levels@[j] == level_size(width, height, j as nat),
            decreases 6 - k,
        {
            levels.push((w, h));
            w = half_up_exec(w);
            h = half_up_exec(h);
            k = k + 1;
        }
        BloomPyramid { levels }
    }

    pub fn level_count(&self) -> (n: usize)
        ensures
            n == BLOOM_LEVELS,
    {
        BLOOM_LEVELS
    }
}

} // verus!
