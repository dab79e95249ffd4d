//! Render-quality settings as the renderer accepts them: every step count
//! clamped to the range its pass supports, and the shadow map resolution
//! snapped to a supported size.

use vstd::prelude::*;

verus! {

/// The shadow map sizes the shadow pass supports, in order of preference on ties.
pub open spec fn shadow_sizes() -> Seq<u32> {
    seq![1024u32, 1536, 2048]
}

pub open spec fn abs_diff(a: u32, b: u32) -> int {
    if a >= b {
        a - b
    } else {
        b - a
    }
}

/// The supported shadow size nearest to `requested`; the smaller size wins a tie.
pub open spec fn snapped_shadow_spec(requested: u32) -> u32 {
    let d0 = abs_diff(requested, 1024);
    let d1 = abs_diff(requested, 1536);
    let d2 = abs_diff(requested, 2048);
    if d0 <= d1 && d0 <= d2 {
        1024
    } else if d1 <= d2 {
        1536
    } else {
        2048
    }
}

pub open spec fn clamp_spec(v: u32, lo: u32, hi: u32) -> u32 {
    if v < lo {
        lo
    } else if v > hi {
        hi
    } else {
        v
    }
}

fn clamp_u32(v: u32, lo: u32, hi: u32) -> (r: u32)
    requires
        lo <= hi,
    ensures
        r == clamp_spec(v, lo, hi),
{
    if v < lo {
        lo
    } else if v > hi {
        hi
    } else {
        v
    }
}

fn abs_diff_u32(a: u32, b: u32) -> (d: u32)
    ensures
        d == abs_diff(a, b),
{
    if a >= b {
        a - b
    } else {
        b - a
    }
}

/// The supported shadow map size nearest to `requested`.
pub fn snap_shadow_resolution(requested: u32) -> (size: u32)
    ensures
        size == snapped_shadow_spec(requested),
        shadow_sizes().contains(size),
        forall|i: int|
            0 <= i < 3 ==> abs_diff(requested, size) <= abs_diff(
                requested,
                #[trigger] shadow_sizes()[i],
            ),
{
    let d0 = abs_diff_u32(requested, 1024);
    let d1 = abs_diff_u32(requested, 1536);
    let d2 = abs_diff_u32(requested, 2048);
    let size = if d0 <= d1 && d0 <= d2 {
        1024
    } else if d1 <= d2 {
        1536
    } else {
        2048
    };
    proof {
        assert(shadow_sizes()[0] == 1024);
        assert(shadow_sizes()[1] == 1536);
        assert(shadow_sizes()[2] == 2048);
    }
    size
}

/// Step counts and sizes of the configurable passes.
#[derive(Clone, Copy, Debug, PartialEq, Eq, Structural)]
pub struct QualitySteps {
    pub gi_rays: u32,
    pub volumetric_steps: u32,
    pub cloud_view_steps: u32,
    pub cloud_light_steps: u32,
    pub ssr_steps: u32,
    pub shadow_resolution: u32,
    pub pom_steps: u32,
}

/// The requested quality, each setting clamped or snapped to what its pass supports.
pub open spec fn accepted_quality(requested: QualitySteps) -> QualitySteps {
    QualitySteps {
        gi_rays: clamp_spec(requested.gi_rays, 1, 6),
        volumetric_steps: clamp_spec(requested.volumetric_steps, 16, 64),
        cloud_view_steps: clamp_spec(requested.cloud_view_steps, 16, 64),
        cloud_light_steps: clamp_spec(requested.cloud_light_steps, 1, 16),
        ssr_steps: clamp_spec(requested.ssr_steps, 16, 64),
        shadow_resolution: snapped_shadow_spec(requested.shadow_resolution),
        pom_steps: clamp_spec(requested.pom_steps, 1, 32),
    }
}

impl QualitySteps {
    /// The settings the renderer applies for the request `self`.
    pub fn accepted(self) -> (q: QualitySteps)
        ensures
            q == accepted_quality(self),
    {
        QualitySteps {
            gi_rays: clamp_u32(self.gi_rays, 1, 6),
            volumetric_steps: clamp_u32(self.volumetric_steps, 16, 64),
            cloud_view_steps: clamp_u32(self.cloud_view_steps, 16, 64),
            cloud_light_steps: clamp_u32(self.cloud_light_steps, 1, 16),
            ssr_steps: clamp_u32(self.ssr_steps, 16, 64),
            shadow_resolution: snap_shadow_resolution(self.shadow_resolution),
            pom_steps: clamp_u32(self.pom_steps, 1, 32),
        }
    }
}

/// Accepting settings twice changes nothing: accepted settings are already supported.
pub proof fn lemma_accepted_quality_is_stable(requested: QualitySteps)
    ensures
        accepted_quality(accepted_quality(requested)) == accepted_quality(requested),
{
}

} // verus!
