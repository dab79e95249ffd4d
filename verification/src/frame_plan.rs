//! The per-frame decisions of the renderer: which path a view takes,
//! which render targets are recreated for the internal resolution, when
//! the effect graph is rebuilt, how many GPU resources the frame creates,
//! and which forward passes run.  Encoding the passes is the caller's work.

use vstd::prelude::*;
use crate::views::{RenderView, TransparentKind};

verus! {

/// Width and height of a render target or dispatch grid.
#[derive(Clone, Copy, Debug, PartialEq, Eq, Structural)]
pub struct TargetSize {
    pub width: u32,
    pub height: u32,
}

/// Render targets the renderer holds when a frame starts.
#[derive(Clone, Copy, Debug, PartialEq, Eq, Structural)]
pub struct FrameTargetsState {
    /// Size of the G-buffer, if one exists.
    pub gbuffer: Option<TargetSize>,
    /// Size of the frame colour targets, if they exist.
    pub frame_targets: Option<TargetSize>,
    /// Dispatch size of the GPU GI trace, if GPU GI runs.
    pub gpu_gi_dispatch: Option<TargetSize>,
    /// An adapter is at hand to rebuild GPU GI.
    pub gi_adapter: bool,
    /// The GTAO, runtime-effect and volumetric graphs all exist.
    pub effects_ready: bool,
}

/// What a frame does before and around its passes.
#[derive(Clone, Copy, Debug, PartialEq, Eq, Structural)]
pub struct FramePlan {
    /// The view goes through the G-buffer and deferred lighting; the light
    /// view alone draws the opaque chunks straight into the window.
    pub deferred: bool,
    /// The G-buffer is created anew at the internal size.
    pub recreate_gbuffer: bool,
    /// GPU GI is rebuilt for the new trace size (it keeps running at the
    /// old size when the rebuild fails).
    pub rebuild_gi: bool,
    /// The frame colour targets are created anew at the internal size.
    pub recreate_frame_targets: bool,
    /// The effect graph is prepared for the internal size.
    pub prepare_effects: bool,
    /// GPU resources the frame creates: six for a G-buffer, two for the
    /// frame targets.
    pub gpu_creations: u32,
    /// The distant-terrain material shows its LOD debug colours instead of
    /// the parallax step count.
    pub lod_debug: bool,
    /// A glass pass runs over the transparent draws.
    pub glass_pass: bool,
    /// A water pass runs over the transparent draws.
    pub water_pass: bool,
    /// The frame's timestamps are resolved and read back.
    pub resolve_timing: bool,
}

/// `ceil(v / 4)`.
pub open spec fn quarter_ceil(v: u32) -> int {
    (v as int + 3) / 4
}

/// A target of `current` size has to be made for `(width, height)`.
pub open spec fn needs_target(current: Option<TargetSize>, width: u32, height: u32) -> bool {
    match current {
        None => true,
        Some(size) => size.width != width || size.height != height,
    }
}

pub open spec fn has_kind(transparent: Seq<TransparentKind>, kind: TransparentKind) -> bool {
    exists|i: int| 0 <= i < transparent.len() && transparent[i] == kind
}

/// The plan of a frame of `view` at the internal size `(width, height)`.
pub open spec fn frame_plan_spec(
    view: RenderView,
    width: u32,
    height: u32,
    state: FrameTargetsState,
    transparent: Seq<TransparentKind>,
) -> FramePlan {
    let deferred = view != RenderView::Light;
    let recreate_gbuffer = deferred && needs_target(state.gbuffer, width, height);
    let recreate_frame_targets = deferred && needs_target(state.frame_targets, width, height);
    let rebuild_gi = recreate_gbuffer && state.gi_adapter && match state.gpu_gi_dispatch {
        Some(d) => d.width != quarter_ceil(width) || d.height != quarter_ceil(height),
        None => false,
    };
    FramePlan {
        deferred,
        recreate_gbuffer,
        rebuild_gi,
        recreate_frame_targets,
        prepare_effects: deferred && (recreate_gbuffer || recreate_frame_targets
            || !state.effects_ready),
        gpu_creations: ((if recreate_gbuffer {
            6int
        } else {
            0
        }) + (if recreate_frame_targets {
            2int
        } else {
            0
        })) as u32,
        lod_debug: view == RenderView::Lod,
        glass_pass: deferred && has_kind(transparent, TransparentKind::Glass),
        water_pass: deferred && has_kind(transparent, TransparentKind::Water),
        resolve_timing: deferred,
    }
}

fn needs_target_exec(current: Option<TargetSize>, width: u32, height: u32) -> (r: bool)
    ensures
        r == needs_target(current, width, height),
{
    match current {
        None => true,
        Some(size) => size.width != width || size.height != height,
    }
}

fn contains_kind(transparent: &[TransparentKind], kind: TransparentKind) -> (r: bool)
    ensures
        r == has_kind(transparent@, kind),
{
    let mut i: usize = 0;
    while i < transparent.len()
        invariant
            i <= transparent@.len(),
            forall|j: int| 0 <= j < i ==> transparent@[j] != kind,
        decreases transparent@.len() - i,
    {
        if transparent[i] == kind {
            return true;
        }
        i = i + 1;
    }
    false
}

/// Decide a frame of `view` at the internal size `(width, height)` with the
/// targets of `state` and the kinds of this frame's transparent draws.
pub fn plan_frame(
    view: RenderView,
    width: u32,
    height: u32,
    state: FrameTargetsState,
    transparent: &[TransparentKind],
) -> (plan: FramePlan)
    ensures
        plan == frame_plan_spec(view, width, height, state, transparent@),
{
    let deferred = view != RenderView::Light;
    let recreate_gbuffer = deferred && needs_target_exec(state.gbuffer, width, height);
    let recreate_frame_targets = deferred && needs_target_exec(state.frame_targets, width, height);
    let rebuild_gi = recreate_gbuffer && state.gi_adapter && match state.gpu_gi_dispatch {
        Some(d) => d.width as u64 != (width as u64 + 3) / 4 || d.height as u64 != (height as u64
            + 3) / 4,
        None => false,
    };
    let mut gpu_creations: u32 = 0;
    if recreate_gbuffer {
        gpu_creations = gpu_creations + 6;
    }
    if recreate_frame_targets {
        gpu_creations = gpu_creations + 2;
    }
    FramePlan {
        deferred,
        recreate_gbuffer,
        rebuild_gi,
        recreate_frame_targets,
        prepare_effects: deferred && (recreate_gbuffer || recreate_frame_targets
            || !state.effects_ready),
        gpu_creations,
        lod_debug: view == RenderView::Lod,
        glass_pass: deferred && contains_kind(transparent, TransparentKind::Glass),
        water_pass: deferred && contains_kind(transparent, TransparentKind::Water),
        resolve_timing: deferred,
    }
}

/// The targets after a frame of `plan` at `(width, height)`: recreated
/// targets have the internal size; GI and the effect graph are as the
/// caller found them after its rebuild attempts.
pub open spec fn targets_after(
    state: FrameTargetsState,
    plan: FramePlan,
    width: u32,
    height: u32,
    gpu_gi_dispatch: Option<TargetSize>,
    effects_ready: bool,
) -> FrameTargetsState {
    FrameTargetsState {
        gbuffer: if plan.recreate_gbuffer {
            Some(TargetSize { width, height })
        } else {
            state.gbuffer
        },
        frame_targets: if plan.recreate_frame_targets {
            Some(TargetSize { width, height })
        } else {
            state.frame_targets
        },
        gpu_gi_dispatch,
        gi_adapter: state.gi_adapter,
        effects_ready,
    }
}

/// A steady frame creates nothing: once a deferred frame has left its
/// targets at the internal size and the effect graph is ready, the next
/// frame of any view at that size recreates no target, rebuilds neither GI
/// nor the effects, and reports no GPU resource creation.
pub proof fn lemma_steady_frame_creates_nothing(
    first: RenderView,
    next: RenderView,
    width: u32,
    height: u32,
    state: FrameTargetsState,
    gpu_gi_dispatch: Option<TargetSize>,
    transparent: Seq<TransparentKind>,
    next_transparent: Seq<TransparentKind>,
)
    requires
        first != RenderView::Light,
    ensures
        ({
            let plan = frame_plan_spec(first, width, height, state, transparent);
            let after = targets_after(state, plan, width, height, gpu_gi_dispatch, true);
            let again = frame_plan_spec(next, width, height, after, next_transparent);
            &&& !again.recreate_gbuffer
            &&& !again.recreate_frame_targets
            &&& !again.rebuild_gi
            &&& !again.prepare_effects
            &&& again.gpu_creations == 0
        }),
{
}

/// GPU GI follows the G-buffer: when a frame makes a new G-buffer and an
/// adapter is at hand, GI is rebuilt exactly when its trace grid differs,
/// in width or in height, from the smallest grid of 4x4-pixel tiles that
/// covers the internal image; otherwise it is never rebuilt.
pub proof fn lemma_gi_follows_the_quarter_size(
    view: RenderView,
    width: u32,
    height: u32,
    state: FrameTargetsState,
    transparent: Seq<TransparentKind>,
)
    ensures
        ({
            let plan = frame_plan_spec(view, width, height, state, transparent);
            &&& plan.rebuild_gi ==> plan.recreate_gbuffer && state.gi_adapter
                && state.gpu_gi_dispatch is Some
            &&& plan.recreate_gbuffer && state.gi_adapter && state.gpu_gi_dispatch is Some ==> (
            plan.rebuild_gi <==> !({
                let d = state.gpu_gi_dispatch->0;
                &&& 4 * d.width >= width && 4 * d.width < width + 4
                &&& 4 * d.height >= height && 4 * d.height < height + 4
            }))
        }),
{
}

/// The first deferred frame, with no targets yet, makes a G-buffer (six
/// GPU resources) and frame targets (two), and prepares the effects.
pub proof fn lemma_first_deferred_frame_creates_all(
    view: RenderView,
    width: u32,
    height: u32,
    state: FrameTargetsState,
    transparent: Seq<TransparentKind>,
)
    requires
        view != RenderView::Light,
        state.gbuffer is None,
        state.frame_targets is None,
    ensures
        ({
            let plan = frame_plan_spec(view, width, height, state, transparent);
            &&& plan.deferred && plan.recreate_gbuffer && plan.recreate_frame_targets
            &&& plan.prepare_effects && plan.resolve_timing
            &&& plan.gpu_creations == 8
        }),
{
}

/// Only a stale target is remade: a G-buffer already at the internal size
/// is kept (no GI rebuild), while stale frame targets alone cost two GPU
/// resources and a stale G-buffer alone six.
pub proof fn lemma_only_stale_targets_are_remade(
    view: RenderView,
    width: u32,
    height: u32,
    state: FrameTargetsState,
    transparent: Seq<TransparentKind>,
)
    requires
        view != RenderView::Light,
    ensures
        ({
            let plan = frame_plan_spec(view, width, height, state, transparent);
            let fresh = |t: Option<TargetSize>|
                t == Some(TargetSize { width, height });
            &&& fresh(state.gbuffer) ==> !plan.recreate_gbuffer && !plan.rebuild_gi
            &&& !fresh(state.gbuffer) ==> plan.recreate_gbuffer
            &&& fresh(state.frame_targets) ==> !plan.recreate_frame_targets
            &&& !fresh(state.frame_targets) ==> plan.recreate_frame_targets
            &&& fresh(state.gbuffer) && !fresh(state.frame_targets) ==> plan.gpu_creations == 2
            &&& !fresh(state.gbuffer) && fresh(state.frame_targets) ==> plan.gpu_creations == 6
        }),
{
}

/// The light view draws straight into the window: it touches no target,
/// prepares no effect, creates nothing and resolves no timestamps.
pub proof fn lemma_light_view_is_forward_only(
    width: u32,
    height: u32,
    state: FrameTargetsState,
    transparent: Seq<TransparentKind>,
)
    ensures
        ({
            let plan = frame_plan_spec(RenderView::Light, width, height, state, transparent);
            &&& !plan.deferred
            &&& !plan.recreate_gbuffer && !plan.recreate_frame_targets && !plan.rebuild_gi
            &&& !plan.prepare_effects && plan.gpu_creations == 0
            &&& !plan.glass_pass && !plan.water_pass && !plan.resolve_timing
        }),
{
}

/// The GI dispatch count after GPU GI recorded a frame: five more,
/// saturating, when its history is valid and the user has GI on.
pub fn gi_dispatches_after(before: u64, history_valid: bool, gi_enabled: bool) -> (n: u64)
    ensures
        n == (if history_valid && gi_enabled {
            before.saturating_add(5)
        } else {
            before
        }),
{
    if history_valid && gi_enabled {
        before.saturating_add(5)
    } else {
        before
    }
}

} // verus!
