use voxelforge::frame_plan::{gi_dispatches_after, plan_frame, FrameTargetsState, TargetSize};
use voxelforge::views::{RenderView, TransparentKind};

fn size(width: u32, height: u32) -> Option<TargetSize> {
    Some(TargetSize { width, height })
}

fn empty() -> FrameTargetsState {
    FrameTargetsState {
        gbuffer: None,
        frame_targets: None,
        gpu_gi_dispatch: size(462, 260),
        gi_adapter: true,
        effects_ready: false,
    }
}

#[test]
fn first_deferred_frame_creates_every_target() {
    let plan = plan_frame(RenderView::Final, 1848, 1040, empty(), &[TransparentKind::Water]);
    assert!(plan.deferred);
    assert!(plan.recreate_gbuffer && plan.recreate_frame_targets && plan.prepare_effects);
    assert_eq!(plan.gpu_creations, 8);
    // 1848 / 4 = 462 and 1040 / 4 = 260: GI already traces at that size.
    assert!(!plan.rebuild_gi);
    assert!(plan.water_pass && !plan.glass_pass);
    assert!(plan.resolve_timing && !plan.lod_debug);
}

#[test]
fn a_steady_frame_creates_nothing() {
    let steady = FrameTargetsState {
        gbuffer: size(1848, 1040),
        frame_targets: size(1848, 1040),
        effects_ready: true,
        ..empty()
    };
    let plan = plan_frame(RenderView::Lod, 1848, 1040, steady, &[]);
    assert_eq!(plan.gpu_creations, 0);
    assert!(!plan.recreate_gbuffer && !plan.recreate_frame_targets && !plan.prepare_effects);
    assert!(plan.lod_debug);
    let missing_effects = FrameTargetsState { effects_ready: false, ..steady };
    let plan = plan_frame(RenderView::Final, 1848, 1040, missing_effects, &[]);
    assert!(plan.prepare_effects);
    assert_eq!(plan.gpu_creations, 0);
}

#[test]
fn a_resize_rebuilds_gi_at_the_quarter_size() {
    let steady = FrameTargetsState {
        gbuffer: size(1848, 1040),
        frame_targets: size(1848, 1040),
        effects_ready: true,
        ..empty()
    };
    let plan = plan_frame(RenderView::Gi, 1850, 1040, steady, &[TransparentKind::Glass]);
    assert!(plan.recreate_gbuffer && plan.recreate_frame_targets && plan.rebuild_gi);
    assert_eq!(plan.gpu_creations, 8);
    assert!(plan.glass_pass);
    let no_adapter = FrameTargetsState { gi_adapter: false, ..steady };
    assert!(!plan_frame(RenderView::Gi, 1850, 1040, no_adapter, &[]).rebuild_gi);
    let only_gbuffer_stale = FrameTargetsState { gbuffer: size(1, 1), ..steady };
    let plan = plan_frame(RenderView::Final, 1848, 1040, only_gbuffer_stale, &[]);
    assert_eq!(plan.gpu_creations, 6);
    assert!(!plan.rebuild_gi);
}

#[test]
fn the_light_view_draws_forward_only() {
    let plan = plan_frame(
        RenderView::Light,
        640,
        480,
        empty(),
        &[TransparentKind::Glass, TransparentKind::Water],
    );
    assert!(!plan.deferred && !plan.prepare_effects && !plan.resolve_timing);
    assert_eq!(plan.gpu_creations, 0);
    assert!(!plan.glass_pass && !plan.water_pass);
}

#[test]
fn gi_dispatches_count_only_valid_enabled_frames() {
    assert_eq!(gi_dispatches_after(10, true, true), 15);
    assert_eq!(gi_dispatches_after(10, false, true), 10);
    assert_eq!(gi_dispatches_after(10, true, false), 10);
    assert_eq!(gi_dispatches_after(u64::MAX - 2, true, true), u64::MAX);
}
