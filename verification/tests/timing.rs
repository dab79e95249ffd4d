use voxelforge::timing::{frame_ticks, GpuTiming, TimedPass, TIMED_PASS_COUNT};

#[test]
fn pass_order_and_labels_are_stable() {
    assert_eq!(TIMED_PASS_COUNT, 20);
    assert_eq!(TimedPass::ALL[0], TimedPass::Shadow);
    assert_eq!(TimedPass::ALL[19], TimedPass::Present);
    assert_eq!(
        TimedPass::ALL.iter().map(|pass| pass.label()).collect::<Vec<_>>(),
        [
            "shadow",
            "gbuffer",
            "depth_pyramid",
            "gtao",
            "atmosphere",
            "deferred",
            "gi_trace",
            "gi_temporal",
            "gi_denoise",
            "volumetric",
            "clouds",
            "cloud_shadow",
            "glass",
            "water",
            "bloom",
            "exposure",
            "taau_tonemap",
            "viewmodel",
            "ui",
            "present",
        ]
    );
    for (i, pass) in TimedPass::ALL.iter().enumerate() {
        assert_eq!(pass.index(), i);
        assert_eq!(pass.query_indices(), (2 * i as u32, 2 * i as u32 + 1));
    }
}

#[test]
fn legacy_forward_name_maps_to_glass_query() {
    assert_eq!(TimedPass::Forward, TimedPass::Glass);
    assert_eq!(TimedPass::Forward.index(), TimedPass::Glass.index());
}

#[test]
fn missing_samples_report_zero_ticks() {
    let mut ticks = [0_u64; 40];
    ticks[2] = 100;
    ticks[3] = 350;
    ticks[26] = 10;
    ticks[27] = 99;
    ticks[4] = 50;
    ticks[5] = 20;
    let mask = (1 << TimedPass::GBuffer.index()) | (1 << TimedPass::DepthPyramid.index());
    let frame = frame_ticks(&ticks, mask, 9);
    assert_eq!(frame.pass_ticks[TimedPass::GBuffer.index()], 250);
    assert_eq!(frame.pass_ticks[TimedPass::Water.index()], 0);
    // A reversed pair saturates to zero instead of wrapping.
    assert_eq!(frame.pass_ticks[TimedPass::DepthPyramid.index()], 0);
    assert_eq!(frame.valid_mask, mask);
    assert_eq!(frame.rendered_frame_index, 9);
}

#[test]
fn unsupported_timing_never_activates() {
    let mut timing = GpuTiming::new(false);
    timing.set_enabled(true);
    assert!(!timing.active());
    assert!(!timing.mark_written(TimedPass::Shadow));
    assert_eq!(timing.resolve(), None);
}

#[test]
fn frames_resolve_into_free_slots_and_complete_in_order() {
    let mut timing = GpuTiming::new(true);
    timing.set_enabled(true);
    assert!(timing.active());
    assert!(timing.mark_written(TimedPass::GBuffer));
    assert_eq!(timing.written(), 1 << 1);
    assert_eq!(timing.resolve(), Some(0));
    assert_eq!(timing.written(), 0);
    timing.mark_written(TimedPass::Present);
    assert_eq!(timing.resolve(), Some(1));
    assert_eq!(timing.resolve(), Some(2));
    // Every slot is pending: the fourth frame is dropped.
    assert_eq!(timing.resolve(), None);
    let mut started = timing.start_mapping();
    started.sort_unstable();
    assert_eq!(started, vec![0, 1, 2]);
    assert!(timing.start_mapping().is_empty());
    let mut ticks = [0_u64; 40];
    ticks[2] = 5;
    ticks[3] = 8;
    let first = timing.readback_complete(0, &ticks);
    assert_eq!(first.rendered_frame_index, 0);
    assert_eq!(first.pass_ticks[1], 3);
    timing.readback_failed(1);
    let third = timing.readback_complete(2, &ticks);
    assert_eq!(third.rendered_frame_index, 2);
    assert_eq!(third.pass_ticks[1], 0);
    assert_eq!(timing.last_frame, Some(third));
    assert_eq!(timing.take_last_frame(), Some(first));
    assert_eq!(timing.take_last_frame(), Some(third));
    assert_eq!(timing.take_last_frame(), None);
    // Slot 0 is free again.
    assert_eq!(timing.resolve(), Some(0));
}

#[test]
fn disabling_timing_forgets_completed_frames() {
    let mut timing = GpuTiming::new(true);
    timing.set_enabled(true);
    timing.resolve();
    timing.start_mapping();
    timing.readback_complete(0, &[0_u64; 40]);
    assert_eq!(timing.completed_len(), 1);
    timing.set_enabled(false);
    assert_eq!(timing.completed_len(), 0);
    assert_eq!(timing.last_frame, None);
    assert!(!timing.active());
}

#[test]
fn completed_queue_keeps_the_newest_ring() {
    let mut timing = GpuTiming::new(true);
    timing.set_enabled(true);
    for _ in 0..5 {
        let slot = timing.resolve().unwrap();
        timing.start_mapping();
        timing.readback_complete(slot, &[0_u64; 40]);
    }
    assert_eq!(timing.completed_len(), 3);
    assert_eq!(timing.take_last_frame().unwrap().rendered_frame_index, 2);
}
