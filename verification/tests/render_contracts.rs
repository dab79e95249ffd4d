use voxelforge::atmosphere::LutDescriptor;
use voxelforge::bloom::BloomPyramid;
use voxelforge::chunk_slots::{slot_size, ChunkSlot, SlotArena, DEFAULT_SLOTS};
use voxelforge::clouds::CloudShadowSchedule;
use voxelforge::depth_pyramid::DepthPyramidParams;
use voxelforge::gi::{trace_size, GiCapabilities, GiMode, GiRenderer};
use voxelforge::gtao::{ao_size, GtaoConfig, GtaoTargetContract};
use voxelforge::preset::RenderPreset;
use voxelforge::quality::{snap_shadow_resolution, QualitySteps};
use voxelforge::readback::{padded_row_bytes, unpad_rows};
use voxelforge::views::{debug_for_view, DeferredDebug, EffectStage, RenderView, RuntimeMode};
use voxelforge::voxelize::{emission_bytes, VoxelCell, VoxelKind, VoxelPacker};
use voxelforge::ivec::IVec3;

#[test]
fn debug_modes_have_stable_shader_values() {
    assert_eq!(DeferredDebug::Final as u32, 0);
    assert_eq!(DeferredDebug::Reactive as u32, 7);
}

#[test]
fn shader_values_match_declaration_order() {
    let all = [
        DeferredDebug::Final,
        DeferredDebug::Albedo,
        DeferredDebug::Normal,
        DeferredDebug::Depth,
        DeferredDebug::Light,
        DeferredDebug::Material,
        DeferredDebug::Motion,
        DeferredDebug::Reactive,
    ];
    for debug in all {
        assert_eq!(debug.shader_value(), debug as u32);
    }
    assert_eq!(DeferredDebug::default(), DeferredDebug::Final);
}

#[test]
fn views_without_a_gbuffer_channel_show_the_final_image() {
    assert_eq!(debug_for_view(RenderView::Albedo), DeferredDebug::Albedo);
    assert_eq!(debug_for_view(RenderView::Reactive), DeferredDebug::Reactive);
    assert_eq!(debug_for_view(RenderView::Light), DeferredDebug::Final);
    assert_eq!(debug_for_view(RenderView::Gi), DeferredDebug::Final);
    assert_eq!(debug_for_view(RenderView::default()), DeferredDebug::Final);
}

#[test]
fn effect_stages_have_entry_points_in_order() {
    let entries: Vec<&str> = EffectStage::ALL.iter().map(|stage| stage.entry()).collect();
    assert_eq!(
        entries,
        ["gi_trace", "gi_temporal", "gi_denoise", "gi_composite", "volumetric", "clouds", "cloud_shadow"]
    );
    for (i, stage) in EffectStage::ALL.iter().enumerate() {
        assert_eq!(stage.index(), i);
    }
    assert_eq!(RuntimeMode::default().debug_view, 0);
}

#[test]
fn presets_parse_their_names_only() {
    assert_eq!(RenderPreset::parse("performance").unwrap(), RenderPreset::Performance);
    assert_eq!(RenderPreset::parse("balanced").unwrap(), RenderPreset::Balanced);
    assert_eq!(RenderPreset::parse("m5_air_high").unwrap(), RenderPreset::M5AirHigh);
    assert_eq!(RenderPreset::parse("cinematic").unwrap(), RenderPreset::Cinematic);
    let error = RenderPreset::parse("ultra").unwrap_err();
    assert_eq!(error.given, "ultra");
    assert_eq!(
        error.message(),
        "--preset must be performance, balanced, m5_air_high, or cinematic"
    );
    assert!(RenderPreset::parse("Balanced").is_err());
    assert_eq!(RenderPreset::default(), RenderPreset::M5AirHigh);
}

#[test]
fn gi_failure_uses_baked_lighting() {
    let mut gi = GiRenderer::transactional_init(
        GiCapabilities { rgba8_3d: true, rgba16_storage: true, max_3d_dimension: 128 },
        true,
    );
    assert_eq!(gi.mode, GiMode::Fallback);
    assert!(!gi.dispatch());
    assert_eq!(gi.dispatch_count(), 0);
    let message = gi.fallback_message().unwrap_or_default();
    assert_eq!(message.matches("GI disabled:").count(), 1);
    assert!(message.contains("using baked light + GTAO"));
    assert_eq!(gi.fallback_reason(), Some("forced GI initialization failure"));
}

#[test]
fn gi_fallback_message_names_the_reason() {
    let gi = GiRenderer::transactional_init(
        GiCapabilities { rgba8_3d: true, rgba16_storage: false, max_3d_dimension: 128 },
        false,
    );
    assert_eq!(
        gi.fallback_message().as_deref(),
        Some("GI disabled: Rgba16Float storage texture unsupported; using baked light + GTAO")
    );
    let enabled = GiRenderer::transactional_init(
        GiCapabilities { rgba8_3d: true, rgba16_storage: true, max_3d_dimension: 256 },
        false,
    );
    assert_eq!(enabled.fallback_message(), None);
    assert_eq!(GiRenderer::disabled_by_user().fallback_message(), None);
}

#[test]
fn gi_capabilities_report_the_first_missing_feature() {
    let full = GiCapabilities { rgba8_3d: true, rgba16_storage: true, max_3d_dimension: 128 };
    assert!(full.supported());
    assert_eq!(full.unsupported_reason(), "unknown capability failure");
    let small = GiCapabilities { max_3d_dimension: 127, ..full };
    assert!(!small.supported());
    assert_eq!(small.unsupported_reason(), "3D texture dimension limit below 128");
    let no_storage = GiCapabilities { rgba16_storage: false, ..small };
    assert_eq!(no_storage.unsupported_reason(), "Rgba16Float storage texture unsupported");
    let none = GiCapabilities { rgba8_3d: false, ..no_storage };
    assert_eq!(none.unsupported_reason(), "Rgba8Unorm 3D texture usage unsupported");
    let gi = GiRenderer::transactional_init(none, false);
    assert_eq!(gi.mode, GiMode::Fallback);
    assert_eq!(gi.fallback_reason(), Some("Rgba8Unorm 3D texture usage unsupported"));
}

#[test]
fn enabled_gi_counts_dispatches() {
    let mut gi = GiRenderer::transactional_init(
        GiCapabilities { rgba8_3d: true, rgba16_storage: true, max_3d_dimension: 2048 },
        false,
    );
    assert_eq!(gi.mode, GiMode::Enabled);
    assert_eq!(gi.fallback_reason(), None);
    assert!(gi.dispatch());
    assert!(gi.dispatch());
    assert_eq!(gi.dispatch_count(), 2);
    let mut off = GiRenderer::disabled_by_user();
    assert!(!off.dispatch());
    assert_eq!(off.fallback_reason(), None);
}

#[test]
fn colored_emission_encodes_warm_torch() {
    let rgb = emission_bytes(VoxelKind::Torch);
    assert!(rgb[0] as f32 / ((rgb[1] as f32 + rgb[2] as f32) * 0.5) > 1.15);
    let packer = VoxelPacker::new(IVec3::new(0, 0, 0), [1, 1, 1]);
    let (_, light) = packer.pack(&[VoxelKind::Torch]);
    assert_eq!(&light[..3], &[255, 107, 31]);
}

#[test]
fn emission_bytes_match_the_float_encoding() {
    let colours: [(VoxelKind, [f32; 3]); 8] = [
        (VoxelKind::Torch, [8.0, 3.36, 0.96]),
        (VoxelKind::Glowstone, [6.0, 3.4, 1.5]),
        (VoxelKind::SeaLantern, [3.0, 5.5, 6.5]),
        (VoxelKind::WarmLamp, [8.0, 4.4, 1.8]),
        (VoxelKind::ColdLamp, [4.5, 6.5, 8.0]),
        (VoxelKind::GlowPanel, [6.5, 6.8, 7.0]),
        (VoxelKind::Stone, [0.0; 3]),
        (VoxelKind::Air, [0.0; 3]),
    ];
    for (kind, colour) in colours {
        let expected = colour.map(|v| (v / 8.0 * 255.0).round().clamp(0.0, 255.0) as u8);
        assert_eq!(emission_bytes(kind), expected, "{kind:?}");
    }
}

#[test]
fn packer_writes_albedo_opacity_and_light_per_cell() {
    let packer = VoxelPacker::new(IVec3::new(0, 0, 0), [2, 1, 1]);
    let (material, light) = packer.pack(&[VoxelKind::Leaves, VoxelKind::Torch]);
    assert_eq!(material, vec![74, 144, 66, 128, 240, 90, 30, 255]);
    assert_eq!(light, vec![0, 0, 0, 0, 255, 107, 31, 0]);
}

#[test]
fn lod_cell_averages_opaque_light_and_sky() {
    let stone = VoxelCell { material: [128, 128, 128, 255], light: [40, 20, 0, 100], ready: true };
    let air = VoxelCell { material: [0, 0, 0, 0], light: [200, 200, 200, 50], ready: false };
    let lod = VoxelPacker::lod_equivalent(&[stone, air, stone, air]);
    assert_eq!(lod.material, [0, 0, 0, 127]);
    assert_eq!(lod.light, [40, 20, 0, 75]);
    assert!(lod.ready);
    assert!(!lod.occupied());
    assert_eq!(VoxelPacker::lod_equivalent(&[]), VoxelCell::air());
    assert!(VoxelPacker::lod_equivalent(&[stone]).occupied());
}

#[test]
fn shadow_origin_snaps_to_32_blocks_and_cadence_is_eight_frames() {
    // The camera at the world origin snaps to the cell [0, 0].
    let mut schedule = CloudShadowSchedule::default();
    assert!(schedule.update(0, [0, 0]));
    assert!(!schedule.should_update(7, [0, 0]));
    assert!(schedule.should_update(8, [0, 0]));
}

#[test]
fn shadow_refresh_follows_the_snap_cell() {
    let mut schedule = CloudShadowSchedule::default();
    assert!(schedule.update(0, [0, 0]));
    assert!(schedule.should_update(3, [32, 0]));
    assert!(!schedule.update(5, [0, 0]));
    assert_eq!(schedule.last_update_frame, Some(0));
    assert!(schedule.update(6, [32, -64]));
    assert_eq!(schedule.origin, [32, -64]);
}

#[test]
fn bloom_chain_has_six_levels() {
    assert_eq!(BloomPyramid::new(640, 360).level_count(), 6);
}

#[test]
fn bloom_levels_halve_rounding_up() {
    let pyramid = BloomPyramid::new(640, 360);
    assert_eq!(
        pyramid.levels,
        vec![(640, 360), (320, 180), (160, 90), (80, 45), (40, 23), (20, 12)]
    );
    assert_eq!(BloomPyramid::new(0, 3).levels[0], (1, 3));
    assert_eq!(BloomPyramid::new(0, 3).levels[5], (1, 1));
}

#[test]
fn gtao_contract_defaults() {
    let config = GtaoConfig::default();
    assert_eq!((config.directions, config.steps, config.temporal), (8, 4, true));
    let target = GtaoTargetContract::default();
    assert_eq!(target.output_format, "R8Unorm");
    assert!(target.half_resolution);
    assert_eq!((target.max_directions, target.max_steps), (8, 4));
    assert_eq!(ao_size((1848, 1039)), (924, 520));
    assert_eq!(ao_size((0, 1)), (1, 1));
}

#[test]
fn lut_descriptors_match_their_sizes() {
    let cube = LutDescriptor::sky_cubemap();
    assert_eq!((cube.width, cube.height, cube.layers, cube.mip_levels), (64, 64, 6, 7));
    assert_eq!(cube.format, "Rgba16Float");
    assert_eq!(LutDescriptor::transmittance().width, 256);
    assert_eq!(LutDescriptor::multiscatter().height, 32);
    assert_eq!(LutDescriptor::sky_view().height, 108);
}

#[test]
fn slots_are_handed_out_lowest_first_and_reused_last_freed_first() {
    let mut arena = SlotArena::new();
    assert_eq!(arena.free_count(), DEFAULT_SLOTS as usize);
    assert_eq!(arena.reserve(), Some(0));
    assert_eq!(arena.reserve(), Some(1));
    arena.release(0);
    assert_eq!(arena.reserve(), Some(0));
    assert_eq!(arena.reserve(), Some(2));
    let size = slot_size(256);
    assert_eq!(size, 256);
    assert_eq!(slot_size(0), 256);
    assert_eq!(slot_size(192), 384);
    let slot = ChunkSlot::new(3, size);
    assert_eq!(slot.uniform_offset, 768);
    assert_eq!(slot.slot, 3);
}

#[test]
fn exhausted_arena_reports_none() {
    let mut arena = SlotArena::new();
    for expected in 0..DEFAULT_SLOTS {
        assert_eq!(arena.reserve(), Some(expected));
    }
    assert_eq!(arena.reserve(), None);
}

#[test]
fn readback_drops_row_padding() {
    assert_eq!(padded_row_bytes(1), 256);
    assert_eq!(padded_row_bytes(64), 256);
    assert_eq!(padded_row_bytes(65), 512);
    let width = 3;
    let height = 2;
    let padded = padded_row_bytes(width) as usize;
    let mut mapped = vec![0_u8; padded * height as usize];
    for row in 0..height as usize {
        for byte in 0..12 {
            mapped[row * padded + byte] = (row * 100 + byte) as u8;
        }
    }
    let pixels = unpad_rows(&mapped, width, height);
    assert_eq!(pixels.len(), 24);
    assert_eq!(pixels[0], 0);
    assert_eq!(pixels[11], 11);
    assert_eq!(pixels[12], 100);
    assert_eq!(pixels[23], 111);
}

#[test]
fn depth_pyramid_params_default_to_zero() {
    let params = DepthPyramidParams::default();
    assert_eq!(params.source_size, [0, 0]);
    assert_eq!(params.source_mip, 0);
}

#[test]
fn quality_settings_are_clamped_and_shadow_snapped() {
    let requested = QualitySteps {
        gi_rays: 0,
        volumetric_steps: 100,
        cloud_view_steps: 32,
        cloud_light_steps: 0,
        ssr_steps: 8,
        shadow_resolution: 1300,
        pom_steps: 40,
    };
    let accepted = requested.accepted();
    assert_eq!(
        accepted,
        QualitySteps {
            gi_rays: 1,
            volumetric_steps: 64,
            cloud_view_steps: 32,
            cloud_light_steps: 1,
            ssr_steps: 16,
            shadow_resolution: 1536,
            pom_steps: 32,
        }
    );
    assert_eq!(accepted.accepted(), accepted);
    assert_eq!(snap_shadow_resolution(0), 1024);
    assert_eq!(snap_shadow_resolution(1280), 1024);
    assert_eq!(snap_shadow_resolution(1792), 1536);
    assert_eq!(snap_shadow_resolution(1793), 2048);
    assert_eq!(snap_shadow_resolution(u32::MAX), 2048);
}

#[test]
fn gi_traces_at_quarter_resolution() {
    assert_eq!(trace_size(1848, 1040), (462, 260));
    assert_eq!(trace_size(1849, 1), (463, 1));
    assert_eq!(trace_size(0, 0), (1, 1));
}
