use voxelforge::allocation_stats::{AllocationDelta, AllocationStats, TrackedScratch};
use voxelforge::memory::{
    chunk_meshes_bytes, saturating_total, texture_bytes, ChunkBuffers, TextureShape,
};

#[test]
fn tracked_scratch_reports_growth_once_per_capacity_change() {
    let mut stats = AllocationStats::new(true);
    let mut scratch = TrackedScratch::with_capacity(1);
    stats.begin_frame();
    scratch.push(&mut stats, 1_u8);
    scratch.push(&mut stats, 2_u8);
    let delta = stats.finish_frame();
    assert_eq!(delta.cpu_capacity_growths, 1);
    assert_eq!(delta.gpu_resource_creations, 0);
}

#[test]
fn disabled_stats_are_zero_and_allocation_free_contract_is_explicit() {
    let mut stats = AllocationStats::new(false);
    stats.begin_frame();
    stats.note_cpu_capacity_growth();
    stats.note_gpu_resource_creation();
    assert_eq!(stats.finish_frame(), AllocationDelta::default());
}

#[test]
fn enabled_stats_count_each_kind_and_reset_per_frame() {
    let mut stats = AllocationStats::new(true);
    stats.begin_frame();
    stats.note_cpu_capacity_growth();
    stats.note_gpu_resource_creations(3);
    stats.note_gpu_resource_creation();
    let delta = stats.finish_frame();
    assert_eq!(delta.cpu_capacity_growths, 1);
    assert_eq!(delta.gpu_resource_creations, 4);
    assert_eq!(delta.total(), 5);
    assert_eq!(stats.last_frame(), delta);
    stats.begin_frame();
    assert_eq!(stats.finish_frame(), AllocationDelta::default());
}

#[test]
fn scratch_within_capacity_reports_no_growth() {
    let mut stats = AllocationStats::new(true);
    let mut scratch = TrackedScratch::with_capacity(8);
    stats.begin_frame();
    for value in 0..8_u32 {
        scratch.push(&mut stats, value);
    }
    scratch.clear();
    scratch.push(&mut stats, 9);
    assert_eq!(scratch.as_slice(), &[9]);
    assert_eq!(stats.finish_frame().cpu_capacity_growths, 0);
}

#[test]
fn saturating_sum_keeps_accounting_finite() {
    assert_eq!(usize::MAX.saturating_add(1), usize::MAX);
    assert_eq!(3usize.saturating_add(4), 7);
}

#[test]
fn saturating_total_clamps_instead_of_wrapping() {
    assert_eq!(saturating_total(&[3, 4]), 7);
    assert_eq!(saturating_total(&[usize::MAX, 1, 5]), usize::MAX);
    assert_eq!(saturating_total(&[]), 0);
}

#[test]
fn texture_bytes_sums_every_mip_and_sample() {
    let rgba8 = TextureShape {
        width: 16,
        height: 16,
        depth_or_array_layers: 2,
        mip_level_count: 5,
        sample_count: 1,
        block_copy_size: Some(4),
        block_width: 1,
        block_height: 1,
    };
    // 16x16 + 8x8 + 4x4 + 2x2 + 1x1 texels, two layers, four bytes.
    assert_eq!(texture_bytes(&rgba8), (256 + 64 + 16 + 4 + 1) * 2 * 4);
    let msaa = TextureShape { sample_count: 4, mip_level_count: 1, ..rgba8 };
    assert_eq!(texture_bytes(&msaa), 16 * 16 * 2 * 4 * 4);
    let compressed = TextureShape {
        width: 10,
        height: 6,
        depth_or_array_layers: 1,
        mip_level_count: 1,
        sample_count: 1,
        block_copy_size: Some(16),
        block_width: 4,
        block_height: 4,
    };
    assert_eq!(texture_bytes(&compressed), 3 * 2 * 16);
    let depth_stencil = TextureShape { block_copy_size: None, ..rgba8 };
    assert_eq!(texture_bytes(&depth_stencil), 0);
}

#[test]
fn chunk_buffer_accounting_adds_every_pass() {
    let a = ChunkBuffers { vertex_bytes: 100, index_bytes: 20 };
    assert_eq!(a.buffer_memory_bytes(), 120);
    assert_eq!(chunk_meshes_bytes(Some(a), None, Some(a)), 240);
    assert_eq!(chunk_meshes_bytes(None, None, None), 0);
    let huge = ChunkBuffers { vertex_bytes: u64::MAX, index_bytes: 1 };
    assert_eq!(huge.buffer_memory_bytes(), u64::MAX as usize);
}

#[test]
fn tracked_scratch_clear_keeps_capacity_and_counts_nothing() {
    let mut stats = AllocationStats::new(true);
    let mut scratch: TrackedScratch<u32> = TrackedScratch::default();
    scratch.reserve(&mut stats, 32);
    let capacity = scratch.capacity();
    assert!(capacity >= 32);
    stats.begin_frame();
    scratch.push(&mut stats, 1);
    scratch.clear();
    assert_eq!(scratch.capacity(), capacity);
    assert_eq!(scratch.len(), 0);
    assert_eq!(stats.finish_frame(), AllocationDelta::default());
}

#[test]
fn tracked_scratch_counts_a_reserve_that_grows() {
    let mut stats = AllocationStats::new(true);
    let mut scratch: TrackedScratch<u64> = TrackedScratch::with_capacity(2);
    stats.begin_frame();
    scratch.reserve(&mut stats, 1);
    assert_eq!(stats.finish_frame().cpu_capacity_growths, 0);
    stats.begin_frame();
    scratch.reserve(&mut stats, 64);
    assert!(scratch.capacity() >= 64);
    assert_eq!(stats.finish_frame().cpu_capacity_growths, 1);
}

#[test]
fn two_scratch_lists_report_to_one_set_of_counters() {
    let mut stats = AllocationStats::new(true);
    let mut opaque: TrackedScratch<usize> = TrackedScratch::with_capacity(1);
    let mut transparent: TrackedScratch<usize> = TrackedScratch::with_capacity(1);
    stats.begin_frame();
    for value in 0..2 {
        opaque.push(&mut stats, value);
        transparent.push(&mut stats, value);
    }
    assert_eq!(stats.finish_frame().cpu_capacity_growths, 2);
}

#[test]
fn a_frame_reports_what_was_noted_since_it_began() {
    let mut stats = AllocationStats::new(true);
    stats.note_gpu_resource_creations(100);
    stats.begin_frame();
    stats.note_gpu_resource_creations(6);
    stats.note_gpu_resource_creations(2);
    stats.note_cpu_capacity_growth();
    stats.note_gpu_resource_creation();
    let delta = stats.finish_frame();
    assert_eq!(delta, AllocationDelta { cpu_capacity_growths: 1, gpu_resource_creations: 9 });
    assert_eq!(stats.finish_frame(), delta);
    assert_eq!(stats.last_frame(), delta);
    stats.begin_frame();
    stats.note_gpu_resource_creations(u32::MAX);
    stats.note_gpu_resource_creations(5);
    assert_eq!(stats.finish_frame().gpu_resource_creations, u32::MAX);
}
