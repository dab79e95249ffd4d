use voxelforge::clipmap::Clipmap;
use voxelforge::ivec::{IVec3, UVec3};
use voxelforge::upload::{upload_plan, wrapped_parts, VoxelUpload, WrappedPart, VOXELS};

#[test]
fn wrapped_parts_cover_a_wrapped_axis_without_crossing_texture_edge() {
    let (parts, count) = wrapped_parts(126, 6);
    assert_eq!(count, 2);
    assert_eq!(parts[0], WrappedPart { source: 0, physical: 126, len: 2 });
    assert_eq!(parts[1], WrappedPart { source: 2, physical: 0, len: 4 });
    assert!(parts[..count].iter().all(|part| part.physical + part.len <= VOXELS));
    assert_eq!(parts[..count].iter().map(|part| part.len).sum::<u32>(), 6);
}

#[test]
fn wrapped_parts_preserve_unwrapped_source_offset() {
    let (parts, count) = wrapped_parts(8, 120);
    assert_eq!(count, 1);
    assert_eq!(parts[0].source, 0);
    assert_eq!(parts[0].physical, 8);
    assert_eq!(parts[0].len, 120);
}

#[test]
fn empty_axis_has_no_parts() {
    let (_, count) = wrapped_parts(300, 0);
    assert_eq!(count, 0);
    let (parts, count) = wrapped_parts(300, 4);
    assert_eq!(count, 1);
    assert_eq!(parts[0], WrappedPart { source: 0, physical: 300 % 128, len: 4 });
}

fn upload(level: u8, origin: IVec3, extent: UVec3) -> VoxelUpload {
    let cells = (extent.x * extent.y * extent.z) as usize;
    VoxelUpload {
        level,
        logical_origin: origin,
        extent,
        material: vec![1; cells * 4],
        light: vec![2; cells * 4],
        revision: 1,
    }
}

#[test]
fn upload_plan_splits_a_box_that_wraps_on_x() {
    let clipmap = Clipmap::new();
    let origin = clipmap.levels[0].origin;
    let logical = IVec3::new(origin.x + 126, origin.y, origin.z);
    let plan = upload_plan(&clipmap, &upload(0, logical, UVec3::new(4, 2, 3)));
    assert_eq!(plan.len(), 2);
    assert_eq!(plan[0].origin, UVec3::new(126, 0, 0));
    assert_eq!(plan[0].extent, UVec3::new(2, 2, 3));
    assert_eq!(plan[0].source_offset, 0);
    assert_eq!(plan[1].origin, UVec3::new(0, 0, 0));
    assert_eq!(plan[1].extent, UVec3::new(2, 2, 3));
    assert_eq!(plan[1].source_offset, 2 * 4);
}

#[test]
fn upload_plan_slices_deep_boxes() {
    let clipmap = Clipmap::new();
    let origin = clipmap.levels[1].origin;
    let plan = upload_plan(&clipmap, &upload(1, origin, UVec3::new(128, 128, 128)));
    // 4 MiB per copy holds 64 slices of 128x128 cells.
    assert_eq!(plan.len(), 2);
    assert_eq!(plan[0].extent, UVec3::new(128, 128, 64));
    assert_eq!(plan[1].origin, UVec3::new(0, 0, 64));
    assert_eq!(plan[1].source_offset, 64 * 128 * 128 * 4);
}

#[test]
fn upload_plan_rejects_bad_uploads() {
    let clipmap = Clipmap::new();
    let origin = clipmap.levels[0].origin;
    assert!(upload_plan(&clipmap, &upload(4, origin, UVec3::new(1, 1, 1))).is_empty());
    assert!(upload_plan(&clipmap, &upload(0, origin, UVec3::new(0, 1, 1))).is_empty());
    let mut short = upload(0, origin, UVec3::new(2, 2, 2));
    short.light.pop();
    assert!(upload_plan(&clipmap, &short).is_empty());
}

#[test]
fn upload_plan_writes_each_cell_once_at_its_texel() {
    let mut clipmap = Clipmap::new();
    clipmap.levels[2].ring_offset = UVec3::new(120, 3, 126);
    let origin = clipmap.levels[2].origin;
    let logical = IVec3::new(origin.x + 5, origin.y + 7, origin.z + 1);
    let extent = UVec3::new(6, 3, 5);
    let plan = upload_plan(&clipmap, &upload(2, logical, extent));
    let ring = clipmap.levels[2].ring_offset;
    for cz in 0..extent.z {
        for cy in 0..extent.y {
            for cx in 0..extent.x {
                let covering: Vec<_> = plan
                    .iter()
                    .filter(|c| {
                        c.source.x <= cx
                            && cx < c.source.x + c.extent.x
                            && c.source.y <= cy
                            && cy < c.source.y + c.extent.y
                            && c.source.z <= cz
                            && cz < c.source.z + c.extent.z
                    })
                    .collect();
                assert_eq!(covering.len(), 1, "cell {cx} {cy} {cz}");
                let c = covering[0];
                assert_eq!(c.origin.x + cx - c.source.x, (5 + cx + ring.x) % 128);
                assert_eq!(c.origin.y + cy - c.source.y, (7 + cy + ring.y) % 128);
                assert_eq!(c.origin.z + cz - c.source.z, (1 + cz + ring.z) % 128);
                let offset = ((c.source.z * extent.y + c.source.y) * extent.x + c.source.x) * 4;
                assert_eq!(c.source_offset, offset as usize);
            }
        }
    }
}
