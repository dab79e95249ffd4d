use voxelforge::clipmap::{Clipmap, ClipmapLevel, CLIPMAP_LEVELS};
use voxelforge::ivec::{IVec3, UVec3};

#[test]
fn clipmap_toroidal_wrap_preserves_logical_voxels() {
    let mut level = ClipmapLevel::new(0);
    level.origin = IVec3::new(-64, -64, -64);
    level.ring_offset = UVec3::new(7, 19, 63);
    let logical = IVec3::new(12, -2, 91);
    let before = level.logical_to_physical(logical);
    level.move_to(IVec3::new(-64 + 5, -64 - 3, -64 + 2));
    let after = level.logical_to_physical(logical);
    assert_eq!(before, after);
}

#[test]
fn clipmap_move_updates_only_exposed_slabs() {
    let mut level = ClipmapLevel::new(0);
    level.ready = true;
    let update = level.move_to(IVec3::new(1, 0, 0));
    assert!(!update.full_rebuild);
    assert_eq!(update.exposed_cells, 128 * 128);
    assert_eq!(update.regions.len(), 1);
}

#[test]
fn clipmap_teleport_requests_full_rebuild() {
    let mut level = ClipmapLevel::new(0);
    let update = level.move_to(IVec3::new(128, 0, 0));
    assert!(update.full_rebuild);
    assert_eq!(update.exposed_cells, 128 * 128 * 128);
    assert!(update.history_reset);
}

#[test]
fn first_update_is_full_rebuild_even_at_zero_origin() {
    let mut clipmap = Clipmap::new();
    let updates = clipmap.update_camera(IVec3::new(64, 64, 64));
    assert_eq!(updates.len(), CLIPMAP_LEVELS);
    assert!(updates.iter().all(|update| update.full_rebuild));
    assert!(updates.iter().all(|update| update.revision == 1));
}

#[test]
fn in_flight_origin_does_not_restart_full_rebuild() {
    let mut clipmap = Clipmap::new();
    let camera = IVec3::new(64, 64, 64);
    assert_eq!(clipmap.update_camera(camera).len(), CLIPMAP_LEVELS);
    assert!(clipmap.update_camera(camera).is_empty());
    assert!(clipmap.levels.iter().all(|level| !level.ready));
}

#[test]
fn edit_invalidates_all_levels_for_full_rebuild() {
    let mut clipmap = Clipmap::new();
    let camera = IVec3::new(64, 64, 64);
    let initial = clipmap.update_camera(camera);
    assert_eq!(initial.len(), CLIPMAP_LEVELS);
    for update in initial {
        clipmap.levels[update.level].mark_ready(update.revision);
    }
    clipmap.invalidate_all();
    let updates = clipmap.update_camera(camera);
    assert_eq!(updates.len(), CLIPMAP_LEVELS);
    assert!(updates.iter().all(|update| update.full_rebuild));
    assert!(updates.iter().all(|update| update.exposed_cells == 128 * 128 * 128));
    assert!(updates.iter().all(|update| update.revision == 1));
}

#[test]
fn texture_memory_covers_both_volumes_of_every_level() {
    let clipmap = Clipmap::new();
    assert_eq!(clipmap.texture_memory_bytes(), 4 * 2 * 128 * 128 * 128 * 4);
}

#[test]
fn stale_revision_does_not_publish_a_level() {
    let mut clipmap = Clipmap::new();
    let updates = clipmap.update_camera(IVec3::new(64, 64, 64));
    let revision = updates[0].revision;
    assert!(!clipmap.mark_level_ready(0, revision + 1));
    assert!(!clipmap.levels[0].ready);
    assert!(clipmap.mark_level_ready(0, revision));
    assert!(clipmap.levels[0].ready);
    assert!(!clipmap.mark_level_ready(7, revision));
}
