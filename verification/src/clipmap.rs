//! Toroidal voxel GI clipmap: camera-following 128^3 windows per level,
//! updated by uploading only the slabs a move exposes.

use vstd::prelude::*;
use crate::ivec::{div_euclid_i32, rem_euclid_i32, unsigned_abs_i32, IVec3, UVec3};

verus! {

pub const CLIPMAP_RESOLUTION: u32 = 128;
pub const CLIPMAP_LEVELS: usize = 4;
pub const UPLOAD_BUDGET_BYTES: usize = 4 * 1024 * 1024;
pub const TEXTURE_MEMORY_BYTES: usize = CLIPMAP_LEVELS * 2 * 128 * 128 * 128 * 4;

/// Cells in one full 128^3 level.
pub open spec fn full_cells() -> int {
    2097152int
}

/// A box of logical cells to upload and where it starts in the texture.
#[derive(Clone, Copy, Debug, PartialEq, Eq, Structural)]
pub struct SlabRegion {
    /// The axis the slab is thin along, or 3 for the whole window.
    pub axis: u8,
    pub logical_start: IVec3,
    pub extent: UVec3,
    pub physical_start: UVec3,
}

/// What one level move requires the streamer to upload.
#[derive(Clone, Debug, PartialEq, Eq)]
pub struct ClipmapUpdate {
    pub level: usize,
    pub revision: u32,
    pub full_rebuild: bool,
    pub exposed_cells: usize,
    pub regions: Vec<SlabRegion>,
    pub history_reset: bool,
}

/// One level: a 128^3 window of cells of size `cell_size`, stored
/// toroidally in a texture rotated by `ring_offset`.
#[derive(Clone, Copy, Debug)]
pub struct ClipmapLevel {
    pub level: usize,
    pub cell_size: i32,
    pub origin: IVec3,
    pub ring_offset: UVec3,
    pub revision: u32,
    pub ready: bool,
}

/// `v` wrapped into the texture, `0..128`.
pub open spec fn wrap128(v: int) -> int {
    v % 128
}

pub open spec fn in_i32(v: int) -> bool {
    i32::MIN <= v <= i32::MAX
}

pub open spec fn abs(v: int) -> int {
    if v < 0 {
        -v
    } else {
        v
    }
}

pub open spec fn min128(v: int) -> int {
    if v < 128 {
        v
    } else {
        128
    }
}

/// Whether `cell` lies in the 128^3 window starting at `origin`.
pub open spec fn in_window(origin: IVec3, cell: (int, int, int)) -> bool {
    &&& origin.x <= cell.0 < origin.x + 128
    &&& origin.y <= cell.1 < origin.y + 128
    &&& origin.z <= cell.2 < origin.z + 128
}

/// Whether `cell` lies in `region`.
pub open spec fn region_contains(region: SlabRegion, cell: (int, int, int)) -> bool {
    &&& region.logical_start.x <= cell.0 < region.logical_start.x + region.extent.x
    &&& region.logical_start.y <= cell.1 < region.logical_start.y + region.extent.y
    &&& region.logical_start.z <= cell.2 < region.logical_start.z + region.extent.z
}

/// Cells of a full window that a move by `d` exposes.
pub open spec fn changed_cells_spec(d: IVec3) -> int {
    full_cells() - (128 - min128(abs(d.x as int))) * (128 - min128(abs(d.y as int))) * (128
        - min128(abs(d.z as int)))
}

impl ClipmapLevel {
    /// The ring offset lies inside the texture.
    pub open spec fn wf(self) -> bool {
        &&& self.ring_offset.x < 128
        &&& self.ring_offset.y < 128
        &&& self.ring_offset.z < 128
    }

    /// Texel holding logical cell `l`.
    pub open spec fn physical_spec(self, l: IVec3) -> UVec3 {
        UVec3 {
            x: wrap128(l.x - self.origin.x + self.ring_offset.x) as u32,
            y: wrap128(l.y - self.origin.y + self.ring_offset.y) as u32,
            z: wrap128(l.z - self.origin.z + self.ring_offset.z) as u32,
        }
    }

    /// The machine arithmetic of `logical_to_physical(l)` does not overflow.
    pub open spec fn physical_defined(self, l: IVec3) -> bool {
        &&& in_i32(l.x - self.origin.x)
        &&& in_i32(l.y - self.origin.y)
        &&& in_i32(l.z - self.origin.z)
        &&& in_i32(l.x - self.origin.x + self.ring_offset.x)
        &&& in_i32(l.y - self.origin.y + self.ring_offset.y)
        &&& in_i32(l.z - self.origin.z + self.ring_offset.z)
    }

    pub open spec fn delta_spec(self, new_origin: IVec3) -> IVec3 {
        IVec3 {
            x: (new_origin.x - self.origin.x) as i32,
            y: (new_origin.y - self.origin.y) as i32,
            z: (new_origin.z - self.origin.z) as i32,
        }
    }

    /// A move to `new_origin` must rebuild the whole level: it holds no
    /// valid texels yet, or the window jumps by a full size or more.
    pub open spec fn full_rebuild_spec(self, new_origin: IVec3) -> bool {
        let d = self.delta_spec(new_origin);
        !self.ready || abs(d.x as int) >= 128 || abs(d.y as int) >= 128 || abs(d.z as int) >= 128
    }

    pub open spec fn exposed_spec(self, new_origin: IVec3) -> int {
        if self.full_rebuild_spec(new_origin) {
            full_cells()
        } else {
            changed_cells_spec(self.delta_spec(new_origin))
        }
    }

    pub open spec fn new_ring_spec(self, new_origin: IVec3) -> UVec3 {
        let d = self.delta_spec(new_origin);
        UVec3 {
            x: wrap128(self.ring_offset.x + d.x) as u32,
            y: wrap128(self.ring_offset.y + d.y) as u32,
            z: wrap128(self.ring_offset.z + d.z) as u32,
        }
    }

    /// The level after `move_to(new_origin)`.
    pub open spec fn moved_spec(self, new_origin: IVec3) -> ClipmapLevel {
        ClipmapLevel {
            origin: new_origin,
            ring_offset: self.new_ring_spec(new_origin),
            ready: false,
            revision: self.revision.wrapping_add(1),
            ..self
        }
    }

    /// The regions `move_to(new_origin)` asks to upload.
    pub open spec fn regions_spec(self, new_origin: IVec3) -> Seq<SlabRegion> {
        if self.full_rebuild_spec(new_origin) {
            seq![
                SlabRegion {
                    axis: 3,
                    logical_start: new_origin,
                    extent: UVec3 { x: 128, y: 128, z: 128 },
                    physical_start: UVec3 { x: 0, y: 0, z: 0 },
                },
            ]
        } else {
            slabs_upto(new_origin, self.new_ring_spec(new_origin), self.delta_spec(new_origin), 3)
        }
    }

    /// `u` is what `move_to(new_origin)` reports for this level.
    pub open spec fn update_spec(self, new_origin: IVec3, u: ClipmapUpdate) -> bool {
        &&& u.level == self.level
        &&& u.revision == self.revision.wrapping_add(1)
        &&& u.full_rebuild == self.full_rebuild_spec(new_origin)
        &&& u.exposed_cells == self.exposed_spec(new_origin)
        &&& u.regions@ == self.regions_spec(new_origin)
        &&& u.history_reset == (self.exposed_spec(new_origin) * 10 >= full_cells())
    }

    /// The machine arithmetic of `move_to(new_origin)` does not overflow.
    pub open spec fn move_defined(self, new_origin: IVec3) -> bool {
        let d = self.delta_spec(new_origin);
        &&& in_i32(new_origin.x - self.origin.x) && new_origin.x - self.origin.x > i32::MIN
        &&& in_i32(new_origin.y - self.origin.y) && new_origin.y - self.origin.y > i32::MIN
        &&& in_i32(new_origin.z - self.origin.z) && new_origin.z - self.origin.z > i32::MIN
        &&& in_i32(self.ring_offset.x + d.x)
        &&& in_i32(self.ring_offset.y + d.y)
        &&& in_i32(self.ring_offset.z + d.z)
        &&& !self.full_rebuild_spec(new_origin) ==> {
            &&& d.x > 0 ==> new_origin.x + 128 <= i32::MAX
            &&& d.y > 0 ==> new_origin.y + 128 <= i32::MAX
            &&& d.z > 0 ==> new_origin.z + 128 <= i32::MAX
        }
    }
}

/// The slab a move by `d` exposes along `axis` of the new window.
pub open spec fn slab_spec(new_origin: IVec3, ring: UVec3, d: IVec3, axis: int) -> SlabRegion {
    let dv = d.at(axis);
    let count = min128(abs(dv));
    let start = new_origin.with_spec(
        axis,
        (if dv > 0 {
            new_origin.at(axis) + 128 - count
        } else {
            new_origin.at(axis)
        }) as i32,
    );
    SlabRegion {
        axis: axis as u8,
        logical_start: start,
        extent: UVec3 { x: 128, y: 128, z: 128 }.with_spec(axis, count as u32),
        physical_start: UVec3 {
            x: wrap128(start.x - new_origin.x + ring.x) as u32,
            y: wrap128(start.y - new_origin.y + ring.y) as u32,
            z: wrap128(start.z - new_origin.z + ring.z) as u32,
        },
    }
}

/// Slabs for the moving axes among the first `k`, in axis order.
pub open spec fn slabs_upto(new_origin: IVec3, ring: UVec3, d: IVec3, k: int) -> Seq<SlabRegion>
    decreases k,
{
    if k <= 0 {
        seq![]
    } else if d.at(k - 1) == 0 {
        slabs_upto(new_origin, ring, d, k - 1)
    } else {
        slabs_upto(new_origin, ring, d, k - 1).push(slab_spec(new_origin, ring, d, k - 1))
    }
}

fn wrap_u32(v: i32) -> (r: u32)
    ensures
        r == wrap128(v as int),
{
    rem_euclid_i32(v, 128) as u32
}

/// Cells of a full window exposed by a move of `delta`.
fn changed_cell_count(delta: IVec3) -> (count: usize)
    ensures
        count == changed_cells_spec(delta),
{
    let dx = unsigned_abs_i32(delta.x);
    let dy = unsigned_abs_i32(delta.y);
    let dz = unsigned_abs_i32(delta.z);
    let d0: usize = if dx < 128 {
        dx as usize
    } else {
        128
    };
    let d1: usize = if dy < 128 {
        dy as usize
    } else {
        128
    };
    let d2: usize = if dz < 128 {
        dz as usize
    } else {
        128
    };
    assert((128 - d0) * (128 - d1) <= 16384) by (nonlinear_arith)
        requires
            d0 <= 128,
            d1 <= 128,
    ;
    assert((128 - d0) * (128 - d1) * (128 - d2) <= 2097152) by (nonlinear_arith)
        requires
            (128 - d0) * (128 - d1) <= 16384,
            d2 <= 128,
    ;
    let overlap = (128 - d0) * (128 - d1) * (128 - d2);
    128 * 128 * 128 - overlap
}

/// Slabs of the new window that a (non-teleporting) move exposes.
fn slab_regions(new_origin: IVec3, ring_offset: UVec3, delta: IVec3) -> (regions: Vec<SlabRegion>)
    requires
        ring_offset.x < 128,
        ring_offset.y < 128,
        ring_offset.z < 128,
        abs(delta.x as int) < 128,
        abs(delta.y as int) < 128,
        abs(delta.z as int) < 128,
        delta.x > 0 ==> new_origin.x + 128 <= i32::MAX,
        delta.y > 0 ==> new_origin.y + 128 <= i32::MAX,
        delta.z > 0 ==> new_origin.z + 128 <= i32::MAX,
    ensures
        regions@ == slabs_upto(new_origin, ring_offset, delta, 3),
{
    let mut regions: Vec<SlabRegion> = Vec::new();
    let mut axis: usize = 0;
    while axis < 3
        invariant
            axis <= 3,
            ring_offset.x < 128,
            ring_offset.y < 128,
            ring_offset.z < 128,
            abs(delta.x as int) < 128,
            abs(delta.y as int) < 128,
            abs(delta.z as int) < 128,
            delta.x > 0 ==> new_origin.x + 128 <= i32::MAX,
            delta.y > 0 ==> new_origin.y + 128 <= i32::MAX,
            delta.z > 0 ==> new_origin.z + 128 <= i32::MAX,
            regions@ == slabs_upto(new_origin, ring_offset, delta, axis as int),
        decreases 3 - axis,
    {
        let d = delta.get(axis);
        if d != 0 {
            let count = unsigned_abs_i32(d);
            let base = new_origin.get(axis);
            let start_axis = if d > 0 {
                base + 128 - count as i32
            } else {
                base
            };
            let logical_start = new_origin.with(axis, start_axis);
            let extent = UVec3::splat(128).with(axis, count);
            let local_x = logical_start.x - new_origin.x + ring_offset.x as i32;
            let local_y = logical_start.y - new_origin.y + ring_offset.y as i32;
            let local_z = logical_start.z - new_origin.z + ring_offset.z as i32;
            let physical_start = UVec3::new(
                wrap_u32(local_x),
                wrap_u32(local_y),
                wrap_u32(local_z),
            );
            let region = SlabRegion { axis: axis as u8, logical_start, extent, physical_start };
            assert(region == slab_spec(new_origin, ring_offset, delta, axis as int));
            regions.push(region);
        }
        axis = axis + 1;
    }
    regions
}

impl ClipmapLevel {
    pub fn new(level: usize) -> (l: Self)
        requires
            level < CLIPMAP_LEVELS,
        ensures
            l.level == level,
            l.cell_size == (if level == 0 {
                1i32
            } else if level == 1 {
                2i32
            } else if level == 2 {
                4i32
            } else {
                8i32
            }),
            l.origin == (IVec3 { x: 0, y: 0, z: 0 }),
            l.ring_offset == (UVec3 { x: 0, y: 0, z: 0 }),
            l.revision == 0,
            !l.ready,
            l.wf(),
    {
        let cell_size = 1i32 << level;
        assert(cell_size == (if level == 0 {
            1i32
        } else if level == 1 {
            2i32
        } else if level == 2 {
            4i32
        } else {
            8i32
        })) by (bit_vector)
            requires
                cell_size == 1i32 << level,
                level < 4,
        ;
        ClipmapLevel {
            level,
            cell_size,
            origin: IVec3::new(0, 0, 0),
            ring_offset: UVec3::new(0, 0, 0),
            revision: 0,
            ready: false,
        }
    }

    /// Snapping step of the level origin, in cells.
    pub open spec fn quantum_spec(self) -> int {
        if self.level == 0 || self.level == 1 {
            4
        } else if self.level == 2 {
            2
        } else {
            1
        }
    }

    pub fn quantum(&self) -> (q: i32)
        ensures
            q == self.quantum_spec(),
    {
        match self.level {
            0 | 1 => 4,
            2 => 2,
            _ => 1,
        }
    }

    /// One component of the snapped origin for a camera cell coordinate.
    pub open spec fn origin_component(self, block: int) -> int {
        let q = self.quantum_spec();
        ((block / (self.cell_size as int) - 64) / q) * q
    }

    /// Window origin centred on the camera block `camera` (the floor of
    /// the camera's world position), snapped to the level's quantum.
    pub open spec fn origin_spec(self, camera: IVec3) -> IVec3 {
        IVec3 {
            x: self.origin_component(camera.x as int) as i32,
            y: self.origin_component(camera.y as int) as i32,
            z: self.origin_component(camera.z as int) as i32,
        }
    }

    pub open spec fn origin_defined(self, camera: IVec3) -> bool {
        &&& self.cell_size > 0
        &&& in_i32((camera.x as int) / (self.cell_size as int) - 64)
        &&& in_i32((camera.y as int) / (self.cell_size as int) - 64)
        &&& in_i32((camera.z as int) / (self.cell_size as int) - 64)
    }

    fn snap(&self, block: i32) -> (o: i32)
        requires
            self.cell_size > 0,
            in_i32((block as int) / (self.cell_size as int) - 64),
        ensures
            o == self.origin_component(block as int),
    {
        let cell = div_euclid_i32(block, self.cell_size);
        let unsnapped = cell - 64;
        let q = self.quantum();
        let k = div_euclid_i32(unsnapped, q);
        assert(in_i32(k * q)) by (nonlinear_arith)
            requires
                k == unsnapped / q,
                q == 1 || q == 2 || q == 4,
                i32::MIN <= unsnapped <= i32::MAX,
        ;
        k * q
    }

    /// Window origin for the camera block `camera`.
    pub fn origin_for_camera(&self, camera: IVec3) -> (o: IVec3)
        requires
            self.origin_defined(camera),
        ensures
            o == self.origin_spec(camera),
    {
        IVec3::new(self.snap(camera.x), self.snap(camera.y), self.snap(camera.z))
    }

    /// Texel that holds logical cell `logical`.
    pub fn logical_to_physical(&self, logical: IVec3) -> (p: UVec3)
        requires
            self.wf(),
            self.physical_defined(logical),
        ensures
            p == self.physical_spec(logical),
    {
        let x = logical.x - self.origin.x + self.ring_offset.x as i32;
        let y = logical.y - self.origin.y + self.ring_offset.y as i32;
        let z = logical.z - self.origin.z + self.ring_offset.z as i32;
        UVec3::new(wrap_u32(x), wrap_u32(y), wrap_u32(z))
    }

    /// The upload of revision `revision` completed.
    pub fn mark_ready(&mut self, revision: u32)
        ensures
            *final(self) == (ClipmapLevel { revision, ready: true, ..*old(self) }),
    {
        self.revision = revision;
        self.ready = true;
    }

    /// Move the window to `new_origin`: rotate the ring so every logical
    /// cell keeps its texel, and report the slabs that must be uploaded.
    pub fn move_to(&mut self, new_origin: IVec3) -> (update: ClipmapUpdate)
        requires
            old(self).wf(),
            old(self).move_defined(new_origin),
        ensures
            *final(self) == old(self).moved_spec(new_origin),
            final(self).wf(),
            old(self).update_spec(new_origin, update),
    {
        let delta = IVec3::new(
            new_origin.x - self.origin.x,
            new_origin.y - self.origin.y,
            new_origin.z - self.origin.z,
        );
        let full_rebuild = !self.ready || unsigned_abs_i32(delta.x) >= 128 || unsigned_abs_i32(
            delta.y,
        ) >= 128 || unsigned_abs_i32(delta.z) >= 128;
        let exposed_cells: usize = if full_rebuild {
            128 * 128 * 128
        } else {
            changed_cell_count(delta)
        };
        let new_ring_offset = UVec3::new(
            wrap_u32(self.ring_offset.x as i32 + delta.x),
            wrap_u32(self.ring_offset.y as i32 + delta.y),
            wrap_u32(self.ring_offset.z as i32 + delta.z),
        );
        let regions = if full_rebuild {
            let mut full = Vec::new();
            full.push(
                SlabRegion {
                    axis: 3,
                    logical_start: new_origin,
                    extent: UVec3::splat(128),
                    physical_start: UVec3::new(0, 0, 0),
                },
            );
            assert(full@ =~= old(self).regions_spec(new_origin));
            full
        } else {
            slab_regions(new_origin, new_ring_offset, delta)
        };
        self.ring_offset = new_ring_offset;
        self.origin = new_origin;
        self.ready = false;
        self.revision = self.revision.wrapping_add(1);
        assert(exposed_cells <= 2097152);
        ClipmapUpdate {
            level: self.level,
            revision: self.revision,
            full_rebuild,
            exposed_cells,
            regions,
            history_reset: exposed_cells * 10 >= 128 * 128 * 128,
        }
    }
}

/// Whether an update of the camera moves (re-schedules) `level`: its
/// snapped origin changed, or it was never scheduled.
pub open spec fn level_moves(level: ClipmapLevel, camera: IVec3) -> bool {
    level.origin_spec(camera) != level.origin || (!level.ready && level.revision == 0)
}

/// Indices among the first `k` levels that a camera update moves, in order.
pub open spec fn moving_upto(levels: Seq<ClipmapLevel>, camera: IVec3, k: int) -> Seq<int>
    decreases k,
{
    if k <= 0 {
        seq![]
    } else if level_moves(levels[k - 1], camera) {
        moving_upto(levels, camera, k - 1).push(k - 1)
    } else {
        moving_upto(levels, camera, k - 1)
    }
}

/// Every level of a clipmap, one per cell size 1, 2, 4 and 8.
#[derive(Clone, Debug)]
pub struct Clipmap {
    pub levels: [ClipmapLevel; CLIPMAP_LEVELS],
    pub upload_budget: usize,
}

/// Cell size of level `i`.
pub open spec fn level_cell_size(i: int) -> i32 {
    if i == 0 {
        1
    } else if i == 1 {
        2
    } else if i == 2 {
        4
    } else {
        8
    }
}

impl Clipmap {
    /// Level `i` is level `i` with cell size `2^i` and an in-texture ring.
    pub open spec fn wf(self) -> bool {
        forall|i: int|
            0 <= i < 4 ==> {
                &&& (#[trigger] self.levels@[i]).level == i
                &&& self.levels@[i].cell_size == level_cell_size(i)
                &&& self.levels@[i].wf()
            }
    }

    /// A camera update at `camera` is free of arithmetic overflow.
    pub open spec fn camera_defined(self, camera: IVec3) -> bool {
        forall|i: int|
            0 <= i < 4 ==> {
                &&& (#[trigger] self.levels@[i]).origin_defined(camera)
                &&& self.levels@[i].move_defined(self.levels@[i].origin_spec(camera))
            }
    }

    pub fn new() -> (c: Self)
        ensures
            c.wf(),
            c.upload_budget == UPLOAD_BUDGET_BYTES,
            forall|i: int|
                0 <= i < 4 ==> {
                    &&& (#[trigger] c.levels@[i]).origin == (IVec3 { x: 0, y: 0, z: 0 })
                    &&& c.levels@[i].ring_offset == (UVec3 { x: 0, y: 0, z: 0 })
                    &&& c.levels@[i].revision == 0
                    &&& !c.levels@[i].ready
                },
    {
        let levels = [
            ClipmapLevel::new(0),
            ClipmapLevel::new(1),
            ClipmapLevel::new(2),
            ClipmapLevel::new(3),
        ];
        Clipmap { levels, upload_budget: UPLOAD_BUDGET_BYTES }
    }

    /// Follow the camera block `camera` (the floor of the camera's world
    /// position): every level whose snapped origin changed, or that was
    /// never scheduled, moves and reports its update, in level order.
    pub fn update_camera(&mut self, camera: IVec3) -> (updates: Vec<ClipmapUpdate>)
        requires
            old(self).wf(),
            old(self).camera_defined(camera),
        ensures
            final(self).wf(),
            final(self).upload_budget == old(self).upload_budget,
            forall|i: int|
                0 <= i < 4 ==> #[trigger] final(self).levels@[i] == if level_moves(
                    old(self).levels@[i],
                    camera,
                ) {
                    old(self).levels@[i].moved_spec(old(self).levels@[i].origin_spec(camera))
                } else {
                    old(self).levels@[i]
                },
            updates@.len() == moving_upto(old(self).levels@, camera, 4).len(),
            forall|k: int|
                0 <= k < updates@.len() ==> {
                    let i = moving_upto(old(self).levels@, camera, 4)[k];
                    old(self).levels@[i].update_spec(
                        old(self).levels@[i].origin_spec(camera),
                        #[trigger] updates@[k],
                    )
                },
    {
        let ghost before = self.levels@;
        let mut updates: Vec<ClipmapUpdate> = Vec::new();
        let mut i: usize = 0;
        while i < CLIPMAP_LEVELS
            invariant
                i <= 4,
                self.upload_budget == old(self).upload_budget,
                before == old(self).levels@,
                old(self).wf(),
                old(self).camera_defined(camera),
                self.levels@.len() == 4,
                forall|j: int|
                    0 <= j < 4 ==> #[trigger] self.levels@[j] == if j < i && level_moves(
                        before[j],
                        camera,
                    ) {
                        before[j].moved_spec(before[j].origin_spec(camera))
                    } else {
                        before[j]
                    },
                updates@.len() == moving_upto(before, camera, i as int).len(),
                forall|k: int|
                    0 <= k < updates@.len() ==> {
                        let m = moving_upto(before, camera, i as int)[k];
                        before[m].update_spec(before[m].origin_spec(camera), #[trigger] updates@[k])
                    },
            decreases 4 - i,
        {
            let mut level = self.levels[i];
            assert(level == before[i as int]);
            let origin = level.origin_for_camera(camera);
            if origin != level.origin || (!level.ready && level.revision == 0) {
                let update = level.move_to(origin);
                updates.push(update);
                self.levels[i] = level;
            }
            i = i + 1;
        }
        proof {
            assert forall|j: int| 0 <= j < 4 implies {
                &&& (#[trigger] self.levels@[j]).level == j
                &&& self.levels@[j].cell_size == level_cell_size(j)
                &&& self.levels@[j].wf()
            } by {
                assert(before[j].level == j);
            }
        }
        updates
    }

    /// Invalidate every level after a world edit: the next camera update
    /// schedules a full upload of each level.
    pub fn invalidate_all(&mut self)
        requires
            old(self).wf(),
        ensures
            final(self).wf(),
            final(self).upload_budget == old(self).upload_budget,
            forall|i: int|
                0 <= i < 4 ==> #[trigger] final(self).levels@[i] == (ClipmapLevel {
                    ready: false,
                    revision: 0,
                    ..old(self).levels@[i]
                }),
    {
        let ghost before = self.levels@;
        let mut i: usize = 0;
        while i < CLIPMAP_LEVELS
            invariant
                i <= 4,
                self.upload_budget == old(self).upload_budget,
                before == old(self).levels@,
                self.levels@.len() == 4,
                forall|j: int|
                    0 <= j < 4 ==> #[trigger] self.levels@[j] == if j < i {
                        ClipmapLevel { ready: false, revision: 0, ..before[j] }
                    } else {
                        before[j]
                    },
            decreases 4 - i,
        {
            let mut level = self.levels[i];
            level.ready = false;
            level.revision = 0;
            self.levels[i] = level;
            i = i + 1;
        }
    }

    /// Publish level `level` as ready once every slab of `revision` reached
    /// the GPU; a revision that is no longer the level's current one (a
    /// stale upload) changes nothing.  Returns whether the level was marked.
    pub fn mark_level_ready(&mut self, level: usize, revision: u32) -> (marked: bool)
        requires
            old(self).wf(),
        ensures
            final(self).wf(),
            final(self).upload_budget == old(self).upload_budget,
            marked == (level < 4 && old(self).levels@[level as int].revision == revision),
            marked ==> final(self).levels@ == old(self).levels@.update(
                level as int,
                ClipmapLevel { ready: true, ..old(self).levels@[level as int] },
            ),
            !marked ==> final(self).levels@ == old(self).levels@,
    {
        if level >= CLIPMAP_LEVELS || self.levels[level].revision != revision {
            return false;
        }
        let mut state = self.levels[level];
        state.mark_ready(revision);
        self.levels[level] = state;
        proof {
            assert(self.levels@ =~= old(self).levels@.update(
                level as int,
                ClipmapLevel { ready: true, ..old(self).levels@[level as int] },
            ));
            assert forall|j: int| 0 <= j < 4 implies {
                &&& (#[trigger] self.levels@[j]).level == j
                &&& self.levels@[j].cell_size == level_cell_size(j)
                &&& self.levels@[j].wf()
            } by {
                assert(old(self).levels@[j].level == j);
            }
        }
        true
    }

    pub fn texture_memory_bytes(&self) -> (bytes: usize)
        ensures
            bytes == TEXTURE_MEMORY_BYTES,
    {
        TEXTURE_MEMORY_BYTES
    }
}

impl Default for Clipmap {
    fn default() -> (c: Self)
        ensures
            c.wf(),
            c.upload_budget == UPLOAD_BUDGET_BYTES,
    {
        Clipmap::new()
    }
}

/// Snapping `v` down to a multiple of `q` stays within `q` below `v`.
proof fn lemma_snap_down(v: int, q: int)
    requires
        q == 1 || q == 2 || q == 4,
    ensures
        (v / q) * q <= v < (v / q) * q + q,
        ((v / q) * q) % q == 0,
{
    vstd::arithmetic::div_mod::lemma_fundamental_div_mod(v, q);
    vstd::arithmetic::div_mod::lemma_mod_multiples_basic(v / q, q);
}

/// The window of a level is centred on the camera: for every camera block,
/// the camera's cell (its block divided by the cell size, rounded down)
/// lies 64 cells past the window origin, up to the level's snapping step,
/// and the origin is a multiple of that step.  So the 128-cell window
/// reaches at least `64 - q` cells on either side of the camera.
pub proof fn lemma_origin_centres_camera(level: ClipmapLevel, camera: IVec3)
    requires
        level.origin_defined(camera),
    ensures
        ({
            let o = level.origin_spec(camera);
            let q = level.quantum_spec();
            let s = level.cell_size as int;
            &&& o.x <= (camera.x as int) / s - 64 < o.x + q
            &&& o.y <= (camera.y as int) / s - 64 < o.y + q
            &&& o.z <= (camera.z as int) / s - 64 < o.z + q
            &&& (o.x as int) % q == 0 && (o.y as int) % q == 0 && (o.z as int) % q == 0
        }),
{
    let q = level.quantum_spec();
    let s = level.cell_size as int;
    let vx = (camera.x as int) / s - 64;
    let vy = (camera.y as int) / s - 64;
    let vz = (camera.z as int) / s - 64;
    lemma_snap_down(vx, q);
    lemma_snap_down(vy, q);
    lemma_snap_down(vz, q);
    assert(in_i32((vx / q) * q)) by (nonlinear_arith)
        requires
            q == 1 || q == 2 || q == 4,
            (vx / q) * q <= vx < (vx / q) * q + q,
            in_i32(vx),
    ;
    assert(in_i32((vy / q) * q)) by (nonlinear_arith)
        requires
            q == 1 || q == 2 || q == 4,
            (vy / q) * q <= vy < (vy / q) * q + q,
            in_i32(vy),
    ;
    assert(in_i32((vz / q) * q)) by (nonlinear_arith)
        requires
            q == 1 || q == 2 || q == 4,
            (vz / q) * q <= vz < (vz / q) * q + q,
            in_i32(vz),
    ;
}

/// Moving the window never moves data in the texture: every logical cell
/// maps to the same texel before and after `move_to`.
pub proof fn lemma_move_keeps_texels(level: ClipmapLevel, new_origin: IVec3, logical: IVec3)
    requires
        level.move_defined(new_origin),
    ensures
        level.moved_spec(new_origin).physical_spec(logical) == level.physical_spec(logical),
{
    let d = level.delta_spec(new_origin);
    let r = level.ring_offset;
    let o = level.origin;
    vstd::arithmetic::div_mod::lemma_add_mod_noop_right(
        logical.x - new_origin.x,
        r.x + d.x,
        128,
    );
    vstd::arithmetic::div_mod::lemma_add_mod_noop_right(
        logical.y - new_origin.y,
        r.y + d.y,
        128,
    );
    vstd::arithmetic::div_mod::lemma_add_mod_noop_right(
        logical.z - new_origin.z,
        r.z + d.z,
        128,
    );
    assert(logical.x - new_origin.x + (r.x + d.x) == logical.x - o.x + r.x);
    assert(logical.y - new_origin.y + (r.y + d.y) == logical.y - o.y + r.y);
    assert(logical.z - new_origin.z + (r.z + d.z) == logical.z - o.z + r.z);
}

proof fn lemma_slabs_contain(new_origin: IVec3, ring: UVec3, d: IVec3, k: int, a: int)
    requires
        0 <= a < k,
        d.at(a) != 0,
    ensures
        slabs_upto(new_origin, ring, d, k).contains(slab_spec(new_origin, ring, d, a)),
    decreases k,
{
    let s = slabs_upto(new_origin, ring, d, k);
    if a == k - 1 {
        assert(s[s.len() - 1] == slab_spec(new_origin, ring, d, a));
    } else {
        lemma_slabs_contain(new_origin, ring, d, k - 1, a);
        let prev = slabs_upto(new_origin, ring, d, k - 1);
        let j = choose|j: int| 0 <= j < prev.len() && prev[j] == slab_spec(new_origin, ring, d, a);
        assert(s[j] == prev[j]);
    }
}

proof fn lemma_slabs_members(new_origin: IVec3, ring: UVec3, d: IVec3, k: int, j: int)
    requires
        0 <= k <= 3,
        0 <= j < slabs_upto(new_origin, ring, d, k).len(),
    ensures
        exists|a: int|
            0 <= a < k && d.at(a) != 0 && slabs_upto(new_origin, ring, d, k)[j] == slab_spec(
                new_origin,
                ring,
                d,
                a,
            ),
    decreases k,
{
    let s = slabs_upto(new_origin, ring, d, k);
    if d.at(k - 1) == 0 {
        lemma_slabs_members(new_origin, ring, d, k - 1, j);
    } else if j == s.len() - 1 {
        assert(s[j] == slab_spec(new_origin, ring, d, k - 1));
    } else {
        lemma_slabs_members(new_origin, ring, d, k - 1, j);
    }
}

/// The regions a move uploads are exactly the cells of the new window
/// that the old window did not hold (the whole new window on a full
/// rebuild): every region cell is such a cell, and every such cell lies
/// in some region.
pub proof fn lemma_regions_cover_exposed(level: ClipmapLevel, new_origin: IVec3)
    requires
        level.move_defined(new_origin),
    ensures
        forall|j: int, c: (int, int, int)|
            0 <= j < level.regions_spec(new_origin).len() && #[trigger] region_contains(
                level.regions_spec(new_origin)[j],
                c,
            ) ==> in_window(new_origin, c) && (level.full_rebuild_spec(new_origin) || !in_window(
                level.origin,
                c,
            )),
        forall|c: (int, int, int)|
            #![trigger in_window(new_origin, c)]
            in_window(new_origin, c) && (level.full_rebuild_spec(new_origin) || !in_window(
                level.origin,
                c,
            )) ==> exists|j: int|
                0 <= j < level.regions_spec(new_origin).len() && region_contains(
                    #[trigger] level.regions_spec(new_origin)[j],
                    c,
                ),
{
    let regions = level.regions_spec(new_origin);
    let d = level.delta_spec(new_origin);
    let ring = level.new_ring_spec(new_origin);
    if level.full_rebuild_spec(new_origin) {
        assert forall|c: (int, int, int)| #![trigger in_window(new_origin, c)]
            in_window(new_origin, c) implies exists|j: int|
            0 <= j < regions.len() && region_contains(#[trigger] regions[j], c) by {
            assert(region_contains(regions[0], c));
        }
    } else {
        assert forall|j: int, c: (int, int, int)|
            0 <= j < regions.len() && #[trigger] region_contains(regions[j], c) implies in_window(
            new_origin,
            c,
        ) && !in_window(level.origin, c) by {
            lemma_slabs_members(new_origin, ring, d, 3, j);
            let a = choose|a: int|
                0 <= a < 3 && d.at(a) != 0 && regions[j] == slab_spec(new_origin, ring, d, a);
        }
        assert forall|c: (int, int, int)| #![trigger in_window(new_origin, c)]
            in_window(new_origin, c) && !in_window(level.origin, c) implies exists|j: int|
            0 <= j < regions.len() && region_contains(#[trigger] regions[j], c) by {
            let a = if !(level.origin.x <= c.0 < level.origin.x + 128) {
                0int
            } else if !(level.origin.y <= c.1 < level.origin.y + 128) {
                1int
            } else {
                2int
            };
            lemma_slabs_contain(new_origin, ring, d, 3, a);
            let j = choose|j: int|
                0 <= j < regions.len() && regions[j] == slab_spec(new_origin, ring, d, a);
            assert(region_contains(regions[j], c));
        }
    }
}

/// A slab's texture start is where its first logical cell lives after
/// the move.
pub proof fn lemma_slab_physical_start(level: ClipmapLevel, new_origin: IVec3, j: int)
    requires
        level.move_defined(new_origin),
        !level.full_rebuild_spec(new_origin),
        0 <= j < level.regions_spec(new_origin).len(),
    ensures
        level.regions_spec(new_origin)[j].physical_start == level.moved_spec(
            new_origin,
        ).physical_spec(level.regions_spec(new_origin)[j].logical_start),
{
    let d = level.delta_spec(new_origin);
    let ring = level.new_ring_spec(new_origin);
    lemma_slabs_members(new_origin, ring, d, 3, j);
}

/// A camera update settles: right after it, the same camera moves no
/// level (unless a revision counter wrapped around to zero).
pub proof fn lemma_update_camera_settles(before: Clipmap, after: Clipmap, camera: IVec3)
    requires
        before.wf(),
        before.camera_defined(camera),
        forall|i: int|
            0 <= i < 4 ==> #[trigger] after.levels@[i] == if level_moves(
                before.levels@[i],
                camera,
            ) {
                before.levels@[i].moved_spec(before.levels@[i].origin_spec(camera))
            } else {
                before.levels@[i]
            },
        forall|i: int| 0 <= i < 4 ==> (#[trigger] before.levels@[i]).revision != u32::MAX,
    ensures
        forall|i: int| 0 <= i < 4 ==> !level_moves(#[trigger] after.levels@[i], camera),
{
    assert forall|i: int| 0 <= i < 4 implies !level_moves(#[trigger] after.levels@[i], camera) by {
        let l = before.levels@[i];
        if level_moves(l, camera) {
            assert(after.levels@[i].origin_spec(camera) == l.origin_spec(camera));
            assert(l.revision.wrapping_add(1) == l.revision + 1);
        }
    }
}

/// After `invalidate_all`, the next camera update rebuilds every level in
/// full and reports revision 1 for each.
pub proof fn lemma_invalidate_forces_full_rebuild(before: Clipmap, after: Clipmap, camera: IVec3)
    requires
        before.wf(),
        forall|i: int|
            0 <= i < 4 ==> #[trigger] after.levels@[i] == (ClipmapLevel {
                ready: false,
                revision: 0,
                ..before.levels@[i]
            }),
    ensures
        moving_upto(after.levels@, camera, 4) == seq![0int, 1int, 2int, 3int],
        forall|i: int|
            0 <= i < 4 ==> {
                &&& level_moves(#[trigger] after.levels@[i], camera)
                &&& after.levels@[i].full_rebuild_spec(after.levels@[i].origin_spec(camera))
                &&& after.levels@[i].exposed_spec(after.levels@[i].origin_spec(camera))
                    == full_cells()
                &&& after.levels@[i].revision.wrapping_add(1) == 1
            },
{
    assert(level_moves(after.levels@[0], camera));
    assert(level_moves(after.levels@[1], camera));
    assert(level_moves(after.levels@[2], camera));
    assert(level_moves(after.levels@[3], camera));
    reveal_with_fuel(moving_upto, 5);
    assert(moving_upto(after.levels@, camera, 4) =~= seq![0int, 1int, 2int, 3int]);
}

} // verus!
