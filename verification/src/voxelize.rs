//! Voxel cells of the GI clipmap: packing block kinds into material and
//! light texels, and merging cells into one coarser LOD cell.

use vstd::prelude::*;
use crate::ivec::IVec3;

verus! {

#[derive(Clone, Copy, Debug, PartialEq, Eq, Structural)]
pub enum VoxelKind {
    Air,
    Stone,
    Leaves,
    Water,
    Glass,
    Torch,
    Glowstone,
    SeaLantern,
    WarmLamp,
    ColdLamp,
    GlowPanel,
}

/// One texel of each of the material and light volumes.
#[derive(Clone, Copy, Debug, PartialEq, Eq)]
pub struct VoxelCell {
    /// Albedo RGB and opacity.
    pub material: [u8; 4],
    /// Emitted RGB and sky light.
    pub light: [u8; 4],
    pub ready: bool,
}

pub open spec fn air_cell() -> VoxelCell {
    VoxelCell { material: [0, 0, 0, 0], light: [0, 0, 0, 0], ready: true }
}

impl VoxelCell {
    /// An empty, ready cell.
    pub fn air() -> (c: VoxelCell)
        ensures
            c == air_cell(),
    {
        VoxelCell { material: [0, 0, 0, 0], light: [0, 0, 0, 0], ready: true }
    }

    /// The cell blocks light: opacity at least one half.
    pub fn occupied(self) -> (o: bool)
        ensures
            o == (self.material@[3] >= 128),
    {
        self.material[3] >= 128
    }
}

pub open spec fn albedo_spec(kind: VoxelKind) -> Seq<u8> {
    match kind {
        VoxelKind::Stone => seq![128u8, 128, 128],
        VoxelKind::Leaves => seq![74u8, 144, 66],
        VoxelKind::Torch | VoxelKind::WarmLamp => seq![240u8, 90, 30],
        VoxelKind::Glowstone => seq![236u8, 196, 82],
        VoxelKind::SeaLantern | VoxelKind::ColdLamp | VoxelKind::GlowPanel => seq![140u8, 210, 224],
        VoxelKind::Water => seq![45u8, 100, 180],
        VoxelKind::Glass => seq![190u8, 220, 235],
        VoxelKind::Air => seq![0u8, 0, 0],
    }
}

pub open spec fn opacity_spec(kind: VoxelKind) -> u8 {
    match kind {
        VoxelKind::Air | VoxelKind::Water | VoxelKind::Glass => 0,
        VoxelKind::Leaves => 128,
        _ => 255,
    }
}

/// Emitted light stored per cell: each channel of the emission colour
/// (`torch = (8, 3.36, 0.96)`, ...) divided by 8, scaled to 255 and rounded.
pub open spec fn emission_bytes_spec(kind: VoxelKind) -> Seq<u8> {
    match kind {
        VoxelKind::Torch => seq![255u8, 107, 31],
        VoxelKind::Glowstone => seq![191u8, 108, 48],
        VoxelKind::SeaLantern => seq![96u8, 175, 207],
        VoxelKind::WarmLamp => seq![255u8, 140, 57],
        VoxelKind::ColdLamp => seq![143u8, 207, 255],
        VoxelKind::GlowPanel => seq![207u8, 217, 223],
        _ => seq![0u8, 0, 0],
    }
}

fn albedo(kind: VoxelKind) -> (rgb: [u8; 3])
    ensures
        rgb@ == albedo_spec(kind),
{
    let rgb: [u8; 3] = match kind {
        VoxelKind::Stone => [128, 128, 128],
        VoxelKind::Leaves => [74, 144, 66],
        VoxelKind::Torch | VoxelKind::WarmLamp => [240, 90, 30],
        VoxelKind::Glowstone => [236, 196, 82],
        VoxelKind::SeaLantern | VoxelKind::ColdLamp | VoxelKind::GlowPanel => [140, 210, 224],
        VoxelKind::Water => [45, 100, 180],
        VoxelKind::Glass => [190, 220, 235],
        VoxelKind::Air => [0, 0, 0],
    };
    assert(rgb@ =~= albedo_spec(kind));
    rgb
}

fn opacity(kind: VoxelKind) -> (o: u8)
    ensures
        o == opacity_spec(kind),
{
    match kind {
        VoxelKind::Air | VoxelKind::Water | VoxelKind::Glass => 0,
        VoxelKind::Leaves => 128,
        _ => 255,
    }
}

/// The light bytes a block of `kind` emits.
pub fn emission_bytes(kind: VoxelKind) -> (rgb: [u8; 3])
    ensures
        rgb@ == emission_bytes_spec(kind),
{
    let rgb: [u8; 3] = match kind {
        VoxelKind::Torch => [255, 107, 31],
        VoxelKind::Glowstone => [191, 108, 48],
        VoxelKind::SeaLantern => [96, 175, 207],
        VoxelKind::WarmLamp => [255, 140, 57],
        VoxelKind::ColdLamp => [143, 207, 255],
        VoxelKind::GlowPanel => [207, 217, 223],
        _ => [0, 0, 0],
    };
    assert(rgb@ =~= emission_bytes_spec(kind));
    rgb
}

/// A box of voxels in world cells, x fastest.
#[derive(Clone, Copy, Debug)]
pub struct VoxelPacker {
    pub origin: IVec3,
    pub extent: [u32; 3],
}

/// Number of opaque cells among `cells`.
pub open spec fn opaque_count(cells: Seq<VoxelCell>) -> nat
    decreases cells.len(),
{
    if cells.len() == 0 {
        0
    } else {
        opaque_count(cells.drop_last()) + (if cells.last().material@[3] >= 128 {
            1nat
        } else {
            0nat
        })
    }
}

/// Sum of light channel `c` over the opaque cells among `cells`.
pub open spec fn opaque_light_sum(cells: Seq<VoxelCell>, c: int) -> nat
    decreases cells.len(),
{
    if cells.len() == 0 {
        0
    } else {
        opaque_light_sum(cells.drop_last(), c) + (if cells.last().material@[3] >= 128 {
            cells.last().light@[c] as nat
        } else {
            0nat
        })
    }
}

/// Sum of the sky light of `cells`.
pub open spec fn sky_sum(cells: Seq<VoxelCell>) -> nat
    decreases cells.len(),
{
    if cells.len() == 0 {
        0
    } else {
        sky_sum(cells.drop_last()) + cells.last().light@[3] as nat
    }
}

/// The LOD cell standing for `cells`: opacity is the opaque fraction of
/// 255, emitted light the mean over opaque cells, sky light the mean over
/// all cells; no cells give air.
pub open spec fn lod_cell_spec(cells: Seq<VoxelCell>) -> VoxelCell {
    let n = cells.len();
    if n == 0 {
        air_cell()
    } else {
        let o = opaque_count(cells);
        VoxelCell {
            material: [0, 0, 0, (o * 255 / n) as u8],
            light: if o > 0 {
                [
                    (opaque_light_sum(cells, 0) / o) as u8,
                    (opaque_light_sum(cells, 1) / o) as u8,
                    (opaque_light_sum(cells, 2) / o) as u8,
                    (sky_sum(cells) / n) as u8,
                ]
            } else {
                [0, 0, 0, (sky_sum(cells) / n) as u8]
            },
            ready: true,
        }
    }
}

proof fn lemma_sums_bounded(cells: Seq<VoxelCell>)
    ensures
        opaque_count(cells) <= cells.len(),
        forall|c: int| 0 <= c < 3 ==> #[trigger] opaque_light_sum(cells, c) <= 255 * opaque_count(cells),
        sky_sum(cells) <= 255 * cells.len(),
    decreases cells.len(),
{
    if cells.len() > 0 {
        lemma_sums_bounded(cells.drop_last());
        assert forall|c: int| 0 <= c < 3 implies #[trigger] opaque_light_sum(cells, c) <= 255
            * opaque_count(cells) by {
            assert(opaque_light_sum(cells.drop_last(), c) <= 255 * opaque_count(cells.drop_last()));
            assert(cells.last().light@[c] <= 255);
        }
    }
}

/// Cells of the packed box, x fastest.
pub open spec fn packed_material(kinds: Seq<VoxelKind>, k: int) -> u8 {
    let kind = kinds[k / 4];
    if k % 4 < 3 {
        albedo_spec(kind)[k % 4]
    } else {
        opacity_spec(kind)
    }
}

pub open spec fn packed_light(kinds: Seq<VoxelKind>, k: int) -> u8 {
    let kind = kinds[k / 4];
    if k % 4 < 3 {
        emission_bytes_spec(kind)[k % 4]
    } else {
        0
    }
}

impl VoxelPacker {
    pub fn new(origin: IVec3, extent: [u32; 3]) -> (p: Self)
        ensures
            p.origin == origin,
            p.extent == extent,
    {
        VoxelPacker { origin, extent }
    }

    /// Cells in the box.
    pub open spec fn cell_count(self) -> int {
        self.extent@[0] * self.extent@[1] * self.extent@[2]
    }

    /// Pack the block kinds of every cell of the box (x fastest, as sampled
    /// at `origin + (x, y, z)`) into material bytes (albedo, opacity) and
    /// light bytes (emission, zero sky light), four per cell.
    pub fn pack(&self, kinds: &[VoxelKind]) -> (r: (Vec<u8>, Vec<u8>))
        requires
            kinds@.len() == self.cell_count(),
            self.cell_count() * 4 <= usize::MAX,
        ensures
            r.0@.len() == 4 * kinds@.len(),
            r.1@.len() == 4 * kinds@.len(),
            forall|k: int| 0 <= k < r.0@.len() ==> #[trigger] r.0@[k] == packed_material(kinds@, k),
            forall|k: int| 0 <= k < r.1@.len() ==> #[trigger] r.1@[k] == packed_light(kinds@, k),
    {
        let n = kinds.len();
        let mut material: Vec<u8> = Vec::new();
        let mut light: Vec<u8> = Vec::new();
        let mut i: usize = 0;
        while i < n
            invariant
                n == kinds@.len(),
                n * 4 <= usize::MAX,
                i <= n,
                material@.len() == 4 * i,
                light@.len() == 4 * i,
                forall|k: int| 0 <= k < 4 * i ==> #[trigger] material@[k] == packed_material(kinds@, k),
                forall|k: int| 0 <= k < 4 * i ==> #[trigger] light@[k] == packed_light(kinds@, k),
            decreases n - i,
        {
            let kind = kinds[i];
            let rgb = albedo(kind);
            let emitted = emission_bytes(kind);
            material.push(rgb[0]);
            material.push(rgb[1]);
            material.push(rgb[2]);
            material.push(opacity(kind));
            light.push(emitted[0]);
            light.push(emitted[1]);
            light.push(emitted[2]);
            light.push(0);
            proof {
                assert forall|k: int| 4 * i <= k < 4 * i + 4 implies #[trigger] material@[k]
                    == packed_material(kinds@, k) && light@[k] == packed_light(kinds@, k) by {
                    assert(k / 4 == i);
                }
            }
            i = i + 1;
        }
        (material, light)
    }

    /// Merge `cells` into the single cell of the next coarser LOD.  The
    /// sums of the light channels fit in `u32`, the opaque count times 255
    /// fits in `usize`, and the cell count fits in `u32` (the mean divides
    /// by the count as a `u32`).
    pub fn lod_equivalent(cells: &[VoxelCell]) -> (r: VoxelCell)
        requires
            cells@.len() <= u32::MAX,
            sky_sum(cells@) <= u32::MAX,
            forall|c: int| 0 <= c < 3 ==> #[trigger] opaque_light_sum(cells@, c) <= u32::MAX,
            opaque_count(cells@) * 255 <= usize::MAX,
        ensures
            r == lod_cell_spec(cells@),
    {
        let n = cells.len();
        if n == 0 {
            return VoxelCell::air();
        }
        let mut opaque: usize = 0;
        let mut light: [u64; 3] = [0, 0, 0];
        let mut sky: u64 = 0;
        let mut i: usize = 0;
        while i < n
            invariant
                n == cells@.len(),
                n <= u32::MAX,
                i <= n,
                opaque == opaque_count(cells@.take(i as int)),
                light@[0] == opaque_light_sum(cells@.take(i as int), 0),
                light@[1] == opaque_light_sum(cells@.take(i as int), 1),
                light@[2] == opaque_light_sum(cells@.take(i as int), 2),
                sky == sky_sum(cells@.take(i as int)),
            decreases n - i,
        {
            let cell = cells[i];
            proof {
                let prefix = cells@.take(i as int);
                let next = cells@.take(i + 1);
                assert(next.drop_last() =~= prefix);
                assert(next.last() == cell);
                lemma_sums_bounded(prefix);
                assert(i * 255 + 255 <= 255 * 0xffff_ffffu64) by (nonlinear_arith)
                    requires
                        i < n,
                        n <= 0xffff_ffffu64,
                ;
            }
            if cell.material[3] >= 128 {
                opaque = opaque + 1;
                light[0] = light[0] + cell.light[0] as u64;
                light[1] = light[1] + cell.light[1] as u64;
                light[2] = light[2] + cell.light[2] as u64;
            }
            sky = sky + cell.light[3] as u64;
            i = i + 1;
        }
        proof {
            assert(cells@.take(n as int) =~= cells@);
            lemma_sums_bounded(cells@);
            assert((opaque as int) * 255 / (n as int) <= 255) by (nonlinear_arith)
                requires
                    opaque <= n,
                    n > 0,
            ;
            assert((sky as int) / (n as int) <= 255) by (nonlinear_arith)
                requires
                    sky <= 255 * n,
                    n > 0,
            ;
        }
        let mut result = VoxelCell::air();
        result.material[3] = (opaque * 255 / n) as u8;
        result.light[3] = (sky / n as u64) as u8;
        if opaque > 0 {
            proof {
                assert forall|c: int| 0 <= c < 3 implies light@[c] / (opaque as u64) <= 255 by {
                    assert(opaque_light_sum(cells@, c) <= 255 * opaque_count(cells@));
                    assert((light@[c] as int) / (opaque as int) <= 255) by (nonlinear_arith)
                        requires
                            light@[c] <= 255 * opaque,
                            opaque > 0,
                    ;
                }
            }
            let count = opaque as u64;
            result.light[0] = (light[0] / count) as u8;
            result.light[1] = (light[1] / count) as u8;
            result.light[2] = (light[2] / count) as u8;
        }
        result.ready = true;
        proof {
            assert(result.material@ =~= lod_cell_spec(cells@).material@);
            assert(result.light@ =~= lod_cell_spec(cells@).light@);
            assert(result.material =~= lod_cell_spec(cells@).material);
            assert(result.light =~= lod_cell_spec(cells@).light);
        }
        result
    }
}

} // verus!
