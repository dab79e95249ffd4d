//! Planning the texture writes of a voxel upload into a toroidal clipmap
//! level: each axis of the upload box is split where it wraps around the
//! 128-texel edge, and deep boxes are cut into slices of bounded size.

use vstd::prelude::*;
use crate::clipmap::{wrap128, Clipmap};
use crate::ivec::{IVec3, UVec3};

verus! {

/// Texels along each axis of a clipmap level texture.
pub const VOXELS: u32 = 128;

/// Largest number of bytes written by one texture copy (at least one slice is always written).
pub const MAX_UPLOAD: usize = 4 * 1024 * 1024;

/// Voxel data for a box of logical cells of one level, x fastest, four
/// bytes per cell in each of the material and light streams.
#[derive(Clone, Debug, PartialEq, Eq)]
pub struct VoxelUpload {
    pub level: u8,
    pub logical_origin: IVec3,
    pub extent: UVec3,
    pub material: Vec<u8>,
    pub light: Vec<u8>,
    pub revision: u32,
}

/// A run of one axis: source cells `source..source + len` land on texels
/// `physical..physical + len`.
#[derive(Clone, Copy, Debug, PartialEq, Eq, Structural)]
pub struct WrappedPart {
    pub source: u32,
    pub physical: u32,
    pub len: u32,
}

pub open spec fn part(source: int, physical: int, len: int) -> WrappedPart {
    WrappedPart { source: source as u32, physical: physical as u32, len: len as u32 }
}

/// Length of the first run of an axis starting at texel `start`: up to the texture edge.
pub open spec fn first_len(start: u32, len: u32) -> int {
    let p = start % 128;
    if len <= 128 - p {
        len as int
    } else {
        128 - p
    }
}

/// Texel that cell `s` of an axis starting at texel `start` lands on.
pub open spec fn texel_of(start: u32, s: int) -> int {
    (start + s) % 128
}

/// The runs of an axis of `len` cells starting at texel `start`.
pub open spec fn parts_spec(start: u32, len: u32) -> Seq<WrappedPart> {
    let first = first_len(start, len);
    if len == 0 {
        Seq::empty()
    } else if len > first {
        seq![part(0, (start % 128) as int, first), part(first, 0, len - first)]
    } else {
        seq![part(0, (start % 128) as int, first)]
    }
}

/// Split an axis of `len` cells that starts at texel `physical_start` into
/// at most two runs that do not cross the texture edge.
pub fn wrapped_parts(physical_start: u32, len: u32) -> (r: ([WrappedPart; 2], usize))
    ensures
        r.1 <= 2,
        r.0@.take(r.1 as int) == parts_spec(physical_start, len),
        len == 0 ==> r.0@[0] == part(0, 0, 0) && r.0@[1] == part(0, 0, 0),
        len > 0 ==> r.0@[1] == part(
            first_len(physical_start, len),
            0,
            len - first_len(physical_start, len),
        ),
        // Every cell `s` of the axis lands on texel `(physical_start + s) % 128`,
        // and no run crosses the texture edge.
        0 < len <= 128 ==> {
            &&& r.0@[0].len + r.0@[1].len == len
            &&& forall|k: int| 0 <= k < r.1 ==> r.0@[k].physical + r.0@[k].len <= 128
            &&& forall|s: int|
                0 <= s < r.0@[0].len ==> r.0@[0].physical + s == #[trigger] texel_of(
                    physical_start,
                    s,
                )
            &&& forall|s: int|
                r.0@[0].len <= s < len ==> r.0@[1].physical + (s - r.0@[1].source)
                    == #[trigger] texel_of(physical_start, s)
        },
{
    let zero = WrappedPart { source: 0, physical: 0, len: 0 };
    if len == 0 {
        let parts = [zero, zero];
        proof {
            assert(parts@.take(0) =~= Seq::<WrappedPart>::empty());
        }
        return (parts, 0);
    }
    let physical_start = physical_start % VOXELS;
    let first = if len < VOXELS - physical_start {
        len
    } else {
        VOXELS - physical_start
    };
    let second = len - first;
    let parts = [
        WrappedPart { source: 0, physical: physical_start, len: first },
        WrappedPart { source: first, physical: 0, len: second },
    ];
    let count: usize = if second > 0 {
        2
    } else {
        1
    };
    proof {
        if count == 2 {
            assert(parts@.take(2) =~= parts@);
            assert(parts@ =~= parts_spec(physical_start, len));
        } else {
            assert(parts@.take(1) =~= parts_spec(physical_start, len));
        }
    }
    (parts, count)
}

/// One texture write: the cells of the upload box from cell `source` on
/// (whose bytes start at `source_offset`, rows `4 * extent.x` bytes apart)
/// land at texel `origin` with size `extent`.
#[derive(Clone, Copy, Debug, PartialEq, Eq, Structural)]
pub struct TextureCopy {
    pub source: UVec3,
    pub source_offset: usize,
    pub origin: UVec3,
    pub extent: UVec3,
}

/// Slices of depth `depth` that cover `len` cells.
pub open spec fn chunk_count(len: int, depth: int) -> int {
    (len + depth - 1) / depth
}

/// Deepest slice of an `x_len` by `y_len` run that fits one copy.
pub open spec fn max_depth_spec(x_len: u32, y_len: u32) -> int {
    let q = 4194304int / (x_len * y_len * 4);
    if q == 0 {
        1
    } else {
        q
    }
}

/// The copies of the box of runs `x`, `y`, `z`, slice by slice along z.
pub open spec fn run_copies(
    x: WrappedPart,
    y: WrappedPart,
    z: WrappedPart,
    row: int,
    image: int,
) -> Seq<TextureCopy> {
    let md = max_depth_spec(x.len, y.len);
    Seq::new(
        chunk_count(z.len as int, md) as nat,
        |c: int|
            TextureCopy {
                source: UVec3 { x: x.source, y: y.source, z: (z.source + c * md) as u32 },
                source_offset: ((z.source + c * md) * image + y.source * row + x.source
                    * 4) as usize,
                origin: UVec3 { x: x.physical, y: y.physical, z: ((z.physical + c * md) % 128) as u32 },
                extent: UVec3 {
                    x: x.len,
                    y: y.len,
                    z: (if z.len - c * md < md {
                        z.len - c * md
                    } else {
                        md
                    }) as u32,
                },
            },
    )
}

/// Copies for the first `k` z runs of the column of runs `x`, `y`.
pub open spec fn z_run(
    x: WrappedPart,
    y: WrappedPart,
    zs: Seq<WrappedPart>,
    k: int,
    row: int,
    image: int,
) -> Seq<TextureCopy>
    decreases k,
{
    if k <= 0 {
        Seq::empty()
    } else {
        z_run(x, y, zs, k - 1, row, image) + run_copies(x, y, zs[k - 1], row, image)
    }
}

/// Copies for the first `k` y runs of the x run `x`.
pub open spec fn y_run(
    x: WrappedPart,
    ys: Seq<WrappedPart>,
    zs: Seq<WrappedPart>,
    k: int,
    row: int,
    image: int,
) -> Seq<TextureCopy>
    decreases k,
{
    if k <= 0 {
        Seq::empty()
    } else {
        y_run(x, ys, zs, k - 1, row, image) + z_run(x, ys[k - 1], zs, zs.len() as int, row, image)
    }
}

/// Copies for the first `k` x runs.
pub open spec fn x_run(
    xs: Seq<WrappedPart>,
    ys: Seq<WrappedPart>,
    zs: Seq<WrappedPart>,
    k: int,
    row: int,
    image: int,
) -> Seq<TextureCopy>
    decreases k,
{
    if k <= 0 {
        Seq::empty()
    } else {
        x_run(xs, ys, zs, k - 1, row, image) + y_run(
            xs[k - 1],
            ys,
            zs,
            ys.len() as int,
            row,
            image,
        )
    }
}

/// Cells of the upload box.
pub open spec fn upload_cells(upload: VoxelUpload) -> int {
    upload.extent.x * upload.extent.y * upload.extent.z
}

/// The upload names a level and carries data for every cell of its box.
pub open spec fn upload_accepted(upload: VoxelUpload) -> bool {
    &&& upload.level < 4
    &&& upload_cells(upload) > 0
    &&& upload.material@.len() >= upload_cells(upload) * 4
    &&& upload.light@.len() >= upload_cells(upload) * 4
}

/// Every texture write of `upload`, x runs outermost, z slices innermost;
/// none when the upload is not accepted.
pub open spec fn plan_spec(clipmap: Clipmap, upload: VoxelUpload) -> Seq<TextureCopy> {
    if !upload_accepted(upload) {
        Seq::empty()
    } else {
        let o = clipmap.levels@[upload.level as int].physical_spec(upload.logical_origin);
        let xs = parts_spec(o.x, upload.extent.x);
        let ys = parts_spec(o.y, upload.extent.y);
        let zs = parts_spec(o.z, upload.extent.z);
        let row = upload.extent.x * 4;
        let image = row * upload.extent.y;
        x_run(xs, ys, zs, xs.len() as int, row, image)
    }
}

proof fn lemma_mul_mono(a: int, b: int, c: int, d: int)
    requires
        0 <= a <= b,
        0 <= c <= d,
    ensures
        a * c <= b * d,
{
    assert(a * c <= b * d) by (nonlinear_arith)
        requires
            0 <= a <= b,
            0 <= c <= d,
    ;
}

proof fn lemma_chunk_count(len: int, md: int, c: int)
    requires
        md >= 1,
        len >= 0,
        c >= 0,
    ensures
        (c < chunk_count(len, md)) == (c * md < len),
{
    assert((c < (len + md - 1) / md) == (c * md < len)) by (nonlinear_arith)
        requires
            md >= 1,
            len >= 0,
            c >= 0,
    ;
}

/// The runs of an axis stay inside the axis and never cross the texture edge.
proof fn lemma_parts_bounds(start: u32, len: u32)
    ensures
        forall|k: int|
            0 <= k < parts_spec(start, len).len() ==> {
                let p = #[trigger] parts_spec(start, len)[k];
                &&& p.len > 0
                &&& p.source + p.len <= len
                &&& p.physical == 0 || (p.source == 0 && p.physical + p.len <= 128)
                &&& len <= 128 ==> p.physical + p.len <= 128
            },
        parts_spec(start, len).len() <= 2,
{
}

/// The texture writes of `upload` into its level of `clipmap`.
pub fn upload_plan(clipmap: &Clipmap, upload: &VoxelUpload) -> (copies: Vec<TextureCopy>)
    requires
        clipmap.wf(),
        upload.extent.x * upload.extent.y <= usize::MAX,
        upload_cells(*upload) * 4 <= usize::MAX,
        upload_accepted(*upload) ==> clipmap.levels@[upload.level as int].physical_defined(
            upload.logical_origin,
        ),
    ensures
        copies@ == plan_spec(*clipmap, *upload),
{
    let level = upload.level as usize;
    if level >= 4 {
        return Vec::new();
    }
    let ex = upload.extent.x as usize;
    let ey = upload.extent.y as usize;
    let ez = upload.extent.z as usize;
    proof {
        assert(ex * ey * ez * 4 <= usize::MAX);
        assert(ex * ey * ez <= usize::MAX);
    }
    let size = ex * ey * ez;
    if size == 0 || upload.material.len() < size * 4 || upload.light.len() < size * 4 {
        return Vec::new();
    }
    let origin = clipmap.levels[level].logical_to_physical(upload.logical_origin);
    let (x_parts, x_count) = wrapped_parts(origin.x, upload.extent.x);
    let (y_parts, y_count) = wrapped_parts(origin.y, upload.extent.y);
    let (z_parts, z_count) = wrapped_parts(origin.z, upload.extent.z);
    let ghost xs = parts_spec(origin.x, upload.extent.x);
    let ghost ys = parts_spec(origin.y, upload.extent.y);
    let ghost zs = parts_spec(origin.z, upload.extent.z);
    proof {
        lemma_parts_bounds(origin.x, upload.extent.x);
        lemma_parts_bounds(origin.y, upload.extent.y);
        lemma_parts_bounds(origin.z, upload.extent.z);
        assert(ex >= 1 && ey >= 1 && ez >= 1) by (nonlinear_arith)
            requires
                ex * ey * ez != 0,
        ;
        assert(ex * 4 * ey * ez == ex * ey * ez * 4) by (nonlinear_arith);
        lemma_mul_mono(ex * 4 * ey, ex * 4 * ey, 1, ez as int);
        lemma_mul_mono(ex * 4, ex * 4, 1, ey as int);
    }
    let row = ex * 4;
    let image = row * ey;
    let ghost total = ex * ey * ez * 4;
    let mut copies: Vec<TextureCopy> = Vec::new();
    let mut xi: usize = 0;
    while xi < x_count
        invariant
            xs == x_parts@.take(x_count as int),
            ys == y_parts@.take(y_count as int),
            zs == z_parts@.take(z_count as int),
            xs.len() == x_count,
            ys.len() == y_count,
            zs.len() == z_count,
            x_count <= 2,
            y_count <= 2,
            z_count <= 2,
            forall|k: int|
                0 <= k < xs.len() ==> {
                    let p = #[trigger] xs[k];
                    &&& p.len > 0
                    &&& p.source + p.len <= ex
                    &&& p.physical == 0 || (p.source == 0 && p.physical + p.len <= 128)
                },
            forall|k: int|
                0 <= k < ys.len() ==> {
                    let p = #[trigger] ys[k];
                    &&& p.len > 0
                    &&& p.source + p.len <= ey
                    &&& p.physical == 0 || (p.source == 0 && p.physical + p.len <= 128)
                },
            forall|k: int|
                0 <= k < zs.len() ==> {
                    let p = #[trigger] zs[k];
                    &&& p.len > 0
                    &&& p.source + p.len <= ez
                    &&& p.physical == 0 || (p.source == 0 && p.physical + p.len <= 128)
                },
            ex >= 1,
            ey >= 1,
            ez >= 1,
            ez <= u32::MAX,
            row == ex * 4,
            image == ex * 4 * ey,
            total == ex * ey * ez * 4,
            total <= usize::MAX,
            xi <= x_count,
            copies@ == x_run(xs, ys, zs, xi as int, row as int, image as int),
        decreases x_count - xi,
    {
        let x = x_parts[xi];
        assert(x == xs[xi as int]);
        let mut yi: usize = 0;
        while yi < y_count
            invariant
                xs == x_parts@.take(x_count as int),
                ys == y_parts@.take(y_count as int),
                zs == z_parts@.take(z_count as int),
                xs.len() == x_count,
                ys.len() == y_count,
                zs.len() == z_count,
                x_count <= 2,
                y_count <= 2,
                z_count <= 2,
                forall|k: int|
                    0 <= k < ys.len() ==> {
                        let p = #[trigger] ys[k];
                        &&& p.len > 0
                        &&& p.source + p.len <= ey
                        &&& p.physical == 0 || (p.source == 0 && p.physical + p.len <= 128)
                    },
                forall|k: int|
                    0 <= k < zs.len() ==> {
                        let p = #[trigger] zs[k];
                        &&& p.len > 0
                        &&& p.source + p.len <= ez
                        &&& p.physical == 0 || (p.source == 0 && p.physical + p.len <= 128)
                    },
                x == xs[xi as int],
                x.len > 0,
                x.source + x.len <= ex,
                ex >= 1,
                ey >= 1,
                ez >= 1,
                ez <= u32::MAX,
                row == ex * 4,
                image == ex * 4 * ey,
                total == ex * ey * ez * 4,
                total <= usize::MAX,
                xi < x_count,
                yi <= y_count,
                copies@ == x_run(xs, ys, zs, xi as int, row as int, image as int) + y_run(
                    x,
                    ys,
                    zs,
                    yi as int,
                    row as int,
                    image as int,
                ),
            decreases y_count - yi,
        {
            let y = y_parts[yi];
            assert(y == ys[yi as int]);
            proof {
                lemma_mul_mono(x.len as int, ex as int, y.len as int, ey as int);
                lemma_mul_mono(ex * ey, ex * ey, 1, ez as int);
                lemma_mul_mono(1, x.len as int, 1, y.len as int);
            }
            let quotient = MAX_UPLOAD / (x.len as usize * y.len as usize * 4);
            let max_depth: usize = if quotient == 0 {
                1
            } else {
                quotient
            };
            proof {
                assert(max_depth == max_depth_spec(x.len, y.len));
                vstd::arithmetic::div_mod::lemma_div_is_ordered_by_denominator(
                    4194304,
                    4,
                    x.len * y.len * 4,
                );
                assert(max_depth <= 1048576);
            }
            let mut zi: usize = 0;
            while zi < z_count
                invariant
                    zs == z_parts@.take(z_count as int),
                    zs.len() == z_count,
                    z_count <= 2,
                    forall|k: int|
                        0 <= k < zs.len() ==> {
                            let p = #[trigger] zs[k];
                            &&& p.len > 0
                            &&& p.source + p.len <= ez
                            &&& p.physical == 0 || (p.source == 0 && p.physical + p.len <= 128)
                        },
                    x.len > 0,
                    x.source + x.len <= ex,
                    y.len > 0,
                    y.source + y.len <= ey,
                    max_depth == max_depth_spec(x.len, y.len),
                    1 <= max_depth <= 1048576,
                    ex >= 1,
                    ey >= 1,
                    ez >= 1,
                ez <= u32::MAX,
                    row == ex * 4,
                    image == ex * 4 * ey,
                    total == ex * ey * ez * 4,
                    total <= usize::MAX,
                    zi <= z_count,
                    copies@ == x_run(xs, ys, zs, xi as int, row as int, image as int) + y_run(
                        x,
                        ys,
                        zs,
                        yi as int,
                        row as int,
                        image as int,
                    ) + z_run(x, y, zs, zi as int, row as int, image as int),
                decreases z_count - zi,
            {
                let z = z_parts[zi];
                assert(z == zs[zi as int]);
                let ghost before = copies@;
                let ghost md = max_depth as int;
                let ghost chunks = run_copies(x, y, z, row as int, image as int);
                let end = z.source + z.len;
                let mut source_z = z.source;
                let ghost mut c: int = 0;
                while source_z < end
                    invariant
                        z.len > 0,
                        z.source + z.len <= ez,
                        z.physical == 0 || (z.source == 0 && z.physical + z.len <= 128),
                        end == z.source + z.len,
                        x.len > 0,
                        x.source + x.len <= ex,
                        y.len > 0,
                        y.source + y.len <= ey,
                        md == max_depth,
                        md == max_depth_spec(x.len, y.len),
                        1 <= max_depth <= 1048576,
                        ex >= 1,
                        ey >= 1,
                        row == ex * 4,
                        image == ex * 4 * ey,
                        total == ex * ey * ez * 4,
                        total <= usize::MAX,
                        chunks == run_copies(x, y, z, row as int, image as int),
                        0 <= c <= chunk_count(z.len as int, md),
                        source_z == z.source + (if c * md <= z.len {
                            c * md
                        } else {
                            z.len as int
                        }),
                        copies@ == before + chunks.take(c),
                    decreases end - source_z,
                {
                    proof {
                        lemma_chunk_count(z.len as int, md, c);
                        assert(c * md < z.len);
                        assert(source_z == z.source + c * md);
                    }
                    let remaining = end - source_z;
                    let depth: u32 = if remaining < max_depth as u32 {
                        remaining
                    } else {
                        max_depth as u32
                    };
                    proof {
                        assert(source_z < ez);
                        assert(source_z * image + y.source * row + x.source * 4 < total) by (
                        nonlinear_arith)
                            requires
                                source_z < ez,
                                y.source < ey,
                                x.source < ex,
                                row == ex * 4,
                                image == ex * 4 * ey,
                                total == ex * ey * ez * 4,
                        {
                            assert(source_z * image <= (ez - 1) * image);
                            assert(y.source * row <= (ey - 1) * row);
                        }
                    }
                    let source_offset = source_z as usize * image + y.source as usize * row
                        + x.source as usize * 4;
                    let copy = TextureCopy {
                        source: UVec3 { x: x.source, y: y.source, z: source_z },
                        source_offset,
                        origin: UVec3 {
                            x: x.physical,
                            y: y.physical,
                            z: (z.physical + source_z - z.source) % VOXELS,
                        },
                        extent: UVec3 { x: x.len, y: y.len, z: depth },
                    };
                    proof {
                        assert(copy == chunks[c]);
                    }
                    copies.push(copy);
                    proof {
                        assert(copies@ =~= before + chunks.take(c + 1));
                        assert((c + 1) * md == c * md + md) by (nonlinear_arith);
                    }
                    source_z = source_z + depth;
                    proof {
                        c = c + 1;
                    }
                }
                proof {
                    lemma_chunk_count(z.len as int, md, c);
                    assert(chunks.take(c) =~= chunks);
                    assert(z_run(x, y, zs, zi + 1, row as int, image as int) == z_run(
                        x,
                        y,
                        zs,
                        zi as int,
                        row as int,
                        image as int,
                    ) + chunks);
                    assert(copies@ =~= x_run(xs, ys, zs, xi as int, row as int, image as int)
                        + y_run(x, ys, zs, yi as int, row as int, image as int) + z_run(
                        x,
                        y,
                        zs,
                        zi + 1,
                        row as int,
                        image as int,
                    ));
                }
                zi = zi + 1;
            }
            proof {
                assert(y == ys[yi as int]);
                assert(y_run(x, ys, zs, yi + 1, row as int, image as int) == y_run(
                    x,
                    ys,
                    zs,
                    yi as int,
                    row as int,
                    image as int,
                ) + z_run(x, y, zs, zs.len() as int, row as int, image as int));
                assert(copies@ =~= x_run(xs, ys, zs, xi as int, row as int, image as int) + y_run(
                    x,
                    ys,
                    zs,
                    yi + 1,
                    row as int,
                    image as int,
                ));
            }
            yi = yi + 1;
        }
        proof {
            assert(copies@ =~= x_run(xs, ys, zs, xi + 1, row as int, image as int));
        }
        xi = xi + 1;
    }
    proof {
        assert(origin == clipmap.levels@[upload.level as int].physical_spec(upload.logical_origin));
    }
    copies
}

/// The copy writes inside the 128^3 texture and writes something.
pub open spec fn copy_in_texture(c: TextureCopy) -> bool {
    &&& c.extent.x > 0 && c.extent.y > 0 && c.extent.z > 0
    &&& c.origin.x + c.extent.x <= 128
    &&& c.origin.y + c.extent.y <= 128
    &&& c.origin.z + c.extent.z <= 128
}

/// The last byte the copy reads lies within `bytes` bytes of upload data
/// laid out in rows of `row` bytes and images of `image` bytes.
pub open spec fn copy_in_source(c: TextureCopy, row: int, image: int, bytes: int) -> bool {
    c.source_offset + (c.extent.z - 1) * image + (c.extent.y - 1) * row + c.extent.x * 4 <= bytes
}

/// A run of an axis of `len` cells that stays inside the axis and the texture.
pub open spec fn part_ok(p: WrappedPart, len: int) -> bool {
    &&& p.len > 0
    &&& p.source + p.len <= len
    &&& p.physical + p.len <= 128
}

pub open spec fn copy_ok(c: TextureCopy, ex: int, ey: int, ez: int) -> bool {
    copy_in_texture(c) && copy_in_source(c, ex * 4, ex * 4 * ey, ex * ey * ez * 4)
}

proof fn lemma_box_bytes(
    zs0: int,
    d: int,
    ez: int,
    ys0: int,
    yl: int,
    ey: int,
    xs0: int,
    xl: int,
    ex: int,
)
    requires
        0 <= zs0,
        d >= 1,
        zs0 + d <= ez,
        0 <= ys0,
        yl >= 1,
        ys0 + yl <= ey,
        0 <= xs0,
        xl >= 1,
        xs0 + xl <= ex,
    ensures
        zs0 * (ex * 4 * ey) + ys0 * (ex * 4) + xs0 * 4 + (d - 1) * (ex * 4 * ey) + (yl - 1) * (ex
            * 4) + xl * 4 <= ex * ey * ez * 4,
        zs0 * (ex * 4 * ey) + ys0 * (ex * 4) + xs0 * 4 < ex * ey * ez * 4,
{
    let row = ex * 4;
    let image = row * ey;
    lemma_mul_mono(zs0 + d - 1, ez - 1, image, image);
    lemma_mul_mono(ys0 + yl - 1, ey - 1, row, row);
    assert(zs0 * image + (d - 1) * image == (zs0 + d - 1) * image) by (nonlinear_arith);
    assert(ys0 * row + (yl - 1) * row == (ys0 + yl - 1) * row) by (nonlinear_arith);
    assert((ez - 1) * image + (ey - 1) * row + row == ez * image) by (nonlinear_arith)
        requires
            image == row * ey,
    ;
    assert(ex * ey * ez * 4 == ez * image) by (nonlinear_arith)
        requires
            image == ex * 4 * ey,
    ;
    lemma_mul_mono(0, d - 1, image, image);
    lemma_mul_mono(0, yl - 1, row, row);
}

proof fn lemma_run_copies_ok(
    x: WrappedPart,
    y: WrappedPart,
    z: WrappedPart,
    ex: int,
    ey: int,
    ez: int,
)
    requires
        part_ok(x, ex),
        part_ok(y, ey),
        part_ok(z, ez),
        ex * ey * ez * 4 <= usize::MAX,
    ensures
        forall|i: int|
            0 <= i < run_copies(x, y, z, ex * 4, ex * 4 * ey).len() ==> #[trigger] copy_ok(
                run_copies(x, y, z, ex * 4, ex * 4 * ey)[i],
                ex,
                ey,
                ez,
            ),
{
    let row = ex * 4;
    let image = ex * 4 * ey;
    let md = max_depth_spec(x.len, y.len);
    assert(x.len * y.len * 4 > 0) by (nonlinear_arith)
        requires
            x.len > 0,
            y.len > 0,
    ;
    let copies = run_copies(x, y, z, row, image);
    assert forall|c: int| 0 <= c < copies.len() implies #[trigger] copy_ok(copies[c], ex, ey, ez) by {
        lemma_chunk_count(z.len as int, md, c);
        assert(c * md < z.len);
        let d = if z.len - c * md < md {
            z.len - c * md
        } else {
            md
        };
        lemma_box_bytes(
            z.source + c * md,
            d,
            ez,
            y.source as int,
            y.len as int,
            ey,
            x.source as int,
            x.len as int,
            ex,
        );
        lemma_mul_mono(0, z.source + c * md, image, image);
        lemma_mul_mono(0, y.source as int, row, row);
        assert(copies[c].source_offset == (z.source + c * md) * image + y.source * row + x.source
            * 4);
        assert(copies[c].origin.z == z.physical + c * md);
        assert(copies[c].extent.z == d);
    }
}

proof fn lemma_z_run_ok(
    x: WrappedPart,
    y: WrappedPart,
    zs: Seq<WrappedPart>,
    k: int,
    ex: int,
    ey: int,
    ez: int,
)
    requires
        part_ok(x, ex),
        part_ok(y, ey),
        forall|j: int| 0 <= j < zs.len() ==> part_ok(#[trigger] zs[j], ez),
        k <= zs.len(),
        ex * ey * ez * 4 <= usize::MAX,
    ensures
        forall|i: int|
            0 <= i < z_run(x, y, zs, k, ex * 4, ex * 4 * ey).len() ==> #[trigger] copy_ok(
                z_run(x, y, zs, k, ex * 4, ex * 4 * ey)[i],
                ex,
                ey,
                ez,
            ),
    decreases k,
{
    if k > 0 {
        lemma_z_run_ok(x, y, zs, k - 1, ex, ey, ez);
        lemma_run_copies_ok(x, y, zs[k - 1], ex, ey, ez);
        let a = z_run(x, y, zs, k - 1, ex * 4, ex * 4 * ey);
        let b = run_copies(x, y, zs[k - 1], ex * 4, ex * 4 * ey);
        assert forall|i: int| 0 <= i < (a + b).len() implies #[trigger] copy_ok(
            (a + b)[i],
            ex,
            ey,
            ez,
        ) by {
            if i >= a.len() {
                assert(copy_ok(b[i - a.len()], ex, ey, ez));
            } else {
                assert(copy_ok(a[i], ex, ey, ez));
            }
        }
    }
}

proof fn lemma_y_run_ok(
    x: WrappedPart,
    ys: Seq<WrappedPart>,
    zs: Seq<WrappedPart>,
    k: int,
    ex: int,
    ey: int,
    ez: int,
)
    requires
        part_ok(x, ex),
        forall|j: int| 0 <= j < ys.len() ==> part_ok(#[trigger] ys[j], ey),
        forall|j: int| 0 <= j < zs.len() ==> part_ok(#[trigger] zs[j], ez),
        k <= ys.len(),
        ex * ey * ez * 4 <= usize::MAX,
    ensures
        forall|i: int|
            0 <= i < y_run(x, ys, zs, k, ex * 4, ex * 4 * ey).len() ==> #[trigger] copy_ok(
                y_run(x, ys, zs, k, ex * 4, ex * 4 * ey)[i],
                ex,
                ey,
                ez,
            ),
    decreases k,
{
    if k > 0 {
        lemma_y_run_ok(x, ys, zs, k - 1, ex, ey, ez);
        lemma_z_run_ok(x, ys[k - 1], zs, zs.len() as int, ex, ey, ez);
        let a = y_run(x, ys, zs, k - 1, ex * 4, ex * 4 * ey);
        let b = z_run(x, ys[k - 1], zs, zs.len() as int, ex * 4, ex * 4 * ey);
        assert forall|i: int| 0 <= i < (a + b).len() implies #[trigger] copy_ok(
            (a + b)[i],
            ex,
            ey,
            ez,
        ) by {
            if i >= a.len() {
                assert(copy_ok(b[i - a.len()], ex, ey, ez));
            } else {
                assert(copy_ok(a[i], ex, ey, ez));
            }
        }
    }
}

proof fn lemma_x_run_ok(
    xs: Seq<WrappedPart>,
    ys: Seq<WrappedPart>,
    zs: Seq<WrappedPart>,
    k: int,
    ex: int,
    ey: int,
    ez: int,
)
    requires
        forall|j: int| 0 <= j < xs.len() ==> part_ok(#[trigger] xs[j], ex),
        forall|j: int| 0 <= j < ys.len() ==> part_ok(#[trigger] ys[j], ey),
        forall|j: int| 0 <= j < zs.len() ==> part_ok(#[trigger] zs[j], ez),
        k <= xs.len(),
        ex * ey * ez * 4 <= usize::MAX,
    ensures
        forall|i: int|
            0 <= i < x_run(xs, ys, zs, k, ex * 4, ex * 4 * ey).len() ==> #[trigger] copy_ok(
                x_run(xs, ys, zs, k, ex * 4, ex * 4 * ey)[i],
                ex,
                ey,
                ez,
            ),
    decreases k,
{
    if k > 0 {
        lemma_x_run_ok(xs, ys, zs, k - 1, ex, ey, ez);
        lemma_y_run_ok(xs[k - 1], ys, zs, ys.len() as int, ex, ey, ez);
        let a = x_run(xs, ys, zs, k - 1, ex * 4, ex * 4 * ey);
        let b = y_run(xs[k - 1], ys, zs, ys.len() as int, ex * 4, ex * 4 * ey);
        assert forall|i: int| 0 <= i < (a + b).len() implies #[trigger] copy_ok(
            (a + b)[i],
            ex,
            ey,
            ez,
        ) by {
            if i >= a.len() {
                assert(copy_ok(b[i - a.len()], ex, ey, ez));
            } else {
                assert(copy_ok(a[i], ex, ey, ez));
            }
        }
    }
}

/// Every texture write of an upload whose box is at most 128 cells along
/// each axis lands inside the level texture, writes a non-empty box, and
/// reads only bytes of the upload's data.
pub proof fn lemma_upload_plan_in_bounds(clipmap: Clipmap, upload: VoxelUpload)
    requires
        upload.extent.x <= 128,
        upload.extent.y <= 128,
        upload.extent.z <= 128,
    ensures
        forall|k: int|
            0 <= k < plan_spec(clipmap, upload).len() ==> {
                &&& copy_in_texture(#[trigger] plan_spec(clipmap, upload)[k])
                &&& copy_in_source(
                    plan_spec(clipmap, upload)[k],
                    upload.extent.x * 4,
                    upload.extent.x * 4 * upload.extent.y,
                    upload_cells(upload) * 4,
                )
                &&& upload_cells(upload) * 4 <= upload.material@.len()
                &&& upload_cells(upload) * 4 <= upload.light@.len()
            },
{
    if upload_accepted(upload) {
        let o = clipmap.levels@[upload.level as int].physical_spec(upload.logical_origin);
        let ex = upload.extent.x as int;
        let ey = upload.extent.y as int;
        let ez = upload.extent.z as int;
        lemma_parts_bounds(o.x, upload.extent.x);
        lemma_parts_bounds(o.y, upload.extent.y);
        lemma_parts_bounds(o.z, upload.extent.z);
        let xs = parts_spec(o.x, upload.extent.x);
        let ys = parts_spec(o.y, upload.extent.y);
        let zs = parts_spec(o.z, upload.extent.z);
        assert forall|j: int| 0 <= j < xs.len() implies part_ok(#[trigger] xs[j], ex) by {}
        assert forall|j: int| 0 <= j < ys.len() implies part_ok(#[trigger] ys[j], ey) by {}
        assert forall|j: int| 0 <= j < zs.len() implies part_ok(#[trigger] zs[j], ez) by {}
        assert(ex * ey * ez * 4 <= 128 * 128 * 128 * 4) by (nonlinear_arith)
            requires
                0 <= ex <= 128,
                0 <= ey <= 128,
                0 <= ez <= 128,
        ;
        lemma_x_run_ok(xs, ys, zs, xs.len() as int, ex, ey, ez);
        let plan = plan_spec(clipmap, upload);
        assert(plan == x_run(xs, ys, zs, xs.len() as int, ex * 4, ex * 4 * ey));
        assert forall|k: int| 0 <= k < plan.len() implies {
            &&& copy_in_texture(#[trigger] plan[k])
            &&& copy_in_source(plan[k], ex * 4, ex * 4 * ey, upload_cells(upload) * 4)
        } by {
            assert(copy_ok(plan[k], ex, ey, ez));
        }
    }
}

/// Copy `c` writes cell (`cx`, `cy`, `cz`) of the upload box.
pub open spec fn covers(c: TextureCopy, cx: int, cy: int, cz: int) -> bool {
    &&& c.source.x <= cx < c.source.x + c.extent.x
    &&& c.source.y <= cy < c.source.y + c.extent.y
    &&& c.source.z <= cz < c.source.z + c.extent.z
}

/// The texel copy `c` writes cell (`cx`, `cy`, `cz`) to is the texel of
/// that cell for an axis origin at texels (`ox`, `oy`, `oz`).
pub open spec fn maps_cell(c: TextureCopy, cx: int, cy: int, cz: int, ox: u32, oy: u32, oz: u32) -> bool {
    &&& c.origin.x + (cx - c.source.x) == texel_of(ox, cx)
    &&& c.origin.y + (cy - c.source.y) == texel_of(oy, cy)
    &&& c.origin.z + (cz - c.source.z) == texel_of(oz, cz)
}

/// `a` ends before `b` along x; or they share the x run and `a` ends
/// before `b` along y; or they share both runs and `a` ends before `b` along z.
pub open spec fn ordered(a: TextureCopy, b: TextureCopy) -> bool {
    ||| a.source.x + a.extent.x <= b.source.x
    ||| (a.source.x == b.source.x && a.extent.x == b.extent.x && (a.source.y + a.extent.y
        <= b.source.y || (a.source.y == b.source.y && a.extent.y == b.extent.y && a.source.z
        + a.extent.z <= b.source.z)))
}

pub open spec fn sorted_copies(s: Seq<TextureCopy>) -> bool {
    forall|i: int, j: int| 0 <= i < j < s.len() ==> ordered(#[trigger] s[i], #[trigger] s[j])
}

pub open spec fn seq_maps(s: Seq<TextureCopy>, ox: u32, oy: u32, oz: u32) -> bool {
    forall|i: int, cx: int, cy: int, cz: int|
        0 <= i < s.len() && #[trigger] covers(s[i], cx, cy, cz) ==> maps_cell(
            s[i],
            cx,
            cy,
            cz,
            ox,
            oy,
            oz,
        )
}

/// Runs of an axis that follow each other from cell 0 without gaps.
pub open spec fn contiguous(ps: Seq<WrappedPart>) -> bool {
    forall|l: int|
        0 <= l < ps.len() ==> (#[trigger] ps[l]).len > 0 && ps[l].source == (if l == 0 {
            0
        } else {
            ps[l - 1].source + ps[l - 1].len
        })
}

/// End of the first `k` runs.
pub open spec fn runs_end(ps: Seq<WrappedPart>, k: int) -> int {
    if k <= 0 {
        0
    } else {
        ps[k - 1].source + ps[k - 1].len
    }
}

/// Each cell of run `p` lands on its texel for an axis starting at texel `start`.
pub open spec fn part_maps(p: WrappedPart, start: u32) -> bool {
    forall|s: int|
        p.source <= s < p.source + p.len ==> p.physical + (s - p.source) == #[trigger] texel_of(
            start,
            s,
        )
}

proof fn lemma_ordered_disjoint(a: TextureCopy, b: TextureCopy, cx: int, cy: int, cz: int)
    requires
        ordered(a, b),
    ensures
        !(covers(a, cx, cy, cz) && covers(b, cx, cy, cz)),
{
}

proof fn lemma_concat_sorted_maps(
    a: Seq<TextureCopy>,
    b: Seq<TextureCopy>,
    ox: u32,
    oy: u32,
    oz: u32,
)
    requires
        sorted_copies(a),
        sorted_copies(b),
        seq_maps(a, ox, oy, oz),
        seq_maps(b, ox, oy, oz),
        forall|i: int, j: int|
            0 <= i < a.len() && 0 <= j < b.len() ==> ordered(#[trigger] a[i], #[trigger] b[j]),
    ensures
        sorted_copies(a + b),
        seq_maps(a + b, ox, oy, oz),
{
    let c = a + b;
    assert forall|i: int, j: int| 0 <= i < j < c.len() implies ordered(
        #[trigger] c[i],
        #[trigger] c[j],
    ) by {
        if j < a.len() {
            assert(ordered(a[i], a[j]));
        } else if i >= a.len() {
            assert(ordered(b[i - a.len()], b[j - a.len()]));
        } else {
            assert(ordered(a[i], b[j - a.len()]));
        }
    }
    assert forall|i: int, cx: int, cy: int, cz: int|
        0 <= i < c.len() && #[trigger] covers(c[i], cx, cy, cz) implies maps_cell(
        c[i],
        cx,
        cy,
        cz,
        ox,
        oy,
        oz,
    ) by {
        if i < a.len() {
            assert(covers(a[i], cx, cy, cz));
        } else {
            assert(covers(b[i - a.len()], cx, cy, cz));
        }
    }
}

/// The runs of an axis follow each other from cell 0, and for an axis of at
/// most 128 cells each run maps its cells onto their texels.
proof fn lemma_parts_cover(start: u32, len: u32)
    requires
        len <= 128,
    ensures
        contiguous(parts_spec(start, len)),
        runs_end(parts_spec(start, len), parts_spec(start, len).len() as int) == len,
        forall|l: int|
            0 <= l < parts_spec(start, len).len() ==> part_maps(
                #[trigger] parts_spec(start, len)[l],
                start,
            ),
{
    let ps = parts_spec(start, len);
    let p = start % 128;
    let first = first_len(start, len);
    assert forall|l: int| 0 <= l < ps.len() implies part_maps(#[trigger] ps[l], start) by {
        assert forall|s: int| ps[l].source <= s < ps[l].source + ps[l].len implies ps[l].physical
            + (s - ps[l].source) == #[trigger] texel_of(start, s) by {
            if l == 0 {
                assert((start + s) % 128 == p + s) by {
                    vstd::arithmetic::div_mod::lemma_add_mod_noop(start as int, s, 128);
                    vstd::arithmetic::div_mod::lemma_small_mod((p + s) as nat, 128);
                }
            } else {
                assert((start + s) % 128 == s - first) by {
                    vstd::arithmetic::div_mod::lemma_add_mod_noop(start as int, s, 128);
                    vstd::arithmetic::div_mod::lemma_mod_add_multiples_vanish(s - first, 128);
                    vstd::arithmetic::div_mod::lemma_small_mod((s - first) as nat, 128);
                }
            }
        }
    }
}

/// Facts about the copies of the box of runs `x`, `y`, `z`.
proof fn lemma_run_structure(
    x: WrappedPart,
    y: WrappedPart,
    z: WrappedPart,
    row: int,
    image: int,
    ox: u32,
    oy: u32,
    oz: u32,
)
    requires
        x.len > 0,
        y.len > 0,
        z.len > 0,
        z.physical + z.len <= 128,
        z.source + z.len <= u32::MAX,
        part_maps(x, ox),
        part_maps(y, oy),
        part_maps(z, oz),
    ensures
        sorted_copies(run_copies(x, y, z, row, image)),
        seq_maps(run_copies(x, y, z, row, image), ox, oy, oz),
        forall|i: int|
            0 <= i < run_copies(x, y, z, row, image).len() ==> {
                let e = #[trigger] run_copies(x, y, z, row, image)[i];
                &&& e.source.x == x.source && e.extent.x == x.len
                &&& e.source.y == y.source && e.extent.y == y.len
                &&& z.source <= e.source.z
                &&& e.source.z + e.extent.z <= z.source + z.len
            },
{
    let md = max_depth_spec(x.len, y.len);
    assert(x.len * y.len * 4 > 0) by (nonlinear_arith)
        requires
            x.len > 0,
            y.len > 0,
    ;
    let r = run_copies(x, y, z, row, image);
    assert forall|i: int| 0 <= i < r.len() implies {
        let e = #[trigger] r[i];
        &&& e.source.x == x.source && e.extent.x == x.len
        &&& e.source.y == y.source && e.extent.y == y.len
        &&& z.source <= e.source.z
        &&& e.source.z + e.extent.z <= z.source + z.len
        &&& e.source.z == z.source + i * md
        &&& e.origin.z == z.physical + i * md
    } by {
        lemma_chunk_count(z.len as int, md, i);
        lemma_mul_mono(0, i, md, md);
    }
    assert forall|i: int, j: int| 0 <= i < j < r.len() implies ordered(
        #[trigger] r[i],
        #[trigger] r[j],
    ) by {
        assert(i * md + md <= j * md) by (nonlinear_arith)
            requires
                i < j,
                md >= 1,
        ;
    }
    assert forall|i: int, cx: int, cy: int, cz: int|
        0 <= i < r.len() && #[trigger] covers(r[i], cx, cy, cz) implies maps_cell(
        r[i],
        cx,
        cy,
        cz,
        ox,
        oy,
        oz,
    ) by {
        assert(texel_of(ox, cx) == x.physical + (cx - x.source));
        assert(texel_of(oy, cy) == y.physical + (cy - y.source));
        assert(texel_of(oz, cz) == z.physical + (cz - z.source));
    }
}

proof fn lemma_z_run_structure(
    x: WrappedPart,
    y: WrappedPart,
    zs: Seq<WrappedPart>,
    k: int,
    row: int,
    image: int,
    ox: u32,
    oy: u32,
    oz: u32,
)
    requires
        0 <= k <= zs.len(),
        x.len > 0,
        y.len > 0,
        part_maps(x, ox),
        part_maps(y, oy),
        contiguous(zs),
        forall|l: int|
            0 <= l < zs.len() ==> {
                &&& part_maps(#[trigger] zs[l], oz)
                &&& zs[l].physical + zs[l].len <= 128
                &&& zs[l].source + zs[l].len <= u32::MAX
            },
    ensures
        sorted_copies(z_run(x, y, zs, k, row, image)),
        seq_maps(z_run(x, y, zs, k, row, image), ox, oy, oz),
        forall|i: int|
            0 <= i < z_run(x, y, zs, k, row, image).len() ==> {
                let e = #[trigger] z_run(x, y, zs, k, row, image)[i];
                &&& e.source.x == x.source && e.extent.x == x.len
                &&& e.source.y == y.source && e.extent.y == y.len
                &&& e.source.z + e.extent.z <= runs_end(zs, k)
            },
    decreases k,
{
    if k > 0 {
        lemma_z_run_structure(x, y, zs, k - 1, row, image, ox, oy, oz);
        lemma_run_structure(x, y, zs[k - 1], row, image, ox, oy, oz);
        let a = z_run(x, y, zs, k - 1, row, image);
        let b = run_copies(x, y, zs[k - 1], row, image);
        assert(runs_end(zs, k - 1) == zs[k - 1].source);
        assert forall|i: int, j: int| 0 <= i < a.len() && 0 <= j < b.len() implies ordered(
            #[trigger] a[i],
            #[trigger] b[j],
        ) by {}
        lemma_concat_sorted_maps(a, b, ox, oy, oz);
        assert forall|i: int| 0 <= i < (a + b).len() implies {
            let e = #[trigger] (a + b)[i];
            &&& e.source.x == x.source && e.extent.x == x.len
            &&& e.source.y == y.source && e.extent.y == y.len
            &&& e.source.z + e.extent.z <= runs_end(zs, k)
        } by {
            if i >= a.len() {
                assert(b[i - a.len()] == (a + b)[i]);
            } else {
                assert(a[i] == (a + b)[i]);
            }
        }
    }
}

proof fn lemma_y_run_structure(
    x: WrappedPart,
    ys: Seq<WrappedPart>,
    zs: Seq<WrappedPart>,
    k: int,
    row: int,
    image: int,
    ox: u32,
    oy: u32,
    oz: u32,
)
    requires
        0 <= k <= ys.len(),
        x.len > 0,
        part_maps(x, ox),
        contiguous(ys),
        contiguous(zs),
        forall|l: int| 0 <= l < ys.len() ==> part_maps(#[trigger] ys[l], oy),
        forall|l: int|
            0 <= l < zs.len() ==> {
                &&& part_maps(#[trigger] zs[l], oz)
                &&& zs[l].physical + zs[l].len <= 128
                &&& zs[l].source + zs[l].len <= u32::MAX
            },
    ensures
        sorted_copies(y_run(x, ys, zs, k, row, image)),
        seq_maps(y_run(x, ys, zs, k, row, image), ox, oy, oz),
        forall|i: int|
            0 <= i < y_run(x, ys, zs, k, row, image).len() ==> {
                let e = #[trigger] y_run(x, ys, zs, k, row, image)[i];
                &&& e.source.x == x.source && e.extent.x == x.len
                &&& e.source.y + e.extent.y <= runs_end(ys, k)
            },
    decreases k,
{
    if k > 0 {
        lemma_y_run_structure(x, ys, zs, k - 1, row, image, ox, oy, oz);
        lemma_z_run_structure(x, ys[k - 1], zs, zs.len() as int, row, image, ox, oy, oz);
        let a = y_run(x, ys, zs, k - 1, row, image);
        let b = z_run(x, ys[k - 1], zs, zs.len() as int, row, image);
        assert(runs_end(ys, k - 1) == ys[k - 1].source);
        assert forall|i: int, j: int| 0 <= i < a.len() && 0 <= j < b.len() implies ordered(
            #[trigger] a[i],
            #[trigger] b[j],
        ) by {}
        lemma_concat_sorted_maps(a, b, ox, oy, oz);
        assert forall|i: int| 0 <= i < (a + b).len() implies {
            let e = #[trigger] (a + b)[i];
            &&& e.source.x == x.source && e.extent.x == x.len
            &&& e.source.y + e.extent.y <= runs_end(ys, k)
        } by {
            if i >= a.len() {
                assert(b[i - a.len()] == (a + b)[i]);
            } else {
                assert(a[i] == (a + b)[i]);
            }
        }
    }
}

proof fn lemma_x_run_structure(
    xs: Seq<WrappedPart>,
    ys: Seq<WrappedPart>,
    zs: Seq<WrappedPart>,
    k: int,
    row: int,
    image: int,
    ox: u32,
    oy: u32,
    oz: u32,
)
    requires
        0 <= k <= xs.len(),
        contiguous(xs),
        contiguous(ys),
        contiguous(zs),
        forall|l: int| 0 <= l < xs.len() ==> part_maps(#[trigger] xs[l], ox),
        forall|l: int| 0 <= l < ys.len() ==> part_maps(#[trigger] ys[l], oy),
        forall|l: int|
            0 <= l < zs.len() ==> {
                &&& part_maps(#[trigger] zs[l], oz)
                &&& zs[l].physical + zs[l].len <= 128
                &&& zs[l].source + zs[l].len <= u32::MAX
            },
    ensures
        sorted_copies(x_run(xs, ys, zs, k, row, image)),
        seq_maps(x_run(xs, ys, zs, k, row, image), ox, oy, oz),
        forall|i: int|
            0 <= i < x_run(xs, ys, zs, k, row, image).len() ==> (#[trigger] x_run(
                xs,
                ys,
                zs,
                k,
                row,
                image,
            )[i]).source.x + x_run(xs, ys, zs, k, row, image)[i].extent.x <= runs_end(xs, k),
    decreases k,
{
    if k > 0 {
        lemma_x_run_structure(xs, ys, zs, k - 1, row, image, ox, oy, oz);
        lemma_y_run_structure(xs[k - 1], ys, zs, ys.len() as int, row, image, ox, oy, oz);
        let a = x_run(xs, ys, zs, k - 1, row, image);
        let b = y_run(xs[k - 1], ys, zs, ys.len() as int, row, image);
        assert(runs_end(xs, k - 1) == xs[k - 1].source);
        assert forall|i: int, j: int| 0 <= i < a.len() && 0 <= j < b.len() implies ordered(
            #[trigger] a[i],
            #[trigger] b[j],
        ) by {}
        lemma_concat_sorted_maps(a, b, ox, oy, oz);
        assert forall|i: int| 0 <= i < (a + b).len() implies (#[trigger] (a + b)[i]).source.x
            + (a + b)[i].extent.x <= runs_end(xs, k) by {
            if i >= a.len() {
                assert(b[i - a.len()] == (a + b)[i]);
            } else {
                assert(a[i] == (a + b)[i]);
            }
        }
    }
}

pub open spec fn in_part(p: WrappedPart, s: int) -> bool {
    p.source <= s < p.source + p.len
}

proof fn lemma_run_covers(
    x: WrappedPart,
    y: WrappedPart,
    z: WrappedPart,
    row: int,
    image: int,
    cx: int,
    cy: int,
    cz: int,
)
    requires
        in_part(x, cx),
        in_part(y, cy),
        in_part(z, cz),
        z.source + z.len <= u32::MAX,
    ensures
        exists|i: int|
            0 <= i < run_copies(x, y, z, row, image).len() && #[trigger] covers(
                run_copies(x, y, z, row, image)[i],
                cx,
                cy,
                cz,
            ),
{
    let md = max_depth_spec(x.len, y.len);
    assert(x.len * y.len * 4 > 0) by (nonlinear_arith)
        requires
            x.len > 0,
            y.len > 0,
    ;
    let off = cz - z.source;
    let m = off / md;
    assert(m * md <= off < m * md + md && m >= 0) by (nonlinear_arith)
        requires
            md >= 1,
            off >= 0,
            m == off / md,
    ;
    lemma_chunk_count(z.len as int, md, m);
    let r = run_copies(x, y, z, row, image);
    assert(covers(r[m], cx, cy, cz));
}

proof fn lemma_z_run_covers(
    x: WrappedPart,
    y: WrappedPart,
    zs: Seq<WrappedPart>,
    k: int,
    l: int,
    row: int,
    image: int,
    cx: int,
    cy: int,
    cz: int,
)
    requires
        0 <= l < k <= zs.len(),
        in_part(x, cx),
        in_part(y, cy),
        in_part(zs[l], cz),
        zs[l].source + zs[l].len <= u32::MAX,
    ensures
        exists|i: int|
            0 <= i < z_run(x, y, zs, k, row, image).len() && #[trigger] covers(
                z_run(x, y, zs, k, row, image)[i],
                cx,
                cy,
                cz,
            ),
    decreases k,
{
    let a = z_run(x, y, zs, k - 1, row, image);
    let b = run_copies(x, y, zs[k - 1], row, image);
    let whole = z_run(x, y, zs, k, row, image);
    assert(whole == a + b);
    if l == k - 1 {
        lemma_run_covers(x, y, zs[l], row, image, cx, cy, cz);
        let i = choose|i: int| 0 <= i < b.len() && #[trigger] covers(b[i], cx, cy, cz);
        assert(whole[a.len() + i] == b[i]);
        assert(covers(whole[a.len() + i], cx, cy, cz));
    } else {
        lemma_z_run_covers(x, y, zs, k - 1, l, row, image, cx, cy, cz);
        let i = choose|i: int| 0 <= i < a.len() && #[trigger] covers(a[i], cx, cy, cz);
        assert(whole[i] == a[i]);
        assert(covers(whole[i], cx, cy, cz));
    }
}

proof fn lemma_y_run_covers(
    x: WrappedPart,
    ys: Seq<WrappedPart>,
    zs: Seq<WrappedPart>,
    k: int,
    j: int,
    l: int,
    row: int,
    image: int,
    cx: int,
    cy: int,
    cz: int,
)
    requires
        0 <= j < k <= ys.len(),
        0 <= l < zs.len(),
        in_part(x, cx),
        in_part(ys[j], cy),
        in_part(zs[l], cz),
        zs[l].source + zs[l].len <= u32::MAX,
    ensures
        exists|i: int|
            0 <= i < y_run(x, ys, zs, k, row, image).len() && #[trigger] covers(
                y_run(x, ys, zs, k, row, image)[i],
                cx,
                cy,
                cz,
            ),
    decreases k,
{
    let a = y_run(x, ys, zs, k - 1, row, image);
    let b = z_run(x, ys[k - 1], zs, zs.len() as int, row, image);
    let whole = y_run(x, ys, zs, k, row, image);
    assert(whole == a + b);
    if j == k - 1 {
        lemma_z_run_covers(x, ys[j], zs, zs.len() as int, l, row, image, cx, cy, cz);
        let i = choose|i: int| 0 <= i < b.len() && #[trigger] covers(b[i], cx, cy, cz);
        assert(whole[a.len() + i] == b[i]);
        assert(covers(whole[a.len() + i], cx, cy, cz));
    } else {
        lemma_y_run_covers(x, ys, zs, k - 1, j, l, row, image, cx, cy, cz);
        let i = choose|i: int| 0 <= i < a.len() && #[trigger] covers(a[i], cx, cy, cz);
        assert(whole[i] == a[i]);
        assert(covers(whole[i], cx, cy, cz));
    }
}

proof fn lemma_x_run_covers(
    xs: Seq<WrappedPart>,
    ys: Seq<WrappedPart>,
    zs: Seq<WrappedPart>,
    k: int,
    h: int,
    j: int,
    l: int,
    row: int,
    image: int,
    cx: int,
    cy: int,
    cz: int,
)
    requires
        0 <= h < k <= xs.len(),
        0 <= j < ys.len(),
        0 <= l < zs.len(),
        in_part(xs[h], cx),
        in_part(ys[j], cy),
        in_part(zs[l], cz),
        zs[l].source + zs[l].len <= u32::MAX,
    ensures
        exists|i: int|
            0 <= i < x_run(xs, ys, zs, k, row, image).len() && #[trigger] covers(
                x_run(xs, ys, zs, k, row, image)[i],
                cx,
                cy,
                cz,
            ),
    decreases k,
{
    let a = x_run(xs, ys, zs, k - 1, row, image);
    let b = y_run(xs[k - 1], ys, zs, ys.len() as int, row, image);
    let whole = x_run(xs, ys, zs, k, row, image);
    assert(whole == a + b);
    if h == k - 1 {
        lemma_y_run_covers(xs[h], ys, zs, ys.len() as int, j, l, row, image, cx, cy, cz);
        let i = choose|i: int| 0 <= i < b.len() && #[trigger] covers(b[i], cx, cy, cz);
        assert(whole[a.len() + i] == b[i]);
        assert(covers(whole[a.len() + i], cx, cy, cz));
    } else {
        lemma_x_run_covers(xs, ys, zs, k - 1, h, j, l, row, image, cx, cy, cz);
        let i = choose|i: int| 0 <= i < a.len() && #[trigger] covers(a[i], cx, cy, cz);
        assert(whole[i] == a[i]);
        assert(covers(whole[i], cx, cy, cz));
    }
}

/// Index of the run of an axis of at most 128 cells that holds cell `s`.
proof fn lemma_part_of(start: u32, len: u32, s: int) -> (l: int)
    requires
        len <= 128,
        0 <= s < len,
    ensures
        0 <= l < parts_spec(start, len).len(),
        in_part(parts_spec(start, len)[l], s),
{
    if s < first_len(start, len) {
        0
    } else {
        1
    }
}

/// Cell `c` of an axis whose origin is at texel `wrap128(v)` lands on texel `wrap128(v + c)`.
proof fn lemma_texel_shift(v: int, c: int)
    requires
        0 <= c,
    ensures
        texel_of(wrap128(v) as u32, c) == wrap128(v + c),
{
    vstd::arithmetic::div_mod::lemma_add_mod_noop(v, c, 128);
    vstd::arithmetic::div_mod::lemma_mod_twice(v, 128);
    assert(wrap128(v) as u32 == wrap128(v));
}

/// The plan of an accepted upload of at most 128 cells per axis, with the
/// runs of its axes.
proof fn lemma_plan_structure(clipmap: Clipmap, upload: VoxelUpload)
    requires
        upload_accepted(upload),
        upload.extent.x <= 128,
        upload.extent.y <= 128,
        upload.extent.z <= 128,
    ensures
        sorted_copies(plan_spec(clipmap, upload)),
        seq_maps(
            plan_spec(clipmap, upload),
            clipmap.levels@[upload.level as int].physical_spec(upload.logical_origin).x,
            clipmap.levels@[upload.level as int].physical_spec(upload.logical_origin).y,
            clipmap.levels@[upload.level as int].physical_spec(upload.logical_origin).z,
        ),
{
    let level = clipmap.levels@[upload.level as int];
    let o = level.physical_spec(upload.logical_origin);
    let xs = parts_spec(o.x, upload.extent.x);
    let ys = parts_spec(o.y, upload.extent.y);
    let zs = parts_spec(o.z, upload.extent.z);
    let row = upload.extent.x * 4;
    let image = row * upload.extent.y;
    lemma_parts_cover(o.x, upload.extent.x);
    lemma_parts_cover(o.y, upload.extent.y);
    lemma_parts_cover(o.z, upload.extent.z);
    lemma_parts_bounds(o.z, upload.extent.z);
    assert forall|l: int| 0 <= l < zs.len() implies {
        &&& part_maps(#[trigger] zs[l], o.z)
        &&& zs[l].physical + zs[l].len <= 128
        &&& zs[l].source + zs[l].len <= u32::MAX
    } by {}
    lemma_x_run_structure(xs, ys, zs, xs.len() as int, row, image, o.x, o.y, o.z);
}

/// Some copy of the plan of an accepted upload of at most 128 cells per
/// axis writes cell (`cx`, `cy`, `cz`) of its box.
proof fn lemma_plan_covers(clipmap: Clipmap, upload: VoxelUpload, cx: int, cy: int, cz: int)
    requires
        upload_accepted(upload),
        upload.extent.x <= 128,
        upload.extent.y <= 128,
        upload.extent.z <= 128,
        0 <= cx < upload.extent.x,
        0 <= cy < upload.extent.y,
        0 <= cz < upload.extent.z,
    ensures
        exists|k: int|
            0 <= k < plan_spec(clipmap, upload).len() && #[trigger] covers(
                plan_spec(clipmap, upload)[k],
                cx,
                cy,
                cz,
            ),
{
    let level = clipmap.levels@[upload.level as int];
    let o = level.physical_spec(upload.logical_origin);
    let xs = parts_spec(o.x, upload.extent.x);
    let ys = parts_spec(o.y, upload.extent.y);
    let zs = parts_spec(o.z, upload.extent.z);
    let row = upload.extent.x * 4;
    let image = row * upload.extent.y;
    lemma_parts_bounds(o.z, upload.extent.z);
    let h = lemma_part_of(o.x, upload.extent.x, cx);
    let j = lemma_part_of(o.y, upload.extent.y, cy);
    let l = lemma_part_of(o.z, upload.extent.z, cz);
    lemma_x_run_covers(xs, ys, zs, xs.len() as int, h, j, l, row, image, cx, cy, cz);
    let whole = x_run(xs, ys, zs, xs.len() as int, row, image);
    let plan = plan_spec(clipmap, upload);
    assert(plan == whole);
    let i = choose|i: int| 0 <= i < whole.len() && #[trigger] covers(whole[i], cx, cy, cz);
    assert(covers(plan[i], cx, cy, cz));
}

/// An accepted upload whose box is at most 128 cells along each axis
/// writes every cell of its box exactly once, and to the texel that holds
/// the cell's logical position in the level's toroidal texture.
pub proof fn lemma_upload_plan_writes_each_cell_once(
    clipmap: Clipmap,
    upload: VoxelUpload,
    cx: int,
    cy: int,
    cz: int,
)
    requires
        upload_accepted(upload),
        upload.extent.x <= 128,
        upload.extent.y <= 128,
        upload.extent.z <= 128,
        0 <= cx < upload.extent.x,
        0 <= cy < upload.extent.y,
        0 <= cz < upload.extent.z,
    ensures
        exists|k: int|
            0 <= k < plan_spec(clipmap, upload).len() && #[trigger] covers(
                plan_spec(clipmap, upload)[k],
                cx,
                cy,
                cz,
            ),
        forall|k1: int, k2: int|
            0 <= k1 < plan_spec(clipmap, upload).len() && 0 <= k2 < plan_spec(
                clipmap,
                upload,
            ).len() && #[trigger] covers(plan_spec(clipmap, upload)[k1], cx, cy, cz)
                && #[trigger] covers(plan_spec(clipmap, upload)[k2], cx, cy, cz) ==> k1 == k2,
        forall|k: int|
            0 <= k < plan_spec(clipmap, upload).len() && #[trigger] covers(
                plan_spec(clipmap, upload)[k],
                cx,
                cy,
                cz,
            ) ==> {
                let c = plan_spec(clipmap, upload)[k];
                let level = clipmap.levels@[upload.level as int];
                &&& c.origin.x + (cx - c.source.x) == wrap128(
                    upload.logical_origin.x + cx - level.origin.x + level.ring_offset.x,
                )
                &&& c.origin.y + (cy - c.source.y) == wrap128(
                    upload.logical_origin.y + cy - level.origin.y + level.ring_offset.y,
                )
                &&& c.origin.z + (cz - c.source.z) == wrap128(
                    upload.logical_origin.z + cz - level.origin.z + level.ring_offset.z,
                )
            },
{
    let level = clipmap.levels@[upload.level as int];
    let o = level.physical_spec(upload.logical_origin);
    let plan = plan_spec(clipmap, upload);
    lemma_plan_covers(clipmap, upload, cx, cy, cz);
    lemma_plan_structure(clipmap, upload);
    assert forall|k1: int, k2: int|
        0 <= k1 < plan.len() && 0 <= k2 < plan.len() && #[trigger] covers(plan[k1], cx, cy, cz)
            && #[trigger] covers(plan[k2], cx, cy, cz) implies k1 == k2 by {
        if k1 < k2 {
            lemma_ordered_disjoint(plan[k1], plan[k2], cx, cy, cz);
        } else if k2 < k1 {
            lemma_ordered_disjoint(plan[k2], plan[k1], cx, cy, cz);
        }
    }
    lemma_texel_shift(upload.logical_origin.x - level.origin.x + level.ring_offset.x, cx);
    lemma_texel_shift(upload.logical_origin.y - level.origin.y + level.ring_offset.y, cy);
    lemma_texel_shift(upload.logical_origin.z - level.origin.z + level.ring_offset.z, cz);
    assert forall|k: int| 0 <= k < plan.len() && #[trigger] covers(plan[k], cx, cy, cz) implies {
        let c = plan[k];
        &&& c.origin.x + (cx - c.source.x) == wrap128(
            upload.logical_origin.x + cx - level.origin.x + level.ring_offset.x,
        )
        &&& c.origin.y + (cy - c.source.y) == wrap128(
            upload.logical_origin.y + cy - level.origin.y + level.ring_offset.y,
        )
        &&& c.origin.z + (cz - c.source.z) == wrap128(
            upload.logical_origin.z + cz - level.origin.z + level.ring_offset.z,
        )
    } by {
        assert(maps_cell(plan[k], cx, cy, cz, o.x, o.y, o.z));
    }
}

} // verus!
