//! Byte accounting for live GPU resources, saturating instead of wrapping.

use vstd::prelude::*;
use crate::bloom::half_up;

verus! {

/// What the accounting reads from a live texture's descriptor.
#[derive(Clone, Copy, Debug, PartialEq, Eq, Structural)]
pub struct TextureShape {
    pub width: u32,
    pub height: u32,
    pub depth_or_array_layers: u32,
    pub mip_level_count: u32,
    pub sample_count: u32,
    /// Bytes of one texel block, where the format can be copied at all.
    pub block_copy_size: Option<u32>,
    pub block_width: u32,
    pub block_height: u32,
}

/// `v` clamped to `usize::MAX`.
pub open spec fn sat(v: int) -> int {
    if v > usize::MAX {
        usize::MAX as int
    } else {
        v
    }
}

pub open spec fn div_ceil_spec(v: u32, d: u32) -> int {
    (v as int + d - 1) / (d as int)
}

/// Width and height of mip `k`.
pub open spec fn mip_dims(shape: TextureShape, k: nat) -> (u32, u32)
    decreases k,
{
    if k == 0 {
        (shape.width, shape.height)
    } else {
        let prev = mip_dims(shape, (k - 1) as nat);
        (half_up(prev.0), half_up(prev.1))
    }
}

/// Bytes of mip `k`: blocks across times blocks down times layers times
/// block bytes, each product saturating.
pub open spec fn mip_bytes(shape: TextureShape, block_bytes: u32, k: nat) -> int {
    let d = mip_dims(shape, k);
    let bx = div_ceil_spec(d.0, shape.block_width);
    let by = div_ceil_spec(d.1, shape.block_height);
    sat(sat(sat(bx * by) * shape.depth_or_array_layers) * block_bytes)
}

/// Saturating sum of the bytes of the first `k` mips.
pub open spec fn mips_bytes(shape: TextureShape, block_bytes: u32, k: nat) -> int
    decreases k,
{
    if k == 0 {
        0
    } else {
        sat(mips_bytes(shape, block_bytes, (k - 1) as nat) + mip_bytes(
            shape,
            block_bytes,
            (k - 1) as nat,
        ))
    }
}

/// Texel storage of a texture: every mip, times the sample count; zero for
/// formats without a copyable block size.
pub open spec fn texture_bytes_spec(shape: TextureShape) -> int {
    match shape.block_copy_size {
        None => 0,
        Some(b) => sat(mips_bytes(shape, b, shape.mip_level_count as nat) * shape.sample_count),
    }
}

fn div_ceil_u32(v: u32, d: u32) -> (r: u32)
    requires
        d >= 1,
    ensures
        r == div_ceil_spec(v, d),
{
    let q = v / d;
    proof {
        if v % d != 0 {
            assert(q < u32::MAX) by (nonlinear_arith)
                requires
                    d >= 2,
                    q == v / d,
            ;
        }
    }
    let r = if v % d != 0 {
        q + 1
    } else {
        q
    };
    proof {
        assert(r == (v as int + d - 1) / (d as int)) by (nonlinear_arith)
            requires
                d >= 1,
                q == v / d,
                r == (if v % d != 0 {
                    q + 1
                } else {
                    q as int
                }),
        ;
    }
    r
}

/// `a * b`, or `usize::MAX` where the product does not fit.
fn mul_sat(a: usize, b: usize) -> (p: usize)
    ensures
        p == sat(a * b),
{
    match a.checked_mul(b) {
        Some(p) => p,
        None => usize::MAX,
    }
}

fn half_up_u32(v: u32) -> (h: u32)
    ensures
        h == half_up(v),
{
    let h = v / 2 + v % 2;
    if h == 0 {
        1
    } else {
        h
    }
}

/// Estimated texel storage of a texture of shape `shape`.
pub fn texture_bytes(shape: &TextureShape) -> (bytes: usize)
    requires
        shape.block_width >= 1,
        shape.block_height >= 1,
    ensures
        bytes == texture_bytes_spec(*shape),
{
    let block_bytes = match shape.block_copy_size {
        None => {
            return 0;
        },
        Some(b) => b,
    };
    let mut width = shape.width;
    let mut height = shape.height;
    let mut bytes: usize = 0;
    let mut k: u32 = 0;
    while k < shape.mip_level_count
        invariant
            shape.block_width >= 1,
            shape.block_height >= 1,
            k <= shape.mip_level_count,
            (width, height) == mip_dims(*shape, k as nat),
            bytes == mips_bytes(*shape, block_bytes, k as nat),
        decreases shape.mip_level_count - k,
    {
        let blocks_x = div_ceil_u32(width, shape.block_width) as usize;
        let blocks_y = div_ceil_u32(height, shape.block_height) as usize;
        let level = mul_sat(
            mul_sat(mul_sat(blocks_x, blocks_y), shape.depth_or_array_layers as usize),
            block_bytes as usize,
        );
        bytes = bytes.saturating_add(level);
        width = half_up_u32(width);
        height = half_up_u32(height);
        k = k + 1;
    }
    mul_sat(bytes, shape.sample_count as usize)
}

/// Requested sizes of a chunk's vertex and index buffers.
#[derive(Clone, Copy, Debug, PartialEq, Eq, Structural)]
pub struct ChunkBuffers {
    pub vertex_bytes: u64,
    pub index_bytes: u64,
}

/// Bytes of both buffers, saturating, as a `usize` (truncated where `usize` is narrower).
pub open spec fn chunk_bytes_spec(b: ChunkBuffers) -> usize {
    (if b.vertex_bytes + b.index_bytes > u64::MAX {
        u64::MAX as int
    } else {
        b.vertex_bytes + b.index_bytes
    }) as usize
}

impl ChunkBuffers {
    pub fn buffer_memory_bytes(&self) -> (n: usize)
        ensures
            n == chunk_bytes_spec(*self),
    {
        self.vertex_bytes.saturating_add(self.index_bytes) as usize
    }
}

pub open spec fn pass_bytes(pass: Option<ChunkBuffers>) -> int {
    match pass {
        None => 0,
        Some(b) => chunk_bytes_spec(b) as int,
    }
}

/// Buffers of the opaque, translucent and water meshes of one chunk, saturating.
pub fn chunk_meshes_bytes(
    opaque: Option<ChunkBuffers>,
    translucent: Option<ChunkBuffers>,
    water: Option<ChunkBuffers>,
) -> (n: usize)
    ensures
        n == sat(sat(pass_bytes(opaque) + pass_bytes(translucent)) + pass_bytes(water)),
{
    let a = match opaque {
        None => 0,
        Some(b) => b.buffer_memory_bytes(),
    };
    let b = match translucent {
        None => 0,
        Some(b) => b.buffer_memory_bytes(),
    };
    let c = match water {
        None => 0,
        Some(b) => b.buffer_memory_bytes(),
    };
    a.saturating_add(b).saturating_add(c)
}

/// Saturating total of byte counts.
pub fn saturating_total(parts: &[usize]) -> (n: usize)
    ensures
        n == saturating_sum(parts@),
{
    let mut total: usize = 0;
    let mut i: usize = 0;
    while i < parts.len()
        invariant
            i <= parts@.len(),
            total == saturating_sum(parts@.take(i as int)),
        decreases parts@.len() - i,
    {
        proof {
            assert(parts@.take(i + 1).drop_last() =~= parts@.take(i as int));
        }
        total = total.saturating_add(parts[i]);
        i = i + 1;
    }
    proof {
        assert(parts@.take(parts@.len() as int) =~= parts@);
    }
    total
}

/// Sum of `parts` clamped at every step to `usize::MAX`.
pub open spec fn saturating_sum(parts: Seq<usize>) -> int
    decreases parts.len(),
{
    if parts.len() == 0 {
        0
    } else {
        sat(saturating_sum(parts.drop_last()) + parts.last())
    }
}

/// A saturating total never exceeds `usize::MAX` and never falls below any
/// of its parts: accounting stays finite and monotone.
pub proof fn lemma_saturating_total_bounds(parts: Seq<usize>)
    ensures
        0 <= saturating_sum(parts) <= usize::MAX,
        forall|i: int| 0 <= i < parts.len() ==> #[trigger] parts[i] <= saturating_sum(parts),
    decreases parts.len(),
{
    if parts.len() > 0 {
        lemma_saturating_total_bounds(parts.drop_last());
        assert forall|i: int| 0 <= i < parts.len() implies #[trigger] parts[i] <= saturating_sum(
            parts,
        ) by {
            if i < parts.len() - 1 {
                assert(parts.drop_last()[i] == parts[i]);
            }
        }
    }
}

} // verus!
