//! Reading an RGBA8 image back from a GPU buffer whose rows are padded to
//! the 256-byte copy alignment.

use vstd::prelude::*;

verus! {

/// Row pitch the GPU requires for buffer copies.
pub const COPY_BYTES_PER_ROW_ALIGNMENT: u32 = 256;

/// Bytes of one padded row of an RGBA8 image `width` pixels wide.
pub open spec fn padded_row_spec(width: u32) -> int {
    ((width * 4 + 255) / 256) * 256
}

pub fn padded_row_bytes(width: u32) -> (bytes: u64)
    ensures
        bytes == padded_row_spec(width),
        bytes >= width * 4,
        bytes % 256 == 0,
{
    let unpadded = width as u64 * 4;
    proof {
        assert(((unpadded + 255) / 256) * 256 >= unpadded && ((unpadded + 255) / 256) * 256 % 256
            == 0) by (nonlinear_arith)
            requires
                unpadded >= 0,
        ;
    }
    (unpadded + 255) / 256 * 256
}

/// The image of `height` rows of `4 * width` bytes, taken from a buffer
/// whose rows start `padded_row_spec(width)` bytes apart.
pub fn unpad_rows(mapped: &[u8], width: u32, height: u32) -> (pixels: Vec<u8>)
    requires
        mapped@.len() >= padded_row_spec(width) * height,
        padded_row_spec(width) * height <= usize::MAX,
    ensures
        pixels@.len() == width * 4 * height,
        forall|r: int, c: int|
            0 <= r < height && 0 <= c < width * 4 ==> #[trigger] pixels@[r * (width * 4) + c]
                == mapped@[r * padded_row_spec(width) + c],
{
    let padded = padded_row_bytes(width);
    if height == 0 {
        let pixels: Vec<u8> = Vec::new();
        return pixels;
    }
    proof {
        assert(padded <= padded * height) by (nonlinear_arith)
            requires
                height >= 1,
        ;
    }
    let row = width as usize * 4;
    let padded = padded as usize;
    let mut pixels: Vec<u8> = Vec::new();
    let mut r: usize = 0;
    while r < height as usize
        invariant
            row == width * 4,
            padded == padded_row_spec(width),
            row <= padded,
            mapped@.len() >= padded * height,
            padded * height <= usize::MAX,
            r <= height,
            pixels@.len() == r * row,
            forall|rr: int, c: int|
                0 <= rr < r && 0 <= c < row ==> #[trigger] pixels@[rr * row + c] == mapped@[rr
                    * padded + c],
        decreases height - r,
    {
        proof {
            assert(r * padded + padded <= padded * height) by (nonlinear_arith)
                requires
                    r < height,
            ;
        }
        let start = r * padded;
        let mut c: usize = 0;
        while c < row
            invariant
                row == width * 4,
                row <= padded,
                mapped@.len() >= padded * height,
                start == r * padded,
                start + padded <= padded * height,
                padded * height <= usize::MAX,
                r < height,
                c <= row,
                pixels@.len() == r * row + c,
                forall|rr: int, cc: int|
                    0 <= rr < r && 0 <= cc < row ==> #[trigger] pixels@[rr * row + cc]
                        == mapped@[rr * padded + cc],
                forall|cc: int| 0 <= cc < c ==> #[trigger] pixels@[r * row + cc] == mapped@[r * padded + cc],
            decreases row - c,
        {
            pixels.push(mapped[start + c]);
            proof {
                assert forall|rr: int, cc: int|
                    0 <= rr < r && 0 <= cc < row implies #[trigger] pixels@[rr * row + cc]
                    == mapped@[rr * padded + cc] by {
                    assert(rr * row + cc < r * row) by (nonlinear_arith)
                        requires
                            rr < r,
                            cc < row,
                    ;
                }
            }
            c = c + 1;
        }
        proof {
            assert forall|rr: int, cc: int|
                0 <= rr < r + 1 && 0 <= cc < row implies #[trigger] pixels@[rr * row + cc]
                == mapped@[rr * padded + cc] by {
                if rr == r {
                    assert(pixels@[r * row + cc] == mapped@[r * padded + cc]);
                }
            }
            assert((r + 1) * row == r * row + row) by (nonlinear_arith);
        }
        r = r + 1;
    }
    proof {
        assert(r * row == width * 4 * height) by (nonlinear_arith)
            requires
                r == height,
                row == width * 4,
        ;
    }
    pixels
}

} // verus!
