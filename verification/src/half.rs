//! Narrowing an IEEE binary32 bit pattern to binary16 for half-float
//! texture data: the sign is kept, the mantissa is truncated to ten bits,
//! exponents below the half range flush to signed zero and exponents above
//! it saturate to signed infinity.

use vstd::prelude::*;

verus! {

/// The binary16 pattern stored for the binary32 pattern `bits`.
pub open spec fn half_bits_spec(bits: u32) -> int {
    let sign = bits / 0x8000_0000;
    let exponent = (bits / 0x80_0000) % 0x100;
    let mantissa = bits % 0x80_0000;
    sign * 0x8000 + if exponent <= 112 {
        0
    } else if exponent >= 143 {
        0x7c00
    } else {
        (exponent - 112) * 0x400 + mantissa / 0x2000
    }
}

/// The binary16 pattern for the binary32 pattern `bits` (truncating, no subnormals).
pub fn half_bits(bits: u32) -> (h: u16)
    ensures
        h == half_bits_spec(bits),
{
    let sign = ((bits >> 16) & 0x8000) as u16;
    let exponent_field = (bits >> 23) & 0xff;
    let mantissa = bits & 0x7f_ffff;
    proof {
        assert(sign == (bits / 0x8000_0000) * 0x8000) by (bit_vector)
            requires
                sign == ((bits >> 16) & 0x8000) as u16,
        ;
        assert(exponent_field == (bits / 0x80_0000) % 0x100) by (bit_vector)
            requires
                exponent_field == (bits >> 23) & 0xff,
        ;
        assert(mantissa == bits % 0x80_0000) by (bit_vector)
            requires
                mantissa == bits & 0x7f_ffff,
        ;
    }
    if exponent_field <= 112 {
        return sign;
    }
    if exponent_field >= 143 {
        let h = sign | 0x7c00;
        proof {
            assert(h == sign + 0x7c00) by (bit_vector)
                requires
                    h == sign | 0x7c00u16,
                    sign == 0 || sign == 0x8000,
            ;
        }
        return h;
    }
    let exponent = (exponent_field - 112) as u16;
    let top = (mantissa >> 13) as u16;
    let h = sign | (exponent << 10) | top;
    proof {
        assert(top == mantissa / 0x2000) by (bit_vector)
            requires
                top == (mantissa >> 13) as u16,
                mantissa < 0x80_0000,
        ;
        assert(h == sign + exponent * 0x400 + top) by (bit_vector)
            requires
                h == sign | (exponent << 10u16) | top,
                sign == 0 || sign == 0x8000,
                1 <= exponent < 31,
                top < 0x400,
        ;
    }
    h
}

} // verus!
