use voxelforge::half::half_bits;

#[test]
fn half_bits_of_common_values() {
    assert_eq!(half_bits(1.0_f32.to_bits()), 0x3c00);
    assert_eq!(half_bits((-2.0_f32).to_bits()), 0xc000);
    assert_eq!(half_bits(0.5_f32.to_bits()), 0x3800);
    assert_eq!(half_bits(65504.0_f32.to_bits()), 0x7bff);
    assert_eq!(half_bits(1.0e-8_f32.to_bits()), 0);
    assert_eq!(half_bits((-1.0e-8_f32).to_bits()), 0x8000);
    assert_eq!(half_bits(1.0e6_f32.to_bits()), 0x7c00);
    assert_eq!(half_bits(f32::NEG_INFINITY.to_bits()), 0xfc00);
}

#[test]
fn half_bits_truncate_the_mantissa() {
    // 1 + 2^-10 + 2^-11 keeps only the 2^-10 bit.
    let value = 1.0_f32 + 1.0 / 1024.0 + 1.0 / 2048.0;
    assert_eq!(half_bits(value.to_bits()), 0x3c01);
}
