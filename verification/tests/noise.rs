use voxelforge::noise::{lattice_hash, splat_cell, tie_break, BlueNoiseBuilder, BlueNoiseRank};

fn ranks_in_order(seed: u32) -> BlueNoiseRank {
    let mut builder = BlueNoiseBuilder::new(seed);
    let first = BlueNoiseBuilder::first_index(seed);
    builder.place(first);
    for i in 0..4096 {
        if !builder.is_selected(i) {
            builder.place(i);
        }
    }
    builder.finish()
}

#[test]
fn builder_hands_out_every_rank_once() {
    let noise = ranks_in_order(0);
    let mut ranks = noise.ranks().to_vec();
    ranks.sort_unstable();
    assert_eq!(ranks, (0..4096).map(|value| value as u16).collect::<Vec<_>>());
    let first = BlueNoiseBuilder::first_index(0);
    assert_eq!(first, 0x9e37_79b9_usize % 4096);
    assert_eq!(noise.rank_at(first % 64, first / 64), 0);
}

#[test]
fn builder_counts_placed_texels() {
    let mut builder = BlueNoiseBuilder::new(7);
    assert_eq!(builder.placed(), 0);
    builder.place(10);
    builder.place(3);
    assert_eq!(builder.placed(), 2);
    assert!(builder.is_selected(10));
    assert!(!builder.is_selected(11));
    assert_eq!(builder.tie_key(5), tie_break(5 ^ 7));
}

#[test]
fn rank_lookup_wraps_both_axes() {
    let noise = ranks_in_order(3);
    assert_eq!(noise.rank_at(5, 9), noise.rank_at(5 + 64, 9 + 128));
}

#[test]
fn byte_at_rounds_like_the_float_scale() {
    let mut builder = BlueNoiseBuilder::new(1);
    for i in 0..4096 {
        builder.place(i);
    }
    let noise = builder.finish();
    for y in 0..64 {
        for x in 0..64 {
            let rank = noise.rank_at(x, y);
            assert_eq!(rank as usize, y * 64 + x);
            let expected = ((255.0 * rank as f32 / 4095.0).round() as u32).min(255) as u8;
            assert_eq!(noise.byte_at(x, y), expected, "rank {rank}");
        }
    }
    assert_eq!(noise.byte_at(0, 0), 0);
    assert_eq!(noise.byte_at(63, 63), 255);
}

#[test]
fn texture_bytes_pad_rows_and_scale_ranks() {
    let mut builder = BlueNoiseBuilder::new(1);
    for i in 0..4096 {
        builder.place(i);
    }
    let noise = builder.finish();
    let bytes = noise.texture_bytes();
    assert_eq!(bytes.len(), 256 * 64);
    assert_eq!(bytes[256 * 63 + 63], 255);
    assert_eq!(bytes[256 + 1], (255 * 65 / 4095) as u8);
    assert_eq!(bytes[64], 0);
}

#[test]
fn splat_neighbourhood_wraps_around_the_tile() {
    assert_eq!(splat_cell(0, -1, -1), 63 * 64 + 63);
    assert_eq!(splat_cell(63, 1, 0), 0);
    assert_eq!(splat_cell(64 * 10 + 5, 6, -6), 64 * 4 + 11);
}

#[test]
fn hashes_match_their_bit_mixing() {
    let mut v: u32 = 12345;
    v ^= v << 13;
    v ^= v >> 17;
    v ^= v << 5;
    assert_eq!(tie_break(12345), v);
    let mut h = 9 ^ 1_u32.wrapping_mul(0x9e37_79b9) ^ 2_u32.wrapping_mul(0x85eb_ca6b)
        ^ 3_u32.wrapping_mul(0xc2b2_ae35);
    h ^= h >> 16;
    h = h.wrapping_mul(0x7feb_352d);
    h ^= h >> 15;
    assert_eq!(lattice_hash(1, 2, 3, 9), h);
}

#[test]
fn coarse_bytes_divide_ranks_by_sixteen() {
    let noise = ranks_in_order(0);
    let bytes = noise.coarse_bytes();
    assert_eq!(bytes.len(), 4096);
    for (byte, rank) in bytes.iter().zip(noise.ranks()) {
        assert_eq!(*byte as u16, rank / 16);
    }
    assert_eq!(bytes.iter().copied().max(), Some(255));
}

/// The void-and-cluster placement driven through the library's builder,
/// with the energy field kept in `f32` as the renderer does.
fn void_and_cluster(seed: u32) -> BlueNoiseRank {
    let count = 64 * 64;
    let mut energy = vec![0.0_f32; count];
    let mut builder = BlueNoiseBuilder::new(seed);
    for rank in 0..count {
        let index = if rank == 0 {
            BlueNoiseBuilder::first_index(seed)
        } else {
            (0..count)
                .filter(|&candidate| !builder.is_selected(candidate))
                .min_by(|&a, &b| {
                    energy[a]
                        .total_cmp(&energy[b])
                        .then_with(|| builder.tie_key(a).cmp(&builder.tie_key(b)))
                })
                .unwrap()
        };
        builder.place(index);
        for dy in -6_i32..=6 {
            for dx in -6_i32..=6 {
                let radius_sq = (dx * dx + dy * dy) as f32;
                energy[splat_cell(index, dx, dy)] += (-radius_sq / (2.0 * 1.9 * 1.9)).exp();
            }
        }
    }
    builder.finish()
}

#[test]
fn blue_noise_is_a_deterministic_rank_permutation() {
    let a = void_and_cluster(0);
    let b = void_and_cluster(0);
    assert_eq!(a, b);
    let mut ranks = a.ranks().to_vec();
    ranks.sort_unstable();
    assert_eq!(ranks, (0..4096).map(|value| value as u16).collect::<Vec<_>>());
}

#[test]
fn byte_at_keeps_the_rank_order() {
    let noise = void_and_cluster(3);
    let mut texels: Vec<(u16, u8)> = (0..64)
        .flat_map(|y| (0..64).map(move |x| (x, y)))
        .map(|(x, y)| (noise.rank_at(x, y), noise.byte_at(x, y)))
        .collect();
    texels.sort_unstable();
    assert_eq!(texels.first(), Some(&(0, 0)));
    assert_eq!(texels.last(), Some(&(4095, 255)));
    assert!(texels.windows(2).all(|pair| pair[0].1 <= pair[1].1));
}
