use voxelforge::materials::{base_albedo, base_emission, base_material, MaterialArrays};
use voxelforge::mips::make_mips;

#[test]
fn material_arrays_share_layer_order_and_mips() {
    let a = MaterialArrays::procedural(&["stone", "brick", "wood", "metal"]);
    assert!(a.validate_contract());
    assert_eq!(a.layer_names(), vec!["stone", "brick", "wood", "metal"]);
    assert_eq!(a.mip_count(), 5);
    for l in a.layers {
        assert_eq!(l.albedo.len(), l.material.len());
        assert_eq!(l.material.len(), l.emission.len());
    }
}

#[test]
fn cutout_mips_preserve_coverage() {
    let src = base_albedo("leaves", 2);
    let m = make_mips(&src, 4, true);
    let base = src.chunks(4).filter(|p| p[3] >= 128).count() as f32 / 256.0;
    for mip in m {
        if mip.width == 1 {
            continue;
        }
        let c = mip.data.chunks(4).filter(|p| p[3] >= 128).count() as f32
            / (mip.width * mip.height) as f32;
        assert!((c - base).abs() <= 0.03, "{} vs {}", c, base);
    }
}

#[test]
fn mip_chain_halves_down_to_one_texel() {
    let src = base_material("stone", 0);
    let mips = make_mips(&src, 4, false);
    let widths: Vec<usize> = mips.iter().map(|m| m.width).collect();
    assert_eq!(widths, vec![16, 8, 4, 2, 1]);
    assert_eq!(mips[0].data, src);
    for mip in &mips {
        assert_eq!(mip.data.len(), mip.width * mip.height * 4);
    }
}

#[test]
fn mip_levels_are_box_filtered() {
    let mut src = vec![0_u8; 256];
    src[0] = 4;
    src[1] = 8;
    src[16] = 12;
    src[17] = 1;
    let mips = make_mips(&src, 1, false);
    // (4 + 8 + 12 + 1) / 4, truncated.
    assert_eq!(mips[1].data[0], 6);
}

#[test]
fn every_mip_keeps_the_exact_opaque_target() {
    let src = base_albedo("leaves", 7);
    let opaque = src.chunks(4).filter(|p| p[3] >= 128).count();
    let mips = make_mips(&src, 4, true);
    for mip in &mips {
        let n = mip.width * mip.height;
        let wanted = ((opaque as f64 / 256.0 * n as f64).round() as usize).min(n);
        let kept = mip.data.chunks(4).filter(|p| p[3] >= 128).count();
        assert_eq!(kept, wanted);
    }
}

#[test]
fn emissive_layers_glow_and_others_stay_dark() {
    let torch = base_emission("torch", 0);
    let stone = base_emission("stone", 0);
    assert_eq!(torch.len(), 256);
    assert!(torch.iter().any(|&v| v > 0));
    assert!(stone.iter().all(|&v| v == 0));
    assert_eq!(base_albedo("stone", 3), base_albedo("stone", 3));
    assert_eq!(base_albedo("stone", 3).len(), 1024);
}
