use voxelforge::mips::make_mips;
use voxelforge::shader_pack::{
    check_override, plan_layer_override, plan_layer_override_at, plan_shader_pack,
    plan_shader_pack_with_stems, validate_texture_overrides, validate_with_stems, AssetKind,
    PackSources, PublishPlan, shader_file_names,
    LayerOverrideError, OverrideError, TextureOverride,
};

fn asset(kind: AssetKind, path: &str, len: usize) -> TextureOverride {
    TextureOverride { kind, relative_path: path.to_string(), data: vec![0; len] }
}

fn registry() -> Vec<String> {
    vec!["stone".to_string(), "torch".to_string(), "dirt".to_string()]
}

#[test]
fn valid_overrides_are_accepted() {
    let overrides = [
        asset(AssetKind::BlockTexture, "textures/stone.png", 1024),
        asset(AssetKind::MaterialTexture, "textures/dirt_material.png", 1024),
        asset(AssetKind::EmissionTexture, "textures/torch_emission.png", 256),
        asset(AssetKind::HandTexture, "textures/hand.png", 1024),
    ];
    assert_eq!(validate_texture_overrides(&overrides, &registry()), Ok(()));
    assert_eq!(validate_texture_overrides(&[], &registry()), Ok(()));
}

#[test]
fn unknown_texture_names_are_refused_with_their_registry_name() {
    let overrides = [asset(AssetKind::MaterialTexture, "textures/glass_material.png", 1024)];
    assert_eq!(
        validate_texture_overrides(&overrides, &registry()),
        Err(OverrideError::NotInRegistry { name: b"glass".to_vec() })
    );
    // A block texture keeps its suffix, so it does not name "stone".
    let overrides = [asset(AssetKind::BlockTexture, "textures/stone_material.png", 1024)];
    assert_eq!(
        validate_texture_overrides(&overrides, &registry()),
        Err(OverrideError::NotInRegistry { name: b"stone_material".to_vec() })
    );
}

#[test]
fn wrong_sizes_are_refused_and_the_first_fault_wins() {
    let overrides = [
        asset(AssetKind::BlockTexture, "textures/stone.png", 1024),
        asset(AssetKind::EmissionTexture, "textures/torch_emission.png", 1024),
        asset(AssetKind::HandTexture, "textures/hand.png", 3),
    ];
    assert_eq!(
        validate_texture_overrides(&overrides, &registry()),
        Err(OverrideError::WrongSize {
            path: "textures/torch_emission.png".to_string(),
            actual: 1024,
            expected: 256,
        })
    );
    let hand = [asset(AssetKind::HandTexture, "textures/hand.png", 3)];
    assert_eq!(
        validate_texture_overrides(&hand, &registry()),
        Err(OverrideError::HandTextureSize)
    );
    let no_stem = [asset(AssetKind::BlockTexture, "", 1024)];
    assert_eq!(validate_texture_overrides(&no_stem, &registry()), Err(OverrideError::InvalidPath));
}

#[test]
fn check_override_uses_the_given_stem() {
    let material = asset(AssetKind::MaterialTexture, "any/path.png", 1024);
    assert_eq!(check_override(&material, Some("dirt_material"), &registry()), None);
    assert_eq!(check_override(&material, Some("dirt"), &registry()), None);
    assert_eq!(
        check_override(&material, Some("dirt_emission"), &registry()),
        Some(OverrideError::NotInRegistry { name: b"dirt_emission".to_vec() })
    );
    assert_eq!(check_override(&material, None, &registry()), Some(OverrideError::InvalidPath));
    let hand = asset(AssetKind::HandTexture, "hand.png", 1024);
    assert_eq!(check_override(&hand, Some("not_registered"), &registry()), None);
}

#[test]
fn layer_override_targets_the_registry_layer_with_its_mips() {
    let data = vec![7_u8; 1024];
    let plan = plan_layer_override(
        AssetKind::MaterialTexture,
        Some("dirt_material.png"),
        &data,
        &registry(),
    )
    .unwrap();
    assert_eq!(plan.layer, 2);
    assert_eq!(plan.channels, 4);
    assert_eq!(plan.mips, make_mips(&data, 4, false));
    let emission = vec![1_u8; 256];
    let plan = plan_layer_override(
        AssetKind::EmissionTexture,
        Some("torch_emission.png"),
        &emission,
        &registry(),
    )
    .unwrap();
    assert_eq!((plan.layer, plan.channels), (1, 1));
    let plain = plan_layer_override(AssetKind::EmissionTexture, Some("stone.png"), &emission, &registry());
    assert_eq!(plain.unwrap().layer, 0);
}

#[test]
fn layer_override_refusals_come_in_check_order() {
    let data = vec![0_u8; 1024];
    assert_eq!(
        plan_layer_override(AssetKind::MaterialTexture, None, &data, &registry()),
        Err(LayerOverrideError::InvalidPath)
    );
    assert_eq!(
        plan_layer_override(AssetKind::BlockTexture, Some("glass.png"), &data, &registry()),
        Err(LayerOverrideError::NotInRegistry { name: b"glass".to_vec() })
    );
    assert_eq!(
        plan_layer_override(AssetKind::BlockTexture, Some("stone.png"), &data, &registry()),
        Err(LayerOverrideError::NotMaterialArray)
    );
    assert_eq!(
        plan_layer_override(AssetKind::EmissionTexture, Some("torch_emission.png"), &data, &registry()),
        Err(LayerOverrideError::WrongSize { actual: 1024, expected: 256 })
    );
}

#[test]
fn validate_with_stems_reports_the_first_refusal_in_order() {
    let overrides = [
        asset(AssetKind::BlockTexture, "ignored", 1024),
        asset(AssetKind::MaterialTexture, "ignored", 1024),
        asset(AssetKind::EmissionTexture, "ignored", 1024),
    ];
    let good = [Some("stone"), Some("dirt_material"), Some("torch_emission")];
    assert_eq!(
        validate_with_stems(&overrides, &good, &registry()),
        Err(OverrideError::WrongSize { path: "ignored".to_string(), actual: 1024, expected: 256 })
    );
    let unknown_first = [Some("glass"), None, Some("torch_emission")];
    assert_eq!(
        validate_with_stems(&overrides, &unknown_first, &registry()),
        Err(OverrideError::NotInRegistry { name: b"glass".to_vec() })
    );
    let missing_second = [Some("stone"), None, Some("glass")];
    assert_eq!(
        validate_with_stems(&overrides, &missing_second, &registry()),
        Err(OverrideError::InvalidPath)
    );
    let fine = [asset(AssetKind::BlockTexture, "x", 1024), asset(AssetKind::HandTexture, "y", 1024)];
    assert_eq!(validate_with_stems(&fine, &[Some("dirt"), None], &registry()), Err(OverrideError::InvalidPath));
    assert_eq!(validate_with_stems(&fine, &[Some("dirt"), Some("hand")], &registry()), Ok(()));
    assert_eq!(validate_with_stems(&[], &[], &registry()), Ok(()));
}

#[test]
fn layer_override_at_takes_the_file_name_of_the_path() {
    let data = vec![7_u8; 1024];
    let plan =
        plan_layer_override_at(AssetKind::MaterialTexture, "textures/dirt_material.png", &data, &registry())
            .unwrap();
    assert_eq!((plan.layer, plan.channels), (2, 4));
    assert_eq!(plan.mips, make_mips(&data, 4, false));
    assert_eq!(
        plan_layer_override_at(AssetKind::MaterialTexture, "", &data, &registry()),
        Err(LayerOverrideError::InvalidPath)
    );
    assert_eq!(
        plan_layer_override_at(AssetKind::EmissionTexture, "a/b/torch_emission.png", &data, &registry()),
        Err(LayerOverrideError::WrongSize { actual: 1024, expected: 256 })
    );
    assert_eq!(
        plan_layer_override_at(AssetKind::BlockTexture, "textures/glass.png", &data, &registry()),
        Err(LayerOverrideError::NotInRegistry { name: b"glass".to_vec() })
    );
}

fn sources(chunk: bool, deferred: bool, water: bool, shadow: bool, present: bool) -> PackSources {
    PackSources { chunk, deferred, water, shadow, present }
}

#[test]
fn a_pack_with_only_shadow_or_present_publishes_nothing() {
    assert_eq!(plan_shader_pack(sources(false, false, false, true, true), &[], &registry()), Ok(None));
    assert_eq!(
        plan_shader_pack(sources(false, true, false, true, false), &[], &registry()),
        Ok(Some(PublishPlan {
            chunk: false,
            deferred: true,
            water: false,
            shadow: true,
            present: false,
            texture_overrides: 0,
        }))
    );
}

#[test]
fn a_refused_override_refuses_the_whole_pack() {
    let overrides = [
        asset(AssetKind::BlockTexture, "textures/stone.png", 1024),
        asset(AssetKind::MaterialTexture, "textures/glass_material.png", 1024),
    ];
    assert_eq!(
        plan_shader_pack(sources(true, true, true, true, true), &overrides, &registry()),
        Err(OverrideError::NotInRegistry { name: b"glass".to_vec() })
    );
    let good = [asset(AssetKind::BlockTexture, "textures/stone.png", 1024)];
    assert_eq!(
        plan_shader_pack(sources(false, false, false, false, false), &good, &registry()),
        Ok(Some(PublishPlan {
            chunk: false,
            deferred: false,
            water: false,
            shadow: false,
            present: false,
            texture_overrides: 1,
        }))
    );
    assert_eq!(
        plan_shader_pack_with_stems(sources(false, false, true, false, false), &good, &[None], &registry()),
        Err(OverrideError::InvalidPath)
    );
    assert_eq!(
        plan_shader_pack_with_stems(sources(false, false, false, false, true), &[], &[], &registry()),
        Ok(None)
    );
}

#[test]
fn shader_file_names_keep_the_last_component() {
    let shaders = vec!["shaders/chunk.wgsl".to_string(), "water.wgsl".to_string()];
    assert_eq!(shader_file_names(&shaders), Ok(vec!["chunk.wgsl", "water.wgsl"]));
    let bad = vec!["shaders/chunk.wgsl".to_string(), "shaders/..".to_string()];
    assert_eq!(shader_file_names(&bad), Err(1));
    assert_eq!(shader_file_names(&[]), Ok(vec![]));
}

#[test]
fn plain_paths_are_read_by_their_stem() {
    // A dotted directory does not change the stem; the last dot ends it.
    let overrides = [asset(AssetKind::MaterialTexture, "pack.v2/textures/dirt_material.png", 1024)];
    assert_eq!(validate_texture_overrides(&overrides, &registry()), Ok(()));
    let dotted = [asset(AssetKind::BlockTexture, "textures/stone.old.png", 1024)];
    assert_eq!(
        validate_texture_overrides(&dotted, &registry()),
        Err(OverrideError::NotInRegistry { name: b"stone.old".to_vec() })
    );
    let hidden = [asset(AssetKind::BlockTexture, "textures/.stone", 1024)];
    assert_eq!(
        validate_texture_overrides(&hidden, &registry()),
        Err(OverrideError::NotInRegistry { name: b".stone".to_vec() })
    );
}
