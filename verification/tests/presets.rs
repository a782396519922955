use radium_textures::presets::OptimizationPreset;

#[test]
fn test_hq_preset() {
    let preset = OptimizationPreset::hq();
    assert_eq!(preset.diffuse_max, 2048);
    assert_eq!(preset.normal_max, 2048);
    assert_eq!(preset.parallax_max, 1024);
    assert_eq!(preset.material_max, 1024);
}

#[test]
fn test_target_resolution_downscale() {
    let preset = OptimizationPreset::optimum();

    let target = preset.get_target_resolution("Diffuse", 4096, 4096);
    assert_eq!(target, Some((2048, 2048)));

    let target = preset.get_target_resolution("Normal", 4096, 4096);
    assert_eq!(target, Some((1024, 1024)));

    let target = preset.get_target_resolution("Parallax", 2048, 2048);
    assert_eq!(target, Some((512, 512)));
}

#[test]
fn test_target_resolution_no_downscale() {
    let preset = OptimizationPreset::optimum();

    let target = preset.get_target_resolution("Diffuse", 1024, 1024);
    assert_eq!(target, None);

    let target = preset.get_target_resolution("Normal", 512, 512);
    assert_eq!(target, None);
}

#[test]
fn test_aspect_ratio_preservation() {
    let preset = OptimizationPreset::optimum();

    let target = preset.get_target_resolution("Diffuse", 4096, 2048);
    assert_eq!(target, Some((2048, 1024)));

    let target = preset.get_target_resolution("Normal", 2048, 4096);
    assert_eq!(target, Some((512, 1024)));
}

#[test]
fn presets_hold_their_limits() {
    let presets = [
        (OptimizationPreset::hq(), "High Quality", 2048, 2048, 1024, 1024),
        (OptimizationPreset::quality(), "Quality", 2048, 1024, 1024, 1024),
        (OptimizationPreset::optimum(), "Optimum", 2048, 1024, 512, 512),
        (OptimizationPreset::performance(), "Performance", 2048, 512, 512, 512),
        (OptimizationPreset::vanilla(), "Vanilla", 512, 512, 512, 512),
    ];
    for (preset, name, diffuse, normal, parallax, material) in presets {
        assert_eq!(preset.name, name);
        assert_eq!(preset.diffuse_max, diffuse);
        assert_eq!(preset.normal_max, normal);
        assert_eq!(preset.parallax_max, parallax);
        assert_eq!(preset.material_max, material);
    }
}

#[test]
fn unknown_category_is_left_alone() {
    let preset = OptimizationPreset::vanilla();
    assert_eq!(preset.get_target_resolution("Unknown", 8192, 8192), None);
    assert_eq!(preset.get_target_resolution("diffuse", 8192, 8192), None);
    assert_eq!(preset.max_resolution("Unknown"), None);
}

#[test]
fn material_categories_share_one_limit() {
    let preset = OptimizationPreset::hq();
    for category in
        ["Specular", "Emissive", "Emissive Mask", "Subsurface", "Environment", "Multi-layer"]
    {
        assert_eq!(preset.max_resolution(category), Some(1024));
        assert_eq!(preset.get_target_resolution(category, 4096, 4096), Some((1024, 1024)));
    }
    assert_eq!(preset.max_resolution("Diffuse"), Some(2048));
    assert_eq!(preset.max_resolution("Normal"), Some(2048));
    assert_eq!(preset.max_resolution("Parallax"), Some(1024));
}

#[test]
fn texture_at_the_limit_is_left_alone() {
    let preset = OptimizationPreset::optimum();
    assert_eq!(preset.get_target_resolution("Diffuse", 2048, 2048), None);
    assert_eq!(preset.get_target_resolution("Diffuse", 2048, 16), None);
    assert_eq!(preset.get_target_resolution("Diffuse", 2049, 16), Some((2048, 16)));
}

#[test]
fn shorter_side_goes_to_the_nearest_power_of_two() {
    let preset = OptimizationPreset::optimum();
    assert_eq!(preset.get_target_resolution("Diffuse", 4096, 3072), Some((2048, 1024)));
    assert_eq!(preset.get_target_resolution("Diffuse", 4096, 3073), Some((2048, 2048)));
    assert_eq!(preset.get_target_resolution("Diffuse", 3000, 1000), Some((2048, 512)));
    assert_eq!(preset.get_target_resolution("Diffuse", 1000, 3000), Some((512, 2048)));
    assert_eq!(preset.get_target_resolution("Diffuse", 4096, 1), Some((2048, 1)));
    assert_eq!(preset.get_target_resolution("Diffuse", 8192, 1), Some((2048, 1)));
    assert_eq!(preset.get_target_resolution("Diffuse", 4096, 0), Some((2048, 1)));
}

#[test]
fn nearest_power_of_two() {
    assert_eq!(OptimizationPreset::round_to_power_of_2(0), 1);
    assert_eq!(OptimizationPreset::round_to_power_of_2(1), 1);
    assert_eq!(OptimizationPreset::round_to_power_of_2(2), 2);
    assert_eq!(OptimizationPreset::round_to_power_of_2(3), 2);
    assert_eq!(OptimizationPreset::round_to_power_of_2(5), 4);
    assert_eq!(OptimizationPreset::round_to_power_of_2(6), 4);
    assert_eq!(OptimizationPreset::round_to_power_of_2(7), 8);
    assert_eq!(OptimizationPreset::round_to_power_of_2(1536), 1024);
    assert_eq!(OptimizationPreset::round_to_power_of_2(1537), 2048);
    assert_eq!(OptimizationPreset::round_to_power_of_2(0x8000_0000), 0x8000_0000);
    assert_eq!(OptimizationPreset::round_to_power_of_2(0x7000_0000), 0x8000_0000);
}
