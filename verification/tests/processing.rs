use radium_textures::database::texture_record::TextureRecord;
use radium_textures::optimization::{
    batch_outcome, choose_group, conversion_result, filter_wine_warnings,
    group_by_processing_type, parent_directory, processing_order, texconv_arguments,
    texconv_format, wine_path, GroupKind, OptimizationStats, ProcessingGroups,
};

fn record(key: &str, kind: Option<&str>, format: Option<&str>, size: Option<(u32, u32)>) -> TextureRecord {
    TextureRecord {
        internal_path: key.to_string(),
        actual_path: format!("/mods/a/{key}"),
        source: "loose".to_string(),
        file_size: 4096,
        width: size.map(|s| s.0),
        height: size.map(|s| s.1),
        format: format.map(|f| f.to_string()),
        texture_type: kind.map(|k| k.to_string()),
        conflict_count: 0,
    }
}

fn extracted(
    key: &str,
    kind: Option<&str>,
    format: Option<&str>,
    size: Option<(u32, u32)>,
    target: (u32, u32),
) -> (String, TextureRecord, u32, u32, String) {
    (
        key.to_string(),
        record(key, kind, format, size),
        target.0,
        target.1,
        format!("/out/{key}"),
    )
}

fn keys(group: &[radium_textures::optimization::ProcessingRecord]) -> Vec<&str> {
    group.iter().map(|r| r.internal_path.as_str()).collect()
}

#[test]
fn texture_within_target_is_only_deleted() {
    for kind in ["Diffuse", "Normal", "Specular", "Parallax", "Subsurface", "Other"] {
        for rgb in [false, true] {
            for pbr in [false, true] {
                assert_eq!(choose_group(kind, false, rgb, pbr), GroupKind::DeleteOnly);
            }
        }
    }
}

#[test]
fn treatment_goes_by_category_first() {
    assert_eq!(choose_group("Specular", true, true, true), GroupKind::SpecularResize);
    assert_eq!(choose_group("Emissive", true, false, true), GroupKind::EmissiveResize);
    assert_eq!(choose_group("Emissive Mask", true, true, false), GroupKind::EmissiveResize);
    assert_eq!(choose_group("Subsurface", true, true, true), GroupKind::GlossResize);
}

#[test]
fn parallax_treatment() {
    assert_eq!(choose_group("Parallax", true, false, false), GroupKind::Bc4Resize);
    assert_eq!(choose_group("Parallax", true, true, false), GroupKind::PbrResize);
    assert_eq!(choose_group("Parallax", true, false, true), GroupKind::PbrResize);
}

#[test]
fn diffuse_treatment() {
    assert_eq!(choose_group("Diffuse", true, false, false), GroupKind::Bc7Resize);
    assert_eq!(choose_group("Diffuse", true, true, false), GroupKind::RgbaResize);
    assert_eq!(choose_group("Diffuse", true, true, true), GroupKind::RgbaResize);
    assert_eq!(choose_group("Diffuse", true, false, true), GroupKind::PbrResize);
}

#[test]
fn other_categories_treatment() {
    assert_eq!(choose_group("Normal", true, false, false), GroupKind::Bc7Resize);
    assert_eq!(choose_group("Normal", true, true, false), GroupKind::PbrResize);
    assert_eq!(choose_group("Environment", true, false, true), GroupKind::PbrResize);
    assert_eq!(choose_group("diffuse", true, true, false), GroupKind::PbrResize);
}

#[test]
fn grouping_sorts_by_treatment_and_keeps_order() {
    let items = vec![
        extracted("textures/a.dds", Some("Diffuse"), Some("BC7"), Some((4096, 4096)), (2048, 2048)),
        extracted("textures/b_n.dds", Some("Normal"), Some("BC7"), Some((1024, 1024)), (1024, 1024)),
        extracted("textures/c.dds", Some("Diffuse"), Some("argb_8888"), Some((4096, 2048)), (2048, 1024)),
        extracted("textures/PBR/d_n.dds", Some("Normal"), Some("BC7"), Some((4096, 4096)), (1024, 1024)),
        extracted("textures/e_p.dds", Some("Parallax"), Some("BC4"), Some((2048, 2048)), (512, 512)),
        extracted("textures/f_s.dds", Some("Specular"), None, Some((2048, 2048)), (512, 512)),
        extracted("textures/g_g.dds", Some("Emissive"), None, Some((2048, 1024)), (512, 256)),
        extracted("textures/h_sk.dds", Some("Subsurface"), None, Some((1024, 2048)), (256, 512)),
        extracted("textures/i.dds", Some("Diffuse"), Some("BC1"), Some((8192, 8192)), (2048, 2048)),
        extracted("textures/j.dds", None, Some("BC1"), Some((8192, 8192)), (2048, 2048)),
        extracted("textures/k.dds", Some("Diffuse"), Some("BC1"), None, (2048, 2048)),
    ];
    let groups: ProcessingGroups = group_by_processing_type(items);
    assert_eq!(keys(&groups.delete_only), vec!["textures/b_n.dds"]);
    assert_eq!(keys(&groups.bc7_resize), vec!["textures/a.dds", "textures/i.dds"]);
    assert_eq!(keys(&groups.bc4_resize), vec!["textures/e_p.dds"]);
    assert_eq!(keys(&groups.rgba_resize), vec!["textures/c.dds"]);
    assert_eq!(keys(&groups.pbr_resize), vec!["textures/PBR/d_n.dds"]);
    assert_eq!(keys(&groups.specular_resize), vec!["textures/f_s.dds"]);
    assert_eq!(keys(&groups.emissive_resize), vec!["textures/g_g.dds"]);
    assert_eq!(keys(&groups.gloss_resize), vec!["textures/h_sk.dds"]);
    assert_eq!(groups.total(), 9);
}

#[test]
fn grouping_fills_the_processing_record() {
    let items = vec![extracted(
        "textures/c.dds",
        Some("Diffuse"),
        Some("BC3"),
        Some((1024, 4096)),
        (512, 2048),
    )];
    let groups = group_by_processing_type(items);
    assert_eq!(groups.bc7_resize.len(), 1);
    let entry = &groups.bc7_resize[0];
    assert_eq!(entry.internal_path, "textures/c.dds");
    assert_eq!(entry.extracted_path, "/out/textures/c.dds");
    assert_eq!(entry.target_width, 512);
    assert_eq!(entry.target_height, 2048);
    assert_eq!(entry.texture_type, "Diffuse");
    assert_eq!(entry.current_width, 1024);
    assert_eq!(entry.current_height, 4096);
    assert!(entry.oversized);
    assert_eq!(entry.record, record("textures/c.dds", Some("Diffuse"), Some("BC3"), Some((1024, 4096))));
}

#[test]
fn grouping_of_nothing_is_empty() {
    let groups = group_by_processing_type(Vec::new());
    assert_eq!(groups.total(), 0);
    assert!(groups.delete_only.is_empty());
    assert!(groups.bc7_resize.is_empty());
}

#[test]
fn longer_side_decides_whether_to_resize() {
    let items = vec![
        extracted("textures/tall.dds", Some("Diffuse"), None, Some((512, 2048)), (2048, 512)),
        extracted("textures/wide.dds", Some("Diffuse"), None, Some((2049, 16)), (16, 2048)),
    ];
    let groups = group_by_processing_type(items);
    assert_eq!(keys(&groups.delete_only), vec!["textures/tall.dds"]);
    assert_eq!(keys(&groups.bc7_resize), vec!["textures/wide.dds"]);
}

#[test]
fn wine_path_is_on_drive_z() {
    assert_eq!(wine_path("/home/user/tools/texconv.exe"), "Z:/home/user/tools/texconv.exe");
    assert_eq!(wine_path(""), "Z:");
}

#[test]
fn converter_format_names() {
    assert_eq!(texconv_format("BC7"), "BC7_UNORM");
    assert_eq!(texconv_format("bc7"), "BC7_UNORM");
    assert_eq!(texconv_format("Bc4"), "BC4_UNORM");
    assert_eq!(texconv_format("bc3"), "BC3_UNORM");
    assert_eq!(texconv_format("rgba"), "RGBA");
    assert_eq!(texconv_format("argb_8888"), "RGBA");
    assert_eq!(texconv_format("R8_UNORM"), "R8_UNORM");
    assert_eq!(texconv_format("bc1"), "bc1");
}

#[test]
fn converter_arguments_in_full() {
    let args = texconv_arguments(
        "/opt/texconv.exe",
        "/out/textures/armor",
        "/out/textures/armor/iron.dds",
        Some("bc7"),
        true,
        2048,
        1024,
    );
    assert_eq!(
        args,
        vec![
            "Z:/opt/texconv.exe",
            "-gpu",
            "0",
            "-sepalpha",
            "-nologo",
            "-y",
            "-o",
            "Z:/out/textures/armor",
            "--single-proc",
            "-f",
            "BC7_UNORM",
            "-w",
            "2048",
            "-h",
            "1024",
            "Z:/out/textures/armor/iron.dds",
        ]
    );
}

#[test]
fn converter_arguments_without_format_and_size() {
    let args = texconv_arguments("/t.exe", "/o", "/o/x.dds", None, false, 512, 512);
    assert_eq!(
        args,
        vec![
            "Z:/t.exe",
            "-gpu",
            "0",
            "-sepalpha",
            "-nologo",
            "-y",
            "-o",
            "Z:/o",
            "--single-proc",
            "Z:/o/x.dds",
        ]
    );
    let sized = texconv_arguments("/t.exe", "/o", "/o/x.dds", None, true, 0, 4294967295);
    assert_eq!(&sized[9..13], ["-w", "0", "-h", "4294967295"]);
    let formatted = texconv_arguments("/t.exe", "/o", "/o/x.dds", Some("BC4"), false, 1, 1);
    assert_eq!(&formatted[9..], ["-f", "BC4_UNORM", "Z:/o/x.dds"]);
}

#[test]
fn wine_noise_is_dropped() {
    let text = "0024:fixme:ntdll:x stub\nreading /out/a.dds\r\n00a4:err:x\n   \n\nMANGOHUD on\n\
                WARNING: radv is not conformant\nerr:environ:init_peb failed\nwine: process gone\n\
                writing /out/a.dds";
    assert_eq!(filter_wine_warnings(text), vec!["reading /out/a.dds", "writing /out/a.dds"]);
}

#[test]
fn wine_noise_filter_keeps_lines_as_they_are() {
    assert_eq!(filter_wine_warnings("  indented \nFixme: upper\n"), vec!["  indented ", "Fixme: upper"]);
    assert!(filter_wine_warnings("").is_empty());
    assert!(filter_wine_warnings("\n\n").is_empty());
    assert_eq!(filter_wine_warnings("a 00"), vec!["a 00"]);
}

#[test]
fn groups_are_worked_through_in_order() {
    assert_eq!(
        processing_order(),
        vec![
            GroupKind::DeleteOnly,
            GroupKind::Bc7Resize,
            GroupKind::Bc4Resize,
            GroupKind::RgbaResize,
            GroupKind::PbrResize,
            GroupKind::SpecularResize,
            GroupKind::EmissiveResize,
            GroupKind::GlossResize,
        ]
    );
}

#[test]
fn each_group_has_its_format() {
    assert_eq!(GroupKind::DeleteOnly.format(), None);
    assert_eq!(GroupKind::Bc7Resize.format(), Some("BC7"));
    assert_eq!(GroupKind::Bc4Resize.format(), Some("BC4"));
    assert_eq!(GroupKind::RgbaResize.format(), Some("RGBA"));
    assert_eq!(GroupKind::PbrResize.format(), None);
    assert_eq!(GroupKind::SpecularResize.format(), None);
    assert_eq!(GroupKind::EmissiveResize.format(), None);
    assert_eq!(GroupKind::GlossResize.format(), Some("BC4"));
}

#[test]
fn batch_of_a_group_is_its_list() {
    let items = vec![
        extracted("textures/a.dds", Some("Diffuse"), Some("BC7"), Some((4096, 4096)), (2048, 2048)),
        extracted("textures/b_s.dds", Some("Specular"), None, Some((4096, 4096)), (512, 512)),
        extracted("textures/c.dds", Some("Diffuse"), None, Some((512, 512)), (512, 512)),
    ];
    let groups = group_by_processing_type(items);
    assert_eq!(keys(groups.batch(GroupKind::Bc7Resize)), vec!["textures/a.dds"]);
    assert_eq!(keys(groups.batch(GroupKind::SpecularResize)), vec!["textures/b_s.dds"]);
    assert_eq!(keys(groups.batch(GroupKind::DeleteOnly)), vec!["textures/c.dds"]);
    for kind in [
        GroupKind::Bc4Resize,
        GroupKind::RgbaResize,
        GroupKind::PbrResize,
        GroupKind::EmissiveResize,
        GroupKind::GlossResize,
    ] {
        assert!(groups.batch(kind).is_empty());
    }
}

#[test]
fn batch_outcome_counts_both_ways() {
    assert_eq!(batch_outcome(&vec![]), (0, 0));
    assert_eq!(batch_outcome(&vec![true, false, true, true]), (3, 1));
    assert_eq!(batch_outcome(&vec![false, false]), (0, 2));
}

#[test]
fn statistics_tell_deleted_from_optimized() {
    let mut stats = OptimizationStats::new();
    assert_eq!(stats, OptimizationStats { optimized: 0, deleted: 0, failed: 0 });
    stats.record(GroupKind::DeleteOnly, 4, 1);
    assert_eq!(stats, OptimizationStats { optimized: 0, deleted: 4, failed: 1 });
    stats.record(GroupKind::Bc7Resize, 10, 2);
    stats.record(GroupKind::GlossResize, 1, 0);
    assert_eq!(stats, OptimizationStats { optimized: 11, deleted: 4, failed: 3 });
    stats.record(GroupKind::PbrResize, usize::MAX, usize::MAX - 2);
    assert_eq!(stats, OptimizationStats { optimized: usize::MAX, deleted: 4, failed: usize::MAX });
}

#[test]
fn directory_of_a_texture() {
    assert_eq!(parent_directory("/out/textures/armor/iron.dds"), "/out/textures/armor");
    assert_eq!(parent_directory("/iron.dds"), "/");
    assert_eq!(parent_directory("iron.dds"), "");
    assert_eq!(parent_directory("out/iron.dds"), "out");
    assert_eq!(parent_directory(""), "");
}

#[test]
fn conversion_that_ended_well_is_fine() {
    assert_eq!(conversion_result(true, Some(0), "writing /out/a.dds\n", "fixme: x\n", true), Ok(()));
    assert_eq!(conversion_result(true, None, "", "real trouble", true), Ok(()));
}

#[test]
fn failed_conversion_reports_code_and_output() {
    assert_eq!(
        conversion_result(false, Some(1), "reading a\nfixme: y\nfailed b\n", "0024:err\nbad input\n", true),
        Err("texconv failed with exit code 1\nStderr: bad input\nStdout: reading a\nfailed b".to_string())
    );
    assert_eq!(
        conversion_result(false, Some(-1073741819), "", "fixme: only noise", false),
        Err("texconv failed with exit code -1073741819".to_string())
    );
    assert_eq!(
        conversion_result(false, None, "out", "", true),
        Err("texconv failed with exit code -1\nStdout: out".to_string())
    );
    assert_eq!(
        conversion_result(false, Some(i32::MIN), "", "e1\ne2", true),
        Err("texconv failed with exit code -2147483648\nStderr: e1\ne2".to_string())
    );
}

#[test]
fn missing_output_is_a_failure_too() {
    assert_eq!(
        conversion_result(true, Some(0), "writing", "fixme: z", false),
        Err("Output file doesn't exist after texconv (no error details)".to_string())
    );
    assert_eq!(
        conversion_result(true, Some(0), "writing", "disk full\nfixme: z\ngiving up", false),
        Err("Output file doesn't exist: disk full\ngiving up".to_string())
    );
}
