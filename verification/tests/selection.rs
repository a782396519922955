use radium_textures::database::discovery::Catalog;
use radium_textures::database::texture_record::TextureRecord;
use radium_textures::exclusions::ExclusionList;
use radium_textures::keyed::KeyedList;
use radium_textures::presets::{OptimizationPreset, MAX_LIMIT};
use radium_textures::selection::{filter_textures, FilterOutcome};

fn record(key: &str, kind: Option<&str>, header: Option<(u32, u32, &str)>) -> TextureRecord {
    TextureRecord {
        internal_path: key.to_string(),
        actual_path: format!("/mods/a/{key}"),
        source: "loose".to_string(),
        file_size: 1234,
        width: header.map(|h| h.0),
        height: header.map(|h| h.1),
        format: header.map(|h| h.2.to_string()),
        texture_type: kind.map(|k| k.to_string()),
        conflict_count: 0,
    }
}

fn catalog(records: Vec<TextureRecord>) -> Catalog {
    let mut list: Catalog = KeyedList::new();
    for r in records {
        list.insert(r.internal_path.clone(), r);
    }
    list
}

fn sample() -> Catalog {
    catalog(vec![
        record("textures/armor/iron.dds", Some("Diffuse"), Some((4096, 4096, "BC7"))),
        record("textures/armor/iron_n.dds", Some("Normal"), Some((4096, 2048, "BC7"))),
        record("textures/terrain/rock.dds", Some("Diffuse"), Some((8192, 8192, "BC1"))),
        record("textures/armor/small.dds", Some("Diffuse"), Some((2048, 1024, "BC1"))),
        record("textures/armor/unread.dds", Some("Diffuse"), None),
        record("textures/armor/untyped.dds", None, Some((4096, 4096, "BC1"))),
        record("textures/armor/odd.dds", Some("Unknown"), Some((4096, 4096, "BC1"))),
        record("textures/armor/tall_p.dds", Some("Parallax"), Some((600, 2048, "BC4"))),
        record("textures/sky/Stars_Color.dds", Some("Diffuse"), Some((4096, 4096, "BC1"))),
    ])
}

fn taken(outcome: &FilterOutcome) -> Vec<(&str, u32, u32)> {
    outcome.needs_optimization.iter().map(|t| (t.0.as_str(), t.2, t.3)).collect()
}

#[test]
fn selection_without_rules() {
    let outcome = filter_textures(&sample(), None, &OptimizationPreset::optimum());
    assert_eq!(
        taken(&outcome),
        vec![
            ("textures/armor/iron.dds", 2048, 2048),
            ("textures/armor/iron_n.dds", 1024, 512),
            ("textures/terrain/rock.dds", 2048, 2048),
            ("textures/armor/tall_p.dds", 128, 512),
            ("textures/sky/Stars_Color.dds", 2048, 2048),
        ]
    );
    assert_eq!(outcome.skipped_excluded, 0);
    assert_eq!(outcome.skipped_no_header, 1);
    assert_eq!(outcome.skipped_no_type, 1);
    assert_eq!(outcome.skipped_already_optimized, 2);
}

#[test]
fn rules_are_asked_before_anything_else() {
    let rules = ExclusionList::load("\\terrain\n*_color.dds\nunread.dds\n");
    let outcome = filter_textures(&sample(), Some(&rules), &OptimizationPreset::optimum());
    assert_eq!(
        taken(&outcome),
        vec![
            ("textures/armor/iron.dds", 2048, 2048),
            ("textures/armor/iron_n.dds", 1024, 512),
            ("textures/armor/tall_p.dds", 128, 512),
        ]
    );
    assert_eq!(outcome.skipped_excluded, 3);
    assert_eq!(outcome.skipped_no_header, 0);
    assert_eq!(outcome.skipped_no_type, 1);
    assert_eq!(outcome.skipped_already_optimized, 2);
}

#[test]
fn selected_texture_comes_with_its_record() {
    let outcome = filter_textures(&sample(), None, &OptimizationPreset::vanilla());
    let first = &outcome.needs_optimization[0];
    assert_eq!(first.0, "textures/armor/iron.dds");
    assert_eq!(first.1, record("textures/armor/iron.dds", Some("Diffuse"), Some((4096, 4096, "BC7"))));
    assert_eq!((first.2, first.3), (512, 512));
    let small = outcome
        .needs_optimization
        .iter()
        .find(|t| t.0 == "textures/armor/small.dds")
        .unwrap();
    assert_eq!((small.2, small.3), (512, 256));
}

#[test]
fn empty_catalog_selects_nothing() {
    let outcome = filter_textures(&KeyedList::new(), None, &OptimizationPreset::hq());
    assert!(outcome.needs_optimization.is_empty());
    assert_eq!(
        (
            outcome.skipped_excluded,
            outcome.skipped_no_header,
            outcome.skipped_no_type,
            outcome.skipped_already_optimized
        ),
        (0, 0, 0, 0)
    );
}

#[test]
fn every_texture_is_accounted_for_once() {
    let rules = ExclusionList::load("\\armor");
    for preset in [
        OptimizationPreset::hq(),
        OptimizationPreset::quality(),
        OptimizationPreset::optimum(),
        OptimizationPreset::performance(),
        OptimizationPreset::vanilla(),
    ] {
        for exclusions in [None, Some(&rules)] {
            let textures = sample();
            let outcome = filter_textures(&textures, exclusions, &preset);
            assert_eq!(
                outcome.needs_optimization.len()
                    + outcome.skipped_excluded
                    + outcome.skipped_no_header
                    + outcome.skipped_no_type
                    + outcome.skipped_already_optimized,
                textures.len()
            );
        }
    }
}

#[test]
fn preset_limits_can_be_checked_before_use() {
    assert!(OptimizationPreset::hq().within_limits());
    let mut custom = OptimizationPreset::optimum();
    custom.material_max = MAX_LIMIT;
    assert!(custom.within_limits());
    custom.normal_max = MAX_LIMIT + 1;
    assert!(!custom.within_limits());
}
