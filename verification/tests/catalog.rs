use radium_textures::database::ranking::ranked_counts;
use radium_textures::keyed::KeyedList;
use radium_textures::bsa::types::{ArchiveContents, ArchiveDirectory, ArchiveFile};
use radium_textures::database::discovery::{Catalog, TextureDiscoveryService};
use radium_textures::database::texture_record::TextureRecord;
use radium_textures::dds::parser::{ExtractError, DDPF_FOURCC, DDS_MAGIC, FOURCC_DX10, FOURCC_DXT1};
use radium_textures::mo2::profile::Profile;
use radium_textures::mo2::vfs::{FoundFile, VirtualFileSystem};

fn dds(width: u32, height: u32, fourcc: u32, code: u32) -> Vec<u8> {
    let mut data = vec![0u8; 148];
    data[0..4].copy_from_slice(&DDS_MAGIC.to_le_bytes());
    data[12..16].copy_from_slice(&height.to_le_bytes());
    data[16..20].copy_from_slice(&width.to_le_bytes());
    data[80..84].copy_from_slice(&DDPF_FOURCC.to_le_bytes());
    data[84..88].copy_from_slice(&fourcc.to_le_bytes());
    data[128..132].copy_from_slice(&code.to_le_bytes());
    data
}

fn stored(name: &str, raw: Vec<u8>) -> ArchiveFile {
    ArchiveFile { name: name.to_string(), raw, decompressed_len: None }
}

fn archive(name: &str, dir: &str, files: Vec<ArchiveFile>) -> Option<ArchiveContents> {
    Some(ArchiveContents {
        container_name: name.to_string(),
        container_path: format!("/data/{}", name),
        directories: vec![ArchiveDirectory { name: dir.to_string(), files }],
    })
}

fn loose_catalog() -> Catalog {
    let profile = Profile::load("/p", "/mods", "/data", Some("+A"), None, None).unwrap();
    let vfs = VirtualFileSystem::new(
        profile,
        &vec![
            FoundFile { relative: "Textures/Rock_N.dds".into(), path: "/data/Textures/Rock_N.dds".into() },
            FoundFile { relative: "textures/gone.dds".into(), path: "/data/textures/gone.dds".into() },
            FoundFile { relative: "meshes/rock.nif".into(), path: "/data/meshes/rock.nif".into() },
        ],
        &vec![vec![FoundFile {
            relative: "textures/x.dds".into(),
            path: "/mods/A/textures/x.dds".into(),
        }]],
    )
    .unwrap();
    TextureDiscoveryService::discover_from_vfs(&vfs, &vec![Some(1000), None, Some(77)])
}

fn record<'a>(catalog: &'a Catalog, key: &str) -> &'a TextureRecord {
    catalog.get(&key.to_string()).unwrap()
}

#[test]
fn loose_textures_join_with_size_and_category() {
    let catalog = loose_catalog();
    assert_eq!(catalog.len(), 2);
    let rock = record(&catalog, "textures/rock_n.dds");
    assert_eq!(rock.internal_path, "textures/rock_n.dds");
    assert_eq!(rock.actual_path, "/data/Textures/Rock_N.dds");
    assert_eq!(rock.source, "loose");
    assert_eq!(rock.file_size, 1000);
    assert_eq!(rock.texture_type.as_deref(), Some("Normal"));
    assert_eq!(rock.conflict_count, 0);
    assert!(!rock.has_header_info());
    let x = record(&catalog, "textures/x.dds");
    assert_eq!(x.file_size, 77);
    assert_eq!(x.actual_path, "/mods/A/textures/x.dds");
    assert!(catalog.get(&"textures/gone.dds".to_string()).is_none());
}

#[test]
fn loose_file_wins_over_archive_entry() {
    let mut catalog = loose_catalog();
    let archives = vec![
        archive("High.bsa", "textures", vec![stored("x.dds", dds(64, 64, FOURCC_DXT1, 0))]),
        archive("Low.bsa", "Textures", vec![stored("X.DDS", dds(32, 32, FOURCC_DXT1, 0))]),
    ];
    let report = TextureDiscoveryService::discover_from_bsas(&archives, &mut catalog);
    let x = record(&catalog, "textures/x.dds");
    assert_eq!(x.source, "loose");
    assert_eq!(x.actual_path, "/mods/A/textures/x.dds");
    assert_eq!(x.file_size, 77);
    assert_eq!(x.width, None);
    assert_eq!(x.conflict_count, 2);
    assert_eq!(report.bsa_count, 2);
    assert_eq!(report.texture_count, 0);
    assert_eq!(catalog.len(), 2);
}

#[test]
fn first_archive_visited_wins_and_counts_the_others() {
    let mut catalog = Catalog::new();
    let archives = vec![
        archive("Rank3.bsa", "textures", vec![stored("x.dds", dds(3, 3, FOURCC_DXT1, 0))]),
        archive("Rank2.bsa", "textures", vec![stored("x.dds", dds(2, 2, FOURCC_DXT1, 0))]),
        archive("Rank1.bsa", "textures", vec![stored("x.dds", dds(1, 1, FOURCC_DX10, 98))]),
    ];
    let report = TextureDiscoveryService::discover_from_bsas(&archives, &mut catalog);
    assert_eq!(catalog.len(), 1);
    let x = record(&catalog, "textures/x.dds");
    assert_eq!(x.source, "Rank1.bsa");
    assert_eq!(x.actual_path, "/data/Rank1.bsa");
    assert_eq!(x.conflict_count, 2);
    assert_eq!(x.width, Some(1));
    assert_eq!(x.height, Some(1));
    assert_eq!(x.format.as_deref(), Some("BC7"));
    assert_eq!(x.file_size, 148);
    assert_eq!(report.bsa_count, 3);
    assert_eq!(report.texture_count, 1);
    assert_eq!(report.headers_parsed, 1);
}

#[test]
fn archive_that_could_not_be_opened_is_passed_over() {
    let mut catalog = Catalog::new();
    let archives = vec![
        None,
        archive("Only.bsa", "", vec![stored("textures\\a_msn.dds", dds(8, 4, FOURCC_DXT1, 0))]),
        None,
    ];
    let report = TextureDiscoveryService::discover_from_bsas(&archives, &mut catalog);
    assert_eq!(report.bsa_count, 1);
    let a = record(&catalog, "textures/a_msn.dds");
    assert_eq!(a.texture_type.as_deref(), Some("Multi-layer"));
    assert_eq!(a.width, Some(8));
    assert_eq!(a.height, Some(4));
    assert_eq!(a.format.as_deref(), Some("BC1"));
}

#[test]
fn entries_that_are_no_textures_are_left_out() {
    let mut catalog = Catalog::new();
    let archives = vec![archive(
        "Mixed.bsa",
        "meshes",
        vec![stored("a.dds", dds(8, 8, FOURCC_DXT1, 0)), stored("b.nif", vec![1, 2, 3])],
    )];
    let report = TextureDiscoveryService::discover_from_bsas(&archives, &mut catalog);
    assert_eq!(catalog.len(), 0);
    assert_eq!(report.texture_count, 0);
    assert_eq!(report.bsa_count, 1);
}

#[test]
fn failures_are_tallied_by_reason_and_sampled() {
    let mut catalog = Catalog::new();
    let mut files = vec![
        stored("small.dds", vec![0u8; 64]),
        stored("magic.dds", vec![0u8; 128]),
        ArchiveFile { name: "packed.dds".into(), raw: vec![9u8; 40], decompressed_len: Some(148) },
        stored("good.dds", dds(16, 16, FOURCC_DXT1, 0)),
    ];
    for i in 0..12 {
        files.push(stored(&format!("s{}.dds", i), vec![0u8; 10]));
    }
    let archives = vec![archive("Bad.bsa", "textures", files)];
    let report = TextureDiscoveryService::discover_from_bsas(&archives, &mut catalog);
    assert_eq!(catalog.len(), 16);
    assert_eq!(report.texture_count, 16);
    assert_eq!(report.headers_parsed, 1);
    assert_eq!(report.too_small, 13);
    assert_eq!(report.parse_failed, 1);
    assert_eq!(report.decompress_failed, 1);
    assert_eq!(report.sample_errors.len(), 10);
    assert_eq!(report.sample_errors[0].key, "textures/small.dds");
    assert_eq!(report.sample_errors[0].container, "Bad.bsa");
    assert_eq!(report.sample_errors[0].reason, ExtractError::TooSmall);
    assert_eq!(report.sample_errors[1].reason, ExtractError::FormatError);
    assert_eq!(report.sample_errors[2].reason, ExtractError::DecompressFailed);
    let small = record(&catalog, "textures/small.dds");
    assert!(!small.has_header_info());
    assert_eq!(small.source, "Bad.bsa");
    assert_eq!(small.file_size, 64);
}

#[test]
fn backfill_reads_headers_for_records_without_one() {
    let mut catalog = loose_catalog();
    let archives =
        vec![archive("P.bsa", "textures", vec![stored("packed.dds", dds(4, 4, FOURCC_DXT1, 0))])];
    TextureDiscoveryService::discover_from_bsas(&archives, &mut catalog);
    assert_eq!(catalog.len(), 3);
    let contents = vec![
        Some(dds(512, 256, FOURCC_DX10, 98)),
        Some(vec![0u8; 20]),
        Some(dds(9, 9, FOURCC_DX10, 71)),
    ];
    let report = TextureDiscoveryService::parse_dds_headers(&mut catalog, &contents);
    assert_eq!(report.parsed, 1);
    assert_eq!(report.failed, 1);
    let rock = record(&catalog, "textures/rock_n.dds");
    assert_eq!(rock.width, Some(512));
    assert_eq!(rock.height, Some(256));
    assert_eq!(rock.format.as_deref(), Some("BC7"));
    assert_eq!(rock.resolution_string().as_deref(), Some("512x256"));
    assert!(!record(&catalog, "textures/x.dds").has_header_info());
    let packed = record(&catalog, "textures/packed.dds");
    assert_eq!(packed.width, Some(4));
    assert_eq!(packed.format.as_deref(), Some("BC1"));
}

#[test]
fn backfill_without_bytes_changes_nothing() {
    let mut catalog = loose_catalog();
    let before: Vec<TextureRecord> =
        (0..catalog.len()).map(|i| catalog.value(i).clone()).collect();
    let report = TextureDiscoveryService::parse_dds_headers(&mut catalog, &vec![None]);
    assert_eq!(report.parsed, 0);
    assert_eq!(report.failed, 0);
    let after: Vec<TextureRecord> = (0..catalog.len()).map(|i| catalog.value(i).clone()).collect();
    assert_eq!(before, after);
}

#[test]
fn suffix_markers_decide_the_category() {
    let cases = [
        ("foo_msn.dds", "Multi-layer"),
        ("foo_n.dds", "Normal"),
        ("foo_s.dds", "Specular"),
        ("foo_m.dds", "Parallax"),
        ("foo_sk.dds", "Subsurface"),
        ("foo_e.dds", "Emissive"),
        ("foo_g.dds", "Emissive"),
        ("foo_em.dds", "Emissive Mask"),
        ("foo_envmap.dds", "Environment"),
        ("foo_env.dds", "Environment"),
        ("foo.dds", "Diffuse"),
        ("Textures/Armor/Plate_N.DDS", "Normal"),
        ("foo_nm.dds", "Diffuse"),
        ("_n.dds", "Normal"),
    ];
    for (path, category) in cases {
        assert_eq!(TextureDiscoveryService::classify_texture(path).as_deref(), Some(category));
    }
    assert_eq!(TextureDiscoveryService::classify_texture("foo_n.png"), None);
    assert_eq!(TextureDiscoveryService::classify_texture(""), None);
    assert_eq!(TextureDiscoveryService::classify_lowercase("FOO_N.DDS"), None);
    assert_eq!(TextureDiscoveryService::classify_lowercase("foo_n.dds").as_deref(), Some("Normal"));
}

#[test]
fn statistics_count_by_origin_format_and_category() {
    let mut catalog = loose_catalog();
    let archives = vec![archive(
        "P.bsa",
        "textures",
        vec![
            stored("a_n.dds", dds(64, 32, FOURCC_DXT1, 0)),
            stored("b.dds", dds(64, 32, FOURCC_DX10, 98)),
            stored("c.dds", dds(16, 16, FOURCC_DX10, 99)),
            stored("d.dds", vec![0u8; 3]),
        ],
    )];
    TextureDiscoveryService::discover_from_bsas(&archives, &mut catalog);
    let stats = TextureDiscoveryService::get_statistics(&catalog);
    assert_eq!(stats.total, 6);
    assert_eq!(stats.loose, 2);
    assert_eq!(stats.bsa, 4);
    assert_eq!(stats.parsed, 3);
    assert_eq!(stats.by_format.get(&"BC7".to_string()), Some(&2));
    assert_eq!(stats.by_format.get(&"BC1".to_string()), Some(&1));
    assert_eq!(stats.by_format.len(), 2);
    assert_eq!(stats.by_resolution.get(&"64x32".to_string()), Some(&2));
    assert_eq!(stats.by_resolution.get(&"16x16".to_string()), Some(&1));
    assert_eq!(stats.by_type.get(&"Normal".to_string()), Some(&2));
    assert_eq!(stats.by_type.get(&"Diffuse".to_string()), Some(&4));
}

#[test]
fn records_start_without_header() {
    let loose = TextureRecord::from_loose_file("k".into(), "/p".into(), 5);
    assert_eq!(loose.source, "loose");
    assert_eq!(loose.internal_path, "k");
    assert_eq!(loose.actual_path, "/p");
    assert_eq!(loose.file_size, 5);
    assert_eq!(loose.conflict_count, 0);
    assert_eq!(loose.texture_type, None);
    assert!(!loose.has_header_info());
    assert_eq!(loose.resolution_string(), None);
    let packed = TextureRecord::from_bsa_file("k".into(), "/a.bsa".into(), "a.bsa".into(), 9);
    assert_eq!(packed.source, "a.bsa");
    assert_eq!(packed.actual_path, "/a.bsa");
    assert_eq!(packed.file_size, 9);
    let mut full = packed.duplicate();
    assert_eq!(full, packed);
    full.width = Some(4294967295);
    full.height = Some(0);
    assert!(!full.has_header_info());
    assert_eq!(full.resolution_string().as_deref(), Some("4294967295x0"));
    full.format = Some("BC1".into());
    assert!(full.has_header_info());
}

#[test]
fn summary_shows_the_largest_counts_first() {
    let mut tally: KeyedList<usize> = KeyedList::new();
    for (name, count) in [("BC1", 4usize), ("BC7", 9), ("BC3", 4), ("RGBA", 1), ("BC5", 9)] {
        tally.insert(name.to_string(), count);
    }
    let named = |entries: &[(&str, usize)]| -> Vec<(String, usize)> {
        entries.iter().map(|e| (e.0.to_string(), e.1)).collect()
    };
    assert_eq!(
        ranked_counts(&tally, 10),
        named(&[("BC7", 9), ("BC5", 9), ("BC1", 4), ("BC3", 4), ("RGBA", 1)])
    );
    assert_eq!(ranked_counts(&tally, 3), named(&[("BC7", 9), ("BC5", 9), ("BC1", 4)]));
    assert_eq!(ranked_counts(&tally, 0), named(&[]));
    assert_eq!(ranked_counts(&KeyedList::new(), 5), named(&[]));
}
