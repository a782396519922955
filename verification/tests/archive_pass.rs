use radium_textures::bsa::types::{ArchiveContents, ArchiveDirectory, ArchiveFile};
use radium_textures::database::discovery::{ArchivePass, Catalog, TextureDiscoveryService};
use radium_textures::dds::parser::{DDPF_FOURCC, DDS_MAGIC, FOURCC_DXT1};
use radium_textures::extraction::extract_from_bsa;
use radium_textures::mo2::profile::Profile;
use radium_textures::mo2::vfs::{FileSource, FoundFile, VirtualFileSystem};

fn header(width: u32) -> Vec<u8> {
    let mut data = vec![0u8; 200];
    data[0..4].copy_from_slice(&DDS_MAGIC.to_le_bytes());
    data[12..16].copy_from_slice(&width.to_le_bytes());
    data[16..20].copy_from_slice(&width.to_le_bytes());
    data[80..84].copy_from_slice(&DDPF_FOURCC.to_le_bytes());
    data[84..88].copy_from_slice(&FOURCC_DXT1.to_le_bytes());
    data
}

fn container(name: &str, files: &[(&str, u32)]) -> ArchiveContents {
    ArchiveContents {
        container_name: name.to_string(),
        container_path: format!("/data/{name}"),
        directories: vec![ArchiveDirectory {
            name: "Textures\\Set".to_string(),
            files: files
                .iter()
                .map(|(file, width)| ArchiveFile {
                    name: file.to_string(),
                    raw: header(*width),
                    decompressed_len: None,
                })
                .collect(),
        }],
    }
}

fn list() -> Vec<Option<ArchiveContents>> {
    vec![
        Some(container("High.bsa", &[("a.dds", 30), ("b.dds", 31)])),
        None,
        Some(container("Mid.bsa", &[("A.DDS", 20), ("c.dds", 21)])),
        Some(container("Low.bsa", &[("a.dds", 10)])),
    ]
}

fn found(relative: &str, path: &str) -> FoundFile {
    FoundFile { relative: relative.to_string(), path: path.to_string() }
}

#[test]
fn pass_names_the_places_from_the_last_to_the_first() {
    let mut catalog = Catalog::new();
    let mut pass = ArchivePass::begin(3);
    let mut places = Vec::new();
    while let Some(at) = pass.next() {
        places.push(at);
        pass.feed(None, &mut catalog);
    }
    assert_eq!(places, vec![2, 1, 0]);
    assert_eq!(pass.left, 0);
    assert_eq!(ArchivePass::begin(0).next(), None);
}

#[test]
fn pass_fed_one_archive_at_a_time_gives_what_the_whole_list_gives() {
    let archives = list();
    let mut whole = Catalog::new();
    let report = TextureDiscoveryService::discover_from_bsas(&archives, &mut whole);

    let mut stepwise = Catalog::new();
    let mut pass = ArchivePass::begin(archives.len());
    while let Some(at) = pass.next() {
        pass.feed(archives[at].as_ref(), &mut stepwise);
    }
    let stepped = pass.finish();

    assert_eq!(stepwise.len(), whole.len());
    for i in 0..whole.len() {
        assert_eq!(stepwise.key(i), whole.key(i));
        assert_eq!(stepwise.value(i), whole.value(i));
    }
    assert_eq!(stepped.bsa_count, report.bsa_count);
    assert_eq!(stepped.texture_count, report.texture_count);
    assert_eq!(stepped.headers_parsed, report.headers_parsed);
    assert_eq!((report.bsa_count, report.texture_count, report.headers_parsed), (3, 3, 3));
    let a = whole.get(&"textures/set/a.dds".to_string()).unwrap();
    assert_eq!((a.source.as_str(), a.width, a.conflict_count), ("Low.bsa", Some(10), 2));
}

#[test]
fn pass_changes_nothing_once_no_place_is_left() {
    let mut catalog = Catalog::new();
    let mut pass = ArchivePass::begin(0);
    let late = container("Late.bsa", &[("a.dds", 5)]);
    pass.feed(Some(&late), &mut catalog);
    assert_eq!(catalog.len(), 0);
    assert_eq!(pass.left, 0);
    assert_eq!(pass.finish().bsa_count, 0);
}

#[test]
fn every_catalogued_archive_record_can_be_extracted() {
    let archives = list();
    let mut catalog = Catalog::new();
    TextureDiscoveryService::discover_from_bsas(&archives, &mut catalog);
    assert_eq!(catalog.len(), 3);
    for i in 0..catalog.len() {
        let record = catalog.value(i);
        let owner = archives
            .iter()
            .flatten()
            .find(|archive| archive.container_name == record.source)
            .unwrap();
        let bytes = extract_from_bsa(&owner.directories, catalog.key(i)).unwrap();
        assert_eq!(u32::from_le_bytes(bytes[16..20].try_into().unwrap()), record.width.unwrap());
    }
}

#[test]
fn texture_files_are_the_texture_keys_each_once() {
    let profile = Profile::load("/p", "/mods", "/data", Some("+A\n+B"), None, None).unwrap();
    let vfs = VirtualFileSystem::new(
        profile,
        &vec![
            found("textures/a/x.dds", "/data/textures/a/x.dds"),
            found("textures/only_base.dds", "/data/textures/only_base.dds"),
            found("meshes/m.nif", "/data/meshes/m.nif"),
        ],
        &vec![
            vec![found("Textures/A/X.DDS", "/mods/A/Textures/A/X.DDS")],
            vec![found("TEXTURES/a/x.dds", "/mods/B/TEXTURES/a/x.dds"), found("readme.txt", "/mods/B/readme.txt")],
        ],
    )
    .unwrap();
    let textures = vfs.get_texture_files();
    let keys: Vec<&str> = textures.iter().map(|(key, _)| key.as_str()).collect();
    assert_eq!(keys, vec!["textures/a/x.dds", "textures/only_base.dds"]);
    for (key, source) in &textures {
        assert_eq!(vfs.get_file(key), Some(*source));
    }
    let stats = vfs.get_statistics();
    assert_eq!(stats.total_files, 4);
    assert_eq!(stats.bsa_files, 0);
    assert_eq!(stats.vanilla_files + stats.mod_files, stats.total_files);
    assert_eq!((stats.vanilla_files, stats.mod_files), (2, 2));

    let catalog = TextureDiscoveryService::discover_from_vfs(&vfs, &vec![Some(9), Some(8)]);
    assert_eq!(catalog.len(), 2);
    let x = catalog.get(&"textures/a/x.dds".to_string()).unwrap();
    assert_eq!(x.actual_path, "/mods/B/TEXTURES/a/x.dds");
    assert_eq!((x.source.as_str(), x.conflict_count, x.file_size), ("loose", 0, 9));
    assert!(matches!(vfs.get_file("textures/a/x.dds"), Some(FileSource::Mod { mod_priority: 1, .. })));
}
