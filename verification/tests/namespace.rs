use radium_textures::mo2::profile::Profile;
use radium_textures::mo2::vfs::{FileSource, FoundFile, VfsError, VirtualFileSystem};

fn found(relative: &str, path: &str) -> FoundFile {
    FoundFile { relative: relative.to_string(), path: path.to_string() }
}

fn profile(modlist: &str) -> Profile {
    Profile::load("/p", "/mods", "/data", Some(modlist), None, None).unwrap()
}

fn overlay(name: &str, rank: usize, path: &str) -> FileSource {
    FileSource::Mod { mod_name: name.to_string(), mod_priority: rank, file_path: path.to_string() }
}

fn two_overlays() -> VirtualFileSystem {
    VirtualFileSystem::new(
        profile("-Separator\n+A\n+B"),
        &vec![],
        &vec![
            vec![found("textures/x.dds", "/mods/A/textures/x.dds")],
            vec![found("textures/x.dds", "/mods/B/textures/x.dds")],
        ],
    )
    .unwrap()
}

#[test]
fn test_priority_resolution() {
    // The overlay of higher priority wins the conflict.
    let vfs = two_overlays();
    assert_eq!(vfs.get_file("textures/x.dds"), Some(&overlay("B", 2, "/mods/B/textures/x.dds")));
    assert_eq!(vfs.get_statistics().total_files, 1);
}

#[test]
fn rebuilding_gives_the_same_namespace() {
    let first = two_overlays();
    let second = two_overlays();
    assert_eq!(first.get_texture_files(), second.get_texture_files());
    assert_eq!(first.get_statistics(), second.get_statistics());
    assert_eq!(first.get_file("textures/x.dds"), second.get_file("textures/x.dds"));
}

#[test]
fn overlay_wins_over_base_whatever_the_spelling() {
    let vfs = VirtualFileSystem::new(
        profile("+Over"),
        &vec![found("a/x.dds", "/data/a/x.dds")],
        &vec![vec![found("A/X.DDS", "/mods/Over/A/X.DDS")]],
    )
    .unwrap();
    let stats = vfs.get_statistics();
    assert_eq!(stats.total_files, 1);
    assert_eq!(stats.mod_files, 1);
    assert_eq!(stats.vanilla_files, 0);
    assert_eq!(vfs.get_file("a/x.dds"), Some(&overlay("Over", 0, "/mods/Over/A/X.DDS")));
    assert_eq!(vfs.get_file("A\\X.dds"), vfs.get_file("a/x.dds"));
}

#[test]
fn base_keeps_what_no_overlay_provides() {
    let vfs = VirtualFileSystem::new(
        profile("+A\n-Off\n+B"),
        &vec![
            found("Textures/base.dds", "/data/Textures/base.dds"),
            found("textures/shared.dds", "/data/textures/shared.dds"),
            found("meshes/m.nif", "/data/meshes/m.nif"),
        ],
        &vec![
            vec![found("textures\\shared.dds", "/mods/A/textures/shared.dds")],
            vec![found("textures/only_b.dds", "/mods/B/textures/only_b.dds")],
        ],
    )
    .unwrap();
    assert_eq!(
        vfs.get_file("textures/base.dds"),
        Some(&FileSource::Vanilla("/data/Textures/base.dds".to_string()))
    );
    assert_eq!(
        vfs.get_file("textures/shared.dds"),
        Some(&overlay("A", 0, "/mods/A/textures/shared.dds"))
    );
    assert_eq!(
        vfs.get_file("textures/only_b.dds"),
        Some(&overlay("B", 2, "/mods/B/textures/only_b.dds"))
    );
    assert_eq!(vfs.get_file("textures/none.dds"), None);
    let stats = vfs.get_statistics();
    assert_eq!(stats.total_files, 4);
    assert_eq!(stats.vanilla_files, 2);
    assert_eq!(stats.mod_files, 2);
    assert_eq!(stats.bsa_files, 0);
}

#[test]
fn last_file_of_a_tree_wins_within_the_tree() {
    let vfs = VirtualFileSystem::new(
        profile("+A"),
        &vec![found("t/X.dds", "/data/t/X.dds"), found("t/x.dds", "/data/t/x.dds")],
        &vec![vec![]],
    )
    .unwrap();
    assert_eq!(vfs.get_file("t/x.dds"), Some(&FileSource::Vanilla("/data/t/x.dds".to_string())));
    assert_eq!(vfs.get_statistics().total_files, 1);
}

#[test]
fn texture_files_are_the_keys_under_textures() {
    let vfs = VirtualFileSystem::new(
        profile("+A"),
        &vec![
            found("meshes/a.nif", "/data/meshes/a.nif"),
            found("Textures/One.DDS", "/data/Textures/One.DDS"),
            found("textures/readme.txt", "/data/textures/readme.txt"),
        ],
        &vec![vec![found("textures/two.dds", "/mods/A/textures/two.dds")]],
    )
    .unwrap();
    let keys: Vec<&str> = vfs.get_texture_files().iter().map(|(key, _)| key.as_str()).collect();
    assert_eq!(keys, vec!["textures/one.dds", "textures/two.dds"]);
}

#[test]
fn layers_show_the_winner() {
    let vfs = two_overlays();
    assert_eq!(
        vfs.get_file_layers("Textures/X.dds"),
        vec![("B".to_string(), 2, "/mods/B/textures/x.dds".to_string())]
    );
    assert!(vfs.get_file_layers("textures/none.dds").is_empty());
    let base = VirtualFileSystem::new(profile(""), &vec![found("a", "/data/a")], &vec![]).unwrap();
    assert_eq!(base.get_file_layers("A"), vec![("Vanilla".to_string(), 0, "/data/a".to_string())]);
}

#[test]
fn listings_must_match_the_enabled_overlays() {
    let short = VirtualFileSystem::new(profile("+A\n+B"), &vec![], &vec![vec![]]);
    assert_eq!(short.err(), Some(VfsError::ListingMismatch));
    let long = VirtualFileSystem::new(profile("-A"), &vec![], &vec![vec![]]);
    assert_eq!(long.err(), Some(VfsError::ListingMismatch));
    assert!(VirtualFileSystem::new(profile("-A"), &vec![], &vec![]).is_ok());
}

#[test]
fn sources_know_rank_and_path() {
    let base = FileSource::Vanilla("/data/x".to_string());
    assert_eq!(base.priority(), 0);
    assert_eq!(base.physical_path(), Some(&"/data/x".to_string()));
    let over = overlay("A", 7, "/mods/A/x");
    assert_eq!(over.priority(), 7);
    assert_eq!(over.physical_path(), Some(&"/mods/A/x".to_string()));
    let packed = FileSource::Bsa {
        archive_name: "A.bsa".to_string(),
        internal_path: "x".to_string(),
        archive_path: "/mods/A/A.bsa".to_string(),
    };
    assert_eq!(packed.priority(), 0);
    assert_eq!(packed.physical_path(), None);
}

#[test]
fn namespace_keeps_its_registry() {
    let vfs = two_overlays();
    assert_eq!(vfs.profile().mods.len(), 3);
    assert_eq!(vfs.normalize_path("A\\B"), "a/b");
}
