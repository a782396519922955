use ba2::tes4::File;
use ba2::CompressableFrom;
use radium_textures::bsa::types::{ArchiveDirectory, ArchiveFile};
use radium_textures::database::texture_record::TextureRecord;
use radium_textures::database::discovery::key_of_entry;
use radium_textures::extraction::{
    extract_all_textures, extract_from_bsa, extract_texture, find_entry, is_loose, output_path,
    ExtractionError, ExtractionStep,
};

fn plain(name: &str, raw: &[u8]) -> ArchiveFile {
    ArchiveFile { name: name.to_string(), raw: raw.to_vec(), decompressed_len: None }
}

fn packed(name: &str, content: &[u8]) -> ArchiveFile {
    let file = File::from_decompressed(content).compress(&Default::default()).unwrap();
    ArchiveFile {
        name: name.to_string(),
        raw: file.as_bytes().to_vec(),
        decompressed_len: file.decompressed_len(),
    }
}

fn sample() -> Vec<ArchiveDirectory> {
    vec![
        ArchiveDirectory {
            name: "meshes\\armor".to_string(),
            files: vec![plain("iron.dds", b"mesh")],
        },
        ArchiveDirectory {
            name: "Textures\\Armor".to_string(),
            files: vec![
                plain("steel.dds", b"steel"),
                plain("Iron.DDS", b"first iron"),
                plain("iron.dds", b"second iron"),
                packed("glass.dds", &[7u8; 900]),
                ArchiveFile {
                    name: "broken.dds".to_string(),
                    raw: vec![0x5A; 64],
                    decompressed_len: Some(512),
                },
            ],
        },
        ArchiveDirectory {
            name: "textures\\armor".to_string(),
            files: vec![plain("iron.dds", b"third iron"), plain("ebony.dds", b"ebony")],
        },
        ArchiveDirectory { name: "".to_string(), files: vec![plain("root.dds", b"root")] },
    ]
}

#[test]
fn entry_key_is_the_normalized_path() {
    assert_eq!(key_of_entry("Textures\\Armor", "Iron.DDS"), "textures/armor/iron.dds");
    assert_eq!(key_of_entry("", "Root.dds"), "root.dds");
    assert_eq!(key_of_entry("textures/armor", "x.dds"), "textures/armor/x.dds");
    assert_eq!(key_of_entry("textures", "cafe\u{301}.dds"), "textures/caf\u{e9}.dds");
}

#[test]
fn entry_is_found_whatever_the_case() {
    let directories = sample();
    let entry = find_entry(&directories, "textures/armor/iron.dds").unwrap();
    assert_eq!(entry.name, "Iron.DDS");
    assert_eq!(entry.raw, b"first iron");
    let entry = find_entry(&directories, "textures/armor/steel.dds").unwrap();
    assert_eq!(entry.name, "steel.dds");
    assert!(find_entry(&directories, "TEXTURES/ARMOR/STEEL.DDS").is_none());
}

#[test]
fn later_directory_of_the_same_name_is_searched_too() {
    let directories = sample();
    let entry = find_entry(&directories, "textures/armor/ebony.dds").unwrap();
    assert_eq!(entry.raw, b"ebony");
}

#[test]
fn entry_without_directory_is_found_in_the_unnamed_one() {
    let directories = sample();
    assert_eq!(find_entry(&directories, "root.dds").unwrap().raw, b"root");
    assert!(find_entry(&directories, "iron.dds").is_none());
}

#[test]
fn stored_entry_is_extracted_as_it_is() {
    let directories = sample();
    assert_eq!(extract_from_bsa(&directories, "textures/armor/iron.dds"), Ok(b"first iron".to_vec()));
    assert_eq!(extract_from_bsa(&directories, "meshes/armor/iron.dds"), Ok(b"mesh".to_vec()));
}

#[test]
fn compressed_entry_is_extracted_decompressed() {
    let directories = sample();
    assert_ne!(directories[1].files[3].raw, vec![7u8; 900]);
    assert_eq!(extract_from_bsa(&directories, "textures/armor/glass.dds"), Ok(vec![7u8; 900]));
}

#[test]
fn missing_entry_is_not_found() {
    let directories = sample();
    assert_eq!(
        extract_from_bsa(&directories, "textures/armor/daedric.dds"),
        Err(ExtractionError::NotFound)
    );
    assert_eq!(
        extract_from_bsa(&directories, "textures/weapons/iron.dds"),
        Err(ExtractionError::NotFound)
    );
    assert_eq!(extract_from_bsa(&Vec::new(), "textures/a.dds"), Err(ExtractionError::NotFound));
}

#[test]
fn entry_that_no_codec_reads_fails_to_decompress() {
    let directories = sample();
    assert_eq!(
        extract_from_bsa(&directories, "textures/armor/broken.dds"),
        Err(ExtractionError::DecompressFailed)
    );
}

#[test]
fn loose_records_are_told_by_their_source() {
    let loose = TextureRecord::from_loose_file(
        "textures/a.dds".to_string(),
        "/mods/m/textures/a.dds".to_string(),
        10,
    );
    assert!(is_loose(&loose));
    let packed = TextureRecord::from_bsa_file(
        "textures/a.dds".to_string(),
        "/data/A.bsa".to_string(),
        "A.bsa".to_string(),
        10,
    );
    assert!(!is_loose(&packed));
}

#[test]
fn texture_is_written_under_its_key() {
    assert_eq!(output_path("/out", "textures/armor/iron.dds"), "/out/textures/armor/iron.dds");
    assert_eq!(output_path("/out/", "textures/a.dds"), "/out/textures/a.dds");
}

#[test]
fn loose_texture_is_copied_and_archive_entry_unpacked() {
    let loose = TextureRecord::from_loose_file(
        "textures/a.dds".to_string(),
        "/mods/m/Textures/A.dds".to_string(),
        10,
    );
    assert_eq!(
        extract_texture(&loose, "/out"),
        ExtractionStep::CopyFile {
            from: "/mods/m/Textures/A.dds".to_string(),
            to: "/out/textures/a.dds".to_string(),
        }
    );
    let packed = TextureRecord::from_bsa_file(
        "textures/b.dds".to_string(),
        "/data/B.bsa".to_string(),
        "B.bsa".to_string(),
        10,
    );
    assert_eq!(
        extract_texture(&packed, "/out/"),
        ExtractionStep::UnpackEntry {
            archive: "/data/B.bsa".to_string(),
            key: "textures/b.dds".to_string(),
            to: "/out/textures/b.dds".to_string(),
        }
    );
}

#[test]
fn only_extracted_textures_go_on() {
    let record = |key: &str| {
        TextureRecord::from_loose_file(key.to_string(), format!("/mods/m/{key}"), 10)
    };
    let selected = vec![
        ("textures/a.dds".to_string(), record("textures/a.dds"), 512, 256),
        ("textures/b.dds".to_string(), record("textures/b.dds"), 1024, 1024),
        ("textures/c.dds".to_string(), record("textures/c.dds"), 2048, 512),
        ("textures/d.dds".to_string(), record("textures/d.dds"), 128, 128),
    ];
    let paths = vec![Some("/out/textures/a.dds".to_string()), None, Some("/out/textures/c.dds".to_string())];
    let extracted = extract_all_textures(&selected, &paths);
    assert_eq!(
        extracted,
        vec![
            (
                "textures/a.dds".to_string(),
                record("textures/a.dds"),
                512,
                256,
                "/out/textures/a.dds".to_string()
            ),
            (
                "textures/c.dds".to_string(),
                record("textures/c.dds"),
                2048,
                512,
                "/out/textures/c.dds".to_string()
            ),
        ]
    );
    assert!(extract_all_textures(&selected, &Vec::new()).is_empty());
    assert!(extract_all_textures(&Vec::new(), &paths).is_empty());
}

#[test]
fn entry_is_found_under_the_key_the_catalog_gives_it() {
    let directories = vec![
        ArchiveDirectory {
            name: "Textures/Armor".to_string(),
            files: vec![plain("Plate.DDS", b"plate")],
        },
        ArchiveDirectory {
            name: "textures".to_string(),
            files: vec![plain("Cafe\u{301}.dds", b"decomposed"), plain("caf\u{e9}.dds", b"composed")],
        },
    ];
    assert_eq!(extract_from_bsa(&directories, "textures/armor/plate.dds"), Ok(b"plate".to_vec()));
    assert_eq!(
        extract_from_bsa(&directories, "textures/caf\u{e9}.dds"),
        Ok(b"decomposed".to_vec())
    );
    for directory in &directories {
        for file in &directory.files {
            let key = key_of_entry(&directory.name, &file.name);
            assert!(find_entry(&directories, &key).is_some(), "{key}");
        }
    }
}
