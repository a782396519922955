//! Getting a texture's bytes out of an archive.
//!
//! A record names its entry by key. The archive knows its entries by
//! directory and file name, in any spelling. The entry for a key is the
//! first one, in the archive's order, that has this key: keys are computed
//! here as they are for the catalog, so what was catalogued is found.

use vstd::prelude::*;
use crate::bsa::codec::{content_of, read_entry};
use crate::bsa::types::{
    directory_views, file_views, ArchiveDirectory, ArchiveDirectoryView, ArchiveFile,
    ArchiveFileView,
};
use crate::database::texture_record::{opt_view, RecordView, TextureRecord};
use crate::optimization::{extracted_views, Extracted, ExtractedView};
use crate::selection::{selected_views, Selected, SelectedView};
use crate::paths::{join_path, joined};
use crate::database::discovery::{entry_key, key_of_entry};

verus! {

/// Why an entry could not be extracted.
#[derive(Debug, Clone, Copy, PartialEq, Eq, Structural)]
pub enum ExtractionError {
    /// The archive has no entry for the key.
    NotFound,
    /// No codec could decompress the entry.
    DecompressFailed,
}

/// The first of the files of a directory named `dir` whose key is `key`.
pub open spec fn first_file(dir: Seq<char>, files: Seq<ArchiveFileView>, key: Seq<char>) -> Option<
    ArchiveFileView,
>
    decreases files.len(),
{
    if files.len() == 0 {
        None
    } else if entry_key(dir, files[0].name) == key {
        Some(files[0])
    } else {
        first_file(dir, files.drop_first(), key)
    }
}

/// The entry for a key: the first one, in the archive's order, that the
/// catalog knows under this key.
pub open spec fn entry_for(directories: Seq<ArchiveDirectoryView>, key: Seq<char>) -> Option<
    ArchiveFileView,
>
    decreases directories.len(),
{
    if directories.len() == 0 {
        None
    } else {
        match first_file(directories[0].name, directories[0].files, key) {
            Some(file) => Some(file),
            None => entry_for(directories.drop_first(), key),
        }
    }
}

/// The bytes of the entry for a key, or why there are none.
pub open spec fn extracted(directories: Seq<ArchiveDirectoryView>, key: Seq<char>) -> Result<
    Seq<u8>,
    ExtractionError,
> {
    match entry_for(directories, key) {
        Some(file) => match content_of(file.raw, file.decompressed_len) {
            Ok(bytes) => Ok(bytes),
            Err(_) => Err(ExtractionError::DecompressFailed),
        },
        None => Err(ExtractionError::NotFound),
    }
}

/// A file of a directory has an entry under its own key.
pub proof fn lemma_file_is_found(dir: Seq<char>, files: Seq<ArchiveFileView>, f: int)
    requires
        0 <= f < files.len(),
    ensures
        first_file(dir, files, entry_key(dir, files[f].name)) is Some,
    decreases files.len(),
{
    if entry_key(dir, files[0].name) != entry_key(dir, files[f].name) {
        assert(files.drop_first()[f - 1] == files[f]);
        lemma_file_is_found(dir, files.drop_first(), f - 1);
    }
}

/// Every entry of an archive is found under the key that the catalog
/// gives it: what was catalogued can be extracted.
pub proof fn lemma_entry_is_found(directories: Seq<ArchiveDirectoryView>, d: int, f: int)
    requires
        0 <= d < directories.len(),
        0 <= f < directories[d].files.len(),
    ensures
        entry_for(directories, entry_key(directories[d].name, directories[d].files[f].name))
            is Some,
    decreases directories.len(),
{
    let key = entry_key(directories[d].name, directories[d].files[f].name);
    if d == 0 {
        lemma_file_is_found(directories[0].name, directories[0].files, f);
    } else if first_file(directories[0].name, directories[0].files, key) is None {
        assert(directories.drop_first()[d - 1] == directories[d]);
        lemma_entry_is_found(directories.drop_first(), d - 1, f);
    }
}

fn find_file<'a>(dir_name: &str, files: &'a Vec<ArchiveFile>, key: &String) -> (r: Option<
    &'a ArchiveFile,
>)
    ensures
        match r {
            Some(file) => first_file(dir_name@, file_views(files@), key@) == Some(file@),
            None => first_file(dir_name@, file_views(files@), key@) is None,
        },
{
    let ghost all = file_views(files@);
    let mut i: usize = 0;
    assert(all.skip(0) == all);
    while i < files.len()
        invariant
            i <= files.len(),
            all == file_views(files@),
            first_file(dir_name@, all, key@) == first_file(dir_name@, all.skip(i as int), key@),
        decreases files.len() - i,
    {
        proof {
            let rest = all.skip(i as int);
            assert(rest[0] == files@[i as int]@);
            assert(rest.drop_first() == all.skip(i + 1));
        }
        if key_of_entry(dir_name, files[i].name.as_str()) == *key {
            return Some(&files[i]);
        }
        i = i + 1;
    }
    None
}

/// The entry for a key of the catalog, if the archive has one.
pub fn find_entry<'a>(directories: &'a Vec<ArchiveDirectory>, internal_path: &str) -> (r: Option<
    &'a ArchiveFile,
>)
    ensures
        match r {
            Some(file) => entry_for(directory_views(directories@), internal_path@) == Some(file@),
            None => entry_for(directory_views(directories@), internal_path@) is None,
        },
{
    let key = internal_path.to_owned();
    let ghost all = directory_views(directories@);
    let mut i: usize = 0;
    assert(all.skip(0) == all);
    while i < directories.len()
        invariant
            i <= directories.len(),
            all == directory_views(directories@),
            key@ == internal_path@,
            entry_for(all, key@) == entry_for(all.skip(i as int), key@),
        decreases directories.len() - i,
    {
        proof {
            let rest = all.skip(i as int);
            assert(rest[0] == directories@[i as int]@);
            assert(rest.drop_first() == all.skip(i + 1));
        }
        match find_file(directories[i].name.as_str(), &directories[i].files, &key) {
            Some(file) => {
                return Some(file);
            },
            None => {},
        }
        i = i + 1;
    }
    None
}

/// The bytes of the entry for a key: as stored where they are not
/// compressed, else through the codecs.
pub fn extract_from_bsa(directories: &Vec<ArchiveDirectory>, internal_path: &str) -> (r: Result<
    Vec<u8>,
    ExtractionError,
>)
    ensures
        match r {
            Ok(bytes) => extracted(directory_views(directories@), internal_path@) == Ok::<
                Seq<u8>,
                ExtractionError,
            >(bytes@),
            Err(e) => extracted(directory_views(directories@), internal_path@) == Err::<
                Seq<u8>,
                ExtractionError,
            >(e),
        },
{
    match find_entry(directories, internal_path) {
        Some(file) => match read_entry(file) {
            Ok(bytes) => Ok(bytes),
            Err(_) => Err(ExtractionError::DecompressFailed),
        },
        None => Err(ExtractionError::NotFound),
    }
}

/// Whether a record stands for a file on disk, which is copied, and not
/// for an archive entry, which is extracted.
pub fn is_loose(record: &TextureRecord) -> (r: bool)
    ensures
        r == (record.source@ == "loose"@),
{
    record.source == "loose".to_owned()
}

/// Where a texture is extracted to: under its key in the output
/// directory.
pub fn output_path(output_dir: &str, internal_path: &str) -> (r: String)
    ensures
        r@ == joined(output_dir@, internal_path@),
{
    join_path(output_dir, internal_path)
}

/// What is to be done to bring a texture to the output directory.
#[derive(Debug, Clone, PartialEq, Eq)]
pub enum ExtractionStep {
    /// Copy the file at `from` to `to`.
    CopyFile { from: String, to: String },
    /// Write the bytes of the entry for `key` in the archive at `archive`
    /// to `to`.
    UnpackEntry { archive: String, key: String, to: String },
}

/// An [`ExtractionStep`] as character sequences.
pub enum StepView {
    CopyFile { from: Seq<char>, to: Seq<char> },
    UnpackEntry { archive: Seq<char>, key: Seq<char>, to: Seq<char> },
}

impl View for ExtractionStep {
    type V = StepView;

    open spec fn view(&self) -> StepView {
        match self {
            ExtractionStep::CopyFile { from, to } => StepView::CopyFile { from: from@, to: to@ },
            ExtractionStep::UnpackEntry { archive, key, to } => StepView::UnpackEntry {
                archive: archive@,
                key: key@,
                to: to@,
            },
        }
    }
}

/// The step for a record: a file on disk is copied, an archive entry is
/// unpacked; either way the texture goes under its key in the output
/// directory.
pub open spec fn step_for(record: RecordView, output_dir: Seq<char>) -> StepView {
    let to = joined(output_dir, record.internal_path);
    if record.source == "loose"@ {
        StepView::CopyFile { from: record.actual_path, to }
    } else {
        StepView::UnpackEntry { archive: record.actual_path, key: record.internal_path, to }
    }
}

/// The views of optional paths.
pub open spec fn path_views(paths: Seq<Option<String>>) -> Seq<Option<Seq<char>>> {
    paths.map_values(|p: Option<String>| opt_view(p))
}

/// The selected textures that were extracted, each with the path it was
/// extracted to, in order. A texture without a path was not extracted and
/// is left out.
pub open spec fn extracted_of(textures: Seq<SelectedView>, paths: Seq<Option<Seq<char>>>) -> Seq<
    ExtractedView,
>
    decreases textures.len(),
{
    if textures.len() == 0 {
        Seq::empty()
    } else {
        let before = extracted_of(textures.drop_last(), paths);
        let i = textures.len() - 1;
        let t = textures.last();
        if i < paths.len() && paths[i] is Some {
            before.push((t.0, t.1, t.2, t.3, paths[i]->0))
        } else {
            before
        }
    }
}

/// The step that brings a texture to the output directory.
pub fn extract_texture(record: &TextureRecord, output_dir: &str) -> (r: ExtractionStep)
    ensures
        r@ == step_for(record@, output_dir@),
{
    let to = output_path(output_dir, record.internal_path.as_str());
    if is_loose(record) {
        ExtractionStep::CopyFile { from: record.actual_path.clone(), to }
    } else {
        ExtractionStep::UnpackEntry {
            archive: record.actual_path.clone(),
            key: record.internal_path.clone(),
            to,
        }
    }
}

/// The selected textures that were extracted, given for each the path it
/// was extracted to, or nothing where that failed.
pub fn extract_all_textures(textures: &Vec<Selected>, paths: &Vec<Option<String>>) -> (r: Vec<
    Extracted,
>)
    ensures
        extracted_views(r@) == extracted_of(selected_views(textures@), path_views(paths@)),
{
    let mut r: Vec<Extracted> = Vec::new();
    let ghost all = selected_views(textures@);
    let ghost at = path_views(paths@);
    let mut i: usize = 0;
    assert(all.take(0) == Seq::<SelectedView>::empty());
    assert(extracted_views(r@) == Seq::<ExtractedView>::empty());
    while i < textures.len()
        invariant
            i <= textures.len(),
            all == selected_views(textures@),
            at == path_views(paths@),
            extracted_views(r@) == extracted_of(all.take(i as int), at),
        decreases textures.len() - i,
    {
        let item = &textures[i];
        proof {
            let upto = all.take(i + 1);
            assert(upto.drop_last() == all.take(i as int));
            assert(upto.last() == (item.0@, item.1@, item.2, item.3));
        }
        if i < paths.len() {
            match &paths[i] {
                Some(path) => {
                    let ghost before = r@;
                    r.push((item.0.clone(), item.1.duplicate(), item.2, item.3, path.clone()));
                    assert(extracted_views(r@) == extracted_views(before).push(
                        (item.0@, item.1@, item.2, item.3, path@),
                    ));
                },
                None => {},
            }
        }
        i = i + 1;
    }
    assert(all.take(textures.len() as int) == all);
    r
}

} // verus!
