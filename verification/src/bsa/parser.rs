//! The listing of an opened archive.

use vstd::prelude::*;
use crate::bsa::types::{
    directory_views, entry_path, ArchiveDirectory, ArchiveDirectoryView,
    ArchiveFileView, BsaFile, BsaFileView, BsaHeader, CompressionType, BSA_MAGIC, SSE_VERSION,
};
use crate::text::{
    chars_of, ends_with, lowercase_of, push_chars, replace_char, replaced, starts_with,
    string_of, to_lowercase,
};

verus! {

/// An archive as a flat list of its entries.
pub struct BsaArchive {
    pub header: BsaHeader,
    pub files: Vec<BsaFile>,
    pub archive_path: String,
}

/// The views of listed entries.
pub open spec fn listed_views(files: Seq<BsaFile>) -> Seq<BsaFileView> {
    files.map_values(|f: BsaFile| f@)
}

/// How an entry is listed: under its path with forward slashes, with its
/// stored size, as stored data.
pub open spec fn listed(dir_name: Seq<char>, file: ArchiveFileView) -> BsaFileView {
    BsaFileView {
        path: replaced(entry_path(dir_name, file.name), '\\', '/'),
        offset: 0,
        size: file.raw.len() as u32,
        compression: CompressionType::Stored,
        compressed: false,
    }
}

/// `list` with the given files of a directory, in order.
pub open spec fn with_listed(
    list: Seq<BsaFileView>,
    dir_name: Seq<char>,
    files: Seq<ArchiveFileView>,
) -> Seq<BsaFileView>
    decreases files.len(),
{
    if files.len() == 0 {
        list
    } else {
        with_listed(list, dir_name, files.drop_last()).push(listed(dir_name, files.last()))
    }
}

/// The entries of the given directories, in order.
pub open spec fn listing_of(directories: Seq<ArchiveDirectoryView>) -> Seq<BsaFileView>
    decreases directories.len(),
{
    if directories.len() == 0 {
        Seq::empty()
    } else {
        with_listed(
            listing_of(directories.drop_last()),
            directories.last().name,
            directories.last().files,
        )
    }
}

/// Whether a listed path names a texture: in lower case it begins with
/// `textures` and ends in `.dds`.
pub open spec fn is_listed_texture(path: Seq<char>) -> bool {
    ".dds"@.is_suffix_of(lowercase_of(path)) && "textures"@.is_prefix_of(lowercase_of(path))
}

/// The indices of the textures among listed entries, in order.
pub open spec fn listed_textures(files: Seq<BsaFileView>) -> Seq<int>
    decreases files.len(),
{
    if files.len() == 0 {
        Seq::empty()
    } else {
        let before = listed_textures(files.drop_last());
        if is_listed_texture(files.last().path) {
            before.push(files.len() - 1)
        } else {
            before
        }
    }
}

impl BsaArchive {
    /// Lists an opened archive. The header names the format of the
    /// Special Edition and counts directories and entries; counts beyond
    /// 32 bits wrap.
    pub fn open(path: &str, directories: &Vec<ArchiveDirectory>) -> (archive: Self)
        ensures
            archive.archive_path@ == path@,
            listed_views(archive.files@) == listing_of(directory_views(directories@)),
            archive.header == (BsaHeader {
                magic: BSA_MAGIC,
                version: SSE_VERSION,
                offset: 36,
                archive_flags: 0,
                folder_count: directories@.len() as u32,
                file_count: archive.files@.len() as u32,
                total_folder_name_length: 0,
                total_file_name_length: 0,
                file_flags: 0,
            }),
    {
        let mut files: Vec<BsaFile> = Vec::new();
        let ghost dirs = directory_views(directories@);
        let mut d: usize = 0;
        assert(dirs.take(0) == Seq::<ArchiveDirectoryView>::empty());
        assert(listed_views(files@) == Seq::<BsaFileView>::empty());
        while d < directories.len()
            invariant
                d <= directories.len(),
                dirs == directory_views(directories@),
                listed_views(files@) == listing_of(dirs.take(d as int)),
            decreases directories.len() - d,
        {
            let directory = &directories[d];
            proof {
                let upto = dirs.take(d + 1);
                assert(upto.drop_last() == dirs.take(d as int));
                assert(upto.last() == directory@);
            }
            let ghost start = listed_views(files@);
            let dir_name = chars_of(directory.name.as_str());
            let mut f: usize = 0;
            assert(directory@.files.take(0) == Seq::<ArchiveFileView>::empty());
            while f < directory.files.len()
                invariant
                    f <= directory.files.len(),
                    dir_name@ == directory.name@,
                    listed_views(files@) == with_listed(
                        start,
                        directory.name@,
                        directory@.files.take(f as int),
                    ),
                decreases directory.files.len() - f,
            {
                let file = &directory.files[f];
                proof {
                    let upto = directory@.files.take(f + 1);
                    assert(upto.drop_last() == directory@.files.take(f as int));
                    assert(upto.last() == file@);
                }
                let mut full_path: Vec<char> = Vec::new();
                if dir_name.len() > 0 {
                    push_chars(&mut full_path, &dir_name);
                    full_path.push('/');
                }
                push_chars(&mut full_path, &chars_of(file.name.as_str()));
                assert(full_path@ == entry_path(directory.name@, file.name@));
                let entry = BsaFile {
                    path: string_of(&replace_char(&full_path, '\\', '/')),
                    offset: 0,
                    size: #[verifier::truncate]
                    (file.raw.len() as u32),
                    compression: CompressionType::Stored,
                    compressed: false,
                };
                let ghost before = files@;
                files.push(entry);
                assert(listed_views(files@) == listed_views(before).push(entry@));
                f = f + 1;
            }
            assert(directory@.files.take(directory.files.len() as int) == directory@.files);
            d = d + 1;
        }
        assert(dirs.take(directories.len() as int) == dirs);
        let header = BsaHeader {
            magic: BSA_MAGIC,
            version: SSE_VERSION,
            offset: 36,
            archive_flags: 0,
            folder_count: #[verifier::truncate]
            (directories.len() as u32),
            file_count: #[verifier::truncate]
            (files.len() as u32),
            total_folder_name_length: 0,
            total_file_name_length: 0,
            file_flags: 0,
        };
        BsaArchive { header, files, archive_path: path.to_owned() }
    }

    /// The listed entries that are textures, in order.
    pub fn get_textures(&self) -> (r: Vec<&BsaFile>)
        ensures
            r@.len() == listed_textures(listed_views(self.files@)).len(),
            forall|j: int|
                0 <= j < r@.len() ==> {
                    let i = #[trigger] listed_textures(listed_views(self.files@))[j];
                    0 <= i < self.files@.len() && *r@[j] == self.files@[i]
                },
    {
        let ghost all = listed_views(self.files@);
        let ext = chars_of(".dds");
        let root = chars_of("textures");
        let mut r: Vec<&BsaFile> = Vec::new();
        let mut i: usize = 0;
        assert(all.take(0) == Seq::<BsaFileView>::empty());
        while i < self.files.len()
            invariant
                i <= self.files.len(),
                all == listed_views(self.files@),
                ext@ == ".dds"@,
                root@ == "textures"@,
                r@.len() == listed_textures(all.take(i as int)).len(),
                forall|j: int|
                    0 <= j < r@.len() ==> {
                        let at = #[trigger] listed_textures(all.take(i as int))[j];
                        0 <= at < i && *r@[j] == self.files@[at]
                    },
            decreases self.files.len() - i,
        {
            proof {
                let upto = all.take(i + 1);
                assert(upto.drop_last() == all.take(i as int));
                assert(upto.last() == self.files@[i as int]@);
            }
            let lower = chars_of(to_lowercase(self.files[i].path.as_str()).as_str());
            if ends_with(&lower, &ext) && starts_with(&lower, &root) {
                r.push(&self.files[i]);
            }
            i = i + 1;
        }
        assert(all.take(self.files.len() as int) == all);
        r
    }

    /// Where the archive lies.
    pub fn path(&self) -> (r: &String)
        ensures
            r@ == self.archive_path@,
    {
        &self.archive_path
    }
}

} // verus!
