//! Plain data of an archive: its header, its entries, its contents.

use vstd::prelude::*;

verus! {

/// "BSA\0" read as a little-endian word.
pub const BSA_MAGIC: u32 = 0x00415342;

/// The archive version of the Special Edition.
pub const SSE_VERSION: u32 = 105;

/// Archive flag: directory names are stored.
pub const ARCHIVE_INCLUDE_DIR_NAMES: u32 = 0x0001;

/// Archive flag: file names are stored.
pub const ARCHIVE_INCLUDE_FILE_NAMES: u32 = 0x0002;

/// Archive flag: entries are compressed unless they say otherwise.
pub const ARCHIVE_COMPRESSED: u32 = 0x0004;

/// Archive flag: each entry's data begins with its full name.
pub const ARCHIVE_PREFIX_FULLFILENAMES: u32 = 0x0100;

/// File flag: the entry departs from the archive's compression default.
pub const FILE_COMPRESSED: u32 = 0x40000000;

/// The header of an archive.
#[derive(Debug, Clone, Copy, PartialEq, Eq, Structural)]
pub struct BsaHeader {
    pub magic: u32,
    pub version: u32,
    pub offset: u32,
    pub archive_flags: u32,
    pub folder_count: u32,
    pub file_count: u32,
    pub total_folder_name_length: u32,
    pub total_file_name_length: u32,
    pub file_flags: u32,
}

/// How an entry is compressed.
#[derive(Debug, Clone, Copy, PartialEq, Eq, Structural)]
pub enum CompressionType {
    /// Stored as it is.
    Stored,
    Zlib,
    Lz4,
}

/// An entry of an archive, as listed.
#[derive(Debug, Clone, PartialEq, Eq)]
pub struct BsaFile {
    /// Full path within the archive, with forward slashes.
    pub path: String,
    pub offset: u64,
    pub size: u32,
    pub compression: CompressionType,
    pub compressed: bool,
}

/// A [`BsaFile`] with its path as a character sequence.
pub struct BsaFileView {
    pub path: Seq<char>,
    pub offset: u64,
    pub size: u32,
    pub compression: CompressionType,
    pub compressed: bool,
}

impl View for BsaFile {
    type V = BsaFileView;

    open spec fn view(&self) -> BsaFileView {
        BsaFileView {
            path: self.path@,
            offset: self.offset,
            size: self.size,
            compression: self.compression,
            compressed: self.compressed,
        }
    }
}

/// One file inside an opened archive: its name, its bytes as stored, and,
/// where they are stored compressed, the length they decompress to.
#[derive(Debug, Clone)]
pub struct ArchiveFile {
    pub name: String,
    pub raw: Vec<u8>,
    pub decompressed_len: Option<usize>,
}

/// An [`ArchiveFile`] as sequences.
pub struct ArchiveFileView {
    pub name: Seq<char>,
    pub raw: Seq<u8>,
    pub decompressed_len: Option<usize>,
}

impl View for ArchiveFile {
    type V = ArchiveFileView;

    open spec fn view(&self) -> ArchiveFileView {
        ArchiveFileView {
            name: self.name@,
            raw: self.raw@,
            decompressed_len: self.decompressed_len,
        }
    }
}

/// The views of a directory's files.
pub open spec fn file_views(files: Seq<ArchiveFile>) -> Seq<ArchiveFileView> {
    files.map_values(|f: ArchiveFile| f@)
}

/// One directory inside an opened archive.
#[derive(Debug, Clone)]
pub struct ArchiveDirectory {
    pub name: String,
    pub files: Vec<ArchiveFile>,
}

/// An [`ArchiveDirectory`] as sequences.
pub struct ArchiveDirectoryView {
    pub name: Seq<char>,
    pub files: Seq<ArchiveFileView>,
}

impl View for ArchiveDirectory {
    type V = ArchiveDirectoryView;

    open spec fn view(&self) -> ArchiveDirectoryView {
        ArchiveDirectoryView { name: self.name@, files: file_views(self.files@) }
    }
}

/// The views of an archive's directories.
pub open spec fn directory_views(dirs: Seq<ArchiveDirectory>) -> Seq<ArchiveDirectoryView> {
    dirs.map_values(|d: ArchiveDirectory| d@)
}

/// An opened archive: its name, where it lies, and what it holds.
#[derive(Debug, Clone)]
pub struct ArchiveContents {
    pub container_name: String,
    pub container_path: String,
    pub directories: Vec<ArchiveDirectory>,
}

/// An [`ArchiveContents`] as sequences.
pub struct ArchiveView {
    pub container_name: Seq<char>,
    pub container_path: Seq<char>,
    pub directories: Seq<ArchiveDirectoryView>,
}

impl View for ArchiveContents {
    type V = ArchiveView;

    open spec fn view(&self) -> ArchiveView {
        ArchiveView {
            container_name: self.container_name@,
            container_path: self.container_path@,
            directories: directory_views(self.directories@),
        }
    }
}

/// The path of an entry inside its archive: the file's name after the
/// directory's, with a `/` between them where the directory has a name.
pub open spec fn entry_path(dir_name: Seq<char>, file_name: Seq<char>) -> Seq<char> {
    if dir_name.len() == 0 {
        file_name
    } else {
        dir_name.push('/') + file_name
    }
}

} // verus!
