//! Building the texture catalog.
//!
//! The catalog is filled in three passes. The first takes every texture of
//! the namespace that lies on disk. The second walks the archives, lowest
//! rank first: an entry whose key is still free joins the catalog with the
//! header read from its bytes; an entry whose key is taken only raises the
//! conflict count of the record that holds it. A loose file is therefore
//! never displaced, and of several archives the first one visited keeps the
//! key. The third pass reads headers for the records still without one.

use vstd::prelude::*;
use crate::bsa::codec::{entry_header, parse_entry};
use crate::bsa::types::{
    entry_path, ArchiveContents, ArchiveDirectoryView, ArchiveFile,
    ArchiveFileView, ArchiveView,
};
use crate::database::texture_record::{
    copy_opt, fresh_record, has_header, opt_view, resolution_text, RecordView, TextureRecord,
};
use crate::dds::parser::{header_of, parse_dds_header, ExtractError, HeaderView};
use crate::keyed::KeyedList;
use crate::mo2::profile::{enabled, ModView};
use crate::mo2::vfs::{
    last_provider, layered, lemma_enabled_ranks_grow, lemma_highest_overlay_wins, provides,
    FoundView, SourceView, VirtualFileSystem,
};
use crate::paths::{is_texture, is_texture_key, normalize, normalized};
use crate::text::{
    chars_of, ends_with, lowercase_of, push_chars, string_of, strip_suffix, stripped,
    to_lowercase,
};

verus! {

/// The catalog: one record per key.
pub type Catalog = KeyedList<TextureRecord>;

/// The views of a catalog's records.
pub open spec fn record_views(map: Map<Seq<char>, TextureRecord>) -> Map<Seq<char>, RecordView> {
    map.map_values(|r: TextureRecord| r@)
}

/// The views of a sequence of records.
pub open spec fn record_seq_views(records: Seq<TextureRecord>) -> Seq<RecordView> {
    records.map_values(|r: TextureRecord| r@)
}

/// `count` plus one, held at the largest value.
pub open spec fn bump(count: usize) -> usize {
    if count < usize::MAX {
        (count + 1) as usize
    } else {
        count
    }
}

/// Adds one to `count`, holding it at the largest value.
pub fn bumped(count: usize) -> (r: usize)
    ensures
        r == bump(count),
{
    if count < usize::MAX {
        count + 1
    } else {
        count
    }
}

/// The category of a texture by the marker at the end of its name, the
/// extension left out. No marker ends with another, so at most one applies;
/// a name without marker is a base color texture.
pub open spec fn category_of(stem: Seq<char>) -> Seq<char> {
    if "_n"@.is_suffix_of(stem) {
        "Normal"@
    } else if "_s"@.is_suffix_of(stem) {
        "Specular"@
    } else if "_m"@.is_suffix_of(stem) {
        "Parallax"@
    } else if "_sk"@.is_suffix_of(stem) {
        "Subsurface"@
    } else if "_msn"@.is_suffix_of(stem) {
        "Multi-layer"@
    } else if "_e"@.is_suffix_of(stem) || "_g"@.is_suffix_of(stem) {
        "Emissive"@
    } else if "_em"@.is_suffix_of(stem) {
        "Emissive Mask"@
    } else if "_envmap"@.is_suffix_of(stem) || "_env"@.is_suffix_of(stem) {
        "Environment"@
    } else {
        "Diffuse"@
    }
}

/// The category of a lower-case texture path; none where the path does not
/// end in `.dds`.
pub open spec fn classified(lower: Seq<char>) -> Option<Seq<char>> {
    match stripped(lower, ".dds"@) {
        Some(stem) => Some(category_of(stem)),
        None => None,
    }
}

/// A record for a file on disk, classified by its key.
pub open spec fn loose_record(key: Seq<char>, path: Seq<char>, size: u64) -> RecordView {
    RecordView {
        texture_type: classified(lowercase_of(key)),
        ..fresh_record(key, path, "loose"@, size)
    }
}

/// Where a source lies on disk.
pub open spec fn physical(source: SourceView) -> Option<Seq<char>> {
    match source {
        SourceView::Vanilla(p) => Some(p),
        SourceView::Mod { file_path, .. } => Some(file_path),
        SourceView::Bsa { .. } => None,
    }
}

/// The size known for entry `i`, if any.
pub open spec fn size_at(sizes: Seq<Option<u64>>, i: int) -> Option<u64> {
    if 0 <= i < sizes.len() {
        sizes[i]
    } else {
        None
    }
}

/// `records` after the loose textures `entries` were added, in order: an
/// entry joins where it lies on disk and its size is known.
pub open spec fn with_loose(
    records: Map<Seq<char>, RecordView>,
    entries: Seq<(Seq<char>, SourceView)>,
    sizes: Seq<Option<u64>>,
) -> Map<Seq<char>, RecordView>
    decreases entries.len(),
{
    if entries.len() == 0 {
        records
    } else {
        let before = with_loose(records, entries.drop_last(), sizes);
        let entry = entries.last();
        match (physical(entry.1), size_at(sizes, entries.len() - 1)) {
            (Some(path), Some(size)) => before.insert(entry.0, loose_record(entry.0, path, size)),
            _ => before,
        }
    }
}

/// The first pass puts nothing into an empty catalog but keys of its
/// entries.
pub proof fn lemma_loose_keys(
    entries: Seq<(Seq<char>, SourceView)>,
    sizes: Seq<Option<u64>>,
    key: Seq<char>,
)
    requires
        with_loose(Map::empty(), entries, sizes).dom().contains(key),
    ensures
        exists|i: int| 0 <= i < entries.len() && (#[trigger] entries[i]).0 == key,
    decreases entries.len(),
{
    if entries.len() > 0 {
        let rest = entries.drop_last();
        if entries.last().0 == key {
            assert(entries[entries.len() - 1].0 == key);
        } else {
            lemma_loose_keys(rest, sizes, key);
            let i = choose|i: int| 0 <= i < rest.len() && (#[trigger] rest[i]).0 == key;
            assert(entries[i].0 == key);
        }
    }
}

/// Of entries whose keys all differ, the first pass takes each one that
/// lies on disk and whose size is known, as a loose record under its key,
/// and no other.
pub proof fn lemma_loose_entry(
    entries: Seq<(Seq<char>, SourceView)>,
    sizes: Seq<Option<u64>>,
    j: int,
)
    requires
        0 <= j < entries.len(),
        forall|a: int, b: int|
            0 <= a < b < entries.len() ==> (#[trigger] entries[a]).0 != (#[trigger] entries[b]).0,
    ensures
        match (physical(entries[j].1), size_at(sizes, j)) {
            (Some(path), Some(size)) => {
                &&& with_loose(Map::empty(), entries, sizes).dom().contains(entries[j].0)
                &&& with_loose(Map::empty(), entries, sizes)[entries[j].0] == loose_record(
                    entries[j].0,
                    path,
                    size,
                )
            },
            _ => !with_loose(Map::empty(), entries, sizes).dom().contains(entries[j].0),
        },
    decreases entries.len(),
{
    let rest = entries.drop_last();
    let key = entries[j].0;
    assert forall|a: int, b: int| 0 <= a < b < rest.len() implies (#[trigger] rest[a]).0 != (
    #[trigger] rest[b]).0 by {
        assert(rest[a] == entries[a]);
        assert(rest[b] == entries[b]);
    }
    if j == entries.len() - 1 {
        if with_loose(Map::empty(), rest, sizes).dom().contains(key) {
            lemma_loose_keys(rest, sizes, key);
            let i = choose|i: int| 0 <= i < rest.len() && (#[trigger] rest[i]).0 == key;
            assert(entries[i].0 == key);
        }
    } else {
        assert(rest[j] == entries[j]);
        lemma_loose_entry(rest, sizes, j);
        assert(entries[j].0 != entries[entries.len() - 1].0);
    }
}

/// A texture key of the namespace comes into the first pass once, with
/// the source that won it: where that source lies on disk and its size is
/// known, the catalog holds a loose record of it under the key, and
/// otherwise the catalog does not hold the key. The place of the key among
/// the texture entries is returned.
pub proof fn lemma_first_pass_takes_winner(
    vfs: &VirtualFileSystem,
    sizes: Seq<Option<u64>>,
    key: Seq<char>,
) -> (j: int)
    requires
        vfs.wf(),
        vfs@.dom().contains(key),
        is_texture_key(key),
    ensures
        0 <= j < vfs.texture_entries().len(),
        vfs.texture_entries()[j] == (key, vfs@[key]),
        match (physical(vfs@[key]), size_at(sizes, j)) {
            (Some(path), Some(size)) => {
                &&& with_loose(Map::empty(), vfs.texture_entries(), sizes).dom().contains(key)
                &&& with_loose(Map::empty(), vfs.texture_entries(), sizes)[key] == loose_record(
                    key,
                    path,
                    size,
                )
            },
            _ => !with_loose(Map::empty(), vfs.texture_entries(), sizes).dom().contains(key),
        },
{
    vfs.lemma_texture_entries();
    let entries = vfs.texture_entries();
    let j = choose|j: int| 0 <= j < entries.len() && (#[trigger] entries[j]) == (key, vfs@[key]);
    lemma_loose_entry(entries, sizes, j);
    j
}

/// A texture that overlays provide comes into the catalog once, from the
/// overlay of highest rank among them, whatever the base tree and the
/// other overlays hold under the same key.
///
/// Let the namespace be laid together from `base` and from the listings of
/// the enabled overlays of `mods`, whose ranks are their places. Let
/// enabled overlay `j` provide the texture key `key`, and let no enabled
/// overlay of higher rank provide it. Then the key stands once among the
/// texture entries, at the place returned, and where its size is known the
/// catalog of the first pass holds under it a loose record of the last file
/// of overlay `j` with that key.
pub proof fn lemma_overlay_texture_in_catalog(
    vfs: &VirtualFileSystem,
    base: Seq<FoundView>,
    mods: Seq<ModView>,
    listings: Seq<Seq<FoundView>>,
    sizes: Seq<Option<u64>>,
    key: Seq<char>,
    j: int,
) -> (at: int)
    requires
        vfs.wf(),
        vfs@ == layered(base, mods, listings),
        forall|i: int| 0 <= i < mods.len() ==> (#[trigger] mods[i]).priority == i,
        enabled(mods).len() == listings.len(),
        0 <= j < listings.len(),
        provides(listings[j], key),
        forall|i: int| j < i < listings.len() ==> !provides(#[trigger] listings[i], key),
        is_texture_key(key),
    ensures
        0 <= at < vfs.texture_entries().len(),
        vfs.texture_entries()[at].0 == key,
        forall|other: int|
            0 <= other < vfs.texture_entries().len() && other != at
                ==> (#[trigger] vfs.texture_entries()[other]).0 != key,
        last_provider(listings[j], key) is Some,
        match size_at(sizes, at) {
            Some(size) => {
                &&& with_loose(Map::empty(), vfs.texture_entries(), sizes).dom().contains(key)
                &&& with_loose(Map::empty(), vfs.texture_entries(), sizes)[key] == loose_record(
                    key,
                    listings[j][last_provider(listings[j], key)->0].path,
                    size,
                )
            },
            None => !with_loose(Map::empty(), vfs.texture_entries(), sizes).dom().contains(key),
        },
{
    let overlays = enabled(mods);
    lemma_enabled_ranks_grow(mods);
    assert forall|i: int|
        0 <= i < overlays.len() && provides(#[trigger] listings[i], key) implies overlays[i].priority
        <= overlays[j].priority by {
        if i < j {
            assert(overlays[i].priority < overlays[j].priority);
        }
    }
    lemma_highest_overlay_wins(base, overlays, listings, key, j);
    vfs.lemma_texture_entries();
    let at = lemma_first_pass_takes_winner(vfs, sizes, key);
    assert forall|other: int|
        0 <= other < vfs.texture_entries().len() && other != at implies (
    #[trigger] vfs.texture_entries()[other]).0 != key by {
        if other < at {
            assert(vfs.texture_entries()[other].0 != vfs.texture_entries()[at].0);
        } else {
            assert(vfs.texture_entries()[at].0 != vfs.texture_entries()[other].0);
        }
    }
    at
}

/// One entry whose header could not be read.
#[derive(Debug, Clone, PartialEq, Eq)]
pub struct FailureSample {
    pub key: String,
    pub container: String,
    pub reason: ExtractError,
}

/// A [`FailureSample`] as character sequences.
pub struct SampleView {
    pub key: Seq<char>,
    pub container: Seq<char>,
    pub reason: ExtractError,
}

impl View for FailureSample {
    type V = SampleView;

    open spec fn view(&self) -> SampleView {
        SampleView { key: self.key@, container: self.container@, reason: self.reason }
    }
}

/// The views of failure samples.
pub open spec fn sample_views(samples: Seq<FailureSample>) -> Seq<SampleView> {
    samples.map_values(|s: FailureSample| s@)
}

/// How many failure samples a report keeps.
pub const MAX_SAMPLES: usize = 10;

/// What the pass over the archives counted.
#[derive(Debug, Clone)]
pub struct ScanReport {
    /// Archives that could be opened.
    pub bsa_count: usize,
    /// Entries that joined the catalog.
    pub texture_count: usize,
    /// Of those, the ones whose header was read.
    pub headers_parsed: usize,
    /// Entries with a wrong magic word.
    pub parse_failed: usize,
    /// Entries of fewer than 128 bytes.
    pub too_small: usize,
    /// Entries that no codec could decompress.
    pub decompress_failed: usize,
    /// The first failures, at most [`MAX_SAMPLES`].
    pub sample_errors: Vec<FailureSample>,
}

/// A [`ScanReport`] with its samples as a sequence.
pub struct ReportView {
    pub bsa_count: usize,
    pub texture_count: usize,
    pub headers_parsed: usize,
    pub parse_failed: usize,
    pub too_small: usize,
    pub decompress_failed: usize,
    pub sample_errors: Seq<SampleView>,
}

impl View for ScanReport {
    type V = ReportView;

    open spec fn view(&self) -> ReportView {
        ReportView {
            bsa_count: self.bsa_count,
            texture_count: self.texture_count,
            headers_parsed: self.headers_parsed,
            parse_failed: self.parse_failed,
            too_small: self.too_small,
            decompress_failed: self.decompress_failed,
            sample_errors: sample_views(self.sample_errors@),
        }
    }
}

/// A report that has counted nothing.
pub open spec fn empty_report() -> ReportView {
    ReportView {
        bsa_count: 0,
        texture_count: 0,
        headers_parsed: 0,
        parse_failed: 0,
        too_small: 0,
        decompress_failed: 0,
        sample_errors: Seq::empty(),
    }
}

/// The catalog and the report during the pass over the archives.
pub struct ScanState {
    pub records: Map<Seq<char>, RecordView>,
    pub report: ReportView,
}

/// `record` with the fields of a header.
pub open spec fn with_header(record: RecordView, header: HeaderView) -> RecordView {
    RecordView {
        width: Some(header.width),
        height: Some(header.height),
        format: Some(header.format),
        ..record
    }
}

/// The record of an archive entry that joins the catalog.
pub open spec fn archive_record(key: Seq<char>, archive: ArchiveView, file: ArchiveFileView)
    -> RecordView {
    let plain = RecordView {
        texture_type: classified(lowercase_of(key)),
        ..fresh_record(
            key,
            archive.container_path,
            archive.container_name,
            file.raw.len() as u64,
        )
    };
    match entry_header(file.raw, file.decompressed_len) {
        Ok(header) => with_header(plain, header),
        Err(_) => plain,
    }
}

/// `report` after a failure was tallied under its reason and, while there
/// is room, kept as a sample.
pub open spec fn with_failure(
    report: ReportView,
    key: Seq<char>,
    container: Seq<char>,
    reason: ExtractError,
) -> ReportView {
    let tallied = match reason {
        ExtractError::TooSmall => ReportView { too_small: bump(report.too_small), ..report },
        ExtractError::FormatError => ReportView {
            parse_failed: bump(report.parse_failed),
            ..report
        },
        ExtractError::DecompressFailed => ReportView {
            decompress_failed: bump(report.decompress_failed),
            ..report
        },
    };
    if report.sample_errors.len() < MAX_SAMPLES {
        ReportView {
            sample_errors: report.sample_errors.push(SampleView { key, container, reason }),
            ..tallied
        }
    } else {
        tallied
    }
}

/// `report` after an entry joined the catalog with the given outcome of
/// reading its header.
pub open spec fn with_outcome(
    report: ReportView,
    key: Seq<char>,
    container: Seq<char>,
    outcome: Result<HeaderView, ExtractError>,
) -> ReportView {
    let counted = ReportView { texture_count: bump(report.texture_count), ..report };
    match outcome {
        Ok(_) => ReportView { headers_parsed: bump(counted.headers_parsed), ..counted },
        Err(reason) => with_failure(counted, key, container, reason),
    }
}

/// `record` with one more conflict.
pub open spec fn with_conflict(record: RecordView) -> RecordView {
    RecordView { conflict_count: bump(record.conflict_count), ..record }
}

/// The key of an entry.
pub open spec fn entry_key(dir_name: Seq<char>, file_name: Seq<char>) -> Seq<char> {
    normalized(entry_path(dir_name, file_name))
}

/// The state after one entry was seen. An entry that is no texture changes
/// nothing. One whose key is taken adds a conflict to the record that holds
/// the key. One whose key is free joins the catalog.
pub open spec fn scan_entry(
    state: ScanState,
    archive: ArchiveView,
    dir_name: Seq<char>,
    file: ArchiveFileView,
) -> ScanState {
    let key = entry_key(dir_name, file.name);
    if !is_texture_key(key) {
        state
    } else if state.records.dom().contains(key) {
        ScanState {
            records: state.records.insert(key, with_conflict(state.records[key])),
            report: state.report,
        }
    } else {
        ScanState {
            records: state.records.insert(key, archive_record(key, archive, file)),
            report: with_outcome(
                state.report,
                key,
                archive.container_name,
                entry_header(file.raw, file.decompressed_len),
            ),
        }
    }
}

/// The state after the files of one directory were seen, in order.
pub open spec fn scan_files(
    state: ScanState,
    archive: ArchiveView,
    dir_name: Seq<char>,
    files: Seq<ArchiveFileView>,
) -> ScanState
    decreases files.len(),
{
    if files.len() == 0 {
        state
    } else {
        scan_entry(
            scan_files(state, archive, dir_name, files.drop_last()),
            archive,
            dir_name,
            files.last(),
        )
    }
}

/// The state after the given directories of an archive were seen, in order.
pub open spec fn scan_directories(
    state: ScanState,
    archive: ArchiveView,
    directories: Seq<ArchiveDirectoryView>,
) -> ScanState
    decreases directories.len(),
{
    if directories.len() == 0 {
        state
    } else {
        scan_files(
            scan_directories(state, archive, directories.drop_last()),
            archive,
            directories.last().name,
            directories.last().files,
        )
    }
}

/// The state after one archive was seen.
pub open spec fn scan_archive(state: ScanState, archive: ArchiveView) -> ScanState {
    scan_directories(
        ScanState {
            records: state.records,
            report: ReportView { bsa_count: bump(state.report.bsa_count), ..state.report },
        },
        archive,
        archive.directories,
    )
}

/// The state after one place of the archive list was seen: an archive that
/// could not be opened changes nothing.
pub open spec fn scan_slot(state: ScanState, slot: Option<ArchiveView>) -> ScanState {
    match slot {
        Some(archive) => scan_archive(state, archive),
        None => state,
    }
}

/// The state after the archives were seen from the last of the list to the
/// first.
pub open spec fn scan_archives(state: ScanState, archives: Seq<Option<ArchiveView>>) -> ScanState
    decreases archives.len(),
{
    if archives.len() == 0 {
        state
    } else {
        scan_archives(scan_slot(state, archives.last()), archives.drop_last())
    }
}

/// The views of an archive list.
pub open spec fn slot_views(archives: Seq<Option<ArchiveContents>>) -> Seq<Option<ArchiveView>> {
    archives.map_values(
        |slot: Option<ArchiveContents>|
            match slot {
                Some(archive) => Some(archive@),
                None => None,
            },
    )
}

/// The bytes known for record `i`, if any.
pub open spec fn content_at(contents: Seq<Option<Vec<u8>>>, i: int) -> Option<Seq<u8>> {
    if 0 <= i < contents.len() {
        match contents[i] {
            Some(bytes) => Some(bytes@),
            None => None,
        }
    } else {
        None
    }
}

/// Whether the header of a record is to be read from the given bytes.
pub open spec fn wants_backfill(record: RecordView, content: Option<Seq<u8>>) -> bool {
    !has_header(record) && content is Some
}

/// `record` after the backfill: a record without header takes the one
/// its bytes give, where they give one.
pub open spec fn backfilled(record: RecordView, content: Option<Seq<u8>>) -> RecordView {
    if wants_backfill(record, content) {
        match header_of(content->0) {
            Ok(header) => with_header(record, header),
            Err(_) => record,
        }
    } else {
        record
    }
}

/// How many of the first records got a header from the backfill.
pub open spec fn backfill_parsed(records: Seq<RecordView>, contents: Seq<Option<Vec<u8>>>) -> nat
    decreases records.len(),
{
    if records.len() == 0 {
        0
    } else {
        let i = records.len() - 1;
        backfill_parsed(records.drop_last(), contents) + if wants_backfill(
            records.last(),
            content_at(contents, i),
        ) && header_of(content_at(contents, i)->0) is Ok {
            1nat
        } else {
            0nat
        }
    }
}

/// How many of the first records the backfill tried and failed on.
pub open spec fn backfill_failed(records: Seq<RecordView>, contents: Seq<Option<Vec<u8>>>) -> nat
    decreases records.len(),
{
    if records.len() == 0 {
        0
    } else {
        let i = records.len() - 1;
        backfill_failed(records.drop_last(), contents) + if wants_backfill(
            records.last(),
            content_at(contents, i),
        ) && header_of(content_at(contents, i)->0) is Err {
            1nat
        } else {
            0nat
        }
    }
}

proof fn lemma_backfill_bounded(records: Seq<RecordView>, contents: Seq<Option<Vec<u8>>>)
    ensures
        backfill_parsed(records, contents) + backfill_failed(records, contents) <= records.len(),
    decreases records.len(),
{
    if records.len() > 0 {
        lemma_backfill_bounded(records.drop_last(), contents);
    }
}

/// What the backfill counted.
#[derive(Debug, Clone, Copy, PartialEq, Eq, Structural)]
pub struct BackfillReport {
    pub parsed: usize,
    pub failed: usize,
}

proof fn lemma_suffix_char(p: Seq<char>, s: Seq<char>, i: int)
    requires
        p.is_suffix_of(s),
        0 <= i < p.len(),
    ensures
        p.len() <= s.len(),
        s[s.len() - p.len() + i] == p[i],
{
    let tail = s.subrange(s.len() - p.len(), s.len() as int);
    assert(tail[i] == p[i]);
}

/// The marker decides the category, whatever the order of the tests.
///
/// No marker is the end of another: each begins with its only underscore.
/// A name that ends in a marker therefore ends in no other, and a short
/// marker never takes a name away from a longer one.
pub proof fn lemma_category_by_marker(stem: Seq<char>)
    ensures
        "_n"@.is_suffix_of(stem) ==> category_of(stem) == "Normal"@,
        "_s"@.is_suffix_of(stem) ==> category_of(stem) == "Specular"@,
        "_m"@.is_suffix_of(stem) ==> category_of(stem) == "Parallax"@,
        "_sk"@.is_suffix_of(stem) ==> category_of(stem) == "Subsurface"@,
        "_msn"@.is_suffix_of(stem) ==> category_of(stem) == "Multi-layer"@,
        "_e"@.is_suffix_of(stem) || "_g"@.is_suffix_of(stem) ==> category_of(stem)
            == "Emissive"@,
        "_em"@.is_suffix_of(stem) ==> category_of(stem) == "Emissive Mask"@,
        "_envmap"@.is_suffix_of(stem) || "_env"@.is_suffix_of(stem) ==> category_of(stem)
            == "Environment"@,
{
    reveal_strlit("_n");
    reveal_strlit("_s");
    reveal_strlit("_m");
    reveal_strlit("_sk");
    reveal_strlit("_msn");
    reveal_strlit("_e");
    reveal_strlit("_g");
    reveal_strlit("_em");
    reveal_strlit("_envmap");
    reveal_strlit("_env");
    if "_n"@.is_suffix_of(stem) {
        lemma_suffix_char("_n"@, stem, 0);
        assert(stem[stem.len() - 2] == '_');
        lemma_suffix_char("_n"@, stem, 1);
        assert(stem[stem.len() - 1] == 'n');
    }
    if "_s"@.is_suffix_of(stem) {
        lemma_suffix_char("_s"@, stem, 0);
        assert(stem[stem.len() - 2] == '_');
        lemma_suffix_char("_s"@, stem, 1);
        assert(stem[stem.len() - 1] == 's');
    }
    if "_m"@.is_suffix_of(stem) {
        lemma_suffix_char("_m"@, stem, 0);
        assert(stem[stem.len() - 2] == '_');
        lemma_suffix_char("_m"@, stem, 1);
        assert(stem[stem.len() - 1] == 'm');
    }
    if "_sk"@.is_suffix_of(stem) {
        lemma_suffix_char("_sk"@, stem, 0);
        assert(stem[stem.len() - 3] == '_');
        lemma_suffix_char("_sk"@, stem, 1);
        assert(stem[stem.len() - 2] == 's');
        lemma_suffix_char("_sk"@, stem, 2);
        assert(stem[stem.len() - 1] == 'k');
    }
    if "_msn"@.is_suffix_of(stem) {
        lemma_suffix_char("_msn"@, stem, 0);
        assert(stem[stem.len() - 4] == '_');
        lemma_suffix_char("_msn"@, stem, 1);
        assert(stem[stem.len() - 3] == 'm');
        lemma_suffix_char("_msn"@, stem, 2);
        assert(stem[stem.len() - 2] == 's');
        lemma_suffix_char("_msn"@, stem, 3);
        assert(stem[stem.len() - 1] == 'n');
    }
    if "_e"@.is_suffix_of(stem) {
        lemma_suffix_char("_e"@, stem, 0);
        assert(stem[stem.len() - 2] == '_');
        lemma_suffix_char("_e"@, stem, 1);
        assert(stem[stem.len() - 1] == 'e');
    }
    if "_g"@.is_suffix_of(stem) {
        lemma_suffix_char("_g"@, stem, 0);
        assert(stem[stem.len() - 2] == '_');
        lemma_suffix_char("_g"@, stem, 1);
        assert(stem[stem.len() - 1] == 'g');
    }
    if "_em"@.is_suffix_of(stem) {
        lemma_suffix_char("_em"@, stem, 0);
        assert(stem[stem.len() - 3] == '_');
        lemma_suffix_char("_em"@, stem, 1);
        assert(stem[stem.len() - 2] == 'e');
        lemma_suffix_char("_em"@, stem, 2);
        assert(stem[stem.len() - 1] == 'm');
    }
    if "_envmap"@.is_suffix_of(stem) {
        lemma_suffix_char("_envmap"@, stem, 0);
        assert(stem[stem.len() - 7] == '_');
        lemma_suffix_char("_envmap"@, stem, 1);
        assert(stem[stem.len() - 6] == 'e');
        lemma_suffix_char("_envmap"@, stem, 2);
        assert(stem[stem.len() - 5] == 'n');
        lemma_suffix_char("_envmap"@, stem, 3);
        assert(stem[stem.len() - 4] == 'v');
        lemma_suffix_char("_envmap"@, stem, 4);
        assert(stem[stem.len() - 3] == 'm');
        lemma_suffix_char("_envmap"@, stem, 5);
        assert(stem[stem.len() - 2] == 'a');
        lemma_suffix_char("_envmap"@, stem, 6);
        assert(stem[stem.len() - 1] == 'p');
    }
    if "_env"@.is_suffix_of(stem) {
        lemma_suffix_char("_env"@, stem, 0);
        assert(stem[stem.len() - 4] == '_');
        lemma_suffix_char("_env"@, stem, 1);
        assert(stem[stem.len() - 3] == 'e');
        lemma_suffix_char("_env"@, stem, 2);
        assert(stem[stem.len() - 2] == 'n');
        lemma_suffix_char("_env"@, stem, 3);
        assert(stem[stem.len() - 1] == 'v');
    }
}

/// Whether `after` is `before` but for its conflict count.
pub open spec fn same_but_conflicts(before: RecordView, after: RecordView) -> bool {
    after == (RecordView { conflict_count: after.conflict_count, ..before })
}

/// `count` raised by `by`, held at the largest value.
pub open spec fn raised(count: usize, by: nat) -> usize {
    if count + by <= usize::MAX {
        (count + by) as usize
    } else {
        usize::MAX
    }
}

/// Whether an entry is a texture with the key `key`.
pub open spec fn hits(dir_name: Seq<char>, file: ArchiveFileView, key: Seq<char>) -> bool {
    is_texture_key(key) && entry_key(dir_name, file.name) == key
}

/// How many of a directory's files are textures with the key `key`.
pub open spec fn hits_in_files(dir_name: Seq<char>, files: Seq<ArchiveFileView>, key: Seq<char>)
    -> nat
    decreases files.len(),
{
    if files.len() == 0 {
        0
    } else {
        hits_in_files(dir_name, files.drop_last(), key) + if hits(dir_name, files.last(), key) {
            1nat
        } else {
            0nat
        }
    }
}

/// How many entries of the given directories are textures with the key
/// `key`.
pub open spec fn hits_in_directories(directories: Seq<ArchiveDirectoryView>, key: Seq<char>)
    -> nat
    decreases directories.len(),
{
    if directories.len() == 0 {
        0
    } else {
        hits_in_directories(directories.drop_last(), key) + hits_in_files(
            directories.last().name,
            directories.last().files,
            key,
        )
    }
}

/// How many entries of one place of the archive list are textures with the
/// key `key`.
pub open spec fn hits_in_slot(slot: Option<ArchiveView>, key: Seq<char>) -> nat {
    match slot {
        Some(archive) => hits_in_directories(archive.directories, key),
        None => 0,
    }
}

/// How many entries of all archives are textures with the key `key`.
pub open spec fn hits_in_archives(archives: Seq<Option<ArchiveView>>, key: Seq<char>) -> nat
    decreases archives.len(),
{
    if archives.len() == 0 {
        0
    } else {
        hits_in_slot(archives.last(), key) + hits_in_archives(archives.drop_last(), key)
    }
}

/// What a walk with `n` hits on `key` does to that key: a record that held
/// the key keeps it, unchanged but for `n` more conflicts; a free key stays
/// free without a hit, and with hits it is taken and has one conflict for
/// every hit but the first.
pub open spec fn key_after(before: ScanState, after: ScanState, key: Seq<char>, n: nat) -> bool {
    if before.records.dom().contains(key) {
        &&& after.records.dom().contains(key)
        &&& same_but_conflicts(before.records[key], after.records[key])
        &&& after.records[key].conflict_count == raised(before.records[key].conflict_count, n)
    } else if n == 0 {
        !after.records.dom().contains(key)
    } else {
        &&& after.records.dom().contains(key)
        &&& after.records[key].conflict_count == raised(0, (n - 1) as nat)
    }
}

proof fn lemma_key_after_entry(
    state: ScanState,
    archive: ArchiveView,
    dir_name: Seq<char>,
    file: ArchiveFileView,
    key: Seq<char>,
)
    ensures
        key_after(
            state,
            scan_entry(state, archive, dir_name, file),
            key,
            if hits(dir_name, file, key) {
                1nat
            } else {
                0nat
            },
        ),
{
}

proof fn lemma_key_after_chain(
    first: ScanState,
    second: ScanState,
    third: ScanState,
    key: Seq<char>,
    n: nat,
    m: nat,
)
    requires
        key_after(first, second, key, n),
        key_after(second, third, key, m),
    ensures
        key_after(first, third, key, n + m),
{
}

proof fn lemma_key_after_files(
    state: ScanState,
    archive: ArchiveView,
    dir_name: Seq<char>,
    files: Seq<ArchiveFileView>,
    key: Seq<char>,
)
    ensures
        key_after(
            state,
            scan_files(state, archive, dir_name, files),
            key,
            hits_in_files(dir_name, files, key),
        ),
    decreases files.len(),
{
    if files.len() > 0 {
        let middle = scan_files(state, archive, dir_name, files.drop_last());
        lemma_key_after_files(state, archive, dir_name, files.drop_last(), key);
        lemma_key_after_entry(middle, archive, dir_name, files.last(), key);
        lemma_key_after_chain(
            state,
            middle,
            scan_entry(middle, archive, dir_name, files.last()),
            key,
            hits_in_files(dir_name, files.drop_last(), key),
            if hits(dir_name, files.last(), key) {
                1nat
            } else {
                0nat
            },
        );
    }
}

proof fn lemma_key_after_directories(
    state: ScanState,
    archive: ArchiveView,
    directories: Seq<ArchiveDirectoryView>,
    key: Seq<char>,
)
    ensures
        key_after(
            state,
            scan_directories(state, archive, directories),
            key,
            hits_in_directories(directories, key),
        ),
    decreases directories.len(),
{
    if directories.len() > 0 {
        let middle = scan_directories(state, archive, directories.drop_last());
        lemma_key_after_directories(state, archive, directories.drop_last(), key);
        lemma_key_after_files(
            middle,
            archive,
            directories.last().name,
            directories.last().files,
            key,
        );
        lemma_key_after_chain(
            state,
            middle,
            scan_files(middle, archive, directories.last().name, directories.last().files),
            key,
            hits_in_directories(directories.drop_last(), key),
            hits_in_files(directories.last().name, directories.last().files, key),
        );
    }
}

proof fn lemma_key_after_slot(state: ScanState, slot: Option<ArchiveView>, key: Seq<char>)
    ensures
        key_after(state, scan_slot(state, slot), key, hits_in_slot(slot, key)),
{
    match slot {
        Some(archive) => {
            let counted = ScanState {
                records: state.records,
                report: ReportView { bsa_count: bump(state.report.bsa_count), ..state.report },
            };
            lemma_key_after_directories(counted, archive, archive.directories, key);
        },
        None => {},
    }
}

/// Every key is accounted for after the pass over the archives.
///
/// A record that held a key before the pass holds it after, the same but
/// for its conflict count, which has grown by the number of archive
/// entries with that key: no archive displaces a record, whatever its
/// rank. A key that was free is taken by the first entry that has it, and
/// then counts one conflict for each further entry.
pub proof fn lemma_archives_account_for_key(
    state: ScanState,
    archives: Seq<Option<ArchiveView>>,
    key: Seq<char>,
)
    ensures
        key_after(state, scan_archives(state, archives), key, hits_in_archives(archives, key)),
    decreases archives.len(),
{
    if archives.len() > 0 {
        let middle = scan_slot(state, archives.last());
        lemma_key_after_slot(state, archives.last(), key);
        lemma_archives_account_for_key(middle, archives.drop_last(), key);
        lemma_key_after_chain(
            state,
            middle,
            scan_archives(middle, archives.drop_last()),
            key,
            hits_in_slot(archives.last(), key),
            hits_in_archives(archives.drop_last(), key),
        );
    }
}

/// A record in the catalog before the pass over the archives is never
/// displaced by it: it keeps every field but the conflict count.
pub proof fn lemma_archives_displace_nothing(
    state: ScanState,
    archives: Seq<Option<ArchiveView>>,
    key: Seq<char>,
)
    requires
        state.records.dom().contains(key),
    ensures
        scan_archives(state, archives).records.dom().contains(key),
        same_but_conflicts(state.records[key], scan_archives(state, archives).records[key]),
{
    lemma_archives_account_for_key(state, archives, key);
}

/// Of several archives with the same key, the one visited first keeps it.
///
/// The walk begins at the last place of the list. Where that archive
/// brings `key` into the catalog, the record it made is the one the
/// catalog holds at the end, with one conflict more for each entry of the
/// other archives that has the key.
pub proof fn lemma_first_archive_wins(
    state: ScanState,
    archives: Seq<Option<ArchiveView>>,
    key: Seq<char>,
)
    requires
        archives.len() > 0,
        scan_slot(state, archives.last()).records.dom().contains(key),
    ensures
        scan_archives(state, archives).records.dom().contains(key),
        same_but_conflicts(
            scan_slot(state, archives.last()).records[key],
            scan_archives(state, archives).records[key],
        ),
        scan_archives(state, archives).records[key].conflict_count == raised(
            scan_slot(state, archives.last()).records[key].conflict_count,
            hits_in_archives(archives.drop_last(), key),
        ),
{
    lemma_archives_account_for_key(scan_slot(state, archives.last()), archives.drop_last(), key);
}

/// What a record adds to a tally, if anything.
pub enum TallyKind {
    Format,
    Resolution,
    Category,
}

/// The item of `record` that a tally of the given kind counts: format and
/// resolution only of records with a header.
pub open spec fn tally_item(record: RecordView, kind: TallyKind) -> Option<Seq<char>> {
    match kind {
        TallyKind::Format => if has_header(record) {
            record.format
        } else {
            None
        },
        TallyKind::Resolution => if has_header(record) {
            Some(resolution_text(record.width->0, record.height->0))
        } else {
            None
        },
        TallyKind::Category => record.texture_type,
    }
}

/// `tally` with one more of `item`.
pub open spec fn tallied(tally: Map<Seq<char>, usize>, item: Option<Seq<char>>) -> Map<
    Seq<char>,
    usize,
> {
    match item {
        Some(key) => tally.insert(
            key,
            bump(
                if tally.dom().contains(key) {
                    tally[key]
                } else {
                    0
                },
            ),
        ),
        None => tally,
    }
}

/// How often each item of the given kind occurs among `records`.
pub open spec fn tally_of(records: Seq<RecordView>, kind: TallyKind) -> Map<Seq<char>, usize>
    decreases records.len(),
{
    if records.len() == 0 {
        Map::empty()
    } else {
        tallied(tally_of(records.drop_last(), kind), tally_item(records.last(), kind))
    }
}

/// How many of `records` are loose files.
pub open spec fn count_loose(records: Seq<RecordView>) -> nat
    decreases records.len(),
{
    if records.len() == 0 {
        0
    } else {
        count_loose(records.drop_last()) + if records.last().source == "loose"@ {
            1nat
        } else {
            0nat
        }
    }
}

/// How many of `records` have a header.
pub open spec fn count_parsed(records: Seq<RecordView>) -> nat
    decreases records.len(),
{
    if records.len() == 0 {
        0
    } else {
        count_parsed(records.drop_last()) + if has_header(records.last()) {
            1nat
        } else {
            0nat
        }
    }
}

proof fn lemma_counts_bounded(records: Seq<RecordView>)
    ensures
        count_loose(records) <= records.len(),
        count_parsed(records) <= records.len(),
    decreases records.len(),
{
    if records.len() > 0 {
        lemma_counts_bounded(records.drop_last());
    }
}

/// Counts over a catalog.
pub struct TextureStats {
    pub total: usize,
    pub loose: usize,
    pub bsa: usize,
    pub parsed: usize,
    pub by_format: KeyedList<usize>,
    pub by_resolution: KeyedList<usize>,
    pub by_type: KeyedList<usize>,
}

/// Builds the texture catalog.
/// The key of an entry of an archive, from the names of its directory and
/// of its file.
pub fn key_of_entry(dir_name: &str, file_name: &str) -> (key: String)
    ensures
        key@ == entry_key(dir_name@, file_name@),
{
    let mut full_path: Vec<char> = Vec::new();
    let dir = chars_of(dir_name);
    if dir.len() > 0 {
        push_chars(&mut full_path, &dir);
        full_path.push('/');
    }
    push_chars(&mut full_path, &chars_of(file_name));
    assert(full_path@ == entry_path(dir_name@, file_name@));
    normalize(string_of(&full_path).as_str())
}

/// The view of an archive that may not have been opened.
pub open spec fn slot_view(slot: Option<&ArchiveContents>) -> Option<ArchiveView> {
    match slot {
        Some(archive) => Some(archive@),
        None => None,
    }
}

/// The pass over the archives, one archive at a time.
///
/// The pass says which place of the archive list is to be opened next:
/// the last one first, then the one before it, down to the first. The
/// caller opens that archive and hands it in, or nothing where it could
/// not be opened. Only one archive has to be held at a time. After the
/// first place the catalog and the report are what
/// [`scan_archives`] gives for the whole list.
pub struct ArchivePass {
    /// How many places of the list are still to be seen: the places
    /// before this number.
    pub left: usize,
    /// What was counted so far.
    pub report: ScanReport,
}

impl ArchivePass {
    /// A pass over a list of `count` archives, before any was seen.
    pub fn begin(count: usize) -> (pass: Self)
        ensures
            pass.left == count,
            pass.report@ == empty_report(),
    {
        let report = ScanReport {
            bsa_count: 0,
            texture_count: 0,
            headers_parsed: 0,
            parse_failed: 0,
            too_small: 0,
            decompress_failed: 0,
            sample_errors: Vec::new(),
        };
        assert(sample_views(report.sample_errors@) == Seq::<SampleView>::empty());
        ArchivePass { left: count, report }
    }

    /// The place of the list to open next, or nothing once the first
    /// place was seen.
    pub fn next(&self) -> (at: Option<usize>)
        ensures
            at == if self.left > 0 {
                Some((self.left - 1) as usize)
            } else {
                None::<usize>
            },
    {
        if self.left > 0 {
            Some(self.left - 1)
        } else {
            None
        }
    }

    /// Takes in the archive of the place that [`Self::next`] named, or
    /// nothing where it could not be opened. Once no place is left, nothing
    /// changes.
    pub fn feed(&mut self, archive: Option<&ArchiveContents>, textures: &mut Catalog)
        requires
            old(textures).wf(),
        ensures
            final(textures).wf(),
            old(self).left == 0 ==> final(self).left == 0 && final(self).report@ == old(
                self,
            ).report@ && record_views(final(textures)@) == record_views(old(textures)@),
            old(self).left > 0 ==> final(self).left == old(self).left - 1 && (ScanState {
                records: record_views(final(textures)@),
                report: final(self).report@,
            }) == scan_slot(
                (ScanState { records: record_views(old(textures)@), report: old(self).report@ }),
                slot_view(archive),
            ),
    {
        if self.left == 0 {
            return ;
        }
        self.left = self.left - 1;
        match archive {
            Some(contents) => {
                TextureDiscoveryService::scan_archive(contents, textures, &mut self.report);
            },
            None => {},
        }
    }

    /// The report of the pass.
    pub fn finish(self) -> (report: ScanReport)
        ensures
            report@ == self.report@,
    {
        self.report
    }
}

pub struct TextureDiscoveryService;

impl TextureDiscoveryService {
    /// The category of a texture whose path is already in lower case.
    pub fn classify_lowercase(lower: &str) -> (r: Option<String>)
        ensures
            opt_view(r) == classified(lower@),
    {
        let chars = chars_of(lower);
        let stem = match strip_suffix(&chars, ".dds") {
            Some(stem) => stem,
            None => {
                return None;
            },
        };
        let label = if ends_with(&stem, &chars_of("_n")) {
            "Normal"
        } else if ends_with(&stem, &chars_of("_s")) {
            "Specular"
        } else if ends_with(&stem, &chars_of("_m")) {
            "Parallax"
        } else if ends_with(&stem, &chars_of("_sk")) {
            "Subsurface"
        } else if ends_with(&stem, &chars_of("_msn")) {
            "Multi-layer"
        } else if ends_with(&stem, &chars_of("_e")) || ends_with(&stem, &chars_of("_g")) {
            "Emissive"
        } else if ends_with(&stem, &chars_of("_em")) {
            "Emissive Mask"
        } else if ends_with(&stem, &chars_of("_envmap")) || ends_with(&stem, &chars_of("_env")) {
            "Environment"
        } else {
            "Diffuse"
        };
        Some(label.to_owned())
    }

    /// The category of a texture by the marker at the end of its file
    /// name, whatever the case of its letters.
    pub fn classify_texture(path: &str) -> (r: Option<String>)
        ensures
            opt_view(r) == classified(lowercase_of(path@)),
    {
        let lower = to_lowercase(path);
        Self::classify_lowercase(lower.as_str())
    }

    /// The first pass: a catalog of the namespace's textures that lie on
    /// disk. `sizes[i]` is the size of the `i`-th texture entry of the
    /// namespace, or nothing where the file could not be examined; such an
    /// entry is left out.
    pub fn discover_from_vfs(vfs: &VirtualFileSystem, sizes: &Vec<Option<u64>>) -> (textures:
        Catalog)
        requires
            vfs.wf(),
        ensures
            textures.wf(),
            record_views(textures@) == with_loose(Map::empty(), vfs.texture_entries(), sizes@),
    {
        let entries = vfs.get_texture_files();
        let mut textures: Catalog = KeyedList::new();
        let ghost all = vfs.texture_entries();
        let mut i: usize = 0;
        assert(record_views(textures@) == Map::<Seq<char>, RecordView>::empty());
        assert(all.take(0) == Seq::<(Seq<char>, SourceView)>::empty());
        while i < entries.len()
            invariant
                i <= entries.len(),
                all == crate::mo2::vfs::entry_views(entries@),
                textures.wf(),
                record_views(textures@) == with_loose(Map::empty(), all.take(i as int), sizes@),
            decreases entries.len() - i,
        {
            proof {
                let upto = all.take(i + 1);
                assert(upto.drop_last() == all.take(i as int));
                assert(upto.last() == (entries@[i as int].0@, entries@[i as int].1@));
            }
            let (key, source) = entries[i];
            let size = if i < sizes.len() {
                sizes[i]
            } else {
                None
            };
            match (source.physical_path(), size) {
                (Some(path), Some(file_size)) => {
                    let mut record = TextureRecord::from_loose_file(
                        key.clone(),
                        path.clone(),
                        file_size,
                    );
                    record.texture_type = Self::classify_texture(key.as_str());
                    let ghost before = textures@;
                    textures.insert(key.clone(), record);
                    assert(record_views(textures@) == record_views(before).insert(
                        key@,
                        record@,
                    ));
                },
                _ => {},
            }
            i = i + 1;
        }
        assert(all.take(entries.len() as int) == all);
        textures
    }

    /// Tallies a failure and keeps it as a sample while there is room.
    fn note_failure(report: &mut ScanReport, key: &String, container: &String, reason: ExtractError)
        ensures
            final(report)@ == with_failure(old(report)@, key@, container@, reason),
    {
        let ghost before = report@;
        match reason {
            ExtractError::TooSmall => {
                report.too_small = bumped(report.too_small);
            },
            ExtractError::FormatError => {
                report.parse_failed = bumped(report.parse_failed);
            },
            ExtractError::DecompressFailed => {
                report.decompress_failed = bumped(report.decompress_failed);
            },
        }
        if report.sample_errors.len() < MAX_SAMPLES {
            let ghost samples = report.sample_errors@;
            let sample = FailureSample { key: key.clone(), container: container.clone(), reason };
            report.sample_errors.push(sample);
            assert(sample_views(report.sample_errors@) == sample_views(samples).push(sample@));
        }
    }

    /// Sees one entry of an archive.
    fn scan_entry(
        archive: &ArchiveContents,
        dir_name: &String,
        file: &ArchiveFile,
        textures: &mut Catalog,
        report: &mut ScanReport,
    )
        requires
            old(textures).wf(),
        ensures
            final(textures).wf(),
            (ScanState { records: record_views(final(textures)@), report: final(report)@ })
                == scan_entry(
                (ScanState { records: record_views(old(textures)@), report: old(report)@ }),
                archive@,
                dir_name@,
                file@,
            ),
    {
        let key = key_of_entry(dir_name.as_str(), file.name.as_str());
        if !is_texture(key.as_str()) {
            return ;
        }
        let ghost before = textures@;
        match textures.find(&key) {
            Some(at) => {
                proof {
                    textures.lemma_entry(at as int);
                }
                let mut record = textures.value(at).duplicate();
                record.conflict_count = bumped(record.conflict_count);
                textures.set_value(at, record);
                assert(record_views(textures@) == record_views(before).insert(
                    key@,
                    with_conflict(record_views(before)[key@]),
                ));
            },
            None => {
                let mut record = TextureRecord::from_bsa_file(
                    key.clone(),
                    archive.container_path.clone(),
                    archive.container_name.clone(),
                    file.raw.len() as u64,
                );
                record.texture_type = Self::classify_texture(key.as_str());
                report.texture_count = bumped(report.texture_count);
                match parse_entry(file) {
                    Ok(header) => {
                        record.width = Some(header.width);
                        record.height = Some(header.height);
                        record.format = Some(header.format);
                        report.headers_parsed = bumped(report.headers_parsed);
                    },
                    Err(reason) => {
                        Self::note_failure(report, &key, &archive.container_name, reason);
                    },
                }
                textures.insert(key.clone(), record);
                assert(record_views(textures@) == record_views(before).insert(key@, record@));
            },
        }
    }

    /// Sees one archive: every entry of every directory, in order.
    pub fn scan_archive(archive: &ArchiveContents, textures: &mut Catalog, report: &mut ScanReport)
        requires
            old(textures).wf(),
        ensures
            final(textures).wf(),
            (ScanState { records: record_views(final(textures)@), report: final(report)@ })
                == scan_archive(
                (ScanState { records: record_views(old(textures)@), report: old(report)@ }),
                archive@,
            ),
    {
        report.bsa_count = bumped(report.bsa_count);
        let ghost start = ScanState { records: record_views(textures@), report: report@ };
        let mut d: usize = 0;
        assert(archive@.directories.take(0) == Seq::<ArchiveDirectoryView>::empty());
        while d < archive.directories.len()
            invariant
                d <= archive.directories.len(),
                textures.wf(),
                (ScanState { records: record_views(textures@), report: report@ })
                    == scan_directories(start, archive@, archive@.directories.take(d as int)),
            decreases archive.directories.len() - d,
        {
            let directory = &archive.directories[d];
            proof {
                let upto = archive@.directories.take(d + 1);
                assert(upto.drop_last() == archive@.directories.take(d as int));
                assert(upto.last() == directory@);
            }
            let ghost dir_start = ScanState { records: record_views(textures@), report: report@ };
            let mut f: usize = 0;
            assert(directory@.files.take(0) == Seq::<ArchiveFileView>::empty());
            while f < directory.files.len()
                invariant
                    f <= directory.files.len(),
                    textures.wf(),
                    (ScanState { records: record_views(textures@), report: report@ })
                        == scan_files(
                        dir_start,
                        archive@,
                        directory.name@,
                        directory@.files.take(f as int),
                    ),
                decreases directory.files.len() - f,
            {
                proof {
                    let upto = directory@.files.take(f + 1);
                    assert(upto.drop_last() == directory@.files.take(f as int));
                    assert(upto.last() == directory.files@[f as int]@);
                }
                Self::scan_entry(archive, &directory.name, &directory.files[f], textures, report);
                f = f + 1;
            }
            assert(directory@.files.take(directory.files.len() as int) == directory@.files);
            d = d + 1;
        }
        assert(archive@.directories.take(archive.directories.len() as int)
            == archive@.directories);
    }

    /// The second pass: the archives of the load order join the catalog.
    ///
    /// The list is walked from its last place to its first, so archives of
    /// lower rank are seen first. A place holds nothing where the archive
    /// could not be opened; it is passed over. A key that the catalog
    /// already holds stays with its record, which counts one more
    /// conflict.
    pub fn discover_from_bsas(archives: &Vec<Option<ArchiveContents>>, textures: &mut Catalog) -> (report:
        ScanReport)
        requires
            old(textures).wf(),
        ensures
            final(textures).wf(),
            (ScanState { records: record_views(final(textures)@), report: report@ })
                == scan_archives(
                (ScanState { records: record_views(old(textures)@), report: empty_report() }),
                slot_views(archives@),
            ),
    {
        let mut pass = ArchivePass::begin(archives.len());
        let ghost start = ScanState { records: record_views(textures@), report: pass.report@ };
        let ghost slots = slot_views(archives@);
        assert(slots.take(archives.len() as int) == slots);
        loop
            invariant_except_break
                pass.left <= archives.len(),
                slots == slot_views(archives@),
                textures.wf(),
                scan_archives(start, slots) == scan_archives(
                    (ScanState { records: record_views(textures@), report: pass.report@ }),
                    slots.take(pass.left as int),
                ),
            ensures
                textures.wf(),
                (ScanState { records: record_views(textures@), report: pass.report@ })
                    == scan_archives(start, slots),
            decreases pass.left,
        {
            match pass.next() {
                Some(at) => {
                    proof {
                        let upto = slots.take(pass.left as int);
                        assert(upto.drop_last() == slots.take(at as int));
                        assert(upto.last() == slots[at as int]);
                    }
                    pass.feed(archives[at].as_ref(), textures);
                },
                None => {
                    assert(slots.take(0) == Seq::<Option<ArchiveView>>::empty());
                    break ;
                },
            }
        }
        pass.finish()
    }

    /// The third pass: records still without header get one from the start
    /// of their file. `contents[i]` holds the first bytes of the file of
    /// the `i`-th record, or nothing where the file could not be read. A
    /// failure is counted and changes nothing.
    pub fn parse_dds_headers(textures: &mut Catalog, contents: &Vec<Option<Vec<u8>>>) -> (report:
        BackfillReport)
        requires
            old(textures).wf(),
        ensures
            final(textures).wf(),
            final(textures).keys() == old(textures).keys(),
            final(textures).values().len() == old(textures).values().len(),
            forall|i: int|
                0 <= i < old(textures).values().len() ==> (#[trigger] final(textures).values()[i])@
                    == backfilled(old(textures).values()[i]@, content_at(contents@, i)),
            report.parsed == backfill_parsed(record_seq_views(old(textures).values()), contents@),
            report.failed == backfill_failed(record_seq_views(old(textures).values()), contents@),
    {
        let ghost before = record_seq_views(textures.values());
        let ghost at_start = textures.values();
        let n = textures.len();
        let mut parsed: usize = 0;
        let mut failed: usize = 0;
        let mut i: usize = 0;
        assert(before.take(0) == Seq::<RecordView>::empty());
        while i < n
            invariant
                i <= n,
                n == before.len(),
                before == record_seq_views(at_start),
                textures.wf(),
                textures.keys() == old(textures).keys(),
                textures.values().len() == n,
                forall|k: int|
                    0 <= k < i ==> (#[trigger] textures.values()[k])@ == backfilled(
                        at_start[k]@,
                        content_at(contents@, k),
                    ),
                forall|k: int| i <= k < n ==> #[trigger] textures.values()[k] == at_start[k],
                parsed == backfill_parsed(before.take(i as int), contents@),
                failed == backfill_failed(before.take(i as int), contents@),
            decreases n - i,
        {
            proof {
                let upto = before.take(i + 1);
                assert(upto.drop_last() == before.take(i as int));
                assert(upto.last() == at_start[i as int]@);
                lemma_backfill_bounded(before.take(i as int), contents@);
            }
            if !textures.value(i).has_header_info() && i < contents.len() {
                match &contents[i] {
                    Some(bytes) => {
                        match parse_dds_header(bytes.as_slice()) {
                            Ok(header) => {
                                let mut record = textures.value(i).duplicate();
                                record.width = Some(header.width);
                                record.height = Some(header.height);
                                record.format = Some(header.format);
                                textures.set_value(i, record);
                                parsed = parsed + 1;
                            },
                            Err(_) => {
                                failed = failed + 1;
                            },
                        }
                    },
                    None => {},
                }
            }
            i = i + 1;
        }
        assert(before.take(n as int) == before);
        BackfillReport { parsed, failed }
    }
    /// Counts one more of `item` in `tally`.
    fn count_item(tally: &mut KeyedList<usize>, item: Option<String>)
        requires
            old(tally).wf(),
        ensures
            final(tally).wf(),
            final(tally)@ == tallied(old(tally)@, opt_view(item)),
    {
        match item {
            Some(key) => {
                match tally.find(&key) {
                    Some(at) => {
                        proof {
                            tally.lemma_entry(at as int);
                        }
                        let count = bumped(*tally.value(at));
                        tally.set_value(at, count);
                    },
                    None => {
                        tally.insert(key, 1);
                    },
                }
            },
            None => {},
        }
    }

    /// Counts over the catalog: by origin, by parsed header, and by
    /// format, resolution and category.
    pub fn get_statistics(textures: &Catalog) -> (stats: TextureStats)
        requires
            textures.wf(),
        ensures
            stats.total == textures.values().len(),
            stats.loose == count_loose(record_seq_views(textures.values())),
            stats.bsa == stats.total - stats.loose,
            stats.parsed == count_parsed(record_seq_views(textures.values())),
            stats.by_format.wf(),
            stats.by_resolution.wf(),
            stats.by_type.wf(),
            stats.by_format@ == tally_of(record_seq_views(textures.values()), TallyKind::Format),
            stats.by_resolution@ == tally_of(
                record_seq_views(textures.values()),
                TallyKind::Resolution,
            ),
            stats.by_type@ == tally_of(record_seq_views(textures.values()), TallyKind::Category),
    {
        let ghost records = record_seq_views(textures.values());
        let n = textures.len();
        let loose_label = "loose".to_owned();
        let mut loose: usize = 0;
        let mut parsed: usize = 0;
        let mut by_format: KeyedList<usize> = KeyedList::new();
        let mut by_resolution: KeyedList<usize> = KeyedList::new();
        let mut by_type: KeyedList<usize> = KeyedList::new();
        let mut i: usize = 0;
        assert(records.take(0) == Seq::<RecordView>::empty());
        while i < n
            invariant
                i <= n,
                n == records.len(),
                textures.wf(),
                records == record_seq_views(textures.values()),
                loose_label@ == "loose"@,
                loose == count_loose(records.take(i as int)),
                parsed == count_parsed(records.take(i as int)),
                by_format.wf(),
                by_resolution.wf(),
                by_type.wf(),
                by_format@ == tally_of(records.take(i as int), TallyKind::Format),
                by_resolution@ == tally_of(records.take(i as int), TallyKind::Resolution),
                by_type@ == tally_of(records.take(i as int), TallyKind::Category),
            decreases n - i,
        {
            let record = textures.value(i);
            proof {
                let upto = records.take(i + 1);
                assert(upto.drop_last() == records.take(i as int));
                assert(upto.last() == record@);
                lemma_counts_bounded(records.take(i as int));
            }
            if record.source == loose_label {
                loose = loose + 1;
            }
            if record.has_header_info() {
                parsed = parsed + 1;
                Self::count_item(&mut by_format, copy_opt(&record.format));
                Self::count_item(&mut by_resolution, record.resolution_string());
            }
            Self::count_item(&mut by_type, copy_opt(&record.texture_type));
            i = i + 1;
        }
        assert(records.take(n as int) == records);
        proof {
            lemma_counts_bounded(records);
        }
        TextureStats {
            total: n,
            loose,
            bsa: n - loose,
            parsed,
            by_format,
            by_resolution,
            by_type,
        }
    }
}

} // verus!
