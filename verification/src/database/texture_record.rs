//! One record of the texture catalog.

use vstd::prelude::*;
use crate::text::{decimal, push_decimal, string_of};

verus! {

/// A texture of the catalog: where it is, and what its header says.
#[derive(Debug, Clone, PartialEq, Eq)]
pub struct TextureRecord {
    /// The normalized key, such as `textures/actors/character/body_1.dds`.
    pub internal_path: String,
    /// The file on disk, or the archive that holds the entry.
    pub actual_path: String,
    /// `loose` for a file on disk, else the name of the owning archive.
    pub source: String,
    /// Size in bytes.
    pub file_size: u64,
    /// Width in pixels, once the header was parsed.
    pub width: Option<u32>,
    /// Height in pixels, once the header was parsed.
    pub height: Option<u32>,
    /// Pixel format label, once the header was parsed.
    pub format: Option<String>,
    /// Classification by file name.
    pub texture_type: Option<String>,
    /// How many archive sources also provide this key and lost to this one.
    pub conflict_count: usize,
}

/// A [`TextureRecord`] with its strings as character sequences.
pub struct RecordView {
    pub internal_path: Seq<char>,
    pub actual_path: Seq<char>,
    pub source: Seq<char>,
    pub file_size: u64,
    pub width: Option<u32>,
    pub height: Option<u32>,
    pub format: Option<Seq<char>>,
    pub texture_type: Option<Seq<char>>,
    pub conflict_count: usize,
}

/// The view of an optional string.
pub open spec fn opt_view(s: Option<String>) -> Option<Seq<char>> {
    match s {
        Some(text) => Some(text@),
        None => None,
    }
}

impl View for TextureRecord {
    type V = RecordView;

    open spec fn view(&self) -> RecordView {
        RecordView {
            internal_path: self.internal_path@,
            actual_path: self.actual_path@,
            source: self.source@,
            file_size: self.file_size,
            width: self.width,
            height: self.height,
            format: opt_view(self.format),
            texture_type: opt_view(self.texture_type),
            conflict_count: self.conflict_count,
        }
    }
}

/// A fresh record: no header, no classification, no conflicts.
pub open spec fn fresh_record(
    internal_path: Seq<char>,
    actual_path: Seq<char>,
    source: Seq<char>,
    file_size: u64,
) -> RecordView {
    RecordView {
        internal_path,
        actual_path,
        source,
        file_size,
        width: None,
        height: None,
        format: None,
        texture_type: None,
        conflict_count: 0,
    }
}

/// Whether a record has width, height and format.
pub open spec fn has_header(r: RecordView) -> bool {
    r.width is Some && r.height is Some && r.format is Some
}

/// The text `WIDTHxHEIGHT`.
pub open spec fn resolution_text(width: u32, height: u32) -> Seq<char> {
    decimal(width as nat) + seq!['x'] + decimal(height as nat)
}

/// A copy of an optional string.
pub fn copy_opt(s: &Option<String>) -> (r: Option<String>)
    ensures
        opt_view(r) == opt_view(*s),
{
    match s {
        Some(text) => Some(text.clone()),
        None => None,
    }
}

impl TextureRecord {
    /// A record for a file on disk: its source is `loose`.
    pub fn from_loose_file(internal_path: String, file_path: String, file_size: u64) -> (r: Self)
        ensures
            r@ == fresh_record(internal_path@, file_path@, "loose"@, file_size),
    {
        TextureRecord {
            internal_path,
            actual_path: file_path,
            source: "loose".to_owned(),
            file_size,
            width: None,
            height: None,
            format: None,
            texture_type: None,
            conflict_count: 0,
        }
    }

    /// A record for an archive entry: its source is the archive's name.
    pub fn from_bsa_file(
        internal_path: String,
        bsa_path: String,
        bsa_name: String,
        file_size: u64,
    ) -> (r: Self)
        ensures
            r@ == fresh_record(internal_path@, bsa_path@, bsa_name@, file_size),
    {
        TextureRecord {
            internal_path,
            actual_path: bsa_path,
            source: bsa_name,
            file_size,
            width: None,
            height: None,
            format: None,
            texture_type: None,
            conflict_count: 0,
        }
    }

    /// Whether the header was parsed.
    pub fn has_header_info(&self) -> (r: bool)
        ensures
            r == has_header(self@),
    {
        self.width.is_some() && self.height.is_some() && self.format.is_some()
    }

    /// The resolution as text, such as `2048x2048`, once width and height
    /// are known.
    pub fn resolution_string(&self) -> (r: Option<String>)
        ensures
            opt_view(r) == match (self.width, self.height) {
                (Some(w), Some(h)) => Some(resolution_text(w, h)),
                _ => None,
            },
    {
        match (self.width, self.height) {
            (Some(w), Some(h)) => {
                let mut text: Vec<char> = Vec::new();
                push_decimal(&mut text, w as u64);
                text.push('x');
                push_decimal(&mut text, h as u64);
                assert(text@ == resolution_text(w, h));
                Some(string_of(&text))
            },
            _ => None,
        }
    }

    /// A copy of the record.
    pub fn duplicate(&self) -> (r: Self)
        ensures
            r@ == self@,
    {
        TextureRecord {
            internal_path: self.internal_path.clone(),
            actual_path: self.actual_path.clone(),
            source: self.source.clone(),
            file_size: self.file_size,
            width: self.width,
            height: self.height,
            format: copy_opt(&self.format),
            texture_type: copy_opt(&self.texture_type),
            conflict_count: self.conflict_count,
        }
    }
}

} // verus!
