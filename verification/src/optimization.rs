//! What is to be done with each extracted texture, and what the converter
//! is to be told.
//!
//! Running the converter is not done here. This module sorts the extracted
//! textures into groups by the treatment they need, and builds the
//! converter's arguments and reads its output.

use vstd::prelude::*;
use crate::database::texture_record::{RecordView, TextureRecord};
use crate::text::{
    chars_of, contains, contains_sub, decimal, joined_with, last_index, last_index_of, lines,
    lines_of, lowercase_of, push_decimal, push_joined, push_signed, push_str,
    same_chars, signed_decimal, slice_of, starts_with, string_of, string_views, to_lowercase,
    to_uppercase, trim, trimmed, uppercase_of, views,
};

verus! {

/// An extracted texture with its target size.
#[derive(Debug, Clone, PartialEq, Eq)]
pub struct ProcessingRecord {
    pub internal_path: String,
    pub record: TextureRecord,
    pub extracted_path: String,
    pub target_width: u32,
    pub target_height: u32,
    pub texture_type: String,
    pub current_width: u32,
    pub current_height: u32,
    pub oversized: bool,
}

/// A [`ProcessingRecord`] as character sequences.
pub struct ProcessingView {
    pub internal_path: Seq<char>,
    pub record: RecordView,
    pub extracted_path: Seq<char>,
    pub target_width: u32,
    pub target_height: u32,
    pub texture_type: Seq<char>,
    pub current_width: u32,
    pub current_height: u32,
    pub oversized: bool,
}

impl View for ProcessingRecord {
    type V = ProcessingView;

    open spec fn view(&self) -> ProcessingView {
        ProcessingView {
            internal_path: self.internal_path@,
            record: self.record@,
            extracted_path: self.extracted_path@,
            target_width: self.target_width,
            target_height: self.target_height,
            texture_type: self.texture_type@,
            current_width: self.current_width,
            current_height: self.current_height,
            oversized: self.oversized,
        }
    }
}

/// The views of processing records.
pub open spec fn processing_views(records: Seq<ProcessingRecord>) -> Seq<ProcessingView> {
    records.map_values(|r: ProcessingRecord| r@)
}

/// The treatments.
#[derive(Debug, Clone, Copy, PartialEq, Eq, Structural)]
pub enum GroupKind {
    DeleteOnly,
    Bc7Resize,
    Bc4Resize,
    RgbaResize,
    PbrResize,
    SpecularResize,
    EmissiveResize,
    GlossResize,
}

/// The extracted textures by treatment.
#[derive(Debug)]
pub struct ProcessingGroups {
    pub delete_only: Vec<ProcessingRecord>,
    pub bc7_resize: Vec<ProcessingRecord>,
    pub bc4_resize: Vec<ProcessingRecord>,
    pub rgba_resize: Vec<ProcessingRecord>,
    pub pbr_resize: Vec<ProcessingRecord>,
    pub specular_resize: Vec<ProcessingRecord>,
    pub emissive_resize: Vec<ProcessingRecord>,
    pub gloss_resize: Vec<ProcessingRecord>,
}

/// What the steps of an optimization counted.
#[derive(Debug, Clone, Copy, PartialEq, Eq, Structural)]
pub struct OptimizationStats {
    pub optimized: usize,
    pub deleted: usize,
    pub failed: usize,
}

/// An extracted texture on its way into a group: key, record, target width,
/// target height, and where it was extracted to.
pub type Extracted = (String, TextureRecord, u32, u32, String);

/// An [`Extracted`] as character sequences.
pub type ExtractedView = (Seq<char>, RecordView, u32, u32, Seq<char>);

/// The views of extracted textures.
pub open spec fn extracted_views(items: Seq<Extracted>) -> Seq<ExtractedView> {
    items.map_values(|t: Extracted| (t.0@, t.1@, t.2, t.3, t.4@))
}

/// The larger of two sides.
pub open spec fn longer(a: u32, b: u32) -> u32 {
    if a > b {
        a
    } else {
        b
    }
}

/// The treatment for a texture that is beyond its target size, or not.
pub open spec fn treatment(texture_type: Seq<char>, oversized: bool, is_rgb: bool, is_pbr: bool)
    -> GroupKind {
    if !oversized {
        GroupKind::DeleteOnly
    } else if texture_type == "Specular"@ {
        GroupKind::SpecularResize
    } else if texture_type == "Emissive"@ || texture_type == "Emissive Mask"@ {
        GroupKind::EmissiveResize
    } else if texture_type == "Subsurface"@ {
        GroupKind::GlossResize
    } else if texture_type == "Parallax"@ {
        if is_rgb || is_pbr {
            GroupKind::PbrResize
        } else {
            GroupKind::Bc4Resize
        }
    } else if texture_type == "Diffuse"@ {
        if is_rgb {
            GroupKind::RgbaResize
        } else if is_pbr {
            GroupKind::PbrResize
        } else {
            GroupKind::Bc7Resize
        }
    } else if is_rgb || is_pbr {
        GroupKind::PbrResize
    } else {
        GroupKind::Bc7Resize
    }
}

/// Whether a record's format is plain 32-bit color.
pub open spec fn is_rgb_format(format: Option<Seq<char>>) -> bool {
    uppercase_of(
        match format {
            Some(f) => f,
            None => Seq::empty(),
        },
    ) == "ARGB_8888"@
}

/// Whether a key lies in a `pbr` directory.
pub open spec fn is_pbr_path(key: Seq<char>) -> bool {
    contains_sub(lowercase_of(key), "/pbr/"@)
}

/// The processing record of an extracted texture and its treatment; none
/// for a record without category, width or height.
pub open spec fn processed(item: ExtractedView) -> Option<(ProcessingView, GroupKind)> {
    if item.1.texture_type is None || item.1.width is None || item.1.height is None {
        None
    } else {
        let width = item.1.width->0;
        let height = item.1.height->0;
        let oversized = longer(width, height) > longer(item.2, item.3);
        Some(
            (
                ProcessingView {
                    internal_path: item.0,
                    record: item.1,
                    extracted_path: item.4,
                    target_width: item.2,
                    target_height: item.3,
                    texture_type: item.1.texture_type->0,
                    current_width: width,
                    current_height: height,
                    oversized,
                },
                treatment(
                    item.1.texture_type->0,
                    oversized,
                    is_rgb_format(item.1.format),
                    is_pbr_path(item.0),
                ),
            ),
        )
    }
}

/// The records among `items` with the treatment `kind`, in order.
pub open spec fn grouped(items: Seq<ExtractedView>, kind: GroupKind) -> Seq<ProcessingView>
    decreases items.len(),
{
    if items.len() == 0 {
        Seq::empty()
    } else {
        let before = grouped(items.drop_last(), kind);
        match processed(items.last()) {
            Some((record, k)) => if k == kind {
                before.push(record)
            } else {
                before
            },
            None => before,
        }
    }
}

/// The Wine name of a path: on drive `Z:`, which stands for the root.
pub open spec fn wine_name(path: Seq<char>) -> Seq<char> {
    "Z:"@ + path
}

/// The converter's name for a format: the texture formats by their full
/// names, plain color as `RGBA`, anything else as it is.
pub open spec fn converter_format(format: Seq<char>) -> Seq<char> {
    let upper = uppercase_of(format);
    if upper == "BC7"@ {
        "BC7_UNORM"@
    } else if upper == "BC4"@ {
        "BC4_UNORM"@
    } else if upper == "BC3"@ {
        "BC3_UNORM"@
    } else if upper == "RGBA"@ || upper == "ARGB_8888"@ {
        "RGBA"@
    } else {
        format
    }
}

/// The arguments for the format, if one is asked for.
pub open spec fn format_arguments(format: Option<Seq<char>>) -> Seq<Seq<char>> {
    match format {
        Some(f) => seq!["-f"@, converter_format(f)],
        None => Seq::empty(),
    }
}

/// The arguments for the size, if the texture is to be resized.
pub open spec fn size_arguments(oversized: bool, width: u32, height: u32) -> Seq<Seq<char>> {
    if oversized {
        seq!["-w"@, decimal(width as nat), "-h"@, decimal(height as nat)]
    } else {
        Seq::empty()
    }
}

/// The arguments with which Wine runs the converter on one texture: the
/// converter, its fixed options, the directory to write to, then format and
/// size as far as asked for, and the texture last.
pub open spec fn converter_arguments(
    converter: Seq<char>,
    output_dir: Seq<char>,
    input: Seq<char>,
    format: Option<Seq<char>>,
    oversized: bool,
    width: u32,
    height: u32,
) -> Seq<Seq<char>> {
    seq![
        wine_name(converter),
        "-gpu"@,
        "0"@,
        "-sepalpha"@,
        "-nologo"@,
        "-y"@,
        "-o"@,
        wine_name(output_dir),
        "--single-proc"@,
    ] + format_arguments(format) + size_arguments(oversized, width, height) + seq![
        wine_name(input),
    ]
}

/// Whether a line of the converter's output is noise from Wine or blank.
pub open spec fn is_noise(line: Seq<char>) -> bool {
    ||| contains_sub(line, "fixme:"@)
    ||| contains_sub(line, "MANGOHUD"@)
    ||| contains_sub(line, "WARNING: radv"@)
    ||| contains_sub(line, "err:environ:init_peb"@)
    ||| contains_sub(line, "process"@)
    ||| "00"@.is_prefix_of(line)
    ||| trimmed(line).len() == 0
}

/// The lines among `lines` that are no noise, in order.
pub open spec fn without_noise(lines: Seq<Seq<char>>) -> Seq<Seq<char>>
    decreases lines.len(),
{
    if lines.len() == 0 {
        Seq::empty()
    } else {
        let before = without_noise(lines.drop_last());
        if is_noise(lines.last()) {
            before
        } else {
            before.push(lines.last())
        }
    }
}

/// How many records all groups hold together, held at the largest value.
pub open spec fn total_of(groups: ProcessingGroups) -> usize {
    let sum = groups.delete_only@.len() + groups.bc7_resize@.len() + groups.bc4_resize@.len()
        + groups.rgba_resize@.len() + groups.pbr_resize@.len() + groups.specular_resize@.len()
        + groups.emissive_resize@.len() + groups.gloss_resize@.len();
    if sum <= usize::MAX {
        sum as usize
    } else {
        usize::MAX
    }
}

impl ProcessingGroups {
    /// How many records the groups hold together.
    pub fn total(&self) -> (r: usize)
        ensures
            r == total_of(*self),
    {
        let sum: u128 = self.delete_only.len() as u128 + self.bc7_resize.len() as u128
            + self.bc4_resize.len() as u128 + self.rgba_resize.len() as u128
            + self.pbr_resize.len() as u128 + self.specular_resize.len() as u128
            + self.emissive_resize.len() as u128 + self.gloss_resize.len() as u128;
        if sum <= usize::MAX as u128 {
            sum as usize
        } else {
            usize::MAX
        }
    }

    /// The view of the group for a treatment.
    pub open spec fn group(&self, kind: GroupKind) -> Seq<ProcessingView> {
        match kind {
            GroupKind::DeleteOnly => processing_views(self.delete_only@),
            GroupKind::Bc7Resize => processing_views(self.bc7_resize@),
            GroupKind::Bc4Resize => processing_views(self.bc4_resize@),
            GroupKind::RgbaResize => processing_views(self.rgba_resize@),
            GroupKind::PbrResize => processing_views(self.pbr_resize@),
            GroupKind::SpecularResize => processing_views(self.specular_resize@),
            GroupKind::EmissiveResize => processing_views(self.emissive_resize@),
            GroupKind::GlossResize => processing_views(self.gloss_resize@),
        }
    }
}

fn literal_is(text: &Vec<char>, literal: &str) -> (r: bool)
    ensures
        r == (text@ == literal@),
{
    same_chars(text, &chars_of(literal))
}

/// The treatment for a texture of the given category.
pub fn choose_group(texture_type: &str, oversized: bool, is_rgb: bool, is_pbr: bool) -> (r:
    GroupKind)
    ensures
        r == treatment(texture_type@, oversized, is_rgb, is_pbr),
{
    let t = chars_of(texture_type);
    if !oversized {
        GroupKind::DeleteOnly
    } else if literal_is(&t, "Specular") {
        GroupKind::SpecularResize
    } else if literal_is(&t, "Emissive") || literal_is(&t, "Emissive Mask") {
        GroupKind::EmissiveResize
    } else if literal_is(&t, "Subsurface") {
        GroupKind::GlossResize
    } else if literal_is(&t, "Parallax") {
        if is_rgb || is_pbr {
            GroupKind::PbrResize
        } else {
            GroupKind::Bc4Resize
        }
    } else if literal_is(&t, "Diffuse") {
        if is_rgb {
            GroupKind::RgbaResize
        } else if is_pbr {
            GroupKind::PbrResize
        } else {
            GroupKind::Bc7Resize
        }
    } else if is_rgb || is_pbr {
        GroupKind::PbrResize
    } else {
        GroupKind::Bc7Resize
    }
}

/// Sorts the extracted textures into groups by treatment. A texture within
/// its target size is only to be deleted; the others are grouped by
/// category, format and place. Records without category or size are left
/// out.
pub fn group_by_processing_type(textures: Vec<Extracted>) -> (groups: ProcessingGroups)
    ensures
        forall|kind: GroupKind| #[trigger]
            groups.group(kind) == grouped(extracted_views(textures@), kind),
{
    let mut groups = ProcessingGroups {
        delete_only: Vec::new(),
        bc7_resize: Vec::new(),
        bc4_resize: Vec::new(),
        rgba_resize: Vec::new(),
        pbr_resize: Vec::new(),
        specular_resize: Vec::new(),
        emissive_resize: Vec::new(),
        gloss_resize: Vec::new(),
    };
    let ghost all = extracted_views(textures@);
    let argb = chars_of("ARGB_8888");
    let pbr = chars_of("/pbr/");
    let mut i: usize = 0;
    assert(all.take(0) == Seq::<ExtractedView>::empty());
    assert forall|kind: GroupKind| #[trigger]
        groups.group(kind) == grouped(all.take(0), kind) by {
        assert(groups.group(kind) == Seq::<ProcessingView>::empty());
    }
    while i < textures.len()
        invariant
            i <= textures.len(),
            all == extracted_views(textures@),
            argb@ == "ARGB_8888"@,
            pbr@ == "/pbr/"@,
            forall|kind: GroupKind| #[trigger]
                groups.group(kind) == grouped(all.take(i as int), kind),
        decreases textures.len() - i,
    {
        let item = &textures[i];
        proof {
            let upto = all.take(i + 1);
            assert(upto.drop_last() == all.take(i as int));
            assert(upto.last() == (item.0@, item.1@, item.2, item.3, item.4@));
        }
        let ghost before = groups;
        match (&item.1.texture_type, item.1.width, item.1.height) {
            (Some(texture_type), Some(width), Some(height)) => {
                let current_max = if width > height {
                    width
                } else {
                    height
                };
                let target_max = if item.2 > item.3 {
                    item.2
                } else {
                    item.3
                };
                let oversized = current_max > target_max;
                let format = match &item.1.format {
                    Some(f) => to_uppercase(f.as_str()),
                    None => to_uppercase(""),
                };
                assert(""@ == Seq::<char>::empty()) by {
                    reveal_strlit("");
                }
                let is_rgb = same_chars(&chars_of(format.as_str()), &argb);
                let lower = to_lowercase(item.0.as_str());
                let is_pbr = contains(&chars_of(lower.as_str()), &pbr);
                let kind = choose_group(texture_type.as_str(), oversized, is_rgb, is_pbr);
                let entry = ProcessingRecord {
                    internal_path: item.0.clone(),
                    record: item.1.duplicate(),
                    extracted_path: item.4.clone(),
                    target_width: item.2,
                    target_height: item.3,
                    texture_type: texture_type.clone(),
                    current_width: width,
                    current_height: height,
                    oversized,
                };
                assert(processed(all[i as int]) == Some((entry@, kind)));
                match kind {
                    GroupKind::DeleteOnly => {
                        groups.delete_only.push(entry);
                    },
                    GroupKind::Bc7Resize => {
                        groups.bc7_resize.push(entry);
                    },
                    GroupKind::Bc4Resize => {
                        groups.bc4_resize.push(entry);
                    },
                    GroupKind::RgbaResize => {
                        groups.rgba_resize.push(entry);
                    },
                    GroupKind::PbrResize => {
                        groups.pbr_resize.push(entry);
                    },
                    GroupKind::SpecularResize => {
                        groups.specular_resize.push(entry);
                    },
                    GroupKind::EmissiveResize => {
                        groups.emissive_resize.push(entry);
                    },
                    GroupKind::GlossResize => {
                        groups.gloss_resize.push(entry);
                    },
                }
                assert forall|k: GroupKind| #[trigger]
                    groups.group(k) == grouped(all.take(i + 1), k) by {
                    assert(before.group(k) == grouped(all.take(i as int), k));
                    if k == kind {
                        assert(groups.group(k) == before.group(k).push(entry@));
                    } else {
                        assert(groups.group(k) == before.group(k));
                    }
                }
            },
            _ => {
                assert(processed(all[i as int]) is None);
                assert forall|k: GroupKind| #[trigger]
                    groups.group(k) == grouped(all.take(i + 1), k) by {
                    assert(before.group(k) == grouped(all.take(i as int), k));
                }
            },
        }
        i = i + 1;
    }
    assert(all.take(textures.len() as int) == all);
    groups
}

/// The Wine name of a path.
pub fn wine_path(path: &str) -> (r: String)
    ensures
        r@ == wine_name(path@),
{
    let mut name: Vec<char> = Vec::new();
    push_str(&mut name, "Z:");
    push_str(&mut name, path);
    string_of(&name)
}

/// The converter's name for a format.
pub fn texconv_format(format: &str) -> (r: String)
    ensures
        r@ == converter_format(format@),
{
    let upper_text = to_uppercase(format);
    let upper = chars_of(upper_text.as_str());
    if literal_is(&upper, "BC7") {
        "BC7_UNORM".to_owned()
    } else if literal_is(&upper, "BC4") {
        "BC4_UNORM".to_owned()
    } else if literal_is(&upper, "BC3") {
        "BC3_UNORM".to_owned()
    } else if literal_is(&upper, "RGBA") || literal_is(&upper, "ARGB_8888") {
        "RGBA".to_owned()
    } else {
        format.to_owned()
    }
}

fn number(n: u32) -> (r: String)
    ensures
        r@ == decimal(n as nat),
{
    let mut text: Vec<char> = Vec::new();
    push_decimal(&mut text, n as u64);
    string_of(&text)
}

/// The arguments with which Wine runs the converter on one texture.
pub fn texconv_arguments(
    converter: &str,
    output_dir: &str,
    input: &str,
    format: Option<&str>,
    oversized: bool,
    target_width: u32,
    target_height: u32,
) -> (args: Vec<String>)
    ensures
        string_views(args@) == converter_arguments(
            converter@,
            output_dir@,
            input@,
            match format {
                Some(f) => Some(f@),
                None => None,
            },
            oversized,
            target_width,
            target_height,
        ),
{
    let mut args: Vec<String> = Vec::new();
    args.push(wine_path(converter));
    args.push("-gpu".to_owned());
    args.push("0".to_owned());
    args.push("-sepalpha".to_owned());
    args.push("-nologo".to_owned());
    args.push("-y".to_owned());
    args.push("-o".to_owned());
    args.push(wine_path(output_dir));
    args.push("--single-proc".to_owned());
    let ghost fixed = string_views(args@);
    assert(fixed == seq![
        wine_name(converter@),
        "-gpu"@,
        "0"@,
        "-sepalpha"@,
        "-nologo"@,
        "-y"@,
        "-o"@,
        wine_name(output_dir@),
        "--single-proc"@,
    ]);
    match format {
        Some(f) => {
            args.push("-f".to_owned());
            args.push(texconv_format(f));
        },
        None => {},
    }
    let ghost with_format = string_views(args@);
    assert(with_format == fixed + format_arguments(
        match format {
            Some(f) => Some(f@),
            None => None,
        },
    ));
    if oversized {
        args.push("-w".to_owned());
        args.push(number(target_width));
        args.push("-h".to_owned());
        args.push(number(target_height));
    }
    let ghost with_size = string_views(args@);
    assert(with_size == with_format + size_arguments(oversized, target_width, target_height));
    args.push(wine_path(input));
    assert(string_views(args@) == with_size + seq![wine_name(input@)]);
    args
}

/// Whether a line of the converter's output is noise.
pub fn is_wine_noise(line: &Vec<char>) -> (r: bool)
    ensures
        r == is_noise(line@),
{
    contains(line, &chars_of("fixme:")) || contains(line, &chars_of("MANGOHUD")) || contains(
        line,
        &chars_of("WARNING: radv"),
    ) || contains(line, &chars_of("err:environ:init_peb")) || contains(
        line,
        &chars_of("process"),
    ) || starts_with(line, &chars_of("00")) || trim(line).len() == 0
}

/// The lines of the converter's output that say something.
pub fn filter_wine_warnings(text: &str) -> (kept: Vec<String>)
    ensures
        string_views(kept@) == without_noise(lines_of(text@)),
{
    let all = lines(&chars_of(text));
    let mut kept: Vec<String> = Vec::new();
    let mut i: usize = 0;
    assert(views(all@).take(0) == Seq::<Seq<char>>::empty());
    while i < all.len()
        invariant
            i <= all.len(),
            string_views(kept@) == without_noise(views(all@).take(i as int)),
        decreases all.len() - i,
    {
        proof {
            let upto = views(all@).take(i + 1);
            assert(upto.drop_last() == views(all@).take(i as int));
            assert(upto.last() == all@[i as int]@);
        }
        if !is_wine_noise(&all[i]) {
            let ghost before = kept@;
            let line = string_of(&all[i]);
            kept.push(line);
            assert(string_views(kept@) == string_views(before).push(line@));
        }
        i = i + 1;
    }
    assert(views(all@).take(all.len() as int) == views(all@));
    kept
}

/// The format that the textures of a group are converted to, if any.
pub open spec fn group_format(kind: GroupKind) -> Option<Seq<char>> {
    match kind {
        GroupKind::Bc7Resize => Some("BC7"@),
        GroupKind::Bc4Resize => Some("BC4"@),
        GroupKind::RgbaResize => Some("RGBA"@),
        GroupKind::GlossResize => Some("BC4"@),
        GroupKind::DeleteOnly => None,
        GroupKind::PbrResize => None,
        GroupKind::SpecularResize => None,
        GroupKind::EmissiveResize => None,
    }
}

/// The order in which the groups are worked through.
pub open spec fn group_order() -> Seq<GroupKind> {
    seq![
        GroupKind::DeleteOnly,
        GroupKind::Bc7Resize,
        GroupKind::Bc4Resize,
        GroupKind::RgbaResize,
        GroupKind::PbrResize,
        GroupKind::SpecularResize,
        GroupKind::EmissiveResize,
        GroupKind::GlossResize,
    ]
}

/// The sum of two counts, held at the largest value.
pub open spec fn capped_sum(a: usize, b: usize) -> usize {
    if a + b <= usize::MAX {
        (a + b) as usize
    } else {
        usize::MAX
    }
}

/// The statistics after a group was worked through: what succeeded counts
/// as deleted for the group that is only deleted and as optimized for any
/// other; what failed counts as failed.
pub open spec fn with_batch(stats: OptimizationStats, kind: GroupKind, success: usize, failed: usize)
    -> OptimizationStats {
    if kind == GroupKind::DeleteOnly {
        OptimizationStats {
            deleted: capped_sum(stats.deleted, success),
            failed: capped_sum(stats.failed, failed),
            ..stats
        }
    } else {
        OptimizationStats {
            optimized: capped_sum(stats.optimized, success),
            failed: capped_sum(stats.failed, failed),
            ..stats
        }
    }
}

/// How many of `results` are successes.
pub open spec fn successes(results: Seq<bool>) -> nat
    decreases results.len(),
{
    if results.len() == 0 {
        0
    } else {
        successes(results.drop_last()) + if results.last() {
            1nat
        } else {
            0nat
        }
    }
}

/// The directory that a file lies in: what stands before the last `/` of
/// its path; the root where that is the first character, and nothing where
/// there is none.
pub open spec fn directory_of(path: Seq<char>) -> Seq<char> {
    match last_index_of(path, '/') {
        Some(i) => if i == 0 {
            "/"@
        } else {
            path.take(i)
        },
        None => Seq::empty(),
    }
}

/// What is said after `label` of the lines that were kept: nothing where
/// there are none.
pub open spec fn detail(label: Seq<char>, kept: Seq<Seq<char>>) -> Seq<char> {
    if kept.len() == 0 {
        Seq::empty()
    } else {
        label + joined_with(kept, "\n"@)
    }
}

/// What went wrong with a conversion, if anything. The converter failed
/// where it did not end well; the message then gives its exit code, -1
/// where it has none, and what it wrote that is no noise. It also failed
/// where it ended well and the texture is gone.
pub open spec fn conversion_fault(
    ended_well: bool,
    exit_code: Option<i32>,
    stdout: Seq<char>,
    stderr: Seq<char>,
    output_exists: bool,
) -> Option<Seq<char>> {
    let errors = without_noise(lines_of(stderr));
    let output = without_noise(lines_of(stdout));
    if !ended_well {
        let code = match exit_code {
            Some(c) => c as int,
            None => -1,
        };
        Some(
            "texconv failed with exit code "@ + signed_decimal(code) + detail("\nStderr: "@, errors)
                + detail("\nStdout: "@, output),
        )
    } else if !output_exists {
        if errors.len() == 0 {
            Some("Output file doesn't exist after texconv (no error details)"@)
        } else {
            Some("Output file doesn't exist: "@ + joined_with(errors, "\n"@))
        }
    } else {
        None
    }
}

impl GroupKind {
    /// The format that the textures of the group are converted to, if
    /// any.
    pub fn format(&self) -> (r: Option<&'static str>)
        ensures
            match r {
                Some(f) => group_format(*self) == Some(f@),
                None => group_format(*self) is None,
            },
    {
        match self {
            GroupKind::Bc7Resize => Some("BC7"),
            GroupKind::Bc4Resize => Some("BC4"),
            GroupKind::RgbaResize => Some("RGBA"),
            GroupKind::GlossResize => Some("BC4"),
            GroupKind::DeleteOnly => None,
            GroupKind::PbrResize => None,
            GroupKind::SpecularResize => None,
            GroupKind::EmissiveResize => None,
        }
    }
}

impl ProcessingGroups {
    /// The records of a group.
    pub fn batch(&self, kind: GroupKind) -> (r: &Vec<ProcessingRecord>)
        ensures
            processing_views(r@) == self.group(kind),
    {
        match kind {
            GroupKind::DeleteOnly => &self.delete_only,
            GroupKind::Bc7Resize => &self.bc7_resize,
            GroupKind::Bc4Resize => &self.bc4_resize,
            GroupKind::RgbaResize => &self.rgba_resize,
            GroupKind::PbrResize => &self.pbr_resize,
            GroupKind::SpecularResize => &self.specular_resize,
            GroupKind::EmissiveResize => &self.emissive_resize,
            GroupKind::GlossResize => &self.gloss_resize,
        }
    }
}

/// The order in which the groups are worked through.
pub fn processing_order() -> (r: Vec<GroupKind>)
    ensures
        r@ == group_order(),
{
    let mut order: Vec<GroupKind> = Vec::new();
    order.push(GroupKind::DeleteOnly);
    order.push(GroupKind::Bc7Resize);
    order.push(GroupKind::Bc4Resize);
    order.push(GroupKind::RgbaResize);
    order.push(GroupKind::PbrResize);
    order.push(GroupKind::SpecularResize);
    order.push(GroupKind::EmissiveResize);
    order.push(GroupKind::GlossResize);
    assert(order@ == group_order());
    order
}

fn capped_add(a: usize, b: usize) -> (r: usize)
    ensures
        r == capped_sum(a, b),
{
    if a > usize::MAX - b {
        usize::MAX
    } else {
        a + b
    }
}

impl OptimizationStats {
    /// The statistics before anything was done.
    pub fn new() -> (r: Self)
        ensures
            r == (OptimizationStats { optimized: 0, deleted: 0, failed: 0 }),
    {
        OptimizationStats { optimized: 0, deleted: 0, failed: 0 }
    }

    /// Takes in what a group came to.
    pub fn record(&mut self, kind: GroupKind, success: usize, failed: usize)
        ensures
            *final(self) == with_batch(*old(self), kind, success, failed),
    {
        match kind {
            GroupKind::DeleteOnly => {
                self.deleted = capped_add(self.deleted, success);
            },
            _ => {
                self.optimized = capped_add(self.optimized, success);
            },
        }
        self.failed = capped_add(self.failed, failed);
    }
}

/// What a group came to, from how each of its textures fared: how many
/// succeeded and how many failed.
pub fn batch_outcome(results: &Vec<bool>) -> (r: (usize, usize))
    ensures
        r.0 == successes(results@),
        r.0 + r.1 == results.len(),
{
    let mut success: usize = 0;
    let mut failed: usize = 0;
    let mut i: usize = 0;
    assert(results@.take(0) == Seq::<bool>::empty());
    while i < results.len()
        invariant
            i <= results.len(),
            success == successes(results@.take(i as int)),
            success + failed == i,
        decreases results.len() - i,
    {
        proof {
            let upto = results@.take(i + 1);
            assert(upto.drop_last() == results@.take(i as int));
            assert(upto.last() == results@[i as int]);
        }
        if results[i] {
            success = success + 1;
        } else {
            failed = failed + 1;
        }
        i = i + 1;
    }
    assert(results@.take(results.len() as int) == results@);
    (success, failed)
}

/// The directory that a file lies in.
pub fn parent_directory(path: &str) -> (r: String)
    ensures
        r@ == directory_of(path@),
{
    let chars = chars_of(path);
    match last_index(&chars, '/') {
        Some(i) => if i == 0 {
            "/".to_owned()
        } else {
            string_of(&slice_of(&chars, 0, i))
        },
        None => string_of(&Vec::new()),
    }
}

fn push_detail(out: &mut Vec<char>, label: &str, kept: &Vec<String>)
    ensures
        final(out)@ == old(out)@ + detail(label@, string_views(kept@)),
{
    let ghost before = out@;
    if kept.len() > 0 {
        push_str(out, label);
        push_joined(out, kept, "\n");
        assert(out@ == before + (label@ + joined_with(string_views(kept@), "\n"@)));
    } else {
        assert(out@ == before + Seq::<char>::empty());
    }
}

/// Judges one run of the converter, from how it ended, what it wrote and
/// whether the texture is still there: nothing where all is well, else
/// what went wrong.
pub fn conversion_result(
    ended_well: bool,
    exit_code: Option<i32>,
    stdout: &str,
    stderr: &str,
    output_exists: bool,
) -> (r: Result<(), String>)
    ensures
        match r {
            Ok(_) => conversion_fault(ended_well, exit_code, stdout@, stderr@, output_exists)
                is None,
            Err(message) => conversion_fault(ended_well, exit_code, stdout@, stderr@, output_exists)
                == Some(message@),
        },
{
    let errors = filter_wine_warnings(stderr);
    let output = filter_wine_warnings(stdout);
    if !ended_well {
        let code = match exit_code {
            Some(c) => c,
            None => -1,
        };
        let mut message: Vec<char> = Vec::new();
        push_str(&mut message, "texconv failed with exit code ");
        push_signed(&mut message, code);
        push_detail(&mut message, "\nStderr: ", &errors);
        push_detail(&mut message, "\nStdout: ", &output);
        assert(message@ == "texconv failed with exit code "@ + signed_decimal(code as int) + detail(
            "\nStderr: "@,
            string_views(errors@),
        ) + detail("\nStdout: "@, string_views(output@)));
        Err(string_of(&message))
    } else if !output_exists {
        if errors.len() == 0 {
            Err("Output file doesn't exist after texconv (no error details)".to_owned())
        } else {
            let mut message: Vec<char> = Vec::new();
            push_str(&mut message, "Output file doesn't exist: ");
            push_joined(&mut message, &errors, "\n");
            Err(string_of(&message))
        }
    } else {
        Ok(())
    }
}

} // verus!
