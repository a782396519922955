//! Reads width, height and pixel format from the header of a DDS texture.
//!
//! Only the first 148 bytes of a buffer are ever looked at: the 128-byte base
//! header and the 20-byte extended header that may follow it. The payload is
//! never read.

use vstd::prelude::*;
use vstd::slice::slice_subrange;
use byteorder::ByteOrder;
use crate::text::{decimal, push_decimal, push_str, string_of};

verus! {

/// "DDS " in ASCII, read as a little-endian word.
pub const DDS_MAGIC: u32 = 0x20534444;

/// Size of the base header that follows the magic word.
pub const DDS_HEADER_SIZE: usize = 124;

/// Size of the extended header.
pub const DX10_HEADER_SIZE: usize = 20;

/// Pixel-format flag: the format is given by a four-character code.
pub const DDPF_FOURCC: u32 = 0x0000_0004;

pub const FOURCC_DXT1: u32 = 0x3154_5844;

pub const FOURCC_DXT2: u32 = 0x3254_5844;

pub const FOURCC_DXT3: u32 = 0x3354_5844;

pub const FOURCC_DXT4: u32 = 0x3454_5844;

pub const FOURCC_DXT5: u32 = 0x3554_5844;

/// The code that announces an extended header.
pub const FOURCC_DX10: u32 = 0x3031_5844;

pub const FOURCC_BC4U: u32 = 0x5534_4342;

pub const FOURCC_BC4S: u32 = 0x5334_4342;

pub const FOURCC_BC5U: u32 = 0x5535_4342;

pub const FOURCC_BC5S: u32 = 0x5335_4342;

pub const FOURCC_ATI1: u32 = 0x3149_5441;

pub const FOURCC_ATI2: u32 = 0x3249_5441;

pub const DXGI_FORMAT_BC1_UNORM: u32 = 71;

pub const DXGI_FORMAT_BC1_UNORM_SRGB: u32 = 72;

pub const DXGI_FORMAT_BC2_UNORM: u32 = 74;

pub const DXGI_FORMAT_BC2_UNORM_SRGB: u32 = 75;

pub const DXGI_FORMAT_BC3_UNORM: u32 = 77;

pub const DXGI_FORMAT_BC3_UNORM_SRGB: u32 = 78;

pub const DXGI_FORMAT_BC4_UNORM: u32 = 80;

pub const DXGI_FORMAT_BC4_SNORM: u32 = 81;

pub const DXGI_FORMAT_BC5_UNORM: u32 = 83;

pub const DXGI_FORMAT_BC5_SNORM: u32 = 84;

pub const DXGI_FORMAT_BC6H_UF16: u32 = 95;

pub const DXGI_FORMAT_BC6H_SF16: u32 = 96;

pub const DXGI_FORMAT_BC7_UNORM: u32 = 98;

pub const DXGI_FORMAT_BC7_UNORM_SRGB: u32 = 99;

/// Why no header could be had from an entry's bytes.
#[derive(Debug, Clone, Copy, PartialEq, Eq, Structural)]
pub enum ExtractError {
    /// Fewer than 128 bytes are available.
    TooSmall,
    /// The magic word is wrong.
    FormatError,
    /// Neither codec could decompress the entry.
    DecompressFailed,
}

/// What the header of a texture says about it.
#[derive(Debug, Clone, PartialEq, Eq)]
pub struct DDSHeader {
    pub width: u32,
    pub height: u32,
    pub format: String,
}

/// A [`DDSHeader`] with its format label as a character sequence.
pub struct HeaderView {
    pub width: u32,
    pub height: u32,
    pub format: Seq<char>,
}

impl View for DDSHeader {
    type V = HeaderView;

    open spec fn view(&self) -> HeaderView {
        HeaderView { width: self.width, height: self.height, format: self.format@ }
    }
}

/// The string std's `String::from_utf8_lossy` gives for a byte sequence:
/// the decoded text, with U+FFFD in place of each invalid sequence.
pub uninterp spec fn utf8_lossy_of(bytes: Seq<u8>) -> Seq<char>;

/// The little-endian word that the first four bytes of `word` encode.
pub open spec fn le_u32(word: Seq<u8>) -> u32 {
    (word[0] as int + 256 * (word[1] as int) + 65536 * (word[2] as int) + 16777216 * (
    word[3] as int)) as u32
}

/// The little-endian word at byte offset `at`.
pub open spec fn word_at(data: Seq<u8>, at: int) -> u32 {
    le_u32(data.subrange(at, at + 4))
}

/// The four bytes of a word, least significant first.
pub open spec fn le_bytes(word: u32) -> Seq<u8> {
    seq![
        (word % 256) as u8,
        ((word / 256) % 256) as u8,
        ((word / 65536) % 256) as u8,
        ((word / 16777216) % 256) as u8,
    ]
}

/// The 20 bytes of the extended header: what the buffer holds from offset
/// 128 on, with zeros where the buffer has ended.
pub open spec fn extended_header(data: Seq<u8>) -> Seq<u8> {
    Seq::new(
        20,
        |i: int|
            if 128 + i < data.len() {
                data[128 + i]
            } else {
                0u8
            },
    )
}

/// The label for a code of the extended header. The sRGB variant of a
/// format has the label of the linear one; an unknown code is shown in
/// decimal.
pub open spec fn extended_label(code: u32) -> Seq<char> {
    if code == DXGI_FORMAT_BC1_UNORM || code == DXGI_FORMAT_BC1_UNORM_SRGB {
        "BC1"@
    } else if code == DXGI_FORMAT_BC2_UNORM || code == DXGI_FORMAT_BC2_UNORM_SRGB {
        "BC2"@
    } else if code == DXGI_FORMAT_BC3_UNORM || code == DXGI_FORMAT_BC3_UNORM_SRGB {
        "BC3"@
    } else if code == DXGI_FORMAT_BC4_UNORM || code == DXGI_FORMAT_BC4_SNORM {
        "BC4"@
    } else if code == DXGI_FORMAT_BC5_UNORM || code == DXGI_FORMAT_BC5_SNORM {
        "BC5"@
    } else if code == DXGI_FORMAT_BC6H_UF16 || code == DXGI_FORMAT_BC6H_SF16 {
        "BC6H"@
    } else if code == DXGI_FORMAT_BC7_UNORM || code == DXGI_FORMAT_BC7_UNORM_SRGB {
        "BC7"@
    } else {
        "DXGI_"@ + decimal(code as nat)
    }
}

/// The label that the extended header gives.
pub open spec fn dx10_label(dx10_header: Seq<u8>) -> Seq<char> {
    if dx10_header.len() < 4 {
        "UNKNOWN"@
    } else {
        extended_label(le_u32(dx10_header.subrange(0, 4)))
    }
}

/// The text of a four-character code.
pub open spec fn fourcc_text(fourcc: u32) -> Seq<char> {
    utf8_lossy_of(le_bytes(fourcc))
}

/// The label for a four-character code; `dx10_header` is consulted where
/// the code announces an extended header. An unknown code is shown as text.
pub open spec fn fourcc_label(fourcc: u32, dx10_header: Seq<u8>) -> Seq<char> {
    if fourcc == FOURCC_DXT1 {
        "BC1"@
    } else if fourcc == FOURCC_DXT2 || fourcc == FOURCC_DXT3 {
        "BC2"@
    } else if fourcc == FOURCC_DXT4 || fourcc == FOURCC_DXT5 {
        "BC3"@
    } else if fourcc == FOURCC_BC4U || fourcc == FOURCC_BC4S || fourcc == FOURCC_ATI1 {
        "BC4"@
    } else if fourcc == FOURCC_BC5U || fourcc == FOURCC_BC5S || fourcc == FOURCC_ATI2 {
        "BC5"@
    } else if fourcc == FOURCC_DX10 {
        dx10_label(dx10_header)
    } else {
        "FourCC_"@ + fourcc_text(fourcc)
    }
}

/// The format label of a header with the given pixel-format flags.
pub open spec fn format_label(flags: u32, fourcc: u32, dx10_header: Seq<u8>) -> Seq<char> {
    if flags & DDPF_FOURCC != 0 {
        fourcc_label(fourcc, dx10_header)
    } else {
        "UNCOMPRESSED"@
    }
}

/// What a buffer's header says, or why it says nothing.
pub open spec fn header_of(data: Seq<u8>) -> Result<HeaderView, ExtractError> {
    if data.len() < 128 {
        Err(ExtractError::TooSmall)
    } else if word_at(data, 0) != DDS_MAGIC {
        Err(ExtractError::FormatError)
    } else {
        Ok(
            HeaderView {
                width: word_at(data, 16),
                height: word_at(data, 12),
                format: format_label(word_at(data, 80), word_at(data, 84), extended_header(data)),
            },
        )
    }
}

/// Calls `byteorder::LittleEndian::read_u32`, which decodes the first four
/// bytes of a slice as a little-endian word and panics on a shorter slice.
#[verifier::external_body]
fn read_le_u32(word: &[u8]) -> (r: u32)
    requires
        word@.len() >= 4,
    ensures
        r == le_u32(word@),
{
    byteorder::LittleEndian::read_u32(word)
}

/// Calls std's `String::from_utf8_lossy`. Trusted: the result is named
/// [`utf8_lossy_of`]; nothing more is claimed of it.
#[verifier::external_body]
fn utf8_lossy(bytes: &Vec<u8>) -> (r: String)
    ensures
        r@ == utf8_lossy_of(bytes@),
{
    String::from_utf8_lossy(bytes).into_owned()
}

fn read_word(data: &[u8], at: usize) -> (r: u32)
    requires
        at + 4 <= data@.len(),
    ensures
        r == word_at(data@, at as int),
{
    let len = data.len();
    assert(at + 4 <= len);
    read_le_u32(slice_subrange(data, at, at + 4))
}

/// Parses the header at the start of `data`.
///
/// Fails with `TooSmall` on fewer than 128 bytes and with `FormatError` on
/// a wrong magic word; an unknown format code never fails, it gives a
/// label that shows the code.
pub fn parse_dds_header(data: &[u8]) -> (r: Result<DDSHeader, ExtractError>)
    ensures
        match r {
            Ok(header) => header_of(data@) == Ok::<HeaderView, ExtractError>(header@),
            Err(e) => header_of(data@) == Err::<HeaderView, ExtractError>(e),
        },
{
    if data.len() < 128 {
        return Err(ExtractError::TooSmall);
    }
    let magic = read_word(data, 0);
    if magic != DDS_MAGIC {
        return Err(ExtractError::FormatError);
    }
    let height = read_word(data, 12);
    let width = read_word(data, 16);
    let pixel_format_flags = read_word(data, 80);
    let fourcc = read_word(data, 84);

    let mut dx10_header: Vec<u8> = Vec::new();
    let mut i: usize = 0;
    while i < 20
        invariant
            i <= 20,
            data@.len() >= 128,
            dx10_header@ == extended_header(data@).take(i as int),
        decreases 20 - i,
    {
        if 128 + i < data.len() {
            dx10_header.push(data[128 + i]);
        } else {
            dx10_header.push(0u8);
        }
        i = i + 1;
    }
    assert(dx10_header@ == extended_header(data@));

    let format = if (pixel_format_flags & DDPF_FOURCC) != 0 {
        if fourcc == FOURCC_DXT1 {
            "BC1".to_owned()
        } else if fourcc == FOURCC_DXT2 || fourcc == FOURCC_DXT3 {
            "BC2".to_owned()
        } else if fourcc == FOURCC_DXT4 || fourcc == FOURCC_DXT5 {
            "BC3".to_owned()
        } else if fourcc == FOURCC_BC4U || fourcc == FOURCC_BC4S || fourcc == FOURCC_ATI1 {
            "BC4".to_owned()
        } else if fourcc == FOURCC_BC5U || fourcc == FOURCC_BC5S || fourcc == FOURCC_ATI2 {
            "BC5".to_owned()
        } else if fourcc == FOURCC_DX10 {
            parse_dx10_format(dx10_header.as_slice())
        } else {
            let mut label: Vec<char> = Vec::new();
            push_str(&mut label, "FourCC_");
            let text = fourcc_to_string(fourcc);
            push_str(&mut label, text.as_str());
            string_of(&label)
        }
    } else {
        "UNCOMPRESSED".to_owned()
    };
    Ok(DDSHeader { width, height, format })
}

/// The label for the format code in an extended header.
pub fn parse_dx10_format(dx10_header: &[u8]) -> (r: String)
    ensures
        r@ == dx10_label(dx10_header@),
{
    if dx10_header.len() < 4 {
        return "UNKNOWN".to_owned();
    }
    let dxgi_format = read_word(dx10_header, 0);
    if dxgi_format == DXGI_FORMAT_BC1_UNORM || dxgi_format == DXGI_FORMAT_BC1_UNORM_SRGB {
        "BC1".to_owned()
    } else if dxgi_format == DXGI_FORMAT_BC2_UNORM || dxgi_format == DXGI_FORMAT_BC2_UNORM_SRGB {
        "BC2".to_owned()
    } else if dxgi_format == DXGI_FORMAT_BC3_UNORM || dxgi_format == DXGI_FORMAT_BC3_UNORM_SRGB {
        "BC3".to_owned()
    } else if dxgi_format == DXGI_FORMAT_BC4_UNORM || dxgi_format == DXGI_FORMAT_BC4_SNORM {
        "BC4".to_owned()
    } else if dxgi_format == DXGI_FORMAT_BC5_UNORM || dxgi_format == DXGI_FORMAT_BC5_SNORM {
        "BC5".to_owned()
    } else if dxgi_format == DXGI_FORMAT_BC6H_UF16 || dxgi_format == DXGI_FORMAT_BC6H_SF16 {
        "BC6H".to_owned()
    } else if dxgi_format == DXGI_FORMAT_BC7_UNORM || dxgi_format == DXGI_FORMAT_BC7_UNORM_SRGB {
        "BC7".to_owned()
    } else {
        let mut label: Vec<char> = Vec::new();
        push_str(&mut label, "DXGI_");
        push_decimal(&mut label, dxgi_format as u64);
        string_of(&label)
    }
}

/// The four bytes of a code, least significant first, read as text.
pub fn fourcc_to_string(fourcc: u32) -> (r: String)
    ensures
        r@ == fourcc_text(fourcc),
{
    let mut bytes: Vec<u8> = Vec::new();
    bytes.push((fourcc % 256) as u8);
    bytes.push(((fourcc / 256) % 256) as u8);
    bytes.push(((fourcc / 65536) % 256) as u8);
    bytes.push(((fourcc / 16777216) % 256) as u8);
    assert(bytes@ == le_bytes(fourcc));
    utf8_lossy(&bytes)
}

} // verus!
