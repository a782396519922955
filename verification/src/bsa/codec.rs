//! From an entry's stored bytes to its content.
//!
//! Bytes that are stored as they are need no work. Compressed bytes go
//! through the archive format's own codec first. Archives sometimes name
//! that codec and use LZ4 frames all the same, so where the first codec
//! fails an LZ4 frame decoder is tried over the same bytes.

use vstd::prelude::*;
use std::io::Read;
use ba2::CompressableFrom;
use crate::bsa::types::ArchiveFile;
use crate::dds::parser::{header_of, parse_dds_header, DDSHeader, ExtractError, HeaderView};

verus! {

/// The error type of the crate `ba2` for this archive format.
#[verifier::external_type_specification]
#[verifier::external_body]
pub struct ExArchiveError(ba2::tes4::Error);

/// What `ba2` makes of compressed bytes with the format's default codec,
/// given the length they are declared to decompress to: the content, or
/// nothing where decoding fails or the length does not match.
pub uninterp spec fn primary_decoded(raw: Seq<u8>, declared_len: usize) -> Option<Seq<u8>>;

/// What the LZ4 frame decoder of the crate `lz4` reads from the bytes, or
/// nothing where it reports an error.
pub uninterp spec fn secondary_decoded(raw: Seq<u8>) -> Option<Seq<u8>>;

/// Calls `ba2::tes4::File::decompress` with default options on a file
/// made by `File::from_compressed` of the given bytes and length. Trusted:
/// the outcome is named [`primary_decoded`]. The length is kept within
/// `isize::MAX`, beyond which the call's buffer reservation panics.
#[verifier::external_body]
fn decompress_primary(raw: &[u8], declared_len: usize) -> (r: Result<Vec<u8>, ba2::tes4::Error>)
    requires
        declared_len <= isize::MAX,
    ensures
        match r {
            Ok(bytes) => primary_decoded(raw@, declared_len) == Some(bytes@),
            Err(_) => primary_decoded(raw@, declared_len) is None,
        },
{
    let file = ba2::tes4::File::from_compressed(raw, declared_len);
    file.decompress(&Default::default()).map(|f| f.as_bytes().to_vec())
}

/// Runs `lz4::Decoder` over the bytes and reads it to the end. Trusted:
/// the outcome is named [`secondary_decoded`].
#[verifier::external_body]
fn decompress_secondary(raw: &[u8]) -> (r: Option<Vec<u8>>)
    ensures
        match r {
            Some(bytes) => secondary_decoded(raw@) == Some(bytes@),
            None => secondary_decoded(raw@) is None,
        },
{
    let mut decoder = lz4::Decoder::new(raw).ok()?;
    let mut out = Vec::new();
    decoder.read_to_end(&mut out).ok()?;
    Some(out)
}

/// Whether a declared length can be handed to the first codec.
pub open spec fn usable_len(declared_len: usize) -> bool {
    declared_len <= isize::MAX
}

/// The content of an entry: its bytes as stored where they are not
/// compressed; else what the first codec gives; else what the second
/// gives; else a failure.
pub open spec fn content_of(raw: Seq<u8>, decompressed_len: Option<usize>) -> Result<
    Seq<u8>,
    ExtractError,
> {
    match decompressed_len {
        None => Ok(raw),
        Some(len) => if usable_len(len) && primary_decoded(raw, len) is Some {
            Ok(primary_decoded(raw, len)->0)
        } else if secondary_decoded(raw) is Some {
            Ok(secondary_decoded(raw)->0)
        } else {
            Err(ExtractError::DecompressFailed)
        },
    }
}

/// What the header of an entry says, or why nothing could be had.
pub open spec fn entry_header(raw: Seq<u8>, decompressed_len: Option<usize>) -> Result<
    HeaderView,
    ExtractError,
> {
    match content_of(raw, decompressed_len) {
        Ok(bytes) => header_of(bytes),
        Err(e) => Err(e),
    }
}

fn copy_bytes(raw: &Vec<u8>) -> (r: Vec<u8>)
    ensures
        r@ == raw@,
{
    let mut r: Vec<u8> = Vec::new();
    let mut i: usize = 0;
    while i < raw.len()
        invariant
            i <= raw.len(),
            r@ == raw@.take(i as int),
        decreases raw.len() - i,
    {
        r.push(raw[i]);
        i = i + 1;
    }
    assert(raw@.take(raw.len() as int) == raw@);
    r
}

/// The content of an entry, through the fallback chain of codecs.
pub fn read_entry(file: &ArchiveFile) -> (r: Result<Vec<u8>, ExtractError>)
    ensures
        match r {
            Ok(bytes) => content_of(file.raw@, file.decompressed_len) == Ok::<
                Seq<u8>,
                ExtractError,
            >(bytes@),
            Err(e) => content_of(file.raw@, file.decompressed_len) == Err::<
                Seq<u8>,
                ExtractError,
            >(e),
        },
{
    match file.decompressed_len {
        None => Ok(copy_bytes(&file.raw)),
        Some(len) => {
            if len <= isize::MAX as usize {
                match decompress_primary(file.raw.as_slice(), len) {
                    Ok(bytes) => {
                        return Ok(bytes);
                    },
                    Err(_) => {},
                }
            }
            match decompress_secondary(file.raw.as_slice()) {
                Some(bytes) => Ok(bytes),
                None => Err(ExtractError::DecompressFailed),
            }
        },
    }
}

/// The header of an entry's content.
pub fn parse_entry(file: &ArchiveFile) -> (r: Result<DDSHeader, ExtractError>)
    ensures
        match r {
            Ok(header) => entry_header(file.raw@, file.decompressed_len) == Ok::<
                HeaderView,
                ExtractError,
            >(header@),
            Err(e) => entry_header(file.raw@, file.decompressed_len) == Err::<
                HeaderView,
                ExtractError,
            >(e),
        },
{
    match file.decompressed_len {
        None => parse_dds_header(file.raw.as_slice()),
        Some(_) => match read_entry(file) {
            Ok(bytes) => parse_dds_header(bytes.as_slice()),
            Err(e) => Err(e),
        },
    }
}

} // verus!
