//! Recognition of the metadata file format from its leading magic word.
use vstd::prelude::*;

use crate::bytes::le_u32;
use crate::errors::LayoutError;

verus! {

/// Magic word of standard IL2CPP global metadata.
pub const STANDARD_METADATA_MAGIC: u32 = 0xFAB1_1BAF;

/// Magic word of the custom obfuscated metadata: the bytes `MHY\0`, read little-endian.
pub const CUSTOM_METADATA_MAGIC: u32 = 0x0059_484D;

/// The little-endian `u32` at the start of `data`, when it has four bytes.
pub open spec fn spec_read_u32_le(data: Seq<u8>) -> Option<u32> {
    if data.len() >= 4 {
        Some(le_u32(data, 0))
    } else {
        None
    }
}

/// Reads the little-endian `u32` at the start of `data`.
pub fn read_u32_le(data: &[u8]) -> (r: Option<u32>)
    ensures
        r == spec_read_u32_le(data@),
{
    if data.len() < 4 {
        return None;
    }
    let value = (data[0] as u32) | ((data[1] as u32) << 8u32) | ((data[2] as u32) << 16u32) | ((data[3] as u32)
        << 24u32);
    Some(value)
}

/// Whether `data` starts with the standard metadata magic.
pub fn has_standard_metadata_magic(data: &[u8]) -> (r: bool)
    ensures
        r == (spec_read_u32_le(data@) == Some(STANDARD_METADATA_MAGIC)),
{
    match read_u32_le(data) {
        Some(v) => v == STANDARD_METADATA_MAGIC,
        None => false,
    }
}

/// Whether `data` starts with the custom metadata magic `MHY\0`.
pub fn has_custom_metadata_magic(data: &[u8]) -> (r: bool)
    ensures
        r == (spec_read_u32_le(data@) == Some(CUSTOM_METADATA_MAGIC)),
{
    match read_u32_le(data) {
        Some(v) => v == CUSTOM_METADATA_MAGIC,
        None => false,
    }
}

/// The two metadata formats the tool reads.
#[derive(Clone, Copy, Debug, PartialEq, Eq, Structural)]
pub enum MetadataFormat {
    /// Standard IL2CPP metadata, read as it is.
    Standard,
    /// Custom obfuscated metadata, decoded through the game assembly.
    Custom,
}

/// The format of metadata `data`: standard, custom, or an unsupported magic (`0` when the
/// data is shorter than a word).
pub open spec fn spec_metadata_format(data: Seq<u8>) -> Result<MetadataFormat, LayoutError> {
    if spec_read_u32_le(data) == Some(STANDARD_METADATA_MAGIC) {
        Ok(MetadataFormat::Standard)
    } else if spec_read_u32_le(data) == Some(CUSTOM_METADATA_MAGIC) {
        Ok(MetadataFormat::Custom)
    } else {
        Err(
            LayoutError::UnsupportedMetadataMagic(
                match spec_read_u32_le(data) {
                    Some(v) => v,
                    None => 0,
                },
            ),
        )
    }
}

/// Recognises the format of metadata `data` from its magic word.
pub fn metadata_format(data: &[u8]) -> (r: Result<MetadataFormat, LayoutError>)
    ensures
        r == spec_metadata_format(data@),
{
    if has_standard_metadata_magic(data) {
        return Ok(MetadataFormat::Standard);
    }
    if has_custom_metadata_magic(data) {
        return Ok(MetadataFormat::Custom);
    }
    let magic = match read_u32_le(data) {
        Some(v) => v,
        None => 0,
    };
    Err(LayoutError::UnsupportedMetadataMagic(magic))
}

} // verus!
