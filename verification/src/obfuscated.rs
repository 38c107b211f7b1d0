//! Obfuscated metadata that only the game assembly's own loader can decode.
use vstd::prelude::*;

use crate::errors::LayoutError;
use crate::metadata::{has_standard_metadata_magic, spec_read_u32_le, STANDARD_METADATA_MAGIC};

verus! {

/// The files that the game assembly's metadata loader reads.
pub struct ObfuscatedFiles {
    pub game_assembly: String,
    pub global_path: String,
    pub global_data: Vec<u8>,
    pub startup_path: Option<String>,
}

/// Loading obfuscated metadata means running the game assembly's loader, which only
/// Windows can do; everywhere else the request is refused.
pub fn load_obfuscated_metadata(files: ObfuscatedFiles) -> (r: Result<Vec<u8>, LayoutError>)
    ensures
        r == Err::<Vec<u8>, LayoutError>(LayoutError::UnsupportedPlatform),
{
    Err(LayoutError::UnsupportedPlatform)
}

/// Accepts what the loader produced when it is standard metadata, else reports its magic
/// (`0` when it is shorter than a word).
pub fn check_loaded_metadata(loaded: Vec<u8>) -> (r: Result<Vec<u8>, LayoutError>)
    ensures
        spec_read_u32_le(loaded@) == Some(STANDARD_METADATA_MAGIC) ==> (r matches Ok(data) && data@ == loaded@),
        spec_read_u32_le(loaded@) != Some(STANDARD_METADATA_MAGIC) ==> r == Err::<Vec<u8>, LayoutError>(
            LayoutError::LoaderOutputNotStandard(
                match spec_read_u32_le(loaded@) {
                    Some(v) => v,
                    None => 0,
                },
            ),
        ),
{
    if has_standard_metadata_magic(loaded.as_slice()) {
        return Ok(loaded);
    }
    let magic = match crate::metadata::read_u32_le(loaded.as_slice()) {
        Some(v) => v,
        None => 0,
    };
    Err(LayoutError::LoaderOutputNotStandard(magic))
}

} // verus!
