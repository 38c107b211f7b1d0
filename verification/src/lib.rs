//! Static parser for IL2CPP-derived metadata whose tables are obfuscated.
//!
//! The library reads a PE image and two metadata blobs as byte buffers,
//! discovers where the metadata tables live, decodes the obfuscated table
//! entries and strings, and renders C#-like type dumps and method maps.
//! Every decoder is specified over the byte sequences it reads.

use vstd::prelude::*;

pub mod errors;
pub mod bytes;
pub mod keys;
pub mod pe_image;
pub mod static_layout;
pub mod strings;
pub mod text;
pub mod layout_model;
pub mod type_keys;
pub mod layout_output;
pub mod method_map;
pub mod layout_parser;
pub mod metadata;
pub mod obfuscated;
pub mod args;
pub mod il2cpp_pe;
pub mod output;

