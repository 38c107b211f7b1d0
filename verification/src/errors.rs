use vstd::prelude::*;

use crate::text::{decimal, hexadecimal, push_decimal, push_hex, push_hex_padded, zero_padded};

verus! {

/// Why a decoding step was refused.
#[derive(Clone, Copy, Debug, PartialEq, Eq, Structural)]
pub enum LayoutError {
    /// A read or a required byte range runs past the end of its buffer.
    OutOfRange,
    /// Checked table arithmetic (an index scaled to a byte offset, or an RVA sum) overflowed.
    ArithmeticOverflow,
    /// The buffer does not start with the `MZ` signature.
    NotPeImage,
    /// The `PE\0\0` signature is missing at the offset that the DOS header names.
    InvalidPeSignature,
    /// The optional header magic is neither PE32 nor PE32+.
    UnsupportedOptionalHeader,
    /// An RVA falls inside no section of the image.
    RvaOutsideSections(u32),
    /// A virtual address lies below the image base.
    VaBelowImageBase,
    /// A virtual address minus the image base does not fit in 32 bits.
    RvaTooLarge,
    /// Decoded string bytes are not valid UTF-8.
    InvalidUtf8,
    /// A type definition index is past the end of the type table.
    TypeIndexOutOfRange(usize),
    /// Following declaring types from this type never reaches a top-level type.
    DeclaringTypeCycle(usize),
    /// A type pointer lies before the Il2CppType table.
    TypePointerBeforeTable,
    /// A type pointer is not aligned to an Il2CppType entry.
    MisalignedTypePointer,
    /// An instruction operand does not encode a RIP-relative LEA.
    NotRipRelativeLea,
    /// A RIP-relative target lies outside the 32-bit RVA space.
    TargetOutOfRange,
    /// No initializer with plausible metadata globals was found.
    StaticGlobalsNotFound,
    /// No metadata payload initializer was found.
    PayloadOffsetNotFound,
    /// The method attribute xor instruction pattern was not found.
    MethodAttributeXorNotFound,
    /// Type references nest deeper than the resolver follows.
    TypeNestingTooDeep,
    /// A field index does not fit in a signed 32-bit integer.
    FieldIndexTooLarge,
    /// An enum constant has no entry in the field default value table.
    MissingEnumDefaultValue,
    /// The startup metadata file is required but was not given.
    MissingStartupMetadata,
    /// The method map could not be serialised.
    JsonSerialization,
    /// The metadata starts with neither the standard nor the custom magic.
    UnsupportedMetadataMagic(u32),
    /// Loading obfuscated metadata through the game assembly needs Windows.
    UnsupportedPlatform,
    /// The game assembly's loader produced bytes without the standard magic.
    LoaderOutputNotStandard(u32),
    /// Neither the symbol search nor the section search found both registrations.
    RegistrationsNotFound,
    /// A method's parameter range starts at a negative index.
    NegativeParameterIndex,
    /// The type table holds no entries, so no key can be read off it.
    EmptyTypeTable,
    /// Type 0 of the type table is not `<Module>`.
    FirstTypeNotModule,
    /// No base type word is common enough to serve as a sentinel.
    TypeSentinelNotFound,
}

/// The message that describes `e`.
pub open spec fn error_message(e: LayoutError) -> Seq<char> {
    match e {
        LayoutError::OutOfRange => "read out of range"@,
        LayoutError::ArithmeticOverflow => "table offset arithmetic overflows"@,
        LayoutError::NotPeImage => "not a PE image"@,
        LayoutError::InvalidPeSignature => "invalid PE signature"@,
        LayoutError::UnsupportedOptionalHeader => "unsupported PE optional header magic"@,
        LayoutError::VaBelowImageBase => "VA is below image base"@,
        LayoutError::RvaTooLarge => "RVA does not fit in u32"@,
        LayoutError::InvalidUtf8 => "invalid decoded UTF-8 string"@,
        LayoutError::TypePointerBeforeTable => "Il2CppType pointer RVA is before table RVA"@,
        LayoutError::MisalignedTypePointer => "Il2CppType pointer RVA is not aligned to an Il2CppType entry"@,
        LayoutError::NotRipRelativeLea => "expected RIP-relative LEA"@,
        LayoutError::TargetOutOfRange => "RIP-relative instruction targets out-of-range RVA"@,
        LayoutError::StaticGlobalsNotFound => "failed to discover static metadata globals initializer"@,
        LayoutError::PayloadOffsetNotFound => "failed to discover external payload offset from metadata initializer"@,
        LayoutError::MethodAttributeXorNotFound => "failed to find method attribute xor movdqa pattern"@,
        LayoutError::TypeNestingTooDeep => "Il2CppType references nest without end"@,
        LayoutError::FieldIndexTooLarge => "field index does not fit in i32"@,
        LayoutError::MissingEnumDefaultValue => "enum constant has no field default value"@,
        LayoutError::MissingStartupMetadata => "startup-metadata.dat is required for static output"@,
        LayoutError::JsonSerialization => "failed to serialize static methods.json"@,
        LayoutError::UnsupportedPlatform => "Obfuscated metadata loading through GameAssembly.dll is only supported on Windows"@,
        LayoutError::RegistrationsNotFound => "failed to find CodeRegistration/MetadataRegistration automatically"@,
        LayoutError::NegativeParameterIndex => "negative parameter index"@,
        LayoutError::EmptyTypeTable => "cannot discover type layout keys from an empty type table"@,
        LayoutError::FirstTypeNotModule => "cannot discover type layout keys: type[0] is not <Module>"@,
        LayoutError::TypeSentinelNotFound => "failed to discover base type sentinel from type table"@,
        LayoutError::TypeIndexOutOfRange(index) => "type index "@ + decimal(index as nat) + " is out of range"@,
        LayoutError::DeclaringTypeCycle(index) => "declaring type cycle detected at type index "@ + decimal(index as nat),
        LayoutError::RvaOutsideSections(rva) => "RVA 0x"@ + hexadecimal(rva as nat, true) + " is outside PE sections"@,
        LayoutError::UnsupportedMetadataMagic(magic) => "unsupported metadata format: wrong magic 0x"@ + zero_padded(
            hexadecimal(magic as nat, true),
            8,
        ),
        LayoutError::LoaderOutputNotStandard(magic) => "Obfuscated metadata loader did not produce standard IL2CPP metadata. got magic 0x"@
            + zero_padded(hexadecimal(magic as nat, true), 8),
    }
}

impl LayoutError {
    /// The message that describes this error.
    pub fn message(&self) -> (r: String)
        ensures
            r@ == error_message(*self),
    {
        let mut s = String::new();
        match self {
            LayoutError::OutOfRange => {
                s.append("read out of range");
            },
            LayoutError::ArithmeticOverflow => {
                s.append("table offset arithmetic overflows");
            },
            LayoutError::NotPeImage => {
                s.append("not a PE image");
            },
            LayoutError::InvalidPeSignature => {
                s.append("invalid PE signature");
            },
            LayoutError::UnsupportedOptionalHeader => {
                s.append("unsupported PE optional header magic");
            },
            LayoutError::VaBelowImageBase => {
                s.append("VA is below image base");
            },
            LayoutError::RvaTooLarge => {
                s.append("RVA does not fit in u32");
            },
            LayoutError::InvalidUtf8 => {
                s.append("invalid decoded UTF-8 string");
            },
            LayoutError::TypePointerBeforeTable => {
                s.append("Il2CppType pointer RVA is before table RVA");
            },
            LayoutError::MisalignedTypePointer => {
                s.append("Il2CppType pointer RVA is not aligned to an Il2CppType entry");
            },
            LayoutError::NotRipRelativeLea => {
                s.append("expected RIP-relative LEA");
            },
            LayoutError::TargetOutOfRange => {
                s.append("RIP-relative instruction targets out-of-range RVA");
            },
            LayoutError::StaticGlobalsNotFound => {
                s.append("failed to discover static metadata globals initializer");
            },
            LayoutError::PayloadOffsetNotFound => {
                s.append("failed to discover external payload offset from metadata initializer");
            },
            LayoutError::MethodAttributeXorNotFound => {
                s.append("failed to find method attribute xor movdqa pattern");
            },
            LayoutError::TypeNestingTooDeep => {
                s.append("Il2CppType references nest without end");
            },
            LayoutError::FieldIndexTooLarge => {
                s.append("field index does not fit in i32");
            },
            LayoutError::MissingEnumDefaultValue => {
                s.append("enum constant has no field default value");
            },
            LayoutError::MissingStartupMetadata => {
                s.append("startup-metadata.dat is required for static output");
            },
            LayoutError::JsonSerialization => {
                s.append("failed to serialize static methods.json");
            },
            LayoutError::UnsupportedPlatform => {
                s.append("Obfuscated metadata loading through GameAssembly.dll is only supported on Windows");
            },
            LayoutError::RegistrationsNotFound => {
                s.append("failed to find CodeRegistration/MetadataRegistration automatically");
            },
            LayoutError::NegativeParameterIndex => {
                s.append("negative parameter index");
            },
            LayoutError::EmptyTypeTable => {
                s.append("cannot discover type layout keys from an empty type table");
            },
            LayoutError::FirstTypeNotModule => {
                s.append("cannot discover type layout keys: type[0] is not <Module>");
            },
            LayoutError::TypeSentinelNotFound => {
                s.append("failed to discover base type sentinel from type table");
            },
            LayoutError::TypeIndexOutOfRange(index) => {
                s.append("type index ");
                push_decimal(&mut s, *index as u64);
                s.append(" is out of range");
            },
            LayoutError::DeclaringTypeCycle(index) => {
                s.append("declaring type cycle detected at type index ");
                push_decimal(&mut s, *index as u64);
            },
            LayoutError::RvaOutsideSections(rva) => {
                s.append("RVA 0x");
                push_hex(&mut s, *rva as u64, true);
                s.append(" is outside PE sections");
            },
            LayoutError::UnsupportedMetadataMagic(magic) => {
                s.append("unsupported metadata format: wrong magic 0x");
                push_hex_padded(&mut s, *magic as u64, 8);
            },
            LayoutError::LoaderOutputNotStandard(magic) => {
                s.append("Obfuscated metadata loader did not produce standard IL2CPP metadata. got magic 0x");
                push_hex_padded(&mut s, *magic as u64, 8);
            },
        }
        s
    }
}

} // verus!
