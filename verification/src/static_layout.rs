//! Discovery of the static metadata layout inside the game assembly: the
//! initializer that publishes the metadata globals, the embedded header whose
//! words (each obfuscated by its own constant) locate every metadata table, and
//! the offset of the metadata payload inside the external files.
use vstd::prelude::*;
use vstd::string::StringExecFns;

use crate::errors::LayoutError;
use crate::keys::{sar_u32, spec_sar_u32};
use crate::text::{decimal, hexadecimal, push_decimal, push_hex};
use crate::pe_image::{
    spec_read_bytes_rva, spec_read_i32_rva, spec_read_u32_rva, spec_scan_pattern, PeImage, PeImageView,
};

verus! {

/// Where the obfuscated metadata tables live, as decoded from the game assembly.
#[derive(Clone, Copy, Debug, PartialEq, Eq, Structural)]
pub struct StaticLayout {
    pub static_initializer_rva: u32,
    pub metadata_registration_rva: u32,
    pub descriptor_rva: u32,
    pub embedded_header_rva: u32,
    pub payload_offset: u32,
    pub descriptor_count_80: u32,
    pub header_size_1a8: u32,
    pub header_size_1f8: u32,
    pub header_size_74: u32,
    pub header_count_134_div40: u32,
    pub header_count_178: u32,
    pub header_count_bc: u32,
    pub startup_section_164_offset: u32,
    pub startup_image_table_offset: u32,
    pub startup_assembly_table_offset: u32,
    pub startup_assembly_name_table_offset: u32,
    pub global_type_table_offset: u32,
    pub global_field_table_offset: u32,
    pub global_type_field_offset_map_offset: u32,
    pub global_field_offset_group_table_offset: u32,
    pub global_field_offset_table_offset: u32,
    pub global_method_table_offset: u32,
    pub global_parameter_table_offset: u32,
    pub global_nested_type_table_offset: u32,
    pub global_interface_type_table_offset: u32,
    pub global_generic_container_table_offset: u32,
    pub global_generic_parameter_table_offset: u32,
    pub global_string_data_offset: u32,
}


/// The RVAs that the static metadata initializer publishes.
#[derive(Clone, Copy, Debug, PartialEq, Eq, Structural)]
pub struct StaticMetadataGlobals {
    pub initializer_rva: u32,
    pub metadata_registration_rva: u32,
    pub descriptor_rva: u32,
    pub embedded_header_rva: u32,
}

/// `base + delta` as an RVA, or `ArithmeticOverflow` when it leaves the 32-bit range.
pub open spec fn spec_rva_add(base: u32, delta: u32) -> Result<u32, LayoutError> {
    if base + delta > u32::MAX {
        Err(LayoutError::ArithmeticOverflow)
    } else {
        Ok((base + delta) as u32)
    }
}

/// The `u32` at RVA `base + delta`.
pub open spec fn spec_read_u32_at_rva(image: PeImageView, base: u32, delta: u32) -> Result<u32, LayoutError> {
    match spec_rva_add(base, delta) {
        Err(e) => Err(e),
        Ok(rva) => spec_read_u32_rva(image, rva),
    }
}

/// The RVA that the RIP-relative LEA at `rva` (`48 8D /r` with a disp32 operand) loads.
pub open spec fn spec_lea_target_rva(image: PeImageView, rva: u32) -> Result<u32, LayoutError> {
    match spec_read_bytes_rva(image, rva, 3) {
        Err(e) => Err(e),
        Ok(bytes) => if bytes[0] != 0x48 || bytes[1] != 0x8D || bytes[2] & 0xC7 != 0x05 {
            Err(LayoutError::NotRipRelativeLea)
        } else {
            match spec_rva_add(rva, 3) {
                Err(e) => Err(e),
                Ok(operand) => match spec_read_i32_rva(image, operand) {
                    Err(e) => Err(e),
                    Ok(displacement) => {
                        let target = rva + 7 + displacement;
                        if target < 0 || target > u32::MAX {
                            Err(LayoutError::TargetOutOfRange)
                        } else {
                            Ok(target as u32)
                        }
                    },
                },
            }
        },
    }
}

/// The target of the LEA at RVA `rva + delta`.
pub open spec fn spec_lea_target_at(image: PeImageView, rva: u32, delta: u32) -> Result<u32, LayoutError> {
    match spec_rva_add(rva, delta) {
        Err(e) => Err(e),
        Ok(at) => spec_lea_target_rva(image, at),
    }
}

/// The instruction bytes of the static metadata initializer: five `lea rax, [rip+disp]` /
/// `mov [rip+disp], rax` pairs every 14 bytes, then a `mov dword [rip+disp], imm` at 70.
pub open spec fn spec_static_metadata_initializer_pattern() -> Seq<Option<u8>> {
    Seq::new(
        80,
        |i: int|
            if i < 70 {
                let k = i % 14;
                if k == 0 || k == 7 {
                    Some(0x48u8)
                } else if k == 1 {
                    Some(0x8Du8)
                } else if k == 8 {
                    Some(0x89u8)
                } else if k == 2 || k == 9 {
                    Some(0x05u8)
                } else {
                    None
                }
            } else if i == 70 {
                Some(0xC7u8)
            } else if i == 71 {
                Some(0x05u8)
            } else {
                None
            },
    )
}

/// The descriptor count decoded at `descriptor_rva`, or 0 when it cannot be read.
pub open spec fn spec_candidate_descriptor_count(image: PeImageView, descriptor_rva: u32) -> u32 {
    match spec_read_u32_at_rva(image, descriptor_rva, 0x80) {
        Ok(value) => value.wrapping_add(0xE4B3_5170),
        Err(_) => 0,
    }
}

/// The method span decoded from the embedded header at `header_rva`, or 0 when it cannot be read.
pub open spec fn spec_candidate_method_span(image: PeImageView, header_rva: u32) -> u32 {
    match spec_read_u32_at_rva(image, header_rva, 0x1F8) {
        Ok(value) => value ^ 0x1608_C2C8,
        Err(_) => 0,
    }
}

/// The first initializer among `candidates[i..]` whose globals look plausible
/// (more than 100000 descriptors and a method span above 1000000).
pub open spec fn spec_globals_from(image: PeImageView, candidates: Seq<u32>, i: int) -> Result<
    StaticMetadataGlobals,
    LayoutError,
>
    decreases candidates.len() - i,
{
    if i < 0 || i >= candidates.len() {
        Err(LayoutError::StaticGlobalsNotFound)
    } else {
        let rva = candidates[i];
        match spec_lea_target_rva(image, rva) {
            Err(e) => Err(e),
            Ok(metadata_registration_rva) => match spec_lea_target_at(image, rva, 14) {
                Err(e) => Err(e),
                Ok(descriptor_rva) => match spec_lea_target_at(image, rva, 56) {
                    Err(e) => Err(e),
                    Ok(embedded_header_rva) => if spec_candidate_descriptor_count(image, descriptor_rva)
                        > 100_000 && spec_candidate_method_span(image, embedded_header_rva) > 1_000_000 {
                        Ok(
                            StaticMetadataGlobals {
                                initializer_rva: rva,
                                metadata_registration_rva,
                                descriptor_rva,
                                embedded_header_rva,
                            },
                        )
                    } else {
                        spec_globals_from(image, candidates, i + 1)
                    },
                },
            },
        }
    }
}

pub open spec fn spec_discover_static_metadata_globals(image: PeImageView) -> Result<
    StaticMetadataGlobals,
    LayoutError,
> {
    spec_globals_from(image, spec_scan_pattern(image, spec_static_metadata_initializer_pattern()), 0)
}


/// The still-encoded header words that the static layout is decoded from.
#[derive(Clone, Copy, Debug, PartialEq, Eq, Structural)]
pub struct RawLayoutWords {
    pub descriptor_count_80: u32,
    pub header_size_1a8: u32,
    pub header_size_1f8: u32,
    pub header_size_74: u32,
    pub header_count_134_div40: u32,
    pub header_count_178: u32,
    pub header_count_bc: u32,
    pub startup_section_164_offset: u32,
    pub startup_image_table_offset: u32,
    pub startup_assembly_table_offset: u32,
    pub startup_assembly_name_table_offset: u32,
    pub global_type_table_offset: u32,
    pub global_field_table_offset: u32,
    pub global_type_field_offset_map_offset: u32,
    pub global_field_offset_group_table_offset: u32,
    pub global_field_offset_table_offset: u32,
    pub global_method_table_offset: u32,
    pub global_parameter_table_offset: u32,
    pub global_nested_type_table_offset: u32,
    pub global_interface_type_table_offset: u32,
    pub global_generic_container_table_offset: u32,
    pub global_generic_parameter_table_offset: u32,
    pub global_string_data_offset: u32,
}

/// The header words that the layout is decoded from, read in declaration order.
pub open spec fn spec_raw_layout_words(image: PeImageView, globals: StaticMetadataGlobals) -> Result<RawLayoutWords, LayoutError> {
    match spec_read_u32_at_rva(image, globals.descriptor_rva, 0x80) {
        Err(e) => Err(e),
        Ok(descriptor_count_80) =>
        match spec_read_u32_at_rva(image, globals.embedded_header_rva, 0x1A8) {
            Err(e) => Err(e),
            Ok(header_size_1a8) =>
            match spec_read_u32_at_rva(image, globals.embedded_header_rva, 0x1F8) {
                Err(e) => Err(e),
                Ok(header_size_1f8) =>
                match spec_read_u32_at_rva(image, globals.embedded_header_rva, 0x74) {
                    Err(e) => Err(e),
                    Ok(header_size_74) =>
                    match spec_read_u32_at_rva(image, globals.embedded_header_rva, 0x134) {
                        Err(e) => Err(e),
                        Ok(header_count_134_div40) =>
                        match spec_read_u32_at_rva(image, globals.embedded_header_rva, 0x178) {
                            Err(e) => Err(e),
                            Ok(header_count_178) =>
                            match spec_read_u32_at_rva(image, globals.embedded_header_rva, 0xBC) {
                                Err(e) => Err(e),
                                Ok(header_count_bc) =>
                                match spec_read_u32_at_rva(image, globals.embedded_header_rva, 0x164) {
                                    Err(e) => Err(e),
                                    Ok(startup_section_164_offset) =>
                                    match spec_read_u32_at_rva(image, globals.embedded_header_rva, 0x150) {
                                        Err(e) => Err(e),
                                        Ok(startup_image_table_offset) =>
                                        match spec_read_u32_at_rva(image, globals.embedded_header_rva, 0x158) {
                                            Err(e) => Err(e),
                                            Ok(startup_assembly_table_offset) =>
                                            match spec_read_u32_at_rva(image, globals.embedded_header_rva, 0xD0) {
                                                Err(e) => Err(e),
                                                Ok(startup_assembly_name_table_offset) =>
                                                match spec_read_u32_at_rva(image, globals.embedded_header_rva, 0x84) {
                                                    Err(e) => Err(e),
                                                    Ok(global_type_table_offset) =>
                                                    match spec_read_u32_at_rva(image, globals.embedded_header_rva, 0x20) {
                                                        Err(e) => Err(e),
                                                        Ok(global_field_table_offset) =>
                                                        match spec_read_u32_at_rva(image, globals.embedded_header_rva, 0x180) {
                                                            Err(e) => Err(e),
                                                            Ok(global_type_field_offset_map_offset) =>
                                                            match spec_read_u32_at_rva(image, globals.embedded_header_rva, 0x9C) {
                                                                Err(e) => Err(e),
                                                                Ok(global_field_offset_group_table_offset) =>
                                                                match spec_read_u32_at_rva(image, globals.embedded_header_rva, 0x148) {
                                                                    Err(e) => Err(e),
                                                                    Ok(global_field_offset_table_offset) =>
                                                                    match spec_read_u32_at_rva(image, globals.embedded_header_rva, 0x14C) {
                                                                        Err(e) => Err(e),
                                                                        Ok(global_method_table_offset) =>
                                                                        match spec_read_u32_at_rva(image, globals.embedded_header_rva, 0x30) {
                                                                            Err(e) => Err(e),
                                                                            Ok(global_parameter_table_offset) =>
                                                                            match spec_read_u32_at_rva(image, globals.embedded_header_rva, 0x12C) {
                                                                                Err(e) => Err(e),
                                                                                Ok(global_nested_type_table_offset) =>
                                                                                match spec_read_u32_at_rva(image, globals.embedded_header_rva, 0x1C8) {
                                                                                    Err(e) => Err(e),
                                                                                    Ok(global_interface_type_table_offset) =>
                                                                                    match spec_read_u32_at_rva(image, globals.embedded_header_rva, 0xF0) {
                                                                                        Err(e) => Err(e),
                                                                                        Ok(global_generic_container_table_offset) =>
                                                                                        match spec_read_u32_at_rva(image, globals.embedded_header_rva, 0x140) {
                                                                                            Err(e) => Err(e),
                                                                                            Ok(global_generic_parameter_table_offset) =>
                                                                                            match spec_read_u32_at_rva(image, globals.embedded_header_rva, 0x1B4) {
                                                                                                Err(e) => Err(e),
                                                                                                Ok(global_string_data_offset) => Ok(RawLayoutWords {
                                                                                                    descriptor_count_80,
                                                                                                    header_size_1a8,
                                                                                                    header_size_1f8,
                                                                                                    header_size_74,
                                                                                                    header_count_134_div40,
                                                                                                    header_count_178,
                                                                                                    header_count_bc,
                                                                                                    startup_section_164_offset,
                                                                                                    startup_image_table_offset,
                                                                                                    startup_assembly_table_offset,
                                                                                                    startup_assembly_name_table_offset,
                                                                                                    global_type_table_offset,
                                                                                                    global_field_table_offset,
                                                                                                    global_type_field_offset_map_offset,
                                                                                                    global_field_offset_group_table_offset,
                                                                                                    global_field_offset_table_offset,
                                                                                                    global_method_table_offset,
                                                                                                    global_parameter_table_offset,
                                                                                                    global_nested_type_table_offset,
                                                                                                    global_interface_type_table_offset,
                                                                                                    global_generic_container_table_offset,
                                                                                                    global_generic_parameter_table_offset,
                                                                                                    global_string_data_offset,
                                                                                                }),
                                                                                            },
                                                                                        },
                                                                                    },
                                                                                },
                                                                            },
                                                                        },
                                                                    },
                                                                },
                                                            },
                                                        },
                                                    },
                                                },
                                            },
                                        },
                                    },
                                },
                            },
                        },
                    },
                },
            },
        },
    }
}

/// The layout that the header words and the discovered globals and payload offset describe.
pub open spec fn spec_decode_layout(globals: StaticMetadataGlobals, payload_offset: u32, raw: RawLayoutWords) -> StaticLayout {
    StaticLayout {
        static_initializer_rva: globals.initializer_rva,
        metadata_registration_rva: globals.metadata_registration_rva,
        descriptor_rva: globals.descriptor_rva,
        embedded_header_rva: globals.embedded_header_rva,
        payload_offset,
        descriptor_count_80: raw.descriptor_count_80.wrapping_add(0xE4B3_5170),
        header_size_1a8: raw.header_size_1a8 ^ 0x729B_1A9E,
        header_size_1f8: raw.header_size_1f8 ^ 0x1608_C2C8,
        header_size_74: raw.header_size_74 ^ 0x080E_F250,
        header_count_134_div40: (raw.header_count_134_div40 ^ 0x1021_0728) / 40,
        header_count_178: spec_sar_u32(raw.header_count_178, 4) ^ 0x05CC_1AE1,
        header_count_bc: spec_sar_u32(raw.header_count_bc, 3) ^ 0x079F_C2EC,
        startup_section_164_offset: raw.startup_section_164_offset ^ 0x7F5C_5934,
        startup_image_table_offset: raw.startup_image_table_offset.wrapping_add(0xD882_615E),
        startup_assembly_table_offset: raw.startup_assembly_table_offset.wrapping_add(0xE03E_EAC1),
        startup_assembly_name_table_offset: raw.startup_assembly_name_table_offset.wrapping_add(0xDFCF_C6B0),
        global_type_table_offset: raw.global_type_table_offset ^ 0x6853_1D3F,
        global_field_table_offset: raw.global_field_table_offset.wrapping_add(0xB2FC_E189),
        global_type_field_offset_map_offset: raw.global_type_field_offset_map_offset.wrapping_add(0xE4DB_E763),
        global_field_offset_group_table_offset: raw.global_field_offset_group_table_offset.wrapping_add(0xBC7E_C9D7),
        global_field_offset_table_offset: raw.global_field_offset_table_offset ^ 0x329E_1172,
        global_method_table_offset: raw.global_method_table_offset.wrapping_add(0xF3A0_4294),
        global_parameter_table_offset: raw.global_parameter_table_offset.wrapping_add(0xDCF5_FDBE),
        global_nested_type_table_offset: raw.global_nested_type_table_offset ^ 0x26F0_FC20,
        global_interface_type_table_offset: raw.global_interface_type_table_offset ^ 0x042F_9275,
        global_generic_container_table_offset: raw.global_generic_container_table_offset.wrapping_add(0x9D48_920F),
        global_generic_parameter_table_offset: raw.global_generic_parameter_table_offset.wrapping_add(0xDAAC_7309),
        global_string_data_offset: raw.global_string_data_offset.wrapping_add(0x8D43_A4EE),
    }
}

fn read_u32_at_rva(image: &PeImage, base: u32, delta: u32) -> (r: Result<u32, LayoutError>)
    ensures
        r == spec_read_u32_at_rva(image@, base, delta),
{
    match base.checked_add(delta) {
        None => Err(LayoutError::ArithmeticOverflow),
        Some(rva) => image.read_u32_rva(rva),
    }
}

/// The RVA loaded by the RIP-relative LEA instruction at `instruction_rva`.
pub fn lea_target_rva(image: &PeImage, instruction_rva: u32) -> (r: Result<u32, LayoutError>)
    ensures
        r == spec_lea_target_rva(image@, instruction_rva),
{
    let bytes = image.read_bytes_rva(instruction_rva, 3)?;
    if bytes[0] != 0x48 || bytes[1] != 0x8D || bytes[2] & 0xC7 != 0x05 {
        return Err(LayoutError::NotRipRelativeLea);
    }
    let operand = match instruction_rva.checked_add(3) {
        Some(v) => v,
        None => {
            return Err(LayoutError::ArithmeticOverflow);
        },
    };
    let displacement = image.read_i32_rva(operand)?;
    let target = instruction_rva as i64 + 7 + displacement as i64;
    if target < 0 || target > u32::MAX as i64 {
        return Err(LayoutError::TargetOutOfRange);
    }
    Ok(target as u32)
}

fn lea_target_at(image: &PeImage, rva: u32, delta: u32) -> (r: Result<u32, LayoutError>)
    ensures
        r == spec_lea_target_at(image@, rva, delta),
{
    match rva.checked_add(delta) {
        None => Err(LayoutError::ArithmeticOverflow),
        Some(at) => lea_target_rva(image, at),
    }
}

/// The byte pattern of the static metadata initializer (`None` matches any byte).
pub fn static_metadata_initializer_pattern() -> (r: Vec<Option<u8>>)
    ensures
        r@ == spec_static_metadata_initializer_pattern(),
{
    let mut pattern: Vec<Option<u8>> = Vec::new();
    let mut i: usize = 0;
    while i < 80
        invariant
            i <= 80,
            pattern@.len() == i,
            forall|j: int| 0 <= j < i ==> pattern@[j] == spec_static_metadata_initializer_pattern()[j],
        decreases 80 - i,
    {
        let value = if i < 70 {
            let k = i % 14;
            if k == 0 || k == 7 {
                Some(0x48u8)
            } else if k == 1 {
                Some(0x8Du8)
            } else if k == 8 {
                Some(0x89u8)
            } else if k == 2 || k == 9 {
                Some(0x05u8)
            } else {
                None
            }
        } else if i == 70 {
            Some(0xC7u8)
        } else if i == 71 {
            Some(0x05u8)
        } else {
            None
        };
        pattern.push(value);
        i += 1;
    }
    assert(pattern@ =~= spec_static_metadata_initializer_pattern());
    pattern
}

fn candidate_descriptor_count(image: &PeImage, descriptor_rva: u32) -> (r: u32)
    ensures
        r == spec_candidate_descriptor_count(image@, descriptor_rva),
{
    match read_u32_at_rva(image, descriptor_rva, 0x80) {
        Ok(value) => value.wrapping_add(0xE4B3_5170),
        Err(_) => 0,
    }
}

fn candidate_method_span(image: &PeImage, header_rva: u32) -> (r: u32)
    ensures
        r == spec_candidate_method_span(image@, header_rva),
{
    match read_u32_at_rva(image, header_rva, 0x1F8) {
        Ok(value) => value ^ 0x1608_C2C8,
        Err(_) => 0,
    }
}

/// Finds the static metadata initializer whose globals look plausible.
pub fn discover_static_metadata_globals(image: &PeImage) -> (r: Result<StaticMetadataGlobals, LayoutError>)
    ensures
        r == spec_discover_static_metadata_globals(image@),
{
    let candidates = image.scan_pattern(static_metadata_initializer_pattern().as_slice());
    let mut i: usize = 0;
    while i < candidates.len()
        invariant
            i <= candidates@.len(),
            candidates@ == spec_scan_pattern(image@, spec_static_metadata_initializer_pattern()),
            spec_discover_static_metadata_globals(image@) == spec_globals_from(image@, candidates@, i as int),
        decreases candidates@.len() - i,
    {
        let initializer_rva = candidates[i];
        let metadata_registration_rva = lea_target_rva(image, initializer_rva)?;
        let descriptor_rva = lea_target_at(image, initializer_rva, 14)?;
        let embedded_header_rva = lea_target_at(image, initializer_rva, 56)?;
        if candidate_descriptor_count(image, descriptor_rva) > 100_000 && candidate_method_span(
            image,
            embedded_header_rva,
        ) > 1_000_000 {
            return Ok(
                StaticMetadataGlobals {
                    initializer_rva,
                    metadata_registration_rva,
                    descriptor_rva,
                    embedded_header_rva,
                },
            );
        }
        i += 1;
    }
    Err(LayoutError::StaticGlobalsNotFound)
}

fn read_raw_layout_words(image: &PeImage, globals: &StaticMetadataGlobals) -> (r: Result<RawLayoutWords, LayoutError>)
    ensures
        r == spec_raw_layout_words(image@, *globals),
{
    let descriptor_count_80 = read_u32_at_rva(image, globals.descriptor_rva, 0x80)?;
    let header_size_1a8 = read_u32_at_rva(image, globals.embedded_header_rva, 0x1A8)?;
    let header_size_1f8 = read_u32_at_rva(image, globals.embedded_header_rva, 0x1F8)?;
    let header_size_74 = read_u32_at_rva(image, globals.embedded_header_rva, 0x74)?;
    let header_count_134_div40 = read_u32_at_rva(image, globals.embedded_header_rva, 0x134)?;
    let header_count_178 = read_u32_at_rva(image, globals.embedded_header_rva, 0x178)?;
    let header_count_bc = read_u32_at_rva(image, globals.embedded_header_rva, 0xBC)?;
    let startup_section_164_offset = read_u32_at_rva(image, globals.embedded_header_rva, 0x164)?;
    let startup_image_table_offset = read_u32_at_rva(image, globals.embedded_header_rva, 0x150)?;
    let startup_assembly_table_offset = read_u32_at_rva(image, globals.embedded_header_rva, 0x158)?;
    let startup_assembly_name_table_offset = read_u32_at_rva(image, globals.embedded_header_rva, 0xD0)?;
    let global_type_table_offset = read_u32_at_rva(image, globals.embedded_header_rva, 0x84)?;
    let global_field_table_offset = read_u32_at_rva(image, globals.embedded_header_rva, 0x20)?;
    let global_type_field_offset_map_offset = read_u32_at_rva(image, globals.embedded_header_rva, 0x180)?;
    let global_field_offset_group_table_offset = read_u32_at_rva(image, globals.embedded_header_rva, 0x9C)?;
    let global_field_offset_table_offset = read_u32_at_rva(image, globals.embedded_header_rva, 0x148)?;
    let global_method_table_offset = read_u32_at_rva(image, globals.embedded_header_rva, 0x14C)?;
    let global_parameter_table_offset = read_u32_at_rva(image, globals.embedded_header_rva, 0x30)?;
    let global_nested_type_table_offset = read_u32_at_rva(image, globals.embedded_header_rva, 0x12C)?;
    let global_interface_type_table_offset = read_u32_at_rva(image, globals.embedded_header_rva, 0x1C8)?;
    let global_generic_container_table_offset = read_u32_at_rva(image, globals.embedded_header_rva, 0xF0)?;
    let global_generic_parameter_table_offset = read_u32_at_rva(image, globals.embedded_header_rva, 0x140)?;
    let global_string_data_offset = read_u32_at_rva(image, globals.embedded_header_rva, 0x1B4)?;
    Ok(RawLayoutWords {
        descriptor_count_80,
        header_size_1a8,
        header_size_1f8,
        header_size_74,
        header_count_134_div40,
        header_count_178,
        header_count_bc,
        startup_section_164_offset,
        startup_image_table_offset,
        startup_assembly_table_offset,
        startup_assembly_name_table_offset,
        global_type_table_offset,
        global_field_table_offset,
        global_type_field_offset_map_offset,
        global_field_offset_group_table_offset,
        global_field_offset_table_offset,
        global_method_table_offset,
        global_parameter_table_offset,
        global_nested_type_table_offset,
        global_interface_type_table_offset,
        global_generic_container_table_offset,
        global_generic_parameter_table_offset,
        global_string_data_offset,
    })
}

fn decode_layout(globals: &StaticMetadataGlobals, payload_offset: u32, raw: &RawLayoutWords) -> (r: StaticLayout)
    ensures
        r == spec_decode_layout(*globals, payload_offset, *raw),
{
    StaticLayout {
        static_initializer_rva: globals.initializer_rva,
        metadata_registration_rva: globals.metadata_registration_rva,
        descriptor_rva: globals.descriptor_rva,
        embedded_header_rva: globals.embedded_header_rva,
        payload_offset,
        descriptor_count_80: raw.descriptor_count_80.wrapping_add(0xE4B3_5170),
        header_size_1a8: raw.header_size_1a8 ^ 0x729B_1A9E,
        header_size_1f8: raw.header_size_1f8 ^ 0x1608_C2C8,
        header_size_74: raw.header_size_74 ^ 0x080E_F250,
        header_count_134_div40: (raw.header_count_134_div40 ^ 0x1021_0728) / 40,
        header_count_178: sar_u32(raw.header_count_178, 4) ^ 0x05CC_1AE1,
        header_count_bc: sar_u32(raw.header_count_bc, 3) ^ 0x079F_C2EC,
        startup_section_164_offset: raw.startup_section_164_offset ^ 0x7F5C_5934,
        startup_image_table_offset: raw.startup_image_table_offset.wrapping_add(0xD882_615E),
        startup_assembly_table_offset: raw.startup_assembly_table_offset.wrapping_add(0xE03E_EAC1),
        startup_assembly_name_table_offset: raw.startup_assembly_name_table_offset.wrapping_add(0xDFCF_C6B0),
        global_type_table_offset: raw.global_type_table_offset ^ 0x6853_1D3F,
        global_field_table_offset: raw.global_field_table_offset.wrapping_add(0xB2FC_E189),
        global_type_field_offset_map_offset: raw.global_type_field_offset_map_offset.wrapping_add(0xE4DB_E763),
        global_field_offset_group_table_offset: raw.global_field_offset_group_table_offset.wrapping_add(0xBC7E_C9D7),
        global_field_offset_table_offset: raw.global_field_offset_table_offset ^ 0x329E_1172,
        global_method_table_offset: raw.global_method_table_offset.wrapping_add(0xF3A0_4294),
        global_parameter_table_offset: raw.global_parameter_table_offset.wrapping_add(0xDCF5_FDBE),
        global_nested_type_table_offset: raw.global_nested_type_table_offset ^ 0x26F0_FC20,
        global_interface_type_table_offset: raw.global_interface_type_table_offset ^ 0x042F_9275,
        global_generic_container_table_offset: raw.global_generic_container_table_offset.wrapping_add(0x9D48_920F),
        global_generic_parameter_table_offset: raw.global_generic_parameter_table_offset.wrapping_add(0xDAAC_7309),
        global_string_data_offset: raw.global_string_data_offset.wrapping_add(0x8D43_A4EE),
    }
}


} // verus!

verus! {

/// The bytes of the file name `global-metadata.dat` (ASCII).
pub open spec fn spec_global_metadata_name() -> Seq<u8> {
    seq![0x67u8, 0x6Cu8, 0x6Fu8, 0x62u8, 0x61u8, 0x6Cu8, 0x2Du8, 0x6Du8, 0x65u8, 0x74u8, 0x61u8, 0x64u8, 0x61u8, 0x74u8, 0x61u8, 0x2Eu8, 0x64u8, 0x61u8, 0x74u8]
}

/// The bytes of the file name `startup-metadata.dat` (ASCII).
pub open spec fn spec_startup_metadata_name() -> Seq<u8> {
    seq![0x73u8, 0x74u8, 0x61u8, 0x72u8, 0x74u8, 0x75u8, 0x70u8, 0x2Du8, 0x6Du8, 0x65u8, 0x74u8, 0x61u8, 0x64u8, 0x61u8, 0x74u8, 0x61u8, 0x2Eu8, 0x64u8, 0x61u8, 0x74u8]
}

fn global_metadata_name() -> (r: Vec<u8>)
    ensures
        r@ == spec_global_metadata_name(),
{
    vec![0x67u8, 0x6Cu8, 0x6Fu8, 0x62u8, 0x61u8, 0x6Cu8, 0x2Du8, 0x6Du8, 0x65u8, 0x74u8, 0x61u8, 0x64u8, 0x61u8, 0x74u8, 0x61u8, 0x2Eu8, 0x64u8, 0x61u8, 0x74u8]
}

fn startup_metadata_name() -> (r: Vec<u8>)
    ensures
        r@ == spec_startup_metadata_name(),
{
    vec![0x73u8, 0x74u8, 0x61u8, 0x72u8, 0x74u8, 0x75u8, 0x70u8, 0x2Du8, 0x6Du8, 0x65u8, 0x74u8, 0x61u8, 0x64u8, 0x61u8, 0x74u8, 0x61u8, 0x2Eu8, 0x64u8, 0x61u8, 0x74u8]
}

/// The instruction bytes of the metadata payload initializer: it loads the two metadata
/// file names, opens them, and records the payload offset (the immediate at +46).
pub open spec fn spec_metadata_payload_initializer_pattern() -> Seq<Option<u8>> {
    seq![
        Some(0x48u8), Some(0x8Du8), Some(0x0Du8), None, None, None,
        None, Some(0xE8u8), None, None, None, None,
        Some(0x48u8), Some(0x89u8), Some(0xC6u8), Some(0x48u8), Some(0x8Du8), Some(0x0Du8),
        None, None, None, None, Some(0xE8u8), None,
        None, None, None, Some(0x48u8), Some(0x8Bu8), Some(0x0Du8),
        None, None, None, None, Some(0x8Bu8), Some(0x49u8),
        Some(0x04u8), Some(0x89u8), Some(0x0Du8), None, None, None,
        None, Some(0x48u8), Some(0x81u8), Some(0xC6u8), None, None,
        None, None, Some(0x48u8), Some(0x89u8), Some(0x35u8), None,
        None, None, None, Some(0x48u8), Some(0x89u8), Some(0x05u8),
        None, None, None, None,
    ]
}

/// The byte pattern of the metadata payload initializer.
pub fn metadata_payload_initializer_pattern() -> (r: Vec<Option<u8>>)
    ensures
        r@ == spec_metadata_payload_initializer_pattern(),
{
    vec![
        Some(0x48u8), Some(0x8Du8), Some(0x0Du8), None, None, None,
        None, Some(0xE8u8), None, None, None, None,
        Some(0x48u8), Some(0x89u8), Some(0xC6u8), Some(0x48u8), Some(0x8Du8), Some(0x0Du8),
        None, None, None, None, Some(0xE8u8), None,
        None, None, None, Some(0x48u8), Some(0x8Bu8), Some(0x0Du8),
        None, None, None, None, Some(0x8Bu8), Some(0x49u8),
        Some(0x04u8), Some(0x89u8), Some(0x0Du8), None, None, None,
        None, Some(0x48u8), Some(0x81u8), Some(0xC6u8), None, None,
        None, None, Some(0x48u8), Some(0x89u8), Some(0x35u8), None,
        None, None, None, Some(0x48u8), Some(0x89u8), Some(0x05u8),
        None, None, None, None,
    ]
}

/// The bytes at `rva` are `expected` followed by a terminating zero.
pub open spec fn spec_rva_has_c_string(image: PeImageView, rva: u32, expected: Seq<u8>) -> bool {
    match spec_read_bytes_rva(image, rva, expected.len() + 1int) {
        Ok(bytes) => bytes.take(expected.len() as int) == expected && bytes[expected.len() as int] == 0,
        Err(_) => false,
    }
}

/// Whether the bytes at `rva` hold the zero-terminated string `expected`.
pub fn rva_has_c_string(image: &PeImage, rva: u32, expected: &[u8]) -> (r: bool)
    requires
        expected@.len() < usize::MAX,
    ensures
        r == spec_rva_has_c_string(image@, rva, expected@),
{
    let size = expected.len() + 1;
    match image.read_bytes_rva(rva, size) {
        Err(_) => false,
        Ok(bytes) => {
            assert(size as int == expected@.len() + 1int);
            assert(spec_read_bytes_rva(image@, rva, expected@.len() + 1int) == Ok::<Seq<u8>, LayoutError>(bytes@));
            let mut i: usize = 0;
            while i < expected.len()
                invariant
                    i <= expected@.len(),
                    bytes@.len() == expected@.len() + 1,
                    spec_read_bytes_rva(image@, rva, expected@.len() + 1int) == Ok::<Seq<u8>, LayoutError>(bytes@),
                    forall|j: int| 0 <= j < i ==> bytes@[j] == expected@[j],
                decreases expected@.len() - i,
            {
                if bytes[i] != expected[i] {
                    assert(bytes@.take(expected@.len() as int)[i as int] != expected@[i as int]);
                    assert(bytes@.take(expected@.len() as int) != expected@);
                    return false;
                }
                i += 1;
            }
            assert(bytes@.take(expected@.len() as int) =~= expected@);
            bytes[expected.len()] == 0
        },
    }
}

/// The payload offset named by the first initializer among `candidates[i..]` that loads
/// both metadata file names and records a non-zero offset.
pub open spec fn spec_payload_offset_from(image: PeImageView, candidates: Seq<u32>, i: int) -> Result<u32, LayoutError>
    decreases candidates.len() - i,
{
    if i < 0 || i >= candidates.len() {
        Err(LayoutError::PayloadOffsetNotFound)
    } else {
        let rva = candidates[i];
        match spec_lea_target_rva(image, rva) {
            Err(e) => Err(e),
            Ok(global_name_rva) => match spec_lea_target_at(image, rva, 15) {
                Err(e) => Err(e),
                Ok(startup_name_rva) => if !spec_rva_has_c_string(image, global_name_rva, spec_global_metadata_name())
                    || !spec_rva_has_c_string(image, startup_name_rva, spec_startup_metadata_name()) {
                    spec_payload_offset_from(image, candidates, i + 1)
                } else {
                    match spec_read_u32_at_rva(image, rva, 46) {
                        Err(e) => Err(e),
                        Ok(payload_offset) => if payload_offset != 0 {
                            Ok(payload_offset)
                        } else {
                            spec_payload_offset_from(image, candidates, i + 1)
                        },
                    }
                },
            },
        }
    }
}

pub open spec fn spec_discover_external_payload_offset(image: PeImageView) -> Result<u32, LayoutError> {
    spec_payload_offset_from(image, spec_scan_pattern(image, spec_metadata_payload_initializer_pattern()), 0)
}

/// Finds the offset of the metadata payload inside the external metadata files.
pub fn discover_external_payload_offset(image: &PeImage) -> (r: Result<u32, LayoutError>)
    ensures
        r == spec_discover_external_payload_offset(image@),
{
    let candidates = image.scan_pattern(metadata_payload_initializer_pattern().as_slice());
    let global_name = global_metadata_name();
    let startup_name = startup_metadata_name();
    let mut i: usize = 0;
    while i < candidates.len()
        invariant
            i <= candidates@.len(),
            candidates@ == spec_scan_pattern(image@, spec_metadata_payload_initializer_pattern()),
            global_name@ == spec_global_metadata_name(),
            startup_name@ == spec_startup_metadata_name(),
            spec_discover_external_payload_offset(image@) == spec_payload_offset_from(image@, candidates@, i as int),
        decreases candidates@.len() - i,
    {
        let initializer_rva = candidates[i];
        let global_name_rva = lea_target_rva(image, initializer_rva)?;
        let startup_name_rva = lea_target_at(image, initializer_rva, 15)?;
        if rva_has_c_string(image, global_name_rva, global_name.as_slice()) && rva_has_c_string(
            image,
            startup_name_rva,
            startup_name.as_slice(),
        ) {
            let payload_offset = read_u32_at_rva(image, initializer_rva, 46)?;
            if payload_offset != 0 {
                return Ok(payload_offset);
            }
        }
        i += 1;
    }
    Err(LayoutError::PayloadOffsetNotFound)
}

/// The static layout that the game assembly describes.
pub open spec fn spec_inspect_game_assembly(image: PeImageView) -> Result<StaticLayout, LayoutError> {
    match spec_discover_static_metadata_globals(image) {
        Err(e) => Err(e),
        Ok(globals) => match spec_discover_external_payload_offset(image) {
            Err(e) => Err(e),
            Ok(payload_offset) => match spec_raw_layout_words(image, globals) {
                Err(e) => Err(e),
                Ok(raw) => Ok(spec_decode_layout(globals, payload_offset, raw)),
            },
        },
    }
}

/// Discovers the metadata globals and the payload offset, then decodes the embedded header.
pub fn inspect_game_assembly(image: &PeImage) -> (r: Result<StaticLayout, LayoutError>)
    ensures
        r == spec_inspect_game_assembly(image@),
{
    let globals = discover_static_metadata_globals(image)?;
    let payload_offset = discover_external_payload_offset(image)?;
    let raw = read_raw_layout_words(image, &globals)?;
    Ok(decode_layout(&globals, payload_offset, &raw))
}


/// The report of a static layout: a heading, then one line per decoded value, RVAs and
/// offsets in upper-case hexadecimal, counts and sizes in decimal.
pub open spec fn spec_layout_report(layout: StaticLayout) -> Seq<Seq<char>> {
    seq![
        "Static layout:"@,
        "  static initializer RVA: 0x"@ + hexadecimal(layout.static_initializer_rva as nat, true),
        "  metadata registration RVA: 0x"@ + hexadecimal(layout.metadata_registration_rva as nat, true),
        "  descriptor RVA: 0x"@ + hexadecimal(layout.descriptor_rva as nat, true),
        "  embedded header RVA: 0x"@ + hexadecimal(layout.embedded_header_rva as nat, true),
        "  external payload offset: 0x"@ + hexadecimal(layout.payload_offset as nat, true),
        "  decoded descriptor[0x80] count: "@ + decimal(layout.descriptor_count_80 as nat),
        "  decoded header[0x1A8] size: "@ + decimal(layout.header_size_1a8 as nat),
        "  decoded header[0x1F8] size: "@ + decimal(layout.header_size_1f8 as nat),
        "  decoded header[0x74] size: "@ + decimal(layout.header_size_74 as nat),
        "  decoded header[0x134] / 40 count: "@ + decimal(layout.header_count_134_div40 as nat),
        "  decoded header[0x178] count: "@ + decimal(layout.header_count_178 as nat),
        "  decoded header[0xBC] count: "@ + decimal(layout.header_count_bc as nat),
        "  decoded startup section[0x164] offset: 0x"@ + hexadecimal(layout.startup_section_164_offset as nat, true),
        "  decoded startup image table offset: 0x"@ + hexadecimal(layout.startup_image_table_offset as nat, true),
        "  decoded startup assembly table offset: 0x"@ + hexadecimal(layout.startup_assembly_table_offset as nat, true),
        "  decoded startup assembly name table offset: 0x"@ + hexadecimal(layout.startup_assembly_name_table_offset as nat, true),
        "  decoded global type table offset: 0x"@ + hexadecimal(layout.global_type_table_offset as nat, true),
        "  decoded global field table offset: 0x"@ + hexadecimal(layout.global_field_table_offset as nat, true),
        "  decoded global type field-offset map offset: 0x"@ + hexadecimal(layout.global_type_field_offset_map_offset as nat, true),
        "  decoded global field-offset group table offset: 0x"@ + hexadecimal(layout.global_field_offset_group_table_offset as nat, true),
        "  decoded global field-offset table offset: 0x"@ + hexadecimal(layout.global_field_offset_table_offset as nat, true),
        "  decoded global method table offset: 0x"@ + hexadecimal(layout.global_method_table_offset as nat, true),
        "  decoded global parameter table offset: 0x"@ + hexadecimal(layout.global_parameter_table_offset as nat, true),
        "  decoded global nested type table offset: 0x"@ + hexadecimal(layout.global_nested_type_table_offset as nat, true),
        "  decoded global interface type table offset: 0x"@ + hexadecimal(layout.global_interface_type_table_offset as nat, true),
        "  decoded global generic container table offset: 0x"@ + hexadecimal(layout.global_generic_container_table_offset as nat, true),
        "  decoded global generic parameter table offset: 0x"@ + hexadecimal(layout.global_generic_parameter_table_offset as nat, true),
        "  decoded global string data offset: 0x"@ + hexadecimal(layout.global_string_data_offset as nat, true),
    ]
}

/// A report line: `label`, then `value` in upper-case hexadecimal or in decimal.
pub open spec fn report_line(label: Seq<char>, value: u32, hex: bool) -> Seq<char> {
    if hex {
        label + hexadecimal(value as nat, true)
    } else {
        label + decimal(value as nat)
    }
}

fn push_report_line(lines: &mut Vec<String>, label: &str, value: u32, hex: bool)
    ensures
        final(lines).deep_view() == old(lines).deep_view().push(report_line(label@, value, hex)),
{
    let mut line = String::new();
    line.append(label);
    if hex {
        push_hex(&mut line, value as u64, true);
    } else {
        push_decimal(&mut line, value as u64);
    }
    let ghost before = lines.deep_view();
    lines.push(line);
    assert(lines.deep_view() =~= before.push(report_line(label@, value, hex)));
}

/// Renders the report of `layout`, one line per entry.
pub fn layout_report(layout: &StaticLayout) -> (r: Vec<String>)
    ensures
        r.deep_view() == spec_layout_report(*layout),
{
    let mut lines: Vec<String> = Vec::new();
    let mut heading = String::new();
    heading.append("Static layout:");
    lines.push(heading);
    push_report_line(&mut lines, "  static initializer RVA: 0x", layout.static_initializer_rva, true);
    push_report_line(&mut lines, "  metadata registration RVA: 0x", layout.metadata_registration_rva, true);
    push_report_line(&mut lines, "  descriptor RVA: 0x", layout.descriptor_rva, true);
    push_report_line(&mut lines, "  embedded header RVA: 0x", layout.embedded_header_rva, true);
    push_report_line(&mut lines, "  external payload offset: 0x", layout.payload_offset, true);
    push_report_line(&mut lines, "  decoded descriptor[0x80] count: ", layout.descriptor_count_80, false);
    push_report_line(&mut lines, "  decoded header[0x1A8] size: ", layout.header_size_1a8, false);
    push_report_line(&mut lines, "  decoded header[0x1F8] size: ", layout.header_size_1f8, false);
    push_report_line(&mut lines, "  decoded header[0x74] size: ", layout.header_size_74, false);
    push_report_line(&mut lines, "  decoded header[0x134] / 40 count: ", layout.header_count_134_div40, false);
    push_report_line(&mut lines, "  decoded header[0x178] count: ", layout.header_count_178, false);
    push_report_line(&mut lines, "  decoded header[0xBC] count: ", layout.header_count_bc, false);
    push_report_line(&mut lines, "  decoded startup section[0x164] offset: 0x", layout.startup_section_164_offset, true);
    push_report_line(&mut lines, "  decoded startup image table offset: 0x", layout.startup_image_table_offset, true);
    push_report_line(&mut lines, "  decoded startup assembly table offset: 0x", layout.startup_assembly_table_offset, true);
    push_report_line(&mut lines, "  decoded startup assembly name table offset: 0x", layout.startup_assembly_name_table_offset, true);
    push_report_line(&mut lines, "  decoded global type table offset: 0x", layout.global_type_table_offset, true);
    push_report_line(&mut lines, "  decoded global field table offset: 0x", layout.global_field_table_offset, true);
    push_report_line(&mut lines, "  decoded global type field-offset map offset: 0x", layout.global_type_field_offset_map_offset, true);
    push_report_line(&mut lines, "  decoded global field-offset group table offset: 0x", layout.global_field_offset_group_table_offset, true);
    push_report_line(&mut lines, "  decoded global field-offset table offset: 0x", layout.global_field_offset_table_offset, true);
    push_report_line(&mut lines, "  decoded global method table offset: 0x", layout.global_method_table_offset, true);
    push_report_line(&mut lines, "  decoded global parameter table offset: 0x", layout.global_parameter_table_offset, true);
    push_report_line(&mut lines, "  decoded global nested type table offset: 0x", layout.global_nested_type_table_offset, true);
    push_report_line(&mut lines, "  decoded global interface type table offset: 0x", layout.global_interface_type_table_offset, true);
    push_report_line(&mut lines, "  decoded global generic container table offset: 0x", layout.global_generic_container_table_offset, true);
    push_report_line(&mut lines, "  decoded global generic parameter table offset: 0x", layout.global_generic_parameter_table_offset, true);
    push_report_line(&mut lines, "  decoded global string data offset: 0x", layout.global_string_data_offset, true);
    assert(lines.deep_view() =~= spec_layout_report(*layout));
    lines
}


proof fn lemma_globals_from_thresholds(image: PeImageView, candidates: Seq<u32>, i: int)
    requires
        0 <= i,
    ensures
        spec_globals_from(image, candidates, i) matches Ok(globals) ==> {
            &&& candidates.contains(globals.initializer_rva)
            &&& spec_candidate_descriptor_count(image, globals.descriptor_rva) > 100_000
            &&& spec_candidate_method_span(image, globals.embedded_header_rva) > 1_000_000
        },
    decreases candidates.len() - i,
{
    if i < candidates.len() {
        lemma_globals_from_thresholds(image, candidates, i + 1);
        if let Ok(globals) = spec_globals_from(image, candidates, i) {
            if globals.initializer_rva == candidates[i] {
                assert(candidates.contains(candidates[i]));
            }
        }
    }
}

proof fn lemma_payload_offset_from_nonzero(image: PeImageView, candidates: Seq<u32>, i: int)
    ensures
        spec_payload_offset_from(image, candidates, i) matches Ok(offset) ==> offset != 0,
    decreases candidates.len() - i,
{
    if 0 <= i < candidates.len() {
        lemma_payload_offset_from_nonzero(image, candidates, i + 1);
    }
}

/// A discovered layout comes from an initializer that the initializer pattern scan found,
/// whose descriptor counts more than 100000 entries and whose header spans more than
/// 1000000 methods, and its payload offset is not 0.
pub proof fn lemma_inspect_thresholds(image: PeImageView)
    ensures
        spec_inspect_game_assembly(image) matches Ok(layout) ==> {
            &&& spec_scan_pattern(image, spec_static_metadata_initializer_pattern()).contains(
                layout.static_initializer_rva,
            )
            &&& spec_candidate_descriptor_count(image, layout.descriptor_rva) > 100_000
            &&& spec_candidate_method_span(image, layout.embedded_header_rva) > 1_000_000
            &&& layout.payload_offset != 0
        },
{
    lemma_globals_from_thresholds(image, spec_scan_pattern(image, spec_static_metadata_initializer_pattern()), 0);
    lemma_payload_offset_from_nonzero(image, spec_scan_pattern(image, spec_metadata_payload_initializer_pattern()), 0);
}
} // verus!
