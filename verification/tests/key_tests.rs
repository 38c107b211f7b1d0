use firefly_static_parser::errors::LayoutError;
use firefly_static_parser::static_layout::StaticLayout;
use firefly_static_parser::strings::{STRING_PAYLOAD_INCREMENT, STRING_PAYLOAD_SEED_ADD, STRING_PAYLOAD_SEED_MUL};
use firefly_static_parser::type_keys::{discover_type_layout_keys, TypeLayoutKeys};

const PAYLOAD: u32 = 0x10;
const TYPE_TABLE: u32 = 0x40;
const STRING_DATA: u32 = 0x2_0000;

fn layout(count: u32) -> StaticLayout {
    StaticLayout {
        static_initializer_rva: 0,
        metadata_registration_rva: 0,
        descriptor_rva: 0,
        embedded_header_rva: 0,
        payload_offset: PAYLOAD,
        descriptor_count_80: count,
        header_size_1a8: 0,
        header_size_1f8: 0,
        header_size_74: 0,
        header_count_134_div40: 0,
        header_count_178: 0,
        header_count_bc: 0,
        startup_section_164_offset: 0,
        startup_image_table_offset: 0,
        startup_assembly_table_offset: 0,
        startup_assembly_name_table_offset: 0,
        global_type_table_offset: TYPE_TABLE,
        global_field_table_offset: 0,
        global_type_field_offset_map_offset: 0,
        global_field_offset_group_table_offset: 0,
        global_field_offset_table_offset: 0,
        global_method_table_offset: 0,
        global_parameter_table_offset: 0,
        global_nested_type_table_offset: 0,
        global_interface_type_table_offset: 0,
        global_generic_container_table_offset: 0,
        global_generic_parameter_table_offset: 0,
        global_string_data_offset: STRING_DATA,
    }
}

/// Stores `text` encrypted at string offset `offset` and returns its string index.
fn put_string(global: &mut Vec<u8>, offset: u32, text: &str) -> u32 {
    let bytes = text.as_bytes();
    if bytes.is_empty() {
        return u32::MAX;
    }
    let blocks = (bytes.len() + 7) / 8;
    let mut padded = bytes.to_vec();
    padded.resize(blocks * 8, 0);
    let start = (PAYLOAD + STRING_DATA + offset) as usize;
    if global.len() < start + blocks * 8 {
        global.resize(start + blocks * 8, 0);
    }
    let mut key = STRING_PAYLOAD_SEED_ADD.wrapping_add(STRING_PAYLOAD_SEED_MUL.wrapping_mul(offset as u64));
    for block in 0..blocks {
        let mut word = [0u8; 8];
        word.copy_from_slice(&padded[block * 8..block * 8 + 8]);
        let encrypted = u64::from_le_bytes(word) ^ key;
        global[start + block * 8..start + block * 8 + 8].copy_from_slice(&encrypted.to_le_bytes());
        key = key.wrapping_add(STRING_PAYLOAD_INCREMENT);
    }
    ((bytes.len() as u32) << 25) | offset
}

/// A global metadata blob whose type table holds the given (namespace, name, base type
/// word) entries; type 0 has attribute word `0x1234 ^ 0x700`.
fn global_with_types(types: &[(&str, &str, u32)]) -> Vec<u8> {
    let mut global = vec![0u8; (PAYLOAD + STRING_DATA) as usize];
    let mut next_string = 0u32;
    for (index, (namespace, name, raw_base)) in types.iter().enumerate() {
        let namespace_index = put_string(&mut global, next_string, namespace);
        next_string += 0x20;
        let name_index = put_string(&mut global, next_string, name);
        next_string += 0x20;
        let entry = (PAYLOAD + TYPE_TABLE) as usize + index * 0x46;
        global[entry + 0x04..entry + 0x08].copy_from_slice(&raw_base.to_le_bytes());
        global[entry + 0x14..entry + 0x18].copy_from_slice(&(0x1234u32 ^ 0x700).to_le_bytes());
        global[entry + 0x24..entry + 0x28].copy_from_slice(&namespace_index.wrapping_sub(0xF1D3_2D89).to_le_bytes());
        global[entry + 0x28..entry + 0x2C].copy_from_slice(&name_index.wrapping_sub(0xE9FD_68F8).to_le_bytes());
    }
    global
}

fn next_table(count: u32) -> u32 {
    TYPE_TABLE + count * 0x46
}

#[test]
fn type_keys_from_well_known_names() {
    let types = [
        ("", "<Module>", 0x4100_0000),
        ("System", "Object", 0x4100_0000),
        ("System", "ValueType", 0x5000_0001),
        ("System", "Enum", 0x5000_0002),
        ("System", "AttributeTargets", 0x5000_0003),
    ];
    let global = global_with_types(&types);
    let keys = discover_type_layout_keys(&layout(5), &global, next_table(5)).unwrap();
    assert_eq!(
        keys,
        TypeLayoutKeys {
            type_attribute_key: 0x1234,
            type_parent_key: 0x5000_0000,
            type_base_none: 0x4100_0000,
            type_base_object: 0x5000_0001,
            type_base_value_type: 0x5000_0002,
            type_base_enum: 0x5000_0003,
        }
    );
}

#[test]
fn type_keys_fall_back_to_most_common_words() {
    let mut types: Vec<(&str, &str, u32)> = vec![("", "<Module>", 0x4100_0000)];
    for _ in 0..150 {
        types.push(("", "", 0x4200_0000));
    }
    for _ in 0..120 {
        types.push(("", "", 0x4300_0000));
    }
    for _ in 0..110 {
        types.push(("", "", 0x4400_0000));
    }
    for _ in 0..200 {
        types.push(("", "", 0x0000_0007));
    }
    let count = types.len() as u32;
    let global = global_with_types(&types);
    let keys = discover_type_layout_keys(&layout(count), &global, next_table(count)).unwrap();
    assert_eq!(keys.type_base_none, 0x4100_0000);
    assert_eq!(keys.type_base_object, 0x4200_0000);
    assert_eq!(keys.type_parent_key, 0x41FF_FFFF);
    assert_eq!(keys.type_base_value_type, 0x4300_0000);
    assert_eq!(keys.type_base_enum, 0x4400_0000);
}

#[test]
fn type_keys_count_is_bounded_by_next_table() {
    let mut types: Vec<(&str, &str, u32)> = vec![("", "<Module>", 0x4100_0000)];
    for _ in 0..150 {
        types.push(("", "", 0x4200_0000));
    }
    for _ in 0..120 {
        types.push(("", "", 0x4300_0000));
    }
    for _ in 0..110 {
        types.push(("", "", 0x4400_0000));
    }
    let count = types.len() as u32;
    let global = global_with_types(&types);
    // The following table starts before the enum entries, so too few of them are counted.
    assert_eq!(
        discover_type_layout_keys(&layout(count), &global, next_table(271)),
        Err(LayoutError::TypeSentinelNotFound)
    );
}

#[test]
fn type_keys_refuse_an_empty_table() {
    let global = global_with_types(&[("", "<Module>", 0)]);
    assert_eq!(discover_type_layout_keys(&layout(0), &global, next_table(1)), Err(LayoutError::EmptyTypeTable));
    assert_eq!(discover_type_layout_keys(&layout(1), &global, TYPE_TABLE), Err(LayoutError::EmptyTypeTable));
}

#[test]
fn type_keys_need_module_first() {
    let global = global_with_types(&[("System", "Object", 0)]);
    assert_eq!(discover_type_layout_keys(&layout(1), &global, next_table(1)), Err(LayoutError::FirstTypeNotModule));
}

#[test]
fn type_keys_refuse_entries_past_the_data() {
    let global = global_with_types(&[("", "<Module>", 0)]);
    // The descriptor claims far more entries than the blob holds.
    assert_eq!(
        discover_type_layout_keys(&layout(0x1000), &global, next_table(0x1000)),
        Err(LayoutError::OutOfRange)
    );
}

#[test]
fn errors_have_the_messages_of_the_original_program() {
    assert_eq!(LayoutError::TypeIndexOutOfRange(9).message(), "type index 9 is out of range");
    assert_eq!(LayoutError::DeclaringTypeCycle(3).message(), "declaring type cycle detected at type index 3");
    assert_eq!(LayoutError::RvaOutsideSections(0x1200).message(), "RVA 0x1200 is outside PE sections");
    assert_eq!(
        LayoutError::UnsupportedMetadataMagic(0x0403_0201).message(),
        "unsupported metadata format: wrong magic 0x04030201"
    );
    assert_eq!(
        LayoutError::UnsupportedPlatform.message(),
        "Obfuscated metadata loading through GameAssembly.dll is only supported on Windows"
    );
    assert_eq!(LayoutError::MissingStartupMetadata.message(), "startup-metadata.dat is required for static output");
    assert_eq!(
        LayoutError::LoaderOutputNotStandard(0xAB).message(),
        "Obfuscated metadata loader did not produce standard IL2CPP metadata. got magic 0x000000AB"
    );
}
