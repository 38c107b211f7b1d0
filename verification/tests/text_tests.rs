use firefly_static_parser::errors::LayoutError;
use firefly_static_parser::keys::{
    assembly_link_key, assembly_name_key, decode_image_name_index, decode_image_type_count, decode_image_type_start,
    field_key, image_key, method_key, parameter_key, sar_u32,
};
use firefly_static_parser::static_layout::StaticLayout;
use firefly_static_parser::strings::decode_string_raw;
use firefly_static_parser::text::{
    fallback_generic_parameter_names, generic_arity, join, method_json_alias, shorten_declaration_reference,
    strip_generic_arity,
};

fn zero_layout() -> StaticLayout {
    StaticLayout {
        static_initializer_rva: 0,
        metadata_registration_rva: 0,
        descriptor_rva: 0,
        embedded_header_rva: 0,
        payload_offset: 0,
        descriptor_count_80: 0,
        header_size_1a8: 0,
        header_size_1f8: 0,
        header_size_74: 0,
        header_count_134_div40: 0,
        header_count_178: 0,
        header_count_bc: 0,
        startup_section_164_offset: 0,
        startup_image_table_offset: 0,
        startup_assembly_table_offset: 0,
        startup_assembly_name_table_offset: 0,
        global_type_table_offset: 0,
        global_field_table_offset: 0,
        global_type_field_offset_map_offset: 0,
        global_field_offset_group_table_offset: 0,
        global_field_offset_table_offset: 0,
        global_method_table_offset: 0,
        global_parameter_table_offset: 0,
        global_nested_type_table_offset: 0,
        global_interface_type_table_offset: 0,
        global_generic_container_table_offset: 0,
        global_generic_parameter_table_offset: 0,
        global_string_data_offset: 0,
    }
}

/// "System.Object" stored at string offset 0x10, encrypted with that offset's key stream.
const ENCRYPTED_SYSTEM_OBJECT: [u8; 16] =
    [0x97, 0x19, 0xBA, 0xBB, 0x98, 0x62, 0x55, 0x32, 0xD1, 0x34, 0x6E, 0x69, 0xA4, 0x4C, 0xE4, 0xBB];

fn string_area(payload: u32, data: u32) -> Vec<u8> {
    let start = (payload + data + 0x10) as usize;
    let mut global = vec![0u8; start + 16];
    global[start..start + 16].copy_from_slice(&ENCRYPTED_SYSTEM_OBJECT);
    global
}

#[test]
fn decodes_an_encrypted_metadata_string() {
    let mut layout = zero_layout();
    layout.payload_offset = 0x20;
    layout.global_string_data_offset = 0x40;
    let global = string_area(0x20, 0x40);
    let index = (13u32 << 25) | 0x10;
    assert_eq!(decode_string_raw(&global, &layout, index), Ok("System.Object".to_owned()));
}

#[test]
fn decodes_a_prefix_when_the_index_names_fewer_bytes() {
    let layout = zero_layout();
    let global = string_area(0, 0);
    let index = (6u32 << 25) | 0x10;
    assert_eq!(decode_string_raw(&global, &layout, index), Ok("System".to_owned()));
}

#[test]
fn empty_string_indices_decode_to_empty_strings() {
    let layout = zero_layout();
    assert_eq!(decode_string_raw(&[], &layout, u32::MAX), Ok(String::new()));
    assert_eq!(decode_string_raw(&[], &layout, 0x10), Ok(String::new()));
}

#[test]
fn string_reads_past_the_payload_are_refused() {
    let layout = zero_layout();
    let global = string_area(0, 0);
    let index = (13u32 << 25) | 0x18;
    assert_eq!(decode_string_raw(&global, &layout, index), Err(LayoutError::OutOfRange));
}

#[test]
fn invalid_utf8_is_reported() {
    let layout = zero_layout();
    let mut global = string_area(0, 0);
    global[0x10] ^= b'S' ^ 0xFF;
    let index = (1u32 << 25) | 0x10;
    assert_eq!(decode_string_raw(&global, &layout, index), Err(LayoutError::InvalidUtf8));
}

#[test]
fn long_form_string_indices_use_eight_length_bits() {
    let layout = zero_layout();
    let global = string_area(0, 0);
    let index = 0x8000_0000u32 | (13u32 << 23) | 0x10;
    assert_eq!(decode_string_raw(&global, &layout, index), Ok("System.Object".to_owned()));
}

#[test]
fn table_keys_have_their_documented_values() {
    assert_eq!(image_key(0), 0xAC32_5B8E);
    assert_eq!(image_key(3), 0x2D71_4DF2);
    assert_eq!(method_key(0), 0xCC9B_70C0);
    assert_eq!(method_key(7), 0xB561_C0DC);
    assert_eq!(parameter_key(5), 0x2D99_550C);
    assert_eq!(field_key(0x1234_5678, 3), 0x9DFE_E2B9);
    assert_eq!(assembly_link_key(2), 0xD2B7_41E4);
    assert_eq!(assembly_name_key(2), 0x73F1_A5C8);
    assert_eq!(sar_u32(0x8000_0000, 4), 0xF800_0000);
    assert_eq!(sar_u32(0x4000_0000, 4), 0x0400_0000);
}

#[test]
fn decodes_startup_image_entries() {
    let mut startup = vec![0u8; 40];
    let key = image_key(0);
    startup[0x0C..0x10].copy_from_slice(&(7u32 ^ key ^ 0x4D64_8371).to_le_bytes());
    startup[0x14..0x18].copy_from_slice(&(100u32 ^ 0x235A_EAF5 ^ key ^ 0x7BAB_EEA0).to_le_bytes());
    startup[0x04..0x08].copy_from_slice(&(25u32 ^ 0x7C06_D18C ^ key ^ 0x10FE_A394).to_le_bytes());
    assert_eq!(decode_image_name_index(&startup, 0, 0), Ok(7));
    assert_eq!(decode_image_type_start(&startup, 0, 0), Ok(100));
    assert_eq!(decode_image_type_count(&startup, 0, 0), Ok(25));
    assert_eq!(decode_image_name_index(&startup, 30, 0), Err(LayoutError::OutOfRange));
}

#[test]
fn strips_generic_arity_from_each_segment() {
    assert_eq!(strip_generic_arity("System.Collections.Generic.List`1"), "System.Collections.Generic.List");
    assert_eq!(strip_generic_arity("Outer`2.Inner`1"), "Outer.Inner");
    assert_eq!(strip_generic_arity("Name`x"), "Name`x");
    assert_eq!(strip_generic_arity("Name`"), "Name");
    assert_eq!(strip_generic_arity("A`1`2"), "A`1");
    assert_eq!(strip_generic_arity(""), "");
}

#[test]
fn reads_generic_arity() {
    assert_eq!(generic_arity("Dictionary`2"), Some(2));
    assert_eq!(generic_arity("List`+1"), Some(1));
    assert_eq!(generic_arity("Plain"), None);
    assert_eq!(generic_arity("Bad`x"), None);
    assert_eq!(generic_arity("Empty`"), None);
}

#[test]
fn shortens_declaration_references() {
    assert_eq!(shorten_declaration_reference("System.Collections.IEnumerable"), "IEnumerable");
    assert_eq!(shorten_declaration_reference("Plain"), "Plain");
    assert_eq!(shorten_declaration_reference("Trailing."), "");
}

#[test]
fn aliases_builtin_types_for_method_maps() {
    assert_eq!(method_json_alias("System.Int32"), "int");
    assert_eq!(method_json_alias("System.String"), "string");
    assert_eq!(method_json_alias("System.DateTime"), "DateTime");
    assert_eq!(method_json_alias("System.Void"), "void");
    assert_eq!(method_json_alias("Game.Player"), "Game.Player");
}

#[test]
fn names_missing_generic_parameters() {
    assert_eq!(fallback_generic_parameter_names("List`1", 1), vec!["T".to_owned()]);
    assert_eq!(
        fallback_generic_parameter_names("Dictionary`2", 2),
        vec!["TKey".to_owned(), "TValue".to_owned()]
    );
    assert_eq!(
        fallback_generic_parameter_names("Tuple`3", 3),
        vec!["T1".to_owned(), "T2".to_owned(), "T3".to_owned()]
    );
    assert_eq!(
        fallback_generic_parameter_names("Pair`2", 2),
        vec!["T1".to_owned(), "T2".to_owned()]
    );
}

#[test]
fn joins_with_separators() {
    assert_eq!(join(&vec![], ", "), "");
    assert_eq!(join(&vec!["a".to_owned()], ", "), "a");
    assert_eq!(join(&vec!["a".to_owned(), "b".to_owned(), "c".to_owned()], ","), "a,b,c");
}

#[test]
fn signed_decimals_cover_the_whole_i64_range() {
    let mut text = String::new();
    firefly_static_parser::text::push_signed_decimal(&mut text, i64::MIN);
    assert_eq!(text, "-9223372036854775808");
    let mut text = String::new();
    firefly_static_parser::text::push_signed_decimal(&mut text, -42);
    assert_eq!(text, "-42");
}
