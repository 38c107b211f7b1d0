use firefly_static_parser::errors::LayoutError;
use firefly_static_parser::keys::image_key;
use firefly_static_parser::layout_parser::{
    decode_assembly_image_index, decode_assembly_name_index, decode_method_name_index, decode_type_method_count,
    decode_type_method_start, find_first_type_with_methods, format_method_range, image_preview,
    inspect_metadata_sections, interface_pair_preview, method_preview, type_preview,
};
use firefly_static_parser::keys::{assembly_link_key, assembly_name_key, method_key};
use firefly_static_parser::static_layout::{layout_report, StaticLayout};

fn zero_layout() -> StaticLayout {
    StaticLayout {
        static_initializer_rva: 0,
        metadata_registration_rva: 0,
        descriptor_rva: 0,
        embedded_header_rva: 0,
        payload_offset: 0,
        descriptor_count_80: 0,
        header_size_1a8: 0,
        header_size_1f8: 0,
        header_size_74: 0,
        header_count_134_div40: 0,
        header_count_178: 0,
        header_count_bc: 0,
        startup_section_164_offset: 0,
        startup_image_table_offset: 0,
        startup_assembly_table_offset: 0,
        startup_assembly_name_table_offset: 0,
        global_type_table_offset: 0,
        global_field_table_offset: 0,
        global_type_field_offset_map_offset: 0,
        global_field_offset_group_table_offset: 0,
        global_field_offset_table_offset: 0,
        global_method_table_offset: 0,
        global_parameter_table_offset: 0,
        global_nested_type_table_offset: 0,
        global_interface_type_table_offset: 0,
        global_generic_container_table_offset: 0,
        global_generic_parameter_table_offset: 0,
        global_string_data_offset: 0,
    }
}

/// One startup image entry whose name is the empty string, owning types 2..5.
fn one_image_startup() -> Vec<u8> {
    let mut startup = vec![0u8; 40];
    let key = image_key(0);
    startup[0x0C..0x10].copy_from_slice(&(u32::MAX ^ key ^ 0x4D64_8371).to_le_bytes());
    startup[0x14..0x18].copy_from_slice(&(2u32 ^ 0x235A_EAF5 ^ key ^ 0x7BAB_EEA0).to_le_bytes());
    startup[0x04..0x08].copy_from_slice(&(3u32 ^ 0x7C06_D18C ^ key ^ 0x10FE_A394).to_le_bytes());
    startup
}

/// A global type table of five entries; type 3 has methods 7..9; every name is empty.
fn five_types_global() -> Vec<u8> {
    let mut global = vec![0u8; 5 * 0x46];
    for index in 0..5usize {
        let entry = index * 0x46;
        global[entry + 0x24..entry + 0x28].copy_from_slice(&u32::MAX.wrapping_sub(0xF1D3_2D89).to_le_bytes());
        global[entry + 0x28..entry + 0x2C].copy_from_slice(&u32::MAX.wrapping_sub(0xE9FD_68F8).to_le_bytes());
        global[entry + 0x08..entry + 0x0C].copy_from_slice(&(u32::MAX ^ 0x1A7A_F5FE).to_le_bytes());
    }
    let entry = 3 * 0x46;
    global[entry + 0x08..entry + 0x0C].copy_from_slice(&(7u32 ^ 0x1A7A_F5FE).to_le_bytes());
    global[entry + 0x34..entry + 0x36].copy_from_slice(&2u16.wrapping_sub(0x5F93).to_le_bytes());
    global
}

#[test]
fn formats_method_ranges() {
    assert_eq!(format_method_range(u32::MAX, 4), "methods=-");
    assert_eq!(format_method_range(10, 0), "methods=-");
    assert_eq!(format_method_range(10, 5), "methods=10..15");
}

#[test]
fn decodes_type_and_method_entry_fields() {
    let global = five_types_global();
    assert_eq!(decode_type_method_start(&global, 3 * 0x46), Ok(7));
    assert_eq!(decode_type_method_count(&global, 3 * 0x46), Ok(2));
    assert_eq!(decode_type_method_start(&global, 0), Ok(u32::MAX));
    let mut methods = vec![0u8; 8];
    methods[0..4].copy_from_slice(&(0x55u32 ^ 0x0E71_4BC1 ^ method_key(4)).to_le_bytes());
    assert_eq!(decode_method_name_index(&methods, 0, 4), Ok(0x55));
    assert_eq!(decode_method_name_index(&methods, 6, 4), Err(LayoutError::OutOfRange));
}

#[test]
fn decodes_assembly_entry_fields() {
    let mut startup = vec![0u8; 64];
    startup[4..8].copy_from_slice(&(9u32 ^ assembly_link_key(1) ^ 0x508B_7D78).to_le_bytes());
    startup[0x1C..0x20].copy_from_slice(&((0x33u32 ^ assembly_name_key(1)).wrapping_sub(0x8DE9_829F)).to_le_bytes());
    assert_eq!(decode_assembly_image_index(&startup, 0, 1), Ok(9));
    assert_eq!(decode_assembly_name_index(&startup, 0, 1), Ok(0x33));
}

#[test]
fn finds_the_first_type_with_methods() {
    let global = five_types_global();
    assert_eq!(find_first_type_with_methods(&global, 0, 2, 3), Ok(Some((3, 3 * 0x46, 7, 2))));
    assert_eq!(find_first_type_with_methods(&global, 0, 0, 3), Ok(None));
    assert_eq!(find_first_type_with_methods(&global, 0, 4, 3), Err(LayoutError::OutOfRange));
}

#[test]
fn previews_the_image_table() {
    let mut layout = zero_layout();
    layout.header_count_134_div40 = 1;
    let startup = one_image_startup();
    let mut lines = Vec::new();
    assert_eq!(image_preview(&layout, &[], &startup, &mut lines), Ok(()));
    assert_eq!(
        lines,
        vec![
            "  image table: offset 0x0, count 1".to_owned(),
            "    image[0] type_range=2..5 name_index=0xFFFFFFFF name=".to_owned(),
        ]
    );
}

#[test]
fn image_preview_refuses_a_table_past_the_data() {
    let mut layout = zero_layout();
    layout.header_count_134_div40 = 2;
    let mut lines = Vec::new();
    assert_eq!(image_preview(&layout, &[], &one_image_startup(), &mut lines), Err(LayoutError::OutOfRange));
    assert!(lines.is_empty());
}

#[test]
fn previews_the_first_image_types() {
    let layout = zero_layout();
    let mut lines = Vec::new();
    assert_eq!(type_preview(&layout, &five_types_global(), &one_image_startup(), &mut lines), Ok(()));
    assert_eq!(
        lines,
        vec![
            "  type table: offset 0x0, first image type count 3".to_owned(),
            "    type[2] methods=- name=".to_owned(),
            "    type[3] methods=7..9 name=".to_owned(),
            "    type[4] methods=- name=".to_owned(),
        ]
    );
}

#[test]
fn method_preview_stops_at_a_method_table_past_the_data() {
    let mut layout = zero_layout();
    layout.global_method_table_offset = 0x1000;
    let mut lines = Vec::new();
    assert_eq!(
        method_preview(&layout, &five_types_global(), &one_image_startup(), &mut lines),
        Err(LayoutError::OutOfRange)
    );
    assert!(lines.is_empty());
}

#[test]
fn method_preview_lists_the_methods_of_the_first_type_with_methods() {
    let mut layout = zero_layout();
    layout.global_method_table_offset = 0x200;
    let mut global = five_types_global();
    global.resize(0x200 + 9 * 26, 0);
    for method in 7..9usize {
        let entry = 0x200 + method * 26;
        global[entry..entry + 4].copy_from_slice(&(u32::MAX ^ 0x0E71_4BC1 ^ method_key(method as u64)).to_le_bytes());
    }
    let mut lines = Vec::new();
    assert_eq!(method_preview(&layout, &global, &one_image_startup(), &mut lines), Ok(()));
    assert_eq!(
        lines,
        vec![
            "  method table: offset 0x200, first method type[3]  range=7..9".to_owned(),
            "    method[7] name_index=0xFFFFFFFF name=".to_owned(),
            "    method[8] name_index=0xFFFFFFFF name=".to_owned(),
        ]
    );
}

#[test]
fn previews_interface_pairs() {
    let mut layout = zero_layout();
    layout.header_count_bc = 1;
    layout.startup_section_164_offset = 4;
    let mut startup = vec![0u8; 12];
    startup[4..8].copy_from_slice(&0xABu32.to_le_bytes());
    startup[8..12].copy_from_slice(&0x1234u32.to_le_bytes());
    let mut lines = Vec::new();
    assert_eq!(interface_pair_preview(&layout, &startup, &mut lines), Ok(()));
    assert_eq!(
        lines,
        vec!["  interface-pair-like table: offset 0x4, count 1".to_owned(), "    pair[0] = (0xAB, 0x1234)".to_owned()]
    );
}

#[test]
fn section_preview_is_skipped_without_startup_metadata() {
    let mut lines = Vec::new();
    assert_eq!(inspect_metadata_sections(&zero_layout(), &[], None, &mut lines), Ok(()));
    assert_eq!(lines, vec!["Metadata section preview skipped: startup-metadata.dat not found.".to_owned()]);
}

#[test]
fn section_preview_keeps_the_lines_before_a_failure() {
    let mut layout = zero_layout();
    layout.header_count_134_div40 = 1;
    layout.global_method_table_offset = 0x1000;
    let mut lines = Vec::new();
    let result = inspect_metadata_sections(&layout, &five_types_global(), Some(&one_image_startup()), &mut lines);
    assert_eq!(result, Err(LayoutError::OutOfRange));
    assert_eq!(
        lines,
        vec![
            "Metadata section preview:".to_owned(),
            "  image table: offset 0x0, count 1".to_owned(),
            "    image[0] type_range=2..5 name_index=0xFFFFFFFF name=".to_owned(),
            "  assembly table: link offset 0x0, name offset 0x0, count 0".to_owned(),
            "  type table: offset 0x0, first image type count 3".to_owned(),
            "    type[2] methods=- name=".to_owned(),
            "    type[3] methods=7..9 name=".to_owned(),
            "    type[4] methods=- name=".to_owned(),
        ]
    );
}

#[test]
fn reports_the_static_layout() {
    let mut layout = zero_layout();
    layout.static_initializer_rva = 0xABC;
    layout.descriptor_count_80 = 12;
    layout.global_string_data_offset = 0xFF;
    let lines = layout_report(&layout);
    assert_eq!(lines.len(), 29);
    assert_eq!(lines[0], "Static layout:");
    assert_eq!(lines[1], "  static initializer RVA: 0xABC");
    assert_eq!(lines[6], "  decoded descriptor[0x80] count: 12");
    assert_eq!(lines[28], "  decoded global string data offset: 0xFF");
}
