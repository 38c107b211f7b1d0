use firefly_static_parser::errors::LayoutError;
use firefly_static_parser::keys::image_key;
use firefly_static_parser::layout_model::{FieldDefaultValueTable, LayoutMetadata};
use firefly_static_parser::layout_output::{build_dump_cs, build_methods_json};
use firefly_static_parser::pe_image::PeImage;
use firefly_static_parser::static_layout::inspect_game_assembly;
use firefly_static_parser::strings::{STRING_PAYLOAD_INCREMENT, STRING_PAYLOAD_SEED_ADD, STRING_PAYLOAD_SEED_MUL};

const IMAGE_BASE: u64 = 0x1_8000_0000;
const INITIALIZER: usize = 0x1000;
const PAYLOAD_INITIALIZER: usize = 0x1100;
const XOR_LOADER: usize = 0x1200;
const METADATA_REGISTRATION: usize = 0x2000;
const DESCRIPTOR: usize = 0x2100;
const HEADER: usize = 0x2400;

const PAYLOAD: u32 = 0x10;
const TYPE_TABLE: u32 = 0x100;
const NESTED_TABLE: u32 = 0x700;
const STRING_DATA: u32 = 0x800;
const IMAGE_TABLE: u32 = 0x20;
const METHOD_TABLE: u32 = 0x300;
const FIELD_TABLE: u32 = 0x380;
const PARAMETER_TABLE: u32 = 0x3C0;
const INTERFACE_TABLE: u32 = 0x3E0;
const TYPE_TABLE_RVA: usize = 0x2900;
const METHOD_POINTERS_RVA: usize = 0x2800;

fn put_u16(data: &mut [u8], offset: usize, value: u16) {
    data[offset..offset + 2].copy_from_slice(&value.to_le_bytes());
}

fn put_u32(data: &mut [u8], offset: usize, value: u32) {
    data[offset..offset + 4].copy_from_slice(&value.to_le_bytes());
}

fn put_u64(data: &mut [u8], offset: usize, value: u64) {
    data[offset..offset + 8].copy_from_slice(&value.to_le_bytes());
}

/// A RIP-relative instruction with the given opcode bytes at `at` that addresses `target`.
fn put_rip_relative(data: &mut [u8], at: usize, opcode: &[u8], length: usize, target: usize) {
    data[at..at + opcode.len()].copy_from_slice(opcode);
    let displacement = target as i64 - (at + length) as i64;
    put_u32(data, at + length - 4, displacement as i32 as u32);
}

/// A game assembly whose section maps RVAs one to one onto file offsets, with the static
/// metadata initializer, the payload initializer, the attribute xor loader and an embedded
/// header describing the tables of `sample_global`.
fn sample_game_assembly() -> Vec<u8> {
    let mut data = vec![0u8; 0x4000];
    data[0] = b'M';
    data[1] = b'Z';
    put_u32(&mut data, 0x3C, 0x80);
    data[0x80..0x84].copy_from_slice(b"PE\0\0");
    put_u16(&mut data, 0x86, 1);
    put_u16(&mut data, 0x94, 0xF0);
    put_u16(&mut data, 0x98, 0x20B);
    put_u64(&mut data, 0xB0, IMAGE_BASE);
    let section = 0x98 + 0xF0;
    put_u32(&mut data, section + 8, 0x3000);
    put_u32(&mut data, section + 12, 0x1000);
    put_u32(&mut data, section + 16, 0x3000);
    put_u32(&mut data, section + 20, 0x1000);

    let targets = [METADATA_REGISTRATION, DESCRIPTOR, 0x2200, 0x2300, HEADER];
    for (pair, target) in targets.iter().enumerate() {
        let at = INITIALIZER + pair * 14;
        put_rip_relative(&mut data, at, &[0x48, 0x8D, 0x05], 7, *target);
        put_rip_relative(&mut data, at + 7, &[0x48, 0x89, 0x05], 7, 0x2500);
    }
    data[INITIALIZER + 70] = 0xC7;
    data[INITIALIZER + 71] = 0x05;

    let p = PAYLOAD_INITIALIZER;
    put_rip_relative(&mut data, p, &[0x48, 0x8D, 0x0D], 7, 0x1300);
    data[p + 7] = 0xE8;
    data[p + 12..p + 15].copy_from_slice(&[0x48, 0x89, 0xC6]);
    put_rip_relative(&mut data, p + 15, &[0x48, 0x8D, 0x0D], 7, 0x1340);
    data[p + 22] = 0xE8;
    data[p + 27..p + 30].copy_from_slice(&[0x48, 0x8B, 0x0D]);
    data[p + 34..p + 37].copy_from_slice(&[0x8B, 0x49, 0x04]);
    data[p + 37..p + 39].copy_from_slice(&[0x89, 0x0D]);
    data[p + 43..p + 46].copy_from_slice(&[0x48, 0x81, 0xC6]);
    put_u32(&mut data, p + 46, PAYLOAD);
    data[p + 50..p + 53].copy_from_slice(&[0x48, 0x89, 0x35]);
    data[p + 57..p + 60].copy_from_slice(&[0x48, 0x89, 0x05]);
    data[0x1300..0x1313].copy_from_slice(b"global-metadata.dat");
    data[0x1340..0x1354].copy_from_slice(b"startup-metadata.dat");

    let x = XOR_LOADER;
    put_rip_relative(&mut data, x, &[0x66, 0x0F, 0x6F, 0x05], 8, 0x1280);
    data[x + 8..x + 16].copy_from_slice(&[0x4C, 0x89, 0xC5, 0x4C, 0x89, 0x44, 0x24, 0x38]);
    put_u16(&mut data, 0x1280, 0x5A5A);

    put_u64(&mut data, METADATA_REGISTRATION + 0x88, IMAGE_BASE + METHOD_POINTERS_RVA as u64);
    put_u64(&mut data, DESCRIPTOR + 0x68, IMAGE_BASE + TYPE_TABLE_RVA as u64);
    put_u64(&mut data, METHOD_POINTERS_RVA, IMAGE_BASE + 0x1ABC);
    let il2cpp_types: [u64; 6] = [
        (0x08u64 << 48) | (0x0006u64 << 32),
        0x01u64 << 48,
        (0x12u64 << 48) | 1,
        (0x12u64 << 48) | 2,
        0x1Du64 << 48,
        (0x40u64 << 56) | (0x0Fu64 << 48) | 4,
    ];
    for (index, entry) in il2cpp_types.iter().enumerate() {
        put_u64(&mut data, TYPE_TABLE_RVA + index * 8, *entry);
    }
    put_u64(&mut data, DESCRIPTOR + 0x20, IMAGE_BASE + 0x2A00);
    put_u32(&mut data, DESCRIPTOR + 0x80, 200_000u32.wrapping_sub(0xE4B3_5170));

    let h = HEADER;
    put_u32(&mut data, h + 0x1A8, 0x729B_1A9E);
    put_u32(&mut data, h + 0x1F8, 2_000_000 ^ 0x1608_C2C8);
    put_u32(&mut data, h + 0x74, 0x080E_F250);
    put_u32(&mut data, h + 0x134, 40 ^ 0x1021_0728);
    put_u32(&mut data, h + 0x178, 0x05CC_1AE1 << 4);
    put_u32(&mut data, h + 0xBC, 0x079F_C2EC << 3);
    put_u32(&mut data, h + 0x164, 0x7F5C_5934);
    put_u32(&mut data, h + 0x150, IMAGE_TABLE.wrapping_sub(0xD882_615E));
    put_u32(&mut data, h + 0x158, 0u32.wrapping_sub(0xE03E_EAC1));
    put_u32(&mut data, h + 0xD0, 0u32.wrapping_sub(0xDFCF_C6B0));
    put_u32(&mut data, h + 0x84, TYPE_TABLE ^ 0x6853_1D3F);
    put_u32(&mut data, h + 0x20, FIELD_TABLE.wrapping_sub(0xB2FC_E189));
    put_u32(&mut data, h + 0x180, 0u32.wrapping_sub(0xE4DB_E763));
    put_u32(&mut data, h + 0x9C, 0u32.wrapping_sub(0xBC7E_C9D7));
    put_u32(&mut data, h + 0x148, 0x329E_1172);
    put_u32(&mut data, h + 0x14C, METHOD_TABLE.wrapping_sub(0xF3A0_4294));
    put_u32(&mut data, h + 0x30, PARAMETER_TABLE.wrapping_sub(0xDCF5_FDBE));
    put_u32(&mut data, h + 0x12C, NESTED_TABLE ^ 0x26F0_FC20);
    put_u32(&mut data, h + 0x1C8, INTERFACE_TABLE ^ 0x042F_9275);
    put_u32(&mut data, h + 0xF0, 0u32.wrapping_sub(0x9D48_920F));
    put_u32(&mut data, h + 0x140, 0u32.wrapping_sub(0xDAAC_7309));
    put_u32(&mut data, h + 0x1B4, STRING_DATA.wrapping_sub(0x8D43_A4EE));
    data
}

/// Stores `text` encrypted at string offset `offset` and returns its string index.
fn put_string(global: &mut Vec<u8>, offset: u32, text: &str) -> u32 {
    let bytes = text.as_bytes();
    if bytes.is_empty() {
        return u32::MAX;
    }
    let blocks = (bytes.len() + 7) / 8;
    let mut padded = bytes.to_vec();
    padded.resize(blocks * 8, 0);
    let start = (PAYLOAD + STRING_DATA + offset) as usize;
    if global.len() < start + blocks * 8 {
        global.resize(start + blocks * 8, 0);
    }
    let mut key = STRING_PAYLOAD_SEED_ADD.wrapping_add(STRING_PAYLOAD_SEED_MUL.wrapping_mul(offset as u64));
    for block in 0..blocks {
        let mut word = [0u8; 8];
        word.copy_from_slice(&padded[block * 8..block * 8 + 8]);
        let encrypted = u64::from_le_bytes(word) ^ key;
        global[start + block * 8..start + block * 8 + 8].copy_from_slice(&encrypted.to_le_bytes());
        key = key.wrapping_add(STRING_PAYLOAD_INCREMENT);
    }
    ((bytes.len() as u32) << 25) | offset
}

struct SampleType {
    namespace: &'static str,
    name: &'static str,
    flags: u32,
    raw_base_type: u32,
}

/// Global metadata with `<Module>`, `System.Object`, `Game.Outer` and `Inner` nested in
/// `Outer`, without fields or methods.
fn sample_global() -> Vec<u8> {
    let types = [
        SampleType { namespace: "", name: "<Module>", flags: 0, raw_base_type: 0x48F9_5546 },
        SampleType { namespace: "System", name: "Object", flags: 0x2001, raw_base_type: 0x48F9_5546 },
        SampleType { namespace: "Game", name: "Outer", flags: 0x1, raw_base_type: 0x48F9_5548 },
        SampleType { namespace: "", name: "Inner", flags: 0x2, raw_base_type: 0x48F9_5548 },
    ];
    let mut global = vec![0u8; 0x1000];
    let mut next_string = 0u32;
    for (index, t) in types.iter().enumerate() {
        let namespace = put_string(&mut global, next_string, t.namespace);
        next_string += 0x20;
        let name = put_string(&mut global, next_string, t.name);
        next_string += 0x20;
        let entry = (PAYLOAD + TYPE_TABLE) as usize + index * 0x46;
        put_u32(&mut global, entry + 0x24, namespace.wrapping_sub(0xF1D3_2D89));
        put_u32(&mut global, entry + 0x28, name.wrapping_sub(0xE9FD_68F8));
        put_u16(&mut global, entry + 0x32, 0u16.wrapping_sub(0x444D));
        put_u32(&mut global, entry + 0x08, u32::MAX ^ 0x1A7A_F5FE);
        put_u32(&mut global, entry + 0x14, t.flags ^ 0x0112_7490);
        put_u32(&mut global, entry + 0x04, t.raw_base_type);
        put_u16(&mut global, entry + 0x3C, 0xFFFFu16.wrapping_sub(0x5404));
        global[entry + 0x44] = 0xC7;
        global[entry + 0x43] = 0u8.wrapping_sub(4);
    }
    let outer = (PAYLOAD + TYPE_TABLE) as usize + 2 * 0x46;
    global[outer + 0x43] = 1u8.wrapping_sub(4);
    put_u16(&mut global, outer + 0x3A, 0 ^ 0xB2C0);
    put_u32(&mut global, (PAYLOAD + NESTED_TABLE) as usize, 3);

    // Outer has the field `int value` and the method `static void Run(int)`.
    let raw_field_start = 0x7485_3864u32;
    put_u32(&mut global, outer + 0x20, raw_field_start);
    put_u16(&mut global, outer + 0x32, 1u16.wrapping_sub(0x444D));
    let field_key = firefly_static_parser::keys::field_key(raw_field_start, 0);
    let field_name = put_string(&mut global, 0x240, "value");
    let field_entry = (PAYLOAD + FIELD_TABLE) as usize;
    put_u32(&mut global, field_entry, field_name.wrapping_sub(field_key).wrapping_sub(0x2AAF_C785));
    put_u32(&mut global, field_entry + 4, 0u32.wrapping_sub(field_key));
    put_u32(&mut global, outer + 0x08, 0 ^ 0x1A7A_F5FE);
    put_u16(&mut global, outer + 0x34, 1u16.wrapping_sub(0x5F93));
    let method_key = firefly_static_parser::keys::method_key(0);
    let method_name = put_string(&mut global, 0x260, "Run");
    let method_entry = (PAYLOAD + METHOD_TABLE) as usize;
    put_u32(&mut global, method_entry, method_name ^ 0x0E71_4BC1 ^ method_key);
    put_u32(&mut global, method_entry + 4, 0 ^ method_key ^ 0x0098_89B8);
    put_u32(&mut global, method_entry + 8, (1 ^ method_key).wrapping_sub(0x9AC1_F4E3));
    put_u16(&mut global, method_entry + 0x0E, 0x0016 ^ (method_key as u16) ^ 0x5A5A);
    global[method_entry + 0x18] = 1 ^ (method_key as u8) ^ 0xA8;
    let parameter_key = firefly_static_parser::keys::parameter_key(0);
    put_u32(&mut global, (PAYLOAD + PARAMETER_TABLE) as usize, parameter_key ^ 0x67E9_0DC5);

    // Inner derives from System.Object and implements Outer.
    let inner = (PAYLOAD + TYPE_TABLE) as usize + 3 * 0x46;
    put_u32(&mut global, inner + 0x04, 0x48F9_5547 + 2);
    global[inner + 0x44] = 1 ^ 0xC7;
    put_u16(&mut global, inner + 0x36, 0 ^ 0xC28C);
    put_u32(&mut global, (PAYLOAD + INTERFACE_TABLE) as usize, 3);
    global
}

/// Startup metadata with one image, `Assembly-CSharp.dll`, owning the four types.
fn sample_startup(global: &mut Vec<u8>) -> Vec<u8> {
    let name = put_string(global, 0x200, "Assembly-CSharp.dll");
    let mut startup = vec![0u8; 0x100];
    let entry = IMAGE_TABLE as usize;
    let key = image_key(0);
    put_u32(&mut startup, entry + 0x0C, name ^ key ^ 0x4D64_8371);
    put_u32(&mut startup, entry + 0x14, 0 ^ 0x235A_EAF5 ^ key ^ 0x7BAB_EEA0);
    put_u32(&mut startup, entry + 0x04, 4 ^ 0x7C06_D18C ^ key ^ 0x10FE_A394);
    startup
}

fn sample_metadata() -> LayoutMetadata {
    let image = PeImage::parse(sample_game_assembly()).unwrap();
    let mut global = sample_global();
    let startup = sample_startup(&mut global);
    match LayoutMetadata::from_parts(image, global, startup) {
        Ok(metadata) => metadata,
        Err(e) => panic!("sample metadata does not decode: {:?}", e),
    }
}

#[test]
fn inspects_the_static_layout_of_the_game_assembly() {
    let image = PeImage::parse(sample_game_assembly()).unwrap();
    let layout = inspect_game_assembly(&image).unwrap();
    assert_eq!(layout.static_initializer_rva, INITIALIZER as u32);
    assert_eq!(layout.metadata_registration_rva, METADATA_REGISTRATION as u32);
    assert_eq!(layout.descriptor_rva, DESCRIPTOR as u32);
    assert_eq!(layout.embedded_header_rva, HEADER as u32);
    assert_eq!(layout.payload_offset, PAYLOAD);
    assert_eq!(layout.descriptor_count_80, 200_000);
    assert_eq!(layout.header_size_1f8, 2_000_000);
    assert_eq!(layout.header_count_134_div40, 1);
    assert_eq!(layout.header_count_178, 0);
    assert_eq!(layout.header_count_bc, 0);
    assert_eq!(layout.startup_image_table_offset, IMAGE_TABLE);
    assert_eq!(layout.global_type_table_offset, TYPE_TABLE);
    assert_eq!(layout.global_nested_type_table_offset, NESTED_TABLE);
    assert_eq!(layout.global_string_data_offset, STRING_DATA);
    assert_eq!(layout.global_method_table_offset, METHOD_TABLE);
}

#[test]
fn an_image_without_the_initializer_has_no_layout() {
    let mut data = sample_game_assembly();
    data[INITIALIZER + 70] = 0;
    let image = PeImage::parse(data).unwrap();
    assert_eq!(inspect_game_assembly(&image), Err(LayoutError::StaticGlobalsNotFound));
}

#[test]
fn an_image_without_the_payload_initializer_has_no_layout() {
    let mut data = sample_game_assembly();
    data[0x1300] = b'G';
    let image = PeImage::parse(data).unwrap();
    assert_eq!(inspect_game_assembly(&image), Err(LayoutError::PayloadOffsetNotFound));
}

#[test]
fn decodes_images_and_types() {
    let metadata = sample_metadata();
    let images = metadata.images();
    assert_eq!(images.len(), 1);
    assert_eq!(images[0].name, "Assembly-CSharp.dll");
    assert_eq!(images[0].type_start, 0);
    assert_eq!(images[0].type_count, 4);
    let object = metadata.type_def(1).unwrap();
    assert_eq!(object.namespace, "System");
    assert_eq!(object.name, "Object");
    assert_eq!(object.flags, 0x2001);
    assert_eq!(object.parent_type_index, None);
    assert_eq!(object.field_start, None);
    assert_eq!(object.method_start, None);
    assert_eq!(object.interface_count, 0);
    assert_eq!(object.generic_container, None);
    assert!(!object.is_value_type);
    assert_eq!(metadata.type_def(3).unwrap().declaring_type, Some(2));
    assert_eq!(metadata.type_def(2).unwrap().declaring_type, None);
    assert!(matches!(metadata.type_def(4), Err(LayoutError::TypeIndexOutOfRange(4))));
}

#[test]
fn names_nested_types_through_their_declaring_types() {
    let metadata = sample_metadata();
    assert_eq!(metadata.type_def_full_name(3), Ok("Game.Outer.Inner".to_owned()));
    assert_eq!(metadata.type_def_full_name(1), Ok("System.Object".to_owned()));
    assert_eq!(metadata.type_def_full_name(0), Ok("<Module>".to_owned()));
    assert_eq!(metadata.type_def_full_name(9), Err(LayoutError::TypeIndexOutOfRange(9)));
}

#[test]
fn decodes_strings_through_the_cache() {
    let mut metadata = sample_metadata();
    let index = (6u32 << 25) | 0x40;
    assert_eq!(metadata.decode_string(index), Ok("System".to_owned()));
    assert_eq!(metadata.decode_string(index), Ok("System".to_owned()));
    assert_eq!(metadata.decode_string(u32::MAX), Ok(String::new()));
}

#[test]
fn renders_dump_cs() {
    let mut metadata = sample_metadata();
    let expected = [
        "// FirelfyShelter static asm parse\n\n",
        "// Image 0: Assembly-CSharp.dll\n",
        "\n// Namespace: \n// TypeDefIndex: 0\ninternal sealed class <Module>\n{\n\t// Fields\n\n\t// Methods\n}\n",
        "\n// Namespace: System\n// TypeDefIndex: 1\n[Serializable]\npublic sealed class Object\n{\n\t// Fields\n\n\t// Methods\n}\n",
        "\n// Namespace: Game\n// TypeDefIndex: 2\npublic sealed class Outer\n{\n\t// Fields\n",
        "\tpublic System.Int32 value; // 0x0\n",
        "\n\t// Methods\n",
        "\n\t// RVA: 0x1abc VA: 0x180001abc\n\tpublic static System.Void Run(System.Int32) { }\n}\n",
        "\n// Namespace: \n// TypeDefIndex: 3\npublic sealed class Inner : Object, Outer\n{\n\t// Fields\n\n\t// Methods\n}\n",
    ]
    .join("");
    assert_eq!(build_dump_cs(&mut metadata), Ok(expected.to_owned()));
}

#[test]
fn renders_the_method_map() {
    let mut metadata = sample_metadata();
    assert_eq!(build_methods_json(&mut metadata), Ok("{\n  \"Game.Outer::Run(int)\": \"0x1abc\"\n}".to_owned()));
}

#[test]
fn decodes_methods_and_fields() {
    let mut metadata = sample_metadata();
    let method = metadata.read_method(0).unwrap();
    assert_eq!(method.name, "Run");
    assert_eq!(method.return_type, "System.Void");
    assert_eq!(method.method_json_params, vec!["int".to_owned()]);
    assert_eq!(method.dump_params, vec!["System.Int32".to_owned()]);
    assert_eq!(method.flags, 0x0016);
    assert_eq!(method.va, IMAGE_BASE + 0x1ABC);
    assert_eq!(method.rva, 0x1ABC);
    let outer = metadata.type_def(2).unwrap().duplicate();
    let fields = metadata.read_fields(2, &outer).unwrap();
    assert_eq!(fields.len(), 1);
    assert_eq!(fields[0].index, 0);
    assert_eq!(fields[0].name, "value");
    assert_eq!(fields[0].field_type, "System.Int32");
    assert_eq!(fields[0].flags, 0x0006);
    assert_eq!(fields[0].offset, 0);
    assert_eq!(metadata.il2cpp_type_name(0, true), Ok("int".to_owned()));
    assert_eq!(metadata.il2cpp_type_name(3, false), Ok("Game.Outer".to_owned()));
    assert_eq!(metadata.type_def_display_name(2, true), Ok("Game.Outer".to_owned()));
    let inner = metadata.type_def(3).unwrap().duplicate();
    assert_eq!(metadata.read_parent_name(&inner), Ok(Some("Object".to_owned())));
    assert_eq!(metadata.read_interface_names(&inner), Ok(vec!["Outer".to_owned()]));
}

#[test]
fn names_arrays_and_pointers_after_their_elements() {
    let mut metadata = sample_metadata();
    assert_eq!(metadata.il2cpp_type_name(4, false), Ok("System.Int32[]".to_owned()));
    assert_eq!(metadata.il2cpp_type_name(5, false), Ok("System.Int32[]*&".to_owned()));
}

#[test]
fn enum_values_and_default_data_need_the_default_value_table() {
    let mut metadata = sample_metadata();
    assert_eq!(metadata.read_field_default_value_data(0, 4), Ok(None));
    assert_eq!(metadata.read_field_default_value_data(1 << 31, 4), Err(LayoutError::FieldIndexTooLarge));
    let outer = metadata.type_def(2).unwrap().duplicate();
    assert_eq!(metadata.read_enum_values(2, &outer).map(|v| v.len()), Ok(0));
    assert_eq!(metadata.read_parent_name(&outer), Ok(None));
    assert_eq!(metadata.read_interface_names(&outer), Ok(Vec::new()));
}

#[test]
fn finds_default_value_data_by_binary_search() {
    let image = PeImage::parse(sample_game_assembly()).unwrap();
    let mut global = sample_global();
    let startup = sample_startup(&mut global);
    let table = 0x600usize;
    let data = 0x680usize;
    for (i, (field, data_index)) in [(2i32, 0i32), (5, 4), (9, -1)].iter().enumerate() {
        let entry = PAYLOAD as usize + table + i * 12;
        put_u32(&mut global, entry + 4, *data_index as u32);
        put_u32(&mut global, entry + 8, *field as u32);
    }
    put_u32(&mut global, PAYLOAD as usize + data, 0x1111_1111);
    put_u32(&mut global, PAYLOAD as usize + data + 4, 0xFFFF_FFFE);
    let mut metadata = LayoutMetadata::from_parts(image, global, startup).unwrap();
    metadata.set_field_default_value_table(FieldDefaultValueTable {
        table_offset: table as u32,
        data_offset: data as u32,
        count: 3,
    });
    assert_eq!(metadata.read_field_default_value_data(2, 4), Ok(Some(vec![0x11, 0x11, 0x11, 0x11])));
    assert_eq!(metadata.read_field_default_value_data(5, 4), Ok(Some(vec![0xFE, 0xFF, 0xFF, 0xFF])));
    assert_eq!(metadata.read_field_default_value_data(9, 4), Ok(None));
    assert_eq!(metadata.read_field_default_value_data(7, 4), Ok(None));
    assert_eq!(metadata.read_field_default_value_data(5, 0x1000), Err(LayoutError::OutOfRange));
}

#[test]
fn decoding_fails_without_the_attribute_xor_loader() {
    let mut data = sample_game_assembly();
    data[XOR_LOADER] = 0;
    let image = PeImage::parse(data).unwrap();
    let mut global = sample_global();
    let startup = sample_startup(&mut global);
    assert!(matches!(
        LayoutMetadata::from_parts(image, global, startup),
        Err(LayoutError::MethodAttributeXorNotFound)
    ));
}

#[test]
fn decoding_fails_when_the_image_table_is_cut_short() {
    let image = PeImage::parse(sample_game_assembly()).unwrap();
    let mut global = sample_global();
    let mut startup = sample_startup(&mut global);
    startup.truncate(IMAGE_TABLE as usize + 39);
    assert!(matches!(LayoutMetadata::from_parts(image, global, startup), Err(LayoutError::OutOfRange)));
}

#[test]
fn decoding_fails_when_a_type_entry_is_cut_short() {
    let image = PeImage::parse(sample_game_assembly()).unwrap();
    let mut global = sample_global();
    let startup = sample_startup(&mut global);
    let mut startup_with_more_types = startup.clone();
    let key = image_key(0);
    put_u32(&mut startup_with_more_types, IMAGE_TABLE as usize + 0x04, 100 ^ 0x7C06_D18C ^ key ^ 0x10FE_A394);
    assert!(matches!(
        LayoutMetadata::from_parts(image, global, startup_with_more_types),
        Err(LayoutError::OutOfRange)
    ));
}
