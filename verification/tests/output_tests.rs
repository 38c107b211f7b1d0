use firefly_static_parser::args::InputPaths;
use firefly_static_parser::errors::LayoutError;
use firefly_static_parser::il2cpp_pe::{
    count_method_pointers, is_api_export, needs_section_search, resolve_registrations, va_segment,
};
use firefly_static_parser::layout_model::{LayoutEnumValue, LayoutField, LayoutMethod, LayoutTypeDef};
use firefly_static_parser::layout_output::{
    field_prefix, find_enum_value, method_prefix, type_prefix, type_visibility, write_field, write_method,
};
use firefly_static_parser::metadata::{
    has_custom_metadata_magic, has_standard_metadata_magic, metadata_format, read_u32_le, MetadataFormat,
};
use firefly_static_parser::method_map::{compare_strs, MethodMap};
use firefly_static_parser::obfuscated::{check_loaded_metadata, load_obfuscated_metadata, ObfuscatedFiles};
use firefly_static_parser::output::{parameter_index, pointer_text, prepend_watermark, standard_method_key};

fn type_def(flags: u32, is_value_type: bool, is_enum: bool) -> LayoutTypeDef {
    LayoutTypeDef {
        namespace: "Game".to_owned(),
        name: "Thing".to_owned(),
        field_start: None,
        field_count: 0,
        raw_field_start: 0,
        method_start: None,
        method_count: 0,
        interface_start: None,
        interface_count: 0,
        parent_type_index: None,
        flags,
        generic_container: None,
        declaring_type: None,
        is_value_type,
        is_enum,
    }
}

#[test]
fn type_visibility_follows_the_visibility_bits() {
    assert_eq!(type_visibility(1), "public");
    assert_eq!(type_visibility(2), "public");
    assert_eq!(type_visibility(3), "private");
    assert_eq!(type_visibility(4), "protected");
    assert_eq!(type_visibility(5), "internal");
    assert_eq!(type_visibility(6), "protected internal");
    assert_eq!(type_visibility(0), "internal");
    assert_eq!(type_visibility(7), "internal");
}

#[test]
fn type_prefix_names_the_kind_of_type() {
    assert_eq!(type_prefix(&type_def(0x21, false, false)), "public interface");
    assert_eq!(type_prefix(&type_def(0x101, true, true)), "public enum");
    assert_eq!(type_prefix(&type_def(0x101, true, false)), "public struct");
    assert_eq!(type_prefix(&type_def(0x181, false, false)), "public static class");
    assert_eq!(type_prefix(&type_def(0x81, false, false)), "public abstract class");
    assert_eq!(type_prefix(&type_def(0x1, false, false)), "public sealed class");
    assert_eq!(type_prefix(&type_def(0x103, false, false)), "private class");
}

#[test]
fn method_prefix_lists_modifiers_in_order() {
    assert_eq!(method_prefix(0x0006), "public ");
    assert_eq!(method_prefix(0x0016), "public static ");
    assert_eq!(method_prefix(0x0406), "public abstract override ");
    assert_eq!(method_prefix(0x0506), "public abstract ");
    assert_eq!(method_prefix(0x0066), "public sealed override ");
    assert_eq!(method_prefix(0x0146), "public virtual ");
    assert_eq!(method_prefix(0x0044), "protected override ");
    assert_eq!(method_prefix(0x2011), "private static extern ");
    assert_eq!(method_prefix(0x0003), "internal ");
    assert_eq!(method_prefix(0x0000), "");
}

#[test]
fn field_prefix_lists_modifiers_in_order() {
    assert_eq!(field_prefix(0x0006), "public ");
    assert_eq!(field_prefix(0x0056), "public const ");
    assert_eq!(field_prefix(0x0031), "private static readonly ");
    assert_eq!(field_prefix(0x0002), "private protected ");
    assert_eq!(field_prefix(0x0015), "protected internal static ");
    assert_eq!(field_prefix(0x0000), "");
}

#[test]
fn renders_fields_with_and_without_constants() {
    let field = LayoutField {
        index: 3,
        name: "m_value".to_owned(),
        field_type: "bool".to_owned(),
        flags: 0x0001,
        offset: 0x10,
    };
    assert_eq!(write_field(&field, None), "\tprivate bool m_value; // 0x10\n");
    let constant = LayoutField {
        index: 4,
        name: "Red".to_owned(),
        field_type: "Color".to_owned(),
        flags: 0x0056,
        offset: 0,
    };
    assert_eq!(write_field(&constant, Some(-2)), "\tpublic const Color Red = -2; // 0x0\n");
}

#[test]
fn renders_methods_with_their_addresses() {
    let method = LayoutMethod {
        name: "Add".to_owned(),
        return_type: "int".to_owned(),
        method_json_params: vec!["int".to_owned(), "int".to_owned()],
        dump_params: vec!["int a".to_owned(), "int b".to_owned()],
        flags: 0x0016,
        va: 0x1_8000_1ABC,
        rva: 0x1ABC,
    };
    assert_eq!(
        write_method(&method),
        "\n\t// RVA: 0x1abc VA: 0x180001abc\n\tpublic static int Add(int a, int b) { }\n"
    );
    let abstract_method = LayoutMethod {
        name: "Run".to_owned(),
        return_type: "void".to_owned(),
        method_json_params: vec![],
        dump_params: vec![],
        flags: 0x0506,
        va: 0,
        rva: 0,
    };
    assert_eq!(write_method(&abstract_method), "\n\t// RVA: 0x0 VA: 0x0\n\tpublic abstract void Run() { }\n");
}

#[test]
fn enum_constants_are_found_by_name_the_last_one_winning() {
    let values = vec![
        LayoutEnumValue { name: "A".to_owned(), value: 1 },
        LayoutEnumValue { name: "B".to_owned(), value: 2 },
        LayoutEnumValue { name: "A".to_owned(), value: 3 },
    ];
    assert_eq!(find_enum_value(&values, "A"), Some(3));
    assert_eq!(find_enum_value(&values, "B"), Some(2));
    assert_eq!(find_enum_value(&values, "C"), None);
}

#[test]
fn compares_strings_in_code_point_order() {
    assert_eq!(compare_strs("abc", "abd"), -1);
    assert_eq!(compare_strs("abd", "abc"), 1);
    assert_eq!(compare_strs("ab", "abc"), -1);
    assert_eq!(compare_strs("abc", "ab"), 1);
    assert_eq!(compare_strs("same", "same"), 0);
    assert_eq!(compare_strs("", ""), 0);
    assert_eq!(compare_strs("Z", "a"), -1);
}

#[test]
fn method_map_keeps_one_value_per_key() {
    let mut map = MethodMap::new();
    map.insert("b::M()".to_owned(), "0x2".to_owned());
    map.insert("a::M(int)".to_owned(), "0x1".to_owned());
    map.insert("b::M()".to_owned(), "0x3".to_owned());
    assert_eq!(map.len(), 2);
    assert_eq!(
        map.to_pretty_json(),
        Ok("{\n  \"a::M(int)\": \"0x1\",\n  \"b::M()\": \"0x3\"\n}".to_owned())
    );
}

#[test]
fn empty_method_map_renders_as_an_empty_object() {
    let map = MethodMap::new();
    assert_eq!(map.len(), 0);
    assert_eq!(map.to_pretty_json(), Ok("{}".to_owned()));
}

#[test]
fn method_map_json_escapes_keys() {
    let mut map = MethodMap::new();
    map.insert("Q\"uote".to_owned(), "0x0".to_owned());
    assert_eq!(map.to_pretty_json(), Ok("{\n  \"Q\\\"uote\": \"0x0\"\n}".to_owned()));
}

#[test]
fn recognises_metadata_magic_words() {
    let standard = vec![0xAF, 0x1B, 0xB1, 0xFA, 0x18, 0, 0, 0];
    let custom = vec![b'M', b'H', b'Y', 0, 1, 2];
    let other = vec![1, 2, 3, 4];
    assert_eq!(read_u32_le(&standard), Some(0xFAB1_1BAF));
    assert_eq!(read_u32_le(&[1, 2, 3]), None);
    assert!(has_standard_metadata_magic(&standard));
    assert!(!has_standard_metadata_magic(&custom));
    assert!(has_custom_metadata_magic(&custom));
    assert_eq!(metadata_format(&standard), Ok(MetadataFormat::Standard));
    assert_eq!(metadata_format(&custom), Ok(MetadataFormat::Custom));
    assert_eq!(metadata_format(&other), Err(LayoutError::UnsupportedMetadataMagic(0x0403_0201)));
    assert_eq!(metadata_format(&[9]), Err(LayoutError::UnsupportedMetadataMagic(0)));
}

#[test]
fn obfuscated_loading_is_refused_without_the_windows_loader() {
    let files = ObfuscatedFiles {
        game_assembly: "GameAssembly.dll".to_owned(),
        global_path: "global-metadata.dat".to_owned(),
        global_data: vec![b'M', b'H', b'Y', 0],
        startup_path: None,
    };
    assert_eq!(load_obfuscated_metadata(files), Err(LayoutError::UnsupportedPlatform));
}

#[test]
fn loader_output_must_be_standard_metadata() {
    let standard = vec![0xAF, 0x1B, 0xB1, 0xFA, 7];
    assert_eq!(check_loaded_metadata(standard.clone()), Ok(standard));
    assert_eq!(
        check_loaded_metadata(vec![b'M', b'H', b'Y', 0]),
        Err(LayoutError::LoaderOutputNotStandard(0x0059_484D))
    );
    assert_eq!(check_loaded_metadata(vec![]), Err(LayoutError::LoaderOutputNotStandard(0)));
}

#[test]
fn registrations_fall_back_to_the_section_search() {
    assert!(!needs_section_search(Some((0x10, 0x20))));
    assert!(needs_section_search(Some((0x10, 0))));
    assert!(needs_section_search(None));
    assert_eq!(resolve_registrations(Some((0x10, 0x20)), Some(0x99), Some(0x98)), Ok((0x10, 0x20)));
    assert_eq!(resolve_registrations(Some((0x10, 0)), Some(0x99), Some(0x98)), Ok((0x99, 0x98)));
    assert_eq!(resolve_registrations(Some((0x10, 0)), None, Some(0x98)), Ok((0x10, 0x98)));
    assert_eq!(resolve_registrations(None, Some(0x99), None), Err(LayoutError::RegistrationsNotFound));
}

#[test]
fn api_exports_are_recognised_by_prefix() {
    assert!(is_api_export("il2cpp_init"));
    assert!(is_api_export("mono_thread_attach"));
    assert!(!is_api_export("il2cpp"));
    assert!(!is_api_export("DllMain"));
}

#[test]
fn counts_methods_with_bodies() {
    assert_eq!(count_method_pointers(&vec![0, -1, 5, -1, 2]), 3);
    assert_eq!(count_method_pointers(&vec![]), 0);
}

#[test]
fn sections_map_to_virtual_address_segments() {
    assert_eq!(va_segment(0x1000, 0x200, 0x400, 0x1_8000_0000), Ok((0x1_8000_1000, 0x200, 0x400)));
    assert_eq!(va_segment(0x1000, 0, 0, u64::MAX), Err(LayoutError::ArithmeticOverflow));
}

#[test]
fn standard_outputs_use_the_watermark_and_method_keys() {
    assert_eq!(prepend_watermark("class A {}"), "// FirelfyShelter static asm parse\n\nclass A {}");
    assert_eq!(
        standard_method_key("Game.Player", "Move", &vec!["float".to_owned(), "int".to_owned()]),
        "Game.Player::Move(float,int)"
    );
    assert_eq!(standard_method_key("A", "B", &vec![]), "A::B()");
    assert_eq!(pointer_text(0x1ABC), "0x1ABC");
}

#[test]
fn parameter_indices_are_checked() {
    assert_eq!(parameter_index(10, 2), Ok(12));
    assert_eq!(parameter_index(-3, 1), Err(LayoutError::NegativeParameterIndex));
    assert_eq!(parameter_index(i32::MAX, 1), Err(LayoutError::ArithmeticOverflow));
}

#[test]
fn input_paths_take_arguments_before_fallbacks() {
    let paths = InputPaths::from_args(&vec![], "GA.dll".to_owned(), "gm.dat".to_owned(), None);
    assert_eq!(paths.game_assembly, "GA.dll");
    assert_eq!(paths.metadata, "gm.dat");
    assert_eq!(paths.output_dir, "static-output");
    assert_eq!(paths.startup_metadata, None);
    let args = vec!["a".to_owned(), "b".to_owned(), "c".to_owned(), "d".to_owned()];
    let paths = InputPaths::from_args(&args, "GA.dll".to_owned(), "gm.dat".to_owned(), Some("s.dat".to_owned()));
    assert_eq!(paths.game_assembly, "a");
    assert_eq!(paths.metadata, "b");
    assert_eq!(paths.output_dir, "c");
    assert_eq!(paths.startup_metadata, Some("d".to_owned()));
    let paths = InputPaths::from_args(&vec!["a".to_owned()], "GA.dll".to_owned(), "gm.dat".to_owned(), Some("s.dat".to_owned()));
    assert_eq!(paths.metadata, "gm.dat");
    assert_eq!(paths.startup_metadata, Some("s.dat".to_owned()));
}
