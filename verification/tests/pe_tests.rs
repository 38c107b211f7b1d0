use firefly_static_parser::errors::LayoutError;
use firefly_static_parser::layout_model::{
    discover_method_attribute_xor, method_attribute_xor_pattern, parent_type_index, rip_relative_target_rva,
    va_to_rva,
};
use firefly_static_parser::pe_image::PeImage;
use firefly_static_parser::static_layout::lea_target_rva;

const IMAGE_BASE: u64 = 0x1_8000_0000;

fn put_u16(data: &mut Vec<u8>, offset: usize, value: u16) {
    data[offset..offset + 2].copy_from_slice(&value.to_le_bytes());
}

fn put_u32(data: &mut Vec<u8>, offset: usize, value: u32) {
    data[offset..offset + 4].copy_from_slice(&value.to_le_bytes());
}

fn put_u64(data: &mut Vec<u8>, offset: usize, value: u64) {
    data[offset..offset + 8].copy_from_slice(&value.to_le_bytes());
}

/// A PE32+ image with one section: RVA 0x1000..0x1200 at file offset 0x200.
fn sample_image_bytes() -> Vec<u8> {
    let mut data = vec![0u8; 0x400];
    data[0] = b'M';
    data[1] = b'Z';
    put_u32(&mut data, 0x3C, 0x80);
    data[0x80..0x84].copy_from_slice(b"PE\0\0");
    put_u16(&mut data, 0x84 + 2, 1);
    put_u16(&mut data, 0x84 + 16, 0xF0);
    put_u16(&mut data, 0x98, 0x20B);
    put_u64(&mut data, 0x98 + 24, IMAGE_BASE);
    let section = 0x98 + 0xF0;
    put_u32(&mut data, section + 8, 0x200);
    put_u32(&mut data, section + 12, 0x1000);
    put_u32(&mut data, section + 16, 0x200);
    put_u32(&mut data, section + 20, 0x200);
    data
}

fn sample_image() -> PeImage {
    match PeImage::parse(sample_image_bytes()) {
        Ok(image) => image,
        Err(e) => panic!("sample image does not parse: {:?}", e),
    }
}

#[test]
fn parses_headers_of_a_pe32_plus_image() {
    let image = sample_image();
    assert_eq!(image.image_base(), IMAGE_BASE);
}

#[test]
fn refuses_buffers_without_signatures() {
    assert!(matches!(PeImage::parse(vec![0u8; 0x100]), Err(LayoutError::NotPeImage)));
    let mut data = sample_image_bytes();
    data[0x81] = b'X';
    assert!(matches!(PeImage::parse(data), Err(LayoutError::InvalidPeSignature)));
    let mut data = sample_image_bytes();
    put_u16(&mut data, 0x98, 0x999);
    assert!(matches!(PeImage::parse(data), Err(LayoutError::UnsupportedOptionalHeader)));
}

#[test]
fn maps_rvas_through_the_section_table() {
    let image = sample_image();
    assert_eq!(image.rva_to_offset(0x1010), Ok(0x210));
    assert_eq!(image.rva_to_offset(0x11FF), Ok(0x3FF));
    assert_eq!(image.rva_to_offset(0x1200), Err(LayoutError::RvaOutsideSections(0x1200)));
    assert_eq!(image.rva_to_offset(0x0FFF), Err(LayoutError::RvaOutsideSections(0x0FFF)));
}

#[test]
fn reads_little_endian_values_at_rvas() {
    let mut data = sample_image_bytes();
    put_u64(&mut data, 0x240, 0x1122_3344_5566_7788);
    let image = PeImage::parse(data).unwrap();
    assert_eq!(image.read_u16_rva(0x1040), Ok(0x7788));
    assert_eq!(image.read_u32_rva(0x1040), Ok(0x5566_7788));
    assert_eq!(image.read_u64_rva(0x1040), Ok(0x1122_3344_5566_7788));
    assert_eq!(image.read_i32_rva(0x1044), Ok(0x1122_3344));
    assert_eq!(image.read_bytes_rva(0x1040, 2), Ok(&[0x88u8, 0x77u8][..]));
    assert_eq!(image.read_u64_rva(0x11FC), Err(LayoutError::OutOfRange));
}

#[test]
fn finds_the_method_attribute_xor_key() {
    let mut data = sample_image_bytes();
    let pattern = [0x66u8, 0x0F, 0x6F, 0x05, 0xD8, 0x00, 0x00, 0x00, 0x4C, 0x89, 0xC5, 0x4C, 0x89, 0x44, 0x24, 0x38];
    data[0x220..0x230].copy_from_slice(&pattern);
    put_u16(&mut data, 0x300, 0xBEEF);
    let image = PeImage::parse(data).unwrap();
    assert_eq!(image.scan_pattern(&method_attribute_xor_pattern()), vec![0x1020]);
    assert_eq!(rip_relative_target_rva(&image, 0x1020, 8), Ok(0x1100));
    assert_eq!(discover_method_attribute_xor(&image), Ok(0xBEEF));
}

#[test]
fn reports_a_missing_method_attribute_xor_key() {
    let image = sample_image();
    assert_eq!(discover_method_attribute_xor(&image), Err(LayoutError::MethodAttributeXorNotFound));
}

#[test]
fn scan_pattern_treats_none_as_a_wildcard() {
    let mut data = sample_image_bytes();
    data[0x250..0x253].copy_from_slice(&[0xAA, 0x01, 0xCC]);
    data[0x260..0x263].copy_from_slice(&[0xAA, 0x02, 0xCC]);
    let image = PeImage::parse(data).unwrap();
    assert_eq!(image.scan_pattern(&[Some(0xAA), None, Some(0xCC)]), vec![0x1050, 0x1060]);
    assert_eq!(image.scan_pattern(&[]), Vec::<u32>::new());
}

#[test]
fn resolves_rip_relative_lea_targets() {
    let mut data = sample_image_bytes();
    data[0x240..0x243].copy_from_slice(&[0x48, 0x8D, 0x05]);
    put_u32(&mut data, 0x243, 0x0000_0100);
    data[0x250..0x253].copy_from_slice(&[0x48, 0x8B, 0x05]);
    let image = PeImage::parse(data).unwrap();
    assert_eq!(lea_target_rva(&image, 0x1040), Ok(0x1147));
    assert_eq!(lea_target_rva(&image, 0x1050), Err(LayoutError::NotRipRelativeLea));
}

#[test]
fn rip_relative_targets_outside_the_rva_space_are_refused() {
    let mut data = sample_image_bytes();
    put_u32(&mut data, 0x224, 0x8000_0000);
    let image = PeImage::parse(data).unwrap();
    assert_eq!(rip_relative_target_rva(&image, 0x1020, 8), Err(LayoutError::TargetOutOfRange));
    assert_eq!(rip_relative_target_rva(&image, 0, 3), Err(LayoutError::ArithmeticOverflow));
}

#[test]
fn converts_virtual_addresses_to_rvas() {
    assert_eq!(va_to_rva(IMAGE_BASE + 0x1234, IMAGE_BASE), Ok(0x1234));
    assert_eq!(va_to_rva(IMAGE_BASE - 1, IMAGE_BASE), Err(LayoutError::VaBelowImageBase));
    assert_eq!(va_to_rva(IMAGE_BASE + 0x1_0000_0000, IMAGE_BASE), Err(LayoutError::RvaTooLarge));
}

#[test]
fn decodes_parent_type_indices() {
    assert_eq!(parent_type_index(0x48F9_5546), None);
    assert_eq!(parent_type_index(0x48F9_5548), None);
    assert_eq!(parent_type_index(0x48FF_2B27), None);
    assert_eq!(parent_type_index(0x48F9_6832), None);
    assert_eq!(parent_type_index(0x48F9_5547 + 42), Some(42));
    assert_eq!(parent_type_index(3), Some(3u32.wrapping_sub(0x48F9_5547)));
}

#[test]
fn finds_rip_relative_references_to_a_target() {
    let mut data = sample_image_bytes();
    put_u32(&mut data, 0x210, 0x3000 - 0x1014);
    let image = match PeImage::parse(data) {
        Ok(image) => image,
        Err(e) => panic!("sample image does not parse: {:?}", e),
    };
    assert_eq!(image.scan_rip_relative_xrefs(IMAGE_BASE + 0x3000), vec![0x1010]);
    assert_eq!(image.scan_rip_relative_xrefs(IMAGE_BASE + 0x5000), Vec::<u32>::new());
}
