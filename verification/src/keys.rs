//! The per-index keys that obfuscate metadata table entries, and the decoders
//! of the individual entry fields that use them.
use vstd::prelude::*;

use crate::bytes::{read_u32_at, spec_read_u32};
use crate::errors::LayoutError;

verus! {

/// Key of the startup image table entry `index`.
pub open spec fn spec_image_key(index: u32) -> u32 {
    ((index.wrapping_mul(0xE07C) ^ 0x7538_159E).wrapping_mul(0x120D_0703) ^ 0x6032_C9D3).wrapping_add(
        0x2EBB_0085,
    )
}

/// Key of the global method table entry `index`.
pub open spec fn spec_method_key(index: u64) -> u32 {
    ((((index.wrapping_mul(0x31E1) ^ 0x3391_4937).wrapping_mul(0x2C03_F17D) >> 23u64).wrapping_mul(
        0x540C_C9F4,
    ) >> 21u64) as u32).wrapping_add(0x71BC_7861)
}

/// Key of the global parameter table entry `index`.
pub open spec fn spec_parameter_key(index: u64) -> u32 {
    ((index.wrapping_mul(0x072E_1D74_B12B).wrapping_add(0x0191_1D05_AFF5) >> 11u64) as u32).wrapping_mul(
        0x58B8_70A2,
    ).wrapping_add(0x83CF_7B44)
}

/// Key of field `local_index` of a type whose encoded field start is `raw_field_start`.
pub open spec fn spec_field_key(raw_field_start: u32, local_index: u32) -> u32 {
    0xAD41_6BB9u32.wrapping_sub(raw_field_start.wrapping_mul(0x2C5D_CB00)).wrapping_add(
        local_index.wrapping_mul(0xD3A2_3500),
    )
}

/// Key of the global generic parameter table entry `index`.
pub open spec fn spec_generic_parameter_key(index: u64) -> u32 {
    ((((0x09DC_5DB7_1F0E_B440u64.wrapping_add(0x617F_E3CC_452Cu64.wrapping_mul(index)) >> 9u64).wrapping_add(
        0x2AD8_C631,
    ) ^ 0x5278_374D).wrapping_mul(0x4AAD_BD4B)) >> 15u64) as u32
}

/// Key of the global generic container table entry `index`.
pub open spec fn spec_generic_container_key(index: u64) -> u32 {
    (((((0x0A64_CAD6_0FA0_52C0u64.wrapping_add(0x3D69_13E0_AF40u64.wrapping_mul(index)) >> 23u64).wrapping_mul(
        0x770E_3FE8,
    )) >> 11u64).wrapping_mul(0x2C9A_0EA3)) >> 23u64) as u32
}

/// Key of the startup assembly link table entry `index`.
pub open spec fn spec_assembly_link_key(index: u64) -> u32 {
    (((((index.wrapping_mul(0x964E).wrapping_add(0x1E4C_D4BD)) ^ 0x5D38_EA25).wrapping_mul(0x582B_0E07)
        ^ 0x4922_44BA).wrapping_mul(0x6846_21B5)) >> 19u64) as u32
}

/// Key of the startup assembly name table entry `index`.
pub open spec fn spec_assembly_name_key(index: u64) -> u32 {
    ((((index.wrapping_mul(0x1EB4_DFA5_55DF).wrapping_add(0x2354_CA5D_B8A6_FF)) >> 13u64).wrapping_mul(
        0x305D_EFD3,
    ).wrapping_add(0x016D_7189_FD9C)) >> 9u64) as u32
}

/// Arithmetic (sign-propagating) right shift of the bits of `value`.
pub open spec fn spec_sar_u32(value: u32, bits: u32) -> u32 {
    ((value as i32) >> bits) as u32
}

pub fn image_key(index: u32) -> (r: u32)
    ensures
        r == spec_image_key(index),
{
    ((index.wrapping_mul(0xE07C) ^ 0x7538_159E).wrapping_mul(0x120D_0703) ^ 0x6032_C9D3).wrapping_add(
        0x2EBB_0085,
    )
}

pub fn method_key(index: u64) -> (r: u32)
    ensures
        r == spec_method_key(index),
{
    let value = ((index.wrapping_mul(0x31E1) ^ 0x3391_4937).wrapping_mul(0x2C03_F17D)
        >> 23u64).wrapping_mul(0x540C_C9F4) >> 21u64;
    (value as u32).wrapping_add(0x71BC_7861)
}

pub fn parameter_key(index: u64) -> (r: u32)
    ensures
        r == spec_parameter_key(index),
{
    let value = index.wrapping_mul(0x072E_1D74_B12B).wrapping_add(0x0191_1D05_AFF5) >> 11u64;
    (value as u32).wrapping_mul(0x58B8_70A2).wrapping_add(0x83CF_7B44)
}

pub fn field_key(raw_field_start: u32, local_index: u32) -> (r: u32)
    ensures
        r == spec_field_key(raw_field_start, local_index),
{
    0xAD41_6BB9u32.wrapping_sub(raw_field_start.wrapping_mul(0x2C5D_CB00)).wrapping_add(
        local_index.wrapping_mul(0xD3A2_3500),
    )
}

pub fn generic_parameter_key(index: u64) -> (r: u32)
    ensures
        r == spec_generic_parameter_key(index),
{
    let value = (0x09DC_5DB7_1F0E_B440u64.wrapping_add(0x617F_E3CC_452Cu64.wrapping_mul(index))
        >> 9u64).wrapping_add(0x2AD8_C631) ^ 0x5278_374D;
    (value.wrapping_mul(0x4AAD_BD4B) >> 15u64) as u32
}

pub fn generic_container_key(index: u64) -> (r: u32)
    ensures
        r == spec_generic_container_key(index),
{
    let value = (((0x0A64_CAD6_0FA0_52C0u64.wrapping_add(0x3D69_13E0_AF40u64.wrapping_mul(index))
        >> 23u64).wrapping_mul(0x770E_3FE8)) >> 11u64).wrapping_mul(0x2C9A_0EA3) >> 23u64;
    value as u32
}

pub fn assembly_link_key(index: u64) -> (r: u32)
    ensures
        r == spec_assembly_link_key(index),
{
    let value = index.wrapping_mul(0x964E).wrapping_add(0x1E4C_D4BD) ^ 0x5D38_EA25;
    let value = value.wrapping_mul(0x582B_0E07) ^ 0x4922_44BA;
    (value.wrapping_mul(0x6846_21B5) >> 19u64) as u32
}

pub fn assembly_name_key(index: u64) -> (r: u32)
    ensures
        r == spec_assembly_name_key(index),
{
    let value = index.wrapping_mul(0x1EB4_DFA5_55DF).wrapping_add(0x2354_CA5D_B8A6_FF) >> 13u64;
    (value.wrapping_mul(0x305D_EFD3).wrapping_add(0x016D_7189_FD9C) >> 9u64) as u32
}

/// Shifts `value` right by `bits` as a signed 32-bit integer, keeping the sign.
pub fn sar_u32(value: u32, bits: u32) -> (r: u32)
    requires
        bits < 32,
    ensures
        r == spec_sar_u32(value, bits),
{
    ((value as i32) >> bits) as u32
}

/// Maps the value of a successful read through `f`, keeping any error.
pub open spec fn map_read<A, B>(r: Result<A, LayoutError>, f: spec_fn(A) -> B) -> Result<B, LayoutError> {
    match r {
        Ok(a) => Ok(f(a)),
        Err(e) => Err(e),
    }
}

/// String index of the startup image entry at `entry_offset` (entry `image_index`).
pub open spec fn spec_image_name_index(data: Seq<u8>, entry_offset: int, image_index: u32) -> Result<u32, LayoutError> {
    map_read(spec_read_u32(data, entry_offset + 0x0C), |v: u32| v ^ spec_image_key(image_index) ^ 0x4D64_8371)
}

/// First type index of the startup image entry at `entry_offset`.
pub open spec fn spec_image_type_start(data: Seq<u8>, entry_offset: int, image_index: u32) -> Result<u32, LayoutError> {
    map_read(
        spec_read_u32(data, entry_offset + 0x14),
        |v: u32| (v ^ spec_image_key(image_index) ^ 0x7BAB_EEA0) ^ 0x235A_EAF5,
    )
}

/// Type count of the startup image entry at `entry_offset`.
pub open spec fn spec_image_type_count(data: Seq<u8>, entry_offset: int, image_index: u32) -> Result<u32, LayoutError> {
    map_read(
        spec_read_u32(data, entry_offset + 0x04),
        |v: u32| (v ^ spec_image_key(image_index) ^ 0x10FE_A394) ^ 0x7C06_D18C,
    )
}

pub fn decode_image_name_index(data: &[u8], entry_offset: usize, image_index: usize) -> (r: Result<u32, LayoutError>)
    ensures
        r == spec_image_name_index(data@, entry_offset as int, image_index as u32),
{
    let key = image_key(#[verifier::truncate] (image_index as u32));
    let v = read_u32_at(data, entry_offset, 0x0C)?;
    Ok(v ^ key ^ 0x4D64_8371)
}

pub fn decode_image_type_start(data: &[u8], entry_offset: usize, image_index: usize) -> (r: Result<u32, LayoutError>)
    ensures
        r == spec_image_type_start(data@, entry_offset as int, image_index as u32),
{
    let key = image_key(#[verifier::truncate] (image_index as u32));
    let v = read_u32_at(data, entry_offset, 0x14)?;
    Ok((v ^ key ^ 0x7BAB_EEA0) ^ 0x235A_EAF5)
}

pub fn decode_image_type_count(data: &[u8], entry_offset: usize, image_index: usize) -> (r: Result<u32, LayoutError>)
    ensures
        r == spec_image_type_count(data@, entry_offset as int, image_index as u32),
{
    let key = image_key(#[verifier::truncate] (image_index as u32));
    let v = read_u32_at(data, entry_offset, 0x04)?;
    Ok((v ^ key ^ 0x10FE_A394) ^ 0x7C06_D18C)
}

} // verus!
