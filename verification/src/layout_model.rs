//! The metadata model: images, type definitions, fields and methods decoded from
//! the obfuscated global and startup metadata and the game assembly's tables.
use std::collections::HashMap;
use vstd::prelude::*;
use vstd::string::StringExecFns;

use crate::bytes::{
    checked_read, entry_offset, in_range, le_i32, le_u16, le_u32, read_i32, read_i32_at, read_u16,
    read_u16_at, read_u32, read_u32_at, spec_entry_offset, spec_read_i32, spec_read_u32, widen,
};
use crate::errors::LayoutError;
use crate::keys::{
    decode_image_name_index, decode_image_type_count, decode_image_type_start, spec_image_name_index,
    spec_image_type_count, spec_image_type_start, field_key, generic_container_key, generic_parameter_key, method_key, parameter_key, spec_field_key,
    spec_generic_container_key, spec_generic_parameter_key, spec_method_key, spec_parameter_key,
};
use crate::pe_image::{
    spec_read_i32_rva, spec_read_u16_rva, spec_read_u32_rva, spec_read_u64_rva, spec_scan_pattern, PeImage, PeImageView,
};
use crate::static_layout::{inspect_game_assembly, spec_inspect_game_assembly, spec_rva_add, StaticLayout};
use crate::strings::{decode_string_raw, spec_decode_string_raw, string_result_view};
use crate::text::{
    decimal, fallback_generic_parameter_names, generic_arity, join, join_with, method_json_alias,
    push_char, push_decimal, shorten_declaration_reference, spec_fallback_generic_parameter_names,
    spec_generic_arity, spec_method_json_alias, spec_shorten_declaration_reference,
    spec_strip_generic_arity, str_eq, strip_generic_arity,
};

verus! {

broadcast use vstd::std_specs::hash::group_hash_axioms;

/// Size of a startup image table entry.
pub const IMAGE_ENTRY_SIZE: usize = 40;

/// Size of a global type definition entry.
pub const TYPE_ENTRY_SIZE: usize = 0x46;

/// Size of a global field entry.
pub const FIELD_ENTRY_SIZE: usize = 8;

/// Size of a global method entry.
pub const METHOD_ENTRY_SIZE: usize = 26;

/// Size of a global parameter entry.
pub const PARAMETER_ENTRY_SIZE: usize = 8;

/// Size of a nested type table entry.
pub const NESTED_TYPE_ENTRY_SIZE: usize = 4;

/// Size of an interface type table entry.
pub const INTERFACE_TYPE_ENTRY_SIZE: usize = 4;

/// Size of a generic class entry in the startup metadata.
pub const GENERIC_CLASS_ENTRY_SIZE: usize = 8;

/// Size of a generic container entry.
pub const GENERIC_CONTAINER_ENTRY_SIZE: usize = 16;

/// Size of a generic instantiation entry in the game assembly.
pub const GENERIC_INST_ENTRY_SIZE: usize = 0x10;

/// Size of a generic parameter entry.
pub const GENERIC_PARAMETER_ENTRY_SIZE: usize = 14;

/// Size of a field default value table entry.
pub const FIELD_DEFAULT_VALUE_ENTRY_SIZE: usize = 12;

/// Xor key of the type attribute word.
pub const TYPE_ATTRIBUTE_KEY: u32 = 0x0112_7490;

/// Subtracted from an encoded base type to give the parent's Il2CppType index.
pub const TYPE_PARENT_KEY: u32 = 0x48F9_5547;

/// Encoded base type of a type without a parent.
pub const TYPE_BASE_NONE: u32 = 0x48F9_5546;

/// Encoded base type of a type whose parent is `System.Object`.
pub const TYPE_BASE_OBJECT: u32 = 0x48F9_5548;

/// Encoded base type of a value type.
pub const TYPE_BASE_VALUE_TYPE: u32 = 0x48FF_2B27;

/// Encoded base type of an enum.
pub const TYPE_BASE_ENUM: u32 = 0x48F9_6832;

/// How deep type references (pointers, arrays, generic arguments) are followed. An
/// Il2CppType index addresses its entry with a 32-bit offset of eight bytes per entry, so
/// there are at most `2^29` of them: a chain of references longer than this revisits an
/// index, that is, it is a cycle, along which a name has no end.
pub const TYPE_NAME_DEPTH: u32 = 0x2000_0001;

/// An image (assembly module) and the range of type definitions it owns.
#[derive(Clone, Debug)]
pub struct LayoutImage {
    pub name: String,
    pub type_start: usize,
    pub type_count: usize,
}

pub struct LayoutImageView {
    pub name: Seq<char>,
    pub type_start: usize,
    pub type_count: usize,
}

impl View for LayoutImage {
    type V = LayoutImageView;

    open spec fn view(&self) -> LayoutImageView {
        LayoutImageView { name: self.name@, type_start: self.type_start, type_count: self.type_count }
    }
}

/// A decoded type definition.
#[derive(Clone, Debug)]
pub struct LayoutTypeDef {
    pub namespace: String,
    pub name: String,
    pub field_start: Option<usize>,
    pub field_count: usize,
    pub raw_field_start: u32,
    pub method_start: Option<usize>,
    pub method_count: usize,
    pub interface_start: Option<usize>,
    pub interface_count: usize,
    pub parent_type_index: Option<u32>,
    pub flags: u32,
    pub generic_container: Option<u32>,
    pub declaring_type: Option<usize>,
    pub is_value_type: bool,
    pub is_enum: bool,
}

pub struct LayoutTypeDefView {
    pub namespace: Seq<char>,
    pub name: Seq<char>,
    pub field_start: Option<usize>,
    pub field_count: usize,
    pub raw_field_start: u32,
    pub method_start: Option<usize>,
    pub method_count: usize,
    pub interface_start: Option<usize>,
    pub interface_count: usize,
    pub parent_type_index: Option<u32>,
    pub flags: u32,
    pub generic_container: Option<u32>,
    pub declaring_type: Option<usize>,
    pub is_value_type: bool,
    pub is_enum: bool,
}

impl View for LayoutTypeDef {
    type V = LayoutTypeDefView;

    open spec fn view(&self) -> LayoutTypeDefView {
        LayoutTypeDefView {
            namespace: self.namespace@,
            name: self.name@,
            field_start: self.field_start,
            field_count: self.field_count,
            raw_field_start: self.raw_field_start,
            method_start: self.method_start,
            method_count: self.method_count,
            interface_start: self.interface_start,
            interface_count: self.interface_count,
            parent_type_index: self.parent_type_index,
            flags: self.flags,
            generic_container: self.generic_container,
            declaring_type: self.declaring_type,
            is_value_type: self.is_value_type,
            is_enum: self.is_enum,
        }
    }
}

impl LayoutTypeDef {
    /// A copy of this type definition.
    pub fn duplicate(&self) -> (r: LayoutTypeDef)
        ensures
            r@ == self@,
    {
        LayoutTypeDef {
            namespace: self.namespace.clone(),
            name: self.name.clone(),
            field_start: self.field_start,
            field_count: self.field_count,
            raw_field_start: self.raw_field_start,
            method_start: self.method_start,
            method_count: self.method_count,
            interface_start: self.interface_start,
            interface_count: self.interface_count,
            parent_type_index: self.parent_type_index,
            flags: self.flags,
            generic_container: self.generic_container,
            declaring_type: self.declaring_type,
            is_value_type: self.is_value_type,
            is_enum: self.is_enum,
        }
    }
}

/// A decoded field of a type.
#[derive(Clone, Debug)]
pub struct LayoutField {
    pub index: usize,
    pub name: String,
    pub field_type: String,
    pub flags: u16,
    pub offset: u32,
}

pub struct LayoutFieldView {
    pub index: usize,
    pub name: Seq<char>,
    pub field_type: Seq<char>,
    pub flags: u16,
    pub offset: u32,
}

impl View for LayoutField {
    type V = LayoutFieldView;

    open spec fn view(&self) -> LayoutFieldView {
        LayoutFieldView {
            index: self.index,
            name: self.name@,
            field_type: self.field_type@,
            flags: self.flags,
            offset: self.offset,
        }
    }
}

/// A named constant of an enum.
#[derive(Clone, Debug)]
pub struct LayoutEnumValue {
    pub name: String,
    pub value: i32,
}

pub struct LayoutEnumValueView {
    pub name: Seq<char>,
    pub value: i32,
}

impl View for LayoutEnumValue {
    type V = LayoutEnumValueView;

    open spec fn view(&self) -> LayoutEnumValueView {
        LayoutEnumValueView { name: self.name@, value: self.value }
    }
}

/// A decoded method: its name, rendered signature types, attributes and address.
#[derive(Clone, Debug)]
pub struct LayoutMethod {
    pub name: String,
    pub return_type: String,
    pub method_json_params: Vec<String>,
    pub dump_params: Vec<String>,
    pub flags: u16,
    pub va: u64,
    pub rva: u64,
}

pub struct LayoutMethodView {
    pub name: Seq<char>,
    pub return_type: Seq<char>,
    pub method_json_params: Seq<Seq<char>>,
    pub dump_params: Seq<Seq<char>>,
    pub flags: u16,
    pub va: u64,
    pub rva: u64,
}

impl View for LayoutMethod {
    type V = LayoutMethodView;

    open spec fn view(&self) -> LayoutMethodView {
        LayoutMethodView {
            name: self.name@,
            return_type: self.return_type@,
            method_json_params: self.method_json_params.deep_view(),
            dump_params: self.dump_params.deep_view(),
            flags: self.flags,
            va: self.va,
            rva: self.rva,
        }
    }
}

/// One entry of the game assembly's Il2CppType table: a payload and the type kind and flag bits.
#[derive(Clone, Copy, Debug, PartialEq, Eq, Structural)]
pub struct Il2CppTypeEntry {
    pub data: u32,
    pub kind: u8,
    pub bits: u8,
}

/// Where the field default value table lives and how many entries it has.
#[derive(Clone, Copy, Debug, PartialEq, Eq, Structural)]
pub struct FieldDefaultValueTable {
    pub table_offset: u32,
    pub data_offset: u32,
    pub count: u32,
}

/// Decoded metadata, with the buffers it was decoded from.
pub struct LayoutMetadata {
    layout: StaticLayout,
    global_data: Vec<u8>,
    startup_data: Vec<u8>,
    pe: PeImage,
    image_base: u64,
    il2cpp_type_table_rva: u32,
    method_pointer_table_rva: u32,
    generic_inst_table_rva: u32,
    method_attribute_xor: u16,
    field_default_values: FieldDefaultValueTable,
    images: Vec<LayoutImage>,
    types: Vec<LayoutTypeDef>,
    string_cache: HashMap<u32, String>,
}

/// What `LayoutMetadata` stands for (the string cache aside, which only remembers decodings).
pub struct LayoutMetadataView {
    pub layout: StaticLayout,
    pub global_data: Seq<u8>,
    pub startup_data: Seq<u8>,
    pub pe: PeImageView,
    pub image_base: u64,
    pub il2cpp_type_table_rva: u32,
    pub method_pointer_table_rva: u32,
    pub generic_inst_table_rva: u32,
    pub method_attribute_xor: u16,
    pub field_default_values: FieldDefaultValueTable,
    pub images: Seq<LayoutImageView>,
    pub types: Seq<LayoutTypeDefView>,
}

impl View for LayoutMetadata {
    type V = LayoutMetadataView;

    closed spec fn view(&self) -> LayoutMetadataView {
        LayoutMetadataView {
            layout: self.layout,
            global_data: self.global_data@,
            startup_data: self.startup_data@,
            pe: self.pe@,
            image_base: self.image_base,
            il2cpp_type_table_rva: self.il2cpp_type_table_rva,
            method_pointer_table_rva: self.method_pointer_table_rva,
            generic_inst_table_rva: self.generic_inst_table_rva,
            method_attribute_xor: self.method_attribute_xor,
            field_default_values: self.field_default_values,
            images: self.images@.map_values(|i: LayoutImage| i@),
            types: self.types@.map_values(|t: LayoutTypeDef| t@),
        }
    }
}

/// `va - image_base` as a 32-bit RVA.
pub open spec fn spec_va_to_rva(va: u64, image_base: u64) -> Result<u32, LayoutError> {
    if va < image_base {
        Err(LayoutError::VaBelowImageBase)
    } else if va - image_base > u32::MAX {
        Err(LayoutError::RvaTooLarge)
    } else {
        Ok((va - image_base) as u32)
    }
}

/// Converts a virtual address to an RVA relative to `image_base`.
pub fn va_to_rva(va: u64, image_base: u64) -> (r: Result<u32, LayoutError>)
    ensures
        r == spec_va_to_rva(va, image_base),
{
    if va < image_base {
        return Err(LayoutError::VaBelowImageBase);
    }
    let rva = va - image_base;
    if rva > u32::MAX as u64 {
        return Err(LayoutError::RvaTooLarge);
    }
    Ok(rva as u32)
}

/// The type definition at `index`.
pub open spec fn spec_type_def(m: LayoutMetadataView, index: int) -> Result<LayoutTypeDefView, LayoutError> {
    if 0 <= index < m.types.len() {
        Ok(m.types[index])
    } else {
        Err(LayoutError::TypeIndexOutOfRange(index as usize))
    }
}

/// The metadata string that `index` names.
pub open spec fn spec_decode_string(m: LayoutMetadataView, index: u32) -> Result<Seq<char>, LayoutError> {
    spec_decode_string_raw(m.global_data, m.layout, index)
}

/// The Il2CppType table entry `type_index`.
pub open spec fn spec_read_il2cpp_type_raw(m: LayoutMetadataView, type_index: u32) -> Result<u64, LayoutError> {
    if type_index * 8 > u32::MAX {
        Err(LayoutError::ArithmeticOverflow)
    } else {
        match spec_rva_add(m.il2cpp_type_table_rva, (type_index * 8) as u32) {
            Err(e) => Err(e),
            Ok(rva) => spec_read_u64_rva(m.pe, rva),
        }
    }
}

/// The Il2CppType table entry `type_index`, split into payload, kind and flag bits.
pub open spec fn spec_read_il2cpp_type(m: LayoutMetadataView, type_index: u32) -> Result<Il2CppTypeEntry, LayoutError> {
    match spec_read_il2cpp_type_raw(m, type_index) {
        Err(e) => Err(e),
        Ok(raw) => Ok(Il2CppTypeEntry { data: raw as u32, kind: (raw >> 48u64) as u8, bits: (raw >> 56u64) as u8 }),
    }
}

/// The attribute word of the Il2CppType entry `type_index`.
pub open spec fn spec_il2cpp_type_attrs(m: LayoutMetadataView, type_index: u32) -> Result<u16, LayoutError> {
    match spec_read_il2cpp_type_raw(m, type_index) {
        Err(e) => Err(e),
        Ok(raw) => Ok((raw >> 32u64) as u16),
    }
}

/// The Il2CppType index that a pointer into the table designates.
pub open spec fn spec_il2cpp_type_pointer_to_index(m: LayoutMetadataView, type_va: u64) -> Result<u32, LayoutError> {
    match spec_va_to_rva(type_va, m.image_base) {
        Err(e) => Err(e),
        Ok(type_rva) => if type_rva < m.il2cpp_type_table_rva {
            Err(LayoutError::TypePointerBeforeTable)
        } else if (type_rva - m.il2cpp_type_table_rva) % 8 != 0 {
            Err(LayoutError::MisalignedTypePointer)
        } else {
            Ok(((type_rva - m.il2cpp_type_table_rva) / 8) as u32)
        },
    }
}

/// Type indices from `index` out through its declaring types, innermost first,
/// allowing at most `budget` of them before a cycle is reported.
pub open spec fn spec_declaring_chain(types: Seq<LayoutTypeDefView>, index: int, budget: nat) -> Result<
    Seq<int>,
    LayoutError,
>
    decreases budget,
{
    if !(0 <= index < types.len()) {
        Err(LayoutError::TypeIndexOutOfRange(index as usize))
    } else if budget == 0 {
        Err(LayoutError::DeclaringTypeCycle(index as usize))
    } else {
        match types[index].declaring_type {
            None => Ok(seq![index]),
            Some(parent) => match spec_declaring_chain(types, parent as int, (budget - 1) as nat) {
                Err(e) => Err(e),
                Ok(rest) => Ok(seq![index] + rest),
            },
        }
    }
}

/// The qualified name of an outermost type: `Namespace.Name`, or `Name` without a namespace.
pub open spec fn qualified_root_name(t: LayoutTypeDefView) -> Seq<char> {
    if t.namespace.len() == 0 {
        t.name
    } else {
        t.namespace + seq!['.'] + t.name
    }
}

/// The names along `chain` (innermost first) joined outermost first with dots; with
/// `qualified`, the outermost name carries its namespace.
pub open spec fn chain_name(types: Seq<LayoutTypeDefView>, chain: Seq<int>, qualified: bool) -> Seq<char>
    decreases chain.len(),
{
    if chain.len() <= 1 {
        if chain.len() == 0 {
            Seq::empty()
        } else if qualified {
            qualified_root_name(types[chain[0]])
        } else {
            types[chain[0]].name
        }
    } else {
        chain_name(types, chain.skip(1), qualified) + seq!['.'] + types[chain[0]].name
    }
}

/// The dotted name of type `index` through its declaring types.
pub open spec fn spec_nested_type_name(m: LayoutMetadataView, index: int, qualified: bool) -> Result<
    Seq<char>,
    LayoutError,
> {
    match spec_declaring_chain(m.types, index, m.types.len()) {
        Err(LayoutError::DeclaringTypeCycle(_)) => Err(LayoutError::DeclaringTypeCycle(index as usize)),
        Err(e) => Err(e),
        Ok(chain) => Ok(chain_name(m.types, chain, qualified)),
    }
}

/// `Namespace.Outer.Inner` for type `index`.
pub open spec fn spec_type_def_full_name(m: LayoutMetadataView, index: int) -> Result<Seq<char>, LayoutError> {
    spec_nested_type_name(m, index, true)
}

/// `Outer.Inner` for type `index`, without the namespace.
pub open spec fn spec_type_def_short_name(m: LayoutMetadataView, index: int) -> Result<Seq<char>, LayoutError> {
    spec_nested_type_name(m, index, false)
}

/// The chain grows by one step per declaring type until the root.
proof fn lemma_chain_step(types: Seq<LayoutTypeDefView>, index: int, budget: nat)
    requires
        0 <= index < types.len(),
        budget > 0,
        types[index].declaring_type is Some,
    ensures
        spec_declaring_chain(types, index, budget) == match spec_declaring_chain(
            types,
            types[index].declaring_type->0 as int,
            (budget - 1) as nat,
        ) {
            Err(e) => Err(e),
            Ok(rest) => Ok::<Seq<int>, LayoutError>(seq![index] + rest),
        },
{
}

/// Every element of a chain indexes the type table.
proof fn lemma_chain_in_bounds(types: Seq<LayoutTypeDefView>, index: int, budget: nat)
    ensures
        spec_declaring_chain(types, index, budget) is Ok ==> {
            let chain = spec_declaring_chain(types, index, budget)->Ok_0;
            &&& chain.len() >= 1
            &&& chain[0] == index
            &&& forall|k: int| 0 <= k < chain.len() ==> 0 <= #[trigger] chain[k] < types.len()
        },
    decreases budget,
{
    if 0 <= index < types.len() && budget > 0 {
        if let Some(parent) = types[index].declaring_type {
            lemma_chain_in_bounds(types, parent as int, (budget - 1) as nat);
            if let Ok(rest) = spec_declaring_chain(types, parent as int, (budget - 1) as nat) {
                let chain = seq![index] + rest;
                assert forall|k: int| 0 <= k < chain.len() implies 0 <= #[trigger] chain[k] < types.len() by {
                    if k > 0 {
                        assert(chain[k] == rest[k - 1]);
                    }
                }
            }
        }
    }
}

impl LayoutMetadata {
    /// The decoded string cache agrees with the string payload.
    pub closed spec fn wf(&self) -> bool {
        forall|k: u32|
            #[trigger] self.string_cache@.contains_key(k) ==> spec_decode_string(self@, k) == Ok::<
                Seq<char>,
                LayoutError,
            >(self.string_cache@[k]@)
    }

    /// The images, in table order.
    pub fn images(&self) -> (r: &[LayoutImage])
        ensures
            r@.map_values(|i: LayoutImage| i@) == self@.images,
    {
        self.images.as_slice()
    }

    /// The type definition at `index`.
    pub fn type_def(&self, index: usize) -> (r: Result<&LayoutTypeDef, LayoutError>)
        ensures
            match r {
                Ok(t) => spec_type_def(self@, index as int) == Ok::<LayoutTypeDefView, LayoutError>(t@),
                Err(e) => spec_type_def(self@, index as int) == Err::<LayoutTypeDefView, LayoutError>(e),
            },
    {
        if index < self.types.len() {
            Ok(&self.types[index])
        } else {
            Err(LayoutError::TypeIndexOutOfRange(index))
        }
    }

    /// Decodes the metadata string `index`, remembering it for later calls.
    pub fn decode_string(&mut self, index: u32) -> (r: Result<String, LayoutError>)
        requires
            old(self).wf(),
        ensures
            final(self).wf(),
            final(self)@ == old(self)@,
            string_result_view(r) == spec_decode_string(old(self)@, index),
    {
        match self.string_cache.get(&index) {
            Some(value) => {
                return Ok(value.clone());
            },
            None => {},
        }
        let value = decode_string_raw(self.global_data.as_slice(), &self.layout, index)?;
        let ghost before = self@;
        self.string_cache.insert(index, value.clone());
        assert(self@ == before);
        Ok(value)
    }

    fn read_il2cpp_type_raw(&self, type_index: u32) -> (r: Result<u64, LayoutError>)
        ensures
            r == spec_read_il2cpp_type_raw(self@, type_index),
    {
        let scaled = match type_index.checked_mul(8) {
            Some(v) => v,
            None => {
                return Err(LayoutError::ArithmeticOverflow);
            },
        };
        let rva = match self.il2cpp_type_table_rva.checked_add(scaled) {
            Some(v) => v,
            None => {
                return Err(LayoutError::ArithmeticOverflow);
            },
        };
        self.pe.read_u64_rva(rva)
    }

    fn read_il2cpp_type(&self, type_index: u32) -> (r: Result<Il2CppTypeEntry, LayoutError>)
        ensures
            r == spec_read_il2cpp_type(self@, type_index),
    {
        let raw = self.read_il2cpp_type_raw(type_index)?;
        Ok(Il2CppTypeEntry { data: raw as u32, kind: (raw >> 48u64) as u8, bits: (raw >> 56u64) as u8 })
    }

    fn il2cpp_type_attrs(&self, type_index: u32) -> (r: Result<u16, LayoutError>)
        ensures
            r == spec_il2cpp_type_attrs(self@, type_index),
    {
        let raw = self.read_il2cpp_type_raw(type_index)?;
        Ok((raw >> 32u64) as u16)
    }

    fn il2cpp_type_pointer_to_index(&self, type_va: u64) -> (r: Result<u32, LayoutError>)
        ensures
            r == spec_il2cpp_type_pointer_to_index(self@, type_va),
    {
        let type_rva = va_to_rva(type_va, self.image_base)?;
        if type_rva < self.il2cpp_type_table_rva {
            return Err(LayoutError::TypePointerBeforeTable);
        }
        let byte_offset = type_rva - self.il2cpp_type_table_rva;
        if byte_offset % 8 != 0 {
            return Err(LayoutError::MisalignedTypePointer);
        }
        Ok(byte_offset / 8)
    }

    /// Type indices from `type_index` out through its declaring types, innermost first.
    fn declaring_chain(&self, type_index: usize) -> (r: Result<Vec<usize>, LayoutError>)
        ensures
            match r {
                Ok(chain) => spec_declaring_chain(self@.types, type_index as int, self@.types.len())
                    == Ok::<Seq<int>, LayoutError>(chain@.map_values(|i: usize| i as int)),
                Err(e) => spec_declaring_chain(self@.types, type_index as int, self@.types.len())
                    == Err::<Seq<int>, LayoutError>(e),
            },
    {
        let ghost types = self@.types;
        let ghost n = types.len();
        let mut chain: Vec<usize> = Vec::new();
        let mut current = type_index;
        if current >= self.types.len() {
            return Err(LayoutError::TypeIndexOutOfRange(current));
        }
        assert(self.types@.len() == types.len());
        loop
            invariant
                types == self@.types,
                n == types.len(),
                0 <= current < types.len(),
                chain@.len() < n,
                spec_declaring_chain(types, type_index as int, n) == match spec_declaring_chain(
                    types,
                    current as int,
                    (n - chain@.len()) as nat,
                ) {
                    Err(e) => Err(e),
                    Ok(rest) => Ok::<Seq<int>, LayoutError>(chain@.map_values(|i: usize| i as int) + rest),
                },
            decreases n - chain@.len(),
        {
            let ghost before = chain@.map_values(|i: usize| i as int);
            assert(types[current as int] == self.types@[current as int]@);
            match self.types[current].declaring_type {
                None => {
                    chain.push(current);
                    assert(chain@.map_values(|i: usize| i as int) =~= before + seq![current as int]);
                    return Ok(chain);
                },
                Some(parent) => {
                    chain.push(current);
                    assert(chain@.map_values(|i: usize| i as int) =~= before + seq![current as int]);
                    proof {
                        let budget = (n - before.len()) as nat;
                        lemma_chain_step(types, current as int, budget);
                        match spec_declaring_chain(types, parent as int, (budget - 1) as nat) {
                            Err(e) => {},
                            Ok(rest) => {
                                assert(before + (seq![current as int] + rest) =~= (before + seq![current as int]) + rest);
                            },
                        }
                    }
                    if parent >= self.types.len() {
                        return Err(LayoutError::TypeIndexOutOfRange(parent));
                    }
                    if chain.len() >= self.types.len() {
                        return Err(LayoutError::DeclaringTypeCycle(parent));
                    }
                    current = parent;
                },
            }
        }
    }

    /// The dotted name of `type_index` through its declaring types (qualified by namespace
    /// when `qualified`).
    fn nested_type_name(&self, type_index: usize, qualified: bool) -> (r: Result<String, LayoutError>)
        ensures
            string_result_view(r) == spec_nested_type_name(self@, type_index as int, qualified),
    {
        let chain = match self.declaring_chain(type_index) {
            Ok(chain) => chain,
            Err(LayoutError::DeclaringTypeCycle(_)) => {
                return Err(LayoutError::DeclaringTypeCycle(type_index));
            },
            Err(e) => {
                return Err(e);
            },
        };
        let ghost types = self@.types;
        let ghost chain_int = chain@.map_values(|i: usize| i as int);
        proof {
            lemma_chain_in_bounds(types, type_index as int, types.len());
        }
        let last = chain.len() - 1;
        assert(chain_int[last as int] == chain@[last as int] as int);
        assert(types.len() == self.types@.len());
        let root = &self.types[chain[last]];
        proof {
            reveal_strlit(".");
        }
        assert(types[chain_int[last as int]] == root@);
        let mut name = if qualified && !root.namespace.as_str().is_empty() {
            let mut qualified_name = root.namespace.clone();
            qualified_name.append(".");
            qualified_name.append(root.name.as_str());
            qualified_name
        } else {
            root.name.clone()
        };
        assert(name@ == chain_name(types, chain_int.skip(last as int), qualified)) by {
            assert(chain_int.skip(last as int).len() == 1);
            assert(chain_int.skip(last as int)[0] == chain_int[last as int]);
        }
        let mut k = last;
        while k > 0
            invariant
                k <= last,
                last == chain@.len() - 1,
                chain_int == chain@.map_values(|i: usize| i as int),
                types == self@.types,
                types.len() == self.types@.len(),
                forall|j: int| 0 <= j < chain_int.len() ==> 0 <= #[trigger] chain_int[j] < types.len(),
                name@ == chain_name(types, chain_int.skip(k as int), qualified),
            decreases k,
        {
            k -= 1;
            assert(chain_int[k as int] == chain@[k as int] as int);
            let inner = &self.types[chain[k]];
            assert(types[chain_int[k as int]] == inner@);
            proof {
                reveal_strlit(".");
            }
            let ghost previous = name@;
            name.append(".");
            name.append(inner.name.as_str());
            assert(chain_int.skip(k as int).skip(1) =~= chain_int.skip(k + 1));
            assert(chain_int.skip(k as int)[0] == chain_int[k as int]);
            assert(name@ =~= previous + seq!['.'] + inner.name@);
        }
        assert(chain_int.skip(0) =~= chain_int);
        Ok(name)
    }

    /// `Namespace.Outer.Inner` for the type definition `type_index`.
    pub fn type_def_full_name(&self, type_index: usize) -> (r: Result<String, LayoutError>)
        ensures
            string_result_view(r) == spec_type_def_full_name(self@, type_index as int),
    {
        self.nested_type_name(type_index, true)
    }

    /// `Outer.Inner` for the type definition `type_index`.
    fn type_def_short_name(&self, type_index: usize) -> (r: Result<String, LayoutError>)
        ensures
            string_result_view(r) == spec_type_def_short_name(self@, type_index as int),
    {
        self.nested_type_name(type_index, false)
    }
}


/// The name of a built-in element type kind.
pub open spec fn builtin_type_name(kind: u8) -> Option<Seq<char>> {
    if kind == 0x01 {
        Some("System.Void"@)
    } else if kind == 0x02 {
        Some("System.Boolean"@)
    } else if kind == 0x03 {
        Some("System.Char"@)
    } else if kind == 0x04 {
        Some("System.SByte"@)
    } else if kind == 0x05 {
        Some("System.Byte"@)
    } else if kind == 0x06 {
        Some("System.Int16"@)
    } else if kind == 0x07 {
        Some("System.UInt16"@)
    } else if kind == 0x08 {
        Some("System.Int32"@)
    } else if kind == 0x09 {
        Some("System.UInt32"@)
    } else if kind == 0x0A {
        Some("System.Int64"@)
    } else if kind == 0x0B {
        Some("System.UInt64"@)
    } else if kind == 0x0C {
        Some("System.Single"@)
    } else if kind == 0x0D {
        Some("System.Double"@)
    } else if kind == 0x10 {
        Some("System.TypedReference"@)
    } else if kind == 0x0E {
        Some("System.String"@)
    } else if kind == 0x18 {
        Some("System.IntPtr"@)
    } else if kind == 0x19 {
        Some("System.UIntPtr"@)
    } else {
        None
    }
}

fn builtin_name(kind: u8) -> (r: Option<&'static str>)
    ensures
        match r {
            Some(s) => builtin_type_name(kind) == Some(s@),
            None => builtin_type_name(kind) is None,
        },
{
    if kind == 0x01 {
        Some("System.Void")
    } else if kind == 0x02 {
        Some("System.Boolean")
    } else if kind == 0x03 {
        Some("System.Char")
    } else if kind == 0x04 {
        Some("System.SByte")
    } else if kind == 0x05 {
        Some("System.Byte")
    } else if kind == 0x06 {
        Some("System.Int16")
    } else if kind == 0x07 {
        Some("System.UInt16")
    } else if kind == 0x08 {
        Some("System.Int32")
    } else if kind == 0x09 {
        Some("System.UInt32")
    } else if kind == 0x0A {
        Some("System.Int64")
    } else if kind == 0x0B {
        Some("System.UInt64")
    } else if kind == 0x0C {
        Some("System.Single")
    } else if kind == 0x0D {
        Some("System.Double")
    } else if kind == 0x10 {
        Some("System.TypedReference")
    } else if kind == 0x0E {
        Some("System.String")
    } else if kind == 0x18 {
        Some("System.IntPtr")
    } else if kind == 0x19 {
        Some("System.UIntPtr")
    } else {
        None
    }
}

/// The name of generic parameter `parameter_index`, if its entry exists and names something.
pub open spec fn spec_generic_parameter_name(m: LayoutMetadataView, parameter_index: u32) -> Result<
    Option<Seq<char>>,
    LayoutError,
> {
    let entry = m.layout.payload_offset + m.layout.global_generic_parameter_table_offset + parameter_index
        * 14;
    if entry + 14 > m.global_data.len() {
        Ok(None)
    } else {
        let name_index = le_u32(m.global_data, entry).wrapping_sub(
            spec_generic_parameter_key(parameter_index as u64),
        ).wrapping_add(0xBB77_7EDD);
        match spec_decode_string(m, name_index) {
            Err(e) => Err(e),
            Ok(name) => if name.len() == 0 {
                Ok(None)
            } else {
                Ok(Some(name))
            },
        }
    }
}

/// Appends `suffix` to a successful name.
pub open spec fn with_suffix(r: Result<Seq<char>, LayoutError>, suffix: Seq<char>) -> Result<Seq<char>, LayoutError> {
    match r {
        Ok(name) => Ok(name + suffix),
        Err(e) => Err(e),
    }
}

/// The name found, or `fallback` when there is none.
pub open spec fn or_fallback(r: Result<Option<Seq<char>>, LayoutError>, fallback: Seq<char>) -> Result<
    Seq<char>,
    LayoutError,
> {
    match r {
        Ok(Some(name)) => Ok(name),
        Ok(None) => Ok(fallback),
        Err(e) => Err(e),
    }
}

/// The rendered name of Il2CppType `type_index`, following nested references at most
/// `fuel` levels deep; `method_json_style` selects C# keywords for built-in types.
pub open spec fn spec_il2cpp_type_name(
    m: LayoutMetadataView,
    type_index: u32,
    method_json_style: bool,
    fuel: nat,
) -> Result<Seq<char>, LayoutError>
    decreases fuel, 1nat,
{
    if fuel == 0 {
        Err(LayoutError::TypeNestingTooDeep)
    } else {
        match spec_read_il2cpp_type(m, type_index) {
            Err(e) => Err(e),
            Ok(entry) => {
                let base: Result<Seq<char>, LayoutError> = if builtin_type_name(entry.kind) is Some {
                    Ok(builtin_type_name(entry.kind)->0)
                } else if entry.kind == 0x11 || entry.kind == 0x12 || entry.kind == 0x1C {
                    spec_type_def_full_name(m, entry.data as int)
                } else if entry.kind == 0x0F {
                    with_suffix(
                        spec_il2cpp_type_name(m, entry.data, method_json_style, (fuel - 1) as nat),
                        "*"@,
                    )
                } else if entry.kind == 0x13 || entry.kind == 0x1E {
                    or_fallback(
                        spec_generic_parameter_name(m, entry.data),
                        seq!['T'] + decimal(entry.data as nat),
                    )
                } else if entry.kind == 0x1D {
                    with_suffix(
                        spec_il2cpp_type_name(m, entry.data, method_json_style, (fuel - 1) as nat),
                        "[]"@,
                    )
                } else if entry.kind == 0x15 {
                    or_fallback(
                        spec_generic_inst_name(m, entry.data, method_json_style, fuel),
                        "GenericInst_"@ + decimal(entry.data as nat),
                    )
                } else {
                    Ok(
                        "Il2CppType_0x"@ + crate::text::hexadecimal(entry.kind as nat, true) + seq!['_']
                            + decimal(entry.data as nat),
                    )
                };
                match base {
                    Err(e) => Err(e),
                    Ok(name) => {
                        let marked = if entry.bits & 0x40 != 0 {
                            name.push('&')
                        } else {
                            name
                        };
                        Ok(
                            if method_json_style {
                                spec_method_json_alias(marked)
                            } else {
                                marked
                            },
                        )
                    },
                }
            },
        }
    }
}

/// The rendered names of the first `count` arguments in the argument table at `arg_table_rva`.
pub open spec fn spec_generic_args(
    m: LayoutMetadataView,
    arg_table_rva: u32,
    count: nat,
    method_json_style: bool,
    fuel: nat,
) -> Result<Seq<Seq<char>>, LayoutError>
    decreases fuel, count + 2,
{
    if count == 0 {
        Ok(Seq::empty())
    } else {
        match spec_generic_args(m, arg_table_rva, (count - 1) as nat, method_json_style, fuel) {
            Err(e) => Err(e),
            Ok(previous) => {
                let index = count - 1;
                if index * 8 > u32::MAX {
                    Err(LayoutError::ArithmeticOverflow)
                } else {
                    match spec_rva_add(arg_table_rva, (index * 8) as u32) {
                        Err(e) => Err(e),
                        Ok(rva) => match spec_read_u64_rva(m.pe, rva) {
                            Err(e) => Err(e),
                            Ok(arg_va) => match spec_il2cpp_type_pointer_to_index(m, arg_va) {
                                Err(e) => Err(e),
                                Ok(arg_type) => match spec_il2cpp_type_name(m, arg_type, method_json_style, fuel) {
                                    Err(e) => Err(e),
                                    Ok(name) => Ok(previous.push(name)),
                                },
                            },
                        },
                    }
                }
            },
        }
    }
}

/// Where a generic class entry's instantiation lives: the generic type definition, the
/// argument table and the argument count.
#[derive(Clone, Copy, Debug, PartialEq, Eq, Structural)]
pub struct GenericInstHeader {
    pub type_def_index: u32,
    pub arg_table_rva: u32,
    pub arg_count: u32,
}

/// The instantiation that generic class entry `generic_class_index` describes, or `None`
/// when the entry is missing or not instantiated.
pub open spec fn spec_generic_inst_header(m: LayoutMetadataView, generic_class_index: u32) -> Result<
    Option<GenericInstHeader>,
    LayoutError,
> {
    let class_offset = m.layout.startup_section_164_offset + generic_class_index * 8;
    if class_offset + 8 > m.startup_data.len() {
        Ok(None)
    } else {
        let type_def_index = le_u32(m.startup_data, class_offset);
        let class_inst_index = le_i32(m.startup_data, class_offset + 4);
        if class_inst_index < 0 {
            Ok(None)
        } else if class_inst_index * 16 > u32::MAX {
            Err(LayoutError::ArithmeticOverflow)
        } else {
            match spec_rva_add(m.generic_inst_table_rva, (class_inst_index * 16) as u32) {
                Err(e) => Err(e),
                Ok(inst_rva) => match spec_read_u32_rva(m.pe, inst_rva) {
                    Err(e) => Err(e),
                    Ok(arg_count) => match spec_rva_add(inst_rva, 8) {
                        Err(e) => Err(e),
                        Ok(table_pointer_rva) => match spec_read_u64_rva(m.pe, table_pointer_rva) {
                            Err(e) => Err(e),
                            Ok(arg_table_va) => match spec_va_to_rva(arg_table_va, m.image_base) {
                                Err(e) => Err(e),
                                Ok(arg_table_rva) => Ok(
                                    Some(GenericInstHeader { type_def_index, arg_table_rva, arg_count }),
                                ),
                            },
                        },
                    },
                },
            }
        }
    }
}

/// `Base<Arg1,Arg2>`: the generic arity stripped from `base`, then the arguments.
pub open spec fn generic_inst_text(base: Seq<char>, args: Seq<Seq<char>>) -> Seq<char> {
    spec_strip_generic_arity(base) + seq!['<'] + join_with(args, ","@) + seq!['>']
}

/// `Base<Arg1,Arg2>` for generic class entry `generic_class_index`, or `None` when the entry
/// is missing or not instantiated.
pub open spec fn spec_generic_inst_name(
    m: LayoutMetadataView,
    generic_class_index: u32,
    method_json_style: bool,
    fuel: nat,
) -> Result<Option<Seq<char>>, LayoutError>
    decreases fuel, 0nat,
{
    match spec_generic_inst_header(m, generic_class_index) {
        Err(e) => Err(e),
        Ok(None) => Ok(None),
        Ok(Some(header)) => if fuel == 0 {
            Err(LayoutError::TypeNestingTooDeep)
        } else {
            match spec_generic_args(
                m,
                header.arg_table_rva,
                header.arg_count as nat,
                method_json_style,
                (fuel - 1) as nat,
            ) {
                Err(e) => Err(e),
                Ok(args) => match spec_type_def_full_name(m, header.type_def_index as int) {
                    Err(e) => Err(e),
                    Ok(base) => Ok(Some(generic_inst_text(base, args))),
                },
            }
        },
    }
}

impl LayoutMetadata {
    fn generic_parameter_name(&mut self, parameter_index: u32) -> (r: Result<Option<String>, LayoutError>)
        requires
            old(self).wf(),
        ensures
            final(self).wf(),
            final(self)@ == old(self)@,
            option_string_result_view(r) == spec_generic_parameter_name(old(self)@, parameter_index),
    {
        let ghost entry_int = self.layout.payload_offset + self.layout.global_generic_parameter_table_offset
            + parameter_index * 14;
        let base = match (self.layout.payload_offset as usize).checked_add(
            self.layout.global_generic_parameter_table_offset as usize,
        ) {
            Some(v) => v,
            None => {
                assert(self.global_data@.len() == self.global_data.len());
                return Ok(None);
            },
        };
        let entry = match entry_offset(self.global_data.as_slice(), base, parameter_index as usize, 14, 14) {
            Ok(v) => v,
            Err(_) => {
                return Ok(None);
            },
        };
        let key = generic_parameter_key(parameter_index as u64);
        let raw = match read_u32(self.global_data.as_slice(), entry) {
            Ok(v) => v,
            Err(_) => 0,
        };
        let name_index = raw.wrapping_sub(key).wrapping_add(0xBB77_7EDD);
        let name = self.decode_string(name_index)?;
        if name.as_str().is_empty() {
            Ok(None)
        } else {
            Ok(Some(name))
        }
    }
}

/// An optional string result seen through the characters of the string.
pub open spec fn option_string_result_view(r: Result<Option<String>, LayoutError>) -> Result<
    Option<Seq<char>>,
    LayoutError,
> {
    match r {
        Ok(Some(s)) => Ok(Some(s@)),
        Ok(None) => Ok(None),
        Err(e) => Err(e),
    }
}


/// Once a prefix of the argument list fails, every longer prefix fails the same way.
proof fn lemma_generic_args_error(
    m: LayoutMetadataView,
    arg_table_rva: u32,
    failing: nat,
    count: nat,
    method_json_style: bool,
    fuel: nat,
    e: LayoutError,
)
    requires
        failing <= count,
        spec_generic_args(m, arg_table_rva, failing, method_json_style, fuel) == Err::<
            Seq<Seq<char>>,
            LayoutError,
        >(e),
    ensures
        spec_generic_args(m, arg_table_rva, count, method_json_style, fuel) == Err::<
            Seq<Seq<char>>,
            LayoutError,
        >(e),
    decreases count - failing,
{
    if failing < count {
        lemma_generic_args_error(m, arg_table_rva, failing + 1, count, method_json_style, fuel, e);
    }
}

impl LayoutMetadata {
    /// Renders Il2CppType `type_index`, following nested references at most `fuel` levels.
    fn type_name_at_depth(&mut self, type_index: u32, method_json_style: bool, fuel: u32) -> (r: Result<
        String,
        LayoutError,
    >)
        requires
            old(self).wf(),
        ensures
            final(self).wf(),
            final(self)@ == old(self)@,
            string_result_view(r) == spec_il2cpp_type_name(old(self)@, type_index, method_json_style, fuel as nat),
        decreases fuel, 1nat,
    {
        if fuel == 0 {
            return Err(LayoutError::TypeNestingTooDeep);
        }
        let entry = self.read_il2cpp_type(type_index)?;
        let kind = entry.kind;
        let mut name: String = match builtin_name(kind) {
            Some(builtin) => builtin.to_owned(),
            None => {
                if kind == 0x11 || kind == 0x12 || kind == 0x1C {
                    self.type_def_full_name(entry.data as usize)?
                } else if kind == 0x0F {
                    let mut inner = self.type_name_at_depth(entry.data, method_json_style, fuel - 1)?;
                    inner.append("*");
                    inner
                } else if kind == 0x13 || kind == 0x1E {
                    match self.generic_parameter_name(entry.data)? {
                        Some(parameter) => parameter,
                        None => {
                            let mut fallback = String::new();
                            push_char(&mut fallback, 'T');
                            push_decimal(&mut fallback, entry.data as u64);
                            assert(fallback@ =~= seq!['T'] + decimal(entry.data as nat));
                            fallback
                        },
                    }
                } else if kind == 0x1D {
                    let mut inner = self.type_name_at_depth(entry.data, method_json_style, fuel - 1)?;
                    inner.append("[]");
                    inner
                } else if kind == 0x15 {
                    match self.generic_inst_name(entry.data, method_json_style, fuel)? {
                        Some(instance) => instance,
                        None => {
                            let mut fallback = String::new();
                            fallback.append("GenericInst_");
                            push_decimal(&mut fallback, entry.data as u64);
                            assert(fallback@ =~= "GenericInst_"@ + decimal(entry.data as nat));
                            fallback
                        },
                    }
                } else {
                    let mut unknown = String::new();
                    unknown.append("Il2CppType_0x");
                    crate::text::push_hex(&mut unknown, kind as u64, true);
                    push_char(&mut unknown, '_');
                    push_decimal(&mut unknown, entry.data as u64);
                    assert(unknown@ =~= "Il2CppType_0x"@ + crate::text::hexadecimal(kind as nat, true)
                        + seq!['_'] + decimal(entry.data as nat));
                    unknown
                }
            },
        };
        if entry.bits & 0x40 != 0 {
            push_char(&mut name, '&');
        }
        if method_json_style {
            let aliased = method_json_alias(name.as_str()).to_owned();
            name = aliased;
        }
        Ok(name)
    }

    /// Renders the first `count` arguments of the argument table at `arg_table_rva`.
    fn generic_args(&mut self, arg_table_rva: u32, count: usize, method_json_style: bool, fuel: u32) -> (r:
        Result<Vec<String>, LayoutError>)
        requires
            old(self).wf(),
        ensures
            final(self).wf(),
            final(self)@ == old(self)@,
            match r {
                Ok(names) => spec_generic_args(old(self)@, arg_table_rva, count as nat, method_json_style, fuel as nat)
                    == Ok::<Seq<Seq<char>>, LayoutError>(names.deep_view()),
                Err(e) => spec_generic_args(old(self)@, arg_table_rva, count as nat, method_json_style, fuel as nat)
                    == Err::<Seq<Seq<char>>, LayoutError>(e),
            },
        decreases fuel, 2nat,
    {
        let ghost m = self@;
        let mut names: Vec<String> = Vec::new();
        assert(names.deep_view() =~= Seq::<Seq<char>>::empty());
        let mut index: usize = 0;
        while index < count
            invariant
                index <= count,
                self.wf(),
                self@ == m,
                m == old(self)@,
                spec_generic_args(m, arg_table_rva, index as nat, method_json_style, fuel as nat) == Ok::<
                    Seq<Seq<char>>,
                    LayoutError,
                >(names.deep_view()),
            decreases count - index,
        {
            let ghost next = (index + 1) as nat;
            let step: Result<String, LayoutError> = if index > (u32::MAX / 8) as usize {
                Err(LayoutError::ArithmeticOverflow)
            } else {
                let scaled = (index as u32) * 8;
                match arg_table_rva.checked_add(scaled) {
                    None => Err(LayoutError::ArithmeticOverflow),
                    Some(rva) => match self.pe.read_u64_rva(rva) {
                        Err(e) => Err(e),
                        Ok(arg_va) => match self.il2cpp_type_pointer_to_index(arg_va) {
                            Err(e) => Err(e),
                            Ok(arg_type) => self.type_name_at_depth(arg_type, method_json_style, fuel),
                        },
                    },
                }
            };
            assert(spec_generic_args(m, arg_table_rva, next, method_json_style, fuel as nat) == match step {
                Ok(name) => Ok::<Seq<Seq<char>>, LayoutError>(names.deep_view().push(name@)),
                Err(e) => Err::<Seq<Seq<char>>, LayoutError>(e),
            });
            match step {
                Err(e) => {
                    proof {
                        lemma_generic_args_error(m, arg_table_rva, next, count as nat, method_json_style, fuel as nat, e);
                    }
                    return Err(e);
                },
                Ok(name) => {
                    let ghost before = names.deep_view();
                    names.push(name);
                    assert(names.deep_view() =~= before.push(name@));
                },
            }
            index += 1;
        }
        Ok(names)
    }

    fn generic_inst_header(&self, generic_class_index: u32) -> (r: Result<Option<GenericInstHeader>, LayoutError>)
        ensures
            r == spec_generic_inst_header(self@, generic_class_index),
    {
        let class_offset = match entry_offset(
            self.startup_data.as_slice(),
            self.layout.startup_section_164_offset as usize,
            generic_class_index as usize,
            8,
            8,
        ) {
            Ok(v) => v,
            Err(_) => {
                return Ok(None);
            },
        };
        let type_def_index = match read_u32(self.startup_data.as_slice(), class_offset) {
            Ok(v) => v,
            Err(_) => 0,
        };
        let class_inst_index = match read_i32_at(self.startup_data.as_slice(), class_offset, 4) {
            Ok(v) => v,
            Err(_) => 0,
        };
        if class_inst_index < 0 {
            return Ok(None);
        }
        let scaled = match (class_inst_index as u32).checked_mul(16) {
            Some(v) => v,
            None => {
                return Err(LayoutError::ArithmeticOverflow);
            },
        };
        let inst_rva = match self.generic_inst_table_rva.checked_add(scaled) {
            Some(v) => v,
            None => {
                return Err(LayoutError::ArithmeticOverflow);
            },
        };
        let arg_count = self.pe.read_u32_rva(inst_rva)?;
        let table_pointer_rva = match inst_rva.checked_add(8) {
            Some(v) => v,
            None => {
                return Err(LayoutError::ArithmeticOverflow);
            },
        };
        let arg_table_va = self.pe.read_u64_rva(table_pointer_rva)?;
        let arg_table_rva = va_to_rva(arg_table_va, self.image_base)?;
        Ok(Some(GenericInstHeader { type_def_index, arg_table_rva, arg_count }))
    }

    /// `Base<Arg1,Arg2>` for generic class entry `generic_class_index`.
    fn generic_inst_name(&mut self, generic_class_index: u32, method_json_style: bool, fuel: u32) -> (r:
        Result<Option<String>, LayoutError>)
        requires
            old(self).wf(),
        ensures
            final(self).wf(),
            final(self)@ == old(self)@,
            option_string_result_view(r) == spec_generic_inst_name(old(self)@, generic_class_index, method_json_style, fuel as nat),
        decreases fuel, 0nat,
    {
        let header = match self.generic_inst_header(generic_class_index)? {
            None => {
                return Ok(None);
            },
            Some(h) => h,
        };
        if fuel == 0 {
            return Err(LayoutError::TypeNestingTooDeep);
        }
        let args = self.generic_args(header.arg_table_rva, header.arg_count as usize, method_json_style, fuel - 1)?;
        let base = self.type_def_full_name(header.type_def_index as usize)?;
        Ok(Some(render_generic_inst(base.as_str(), &args)))
    }

    /// Renders Il2CppType `type_index` as a C# type name; `method_json_style` selects C#
    /// keywords for the built-in types.
    pub fn il2cpp_type_name(&mut self, type_index: u32, method_json_style: bool) -> (r: Result<String, LayoutError>)
        requires
            old(self).wf(),
        ensures
            final(self).wf(),
            final(self)@ == old(self)@,
            string_result_view(r) == spec_il2cpp_type_name(old(self)@, type_index, method_json_style, TYPE_NAME_DEPTH as nat),
    {
        self.type_name_at_depth(type_index, method_json_style, TYPE_NAME_DEPTH)
    }
}


/// A type name found with `f1` levels of nesting is the same with any `f2 >= f1`.
proof fn lemma_type_name_fuel(m: LayoutMetadataView, type_index: u32, style: bool, f1: nat, f2: nat)
    requires
        f1 <= f2,
        spec_il2cpp_type_name(m, type_index, style, f1) != Err::<Seq<char>, LayoutError>(
            LayoutError::TypeNestingTooDeep,
        ),
    ensures
        spec_il2cpp_type_name(m, type_index, style, f2) == spec_il2cpp_type_name(m, type_index, style, f1),
    decreases f1, 1nat,
{
    if f1 > 0 {
        if let Ok(entry) = spec_read_il2cpp_type(m, type_index) {
            if builtin_type_name(entry.kind) is Some {
            } else if entry.kind == 0x11 || entry.kind == 0x12 || entry.kind == 0x1C {
            } else if entry.kind == 0x0F || entry.kind == 0x1D {
                if spec_il2cpp_type_name(m, entry.data, style, (f1 - 1) as nat) != Err::<Seq<char>, LayoutError>(
                    LayoutError::TypeNestingTooDeep,
                ) {
                    lemma_type_name_fuel(m, entry.data, style, (f1 - 1) as nat, (f2 - 1) as nat);
                }
            } else if entry.kind == 0x15 {
                if spec_generic_inst_name(m, entry.data, style, f1) != Err::<Option<Seq<char>>, LayoutError>(
                    LayoutError::TypeNestingTooDeep,
                ) {
                    lemma_generic_inst_fuel(m, entry.data, style, f1, f2);
                }
            }
        }
    }
}

/// A generic instantiation name found with `f1` levels of nesting is the same with any `f2 >= f1`.
proof fn lemma_generic_inst_fuel(m: LayoutMetadataView, generic_class_index: u32, style: bool, f1: nat, f2: nat)
    requires
        f1 <= f2,
        spec_generic_inst_name(m, generic_class_index, style, f1) != Err::<Option<Seq<char>>, LayoutError>(
            LayoutError::TypeNestingTooDeep,
        ),
    ensures
        spec_generic_inst_name(m, generic_class_index, style, f2) == spec_generic_inst_name(
            m,
            generic_class_index,
            style,
            f1,
        ),
    decreases f1, 0nat,
{
    if let Ok(Some(header)) = spec_generic_inst_header(m, generic_class_index) {
        if f1 > 0 {
            if spec_generic_args(m, header.arg_table_rva, header.arg_count as nat, style, (f1 - 1) as nat)
                != Err::<Seq<Seq<char>>, LayoutError>(LayoutError::TypeNestingTooDeep) {
                lemma_generic_args_fuel(
                    m,
                    header.arg_table_rva,
                    header.arg_count as nat,
                    style,
                    (f1 - 1) as nat,
                    (f2 - 1) as nat,
                );
            }
        }
    }
}

/// Generic argument names found with `f1` levels of nesting are the same with any `f2 >= f1`.
proof fn lemma_generic_args_fuel(
    m: LayoutMetadataView,
    arg_table_rva: u32,
    count: nat,
    style: bool,
    f1: nat,
    f2: nat,
)
    requires
        f1 <= f2,
        spec_generic_args(m, arg_table_rva, count, style, f1) != Err::<Seq<Seq<char>>, LayoutError>(
            LayoutError::TypeNestingTooDeep,
        ),
    ensures
        spec_generic_args(m, arg_table_rva, count, style, f2) == spec_generic_args(
            m,
            arg_table_rva,
            count,
            style,
            f1,
        ),
    decreases f1, count + 2,
{
    if count > 0 {
        if spec_generic_args(m, arg_table_rva, (count - 1) as nat, style, f1) != Err::<
            Seq<Seq<char>>,
            LayoutError,
        >(LayoutError::TypeNestingTooDeep) {
            lemma_generic_args_fuel(m, arg_table_rva, (count - 1) as nat, style, f1, f2);
        }
        let index = count - 1;
        if index * 8 <= u32::MAX {
            if let Ok(rva) = spec_rva_add(arg_table_rva, (index * 8) as u32) {
                if let Ok(arg_va) = spec_read_u64_rva(m.pe, rva) {
                    if let Ok(arg_type) = spec_il2cpp_type_pointer_to_index(m, arg_va) {
                        if spec_il2cpp_type_name(m, arg_type, style, f1) != Err::<Seq<char>, LayoutError>(
                            LayoutError::TypeNestingTooDeep,
                        ) {
                            lemma_type_name_fuel(m, arg_type, style, f1, f2);
                        }
                    }
                }
            }
        }
    }
}

/// The name of an array type (kind `0x1D`) is its element's name followed by `[]`, and that
/// of a pointer type (kind `0x0F`) its target's name followed by `*`; then `&` for a
/// by-reference type, and the C# aliases in method-JSON style. This holds wherever the
/// element's own name is found within the nesting budget.
pub proof fn lemma_array_and_pointer_type_names(m: LayoutMetadataView, type_index: u32, style: bool)
    requires
        spec_read_il2cpp_type(m, type_index) matches Ok(entry) && (entry.kind == 0x0F || entry.kind == 0x1D)
            && spec_il2cpp_type_name(m, entry.data, style, (TYPE_NAME_DEPTH - 1) as nat) != Err::<
            Seq<char>,
            LayoutError,
        >(LayoutError::TypeNestingTooDeep),
    ensures
        ({
            let entry = spec_read_il2cpp_type(m, type_index)->Ok_0;
            let suffix = if entry.kind == 0x1D {
                "[]"@
            } else {
                "*"@
            };
            spec_il2cpp_type_name(m, type_index, style, TYPE_NAME_DEPTH as nat) == match spec_il2cpp_type_name(
                m,
                entry.data,
                style,
                TYPE_NAME_DEPTH as nat,
            ) {
                Ok(element) => {
                    let named = element + suffix;
                    let marked = if entry.bits & 0x40 != 0 {
                        named.push('&')
                    } else {
                        named
                    };
                    Ok(
                        if style {
                            spec_method_json_alias(marked)
                        } else {
                            marked
                        },
                    )
                },
                Err(e) => Err(e),
            }
        }),
{
    let entry = spec_read_il2cpp_type(m, type_index)->Ok_0;
    lemma_type_name_fuel(m, entry.data, style, (TYPE_NAME_DEPTH - 1) as nat, TYPE_NAME_DEPTH as nat);
    assert(builtin_type_name(entry.kind) is None);
}

/// `Base<Arg1,Arg2>` from a generic type's full name and its rendered arguments.
fn render_generic_inst(base: &str, args: &Vec<String>) -> (r: String)
    ensures
        r@ == generic_inst_text(base@, args.deep_view()),
{
    let mut name = strip_generic_arity(base);
    push_char(&mut name, '<');
    let joined = join(args, ",");
    name.append(joined.as_str());
    push_char(&mut name, '>');
    name
}


/// Byte offset of entry `index` of the global table at `table_offset` (past the payload
/// offset), provided the whole `entry_size`-byte entry lies inside the global metadata.
pub open spec fn spec_global_entry(m: LayoutMetadataView, table_offset: u32, index: int, entry_size: int) -> Result<
    int,
    LayoutError,
> {
    spec_entry_offset(m.global_data, m.layout.payload_offset + table_offset, index, entry_size, entry_size)
}

/// The Il2CppType index of global parameter `parameter_index`.
pub open spec fn spec_read_parameter(m: LayoutMetadataView, parameter_index: int) -> Result<u32, LayoutError> {
    match spec_global_entry(m, m.layout.global_parameter_table_offset, parameter_index, 8) {
        Err(e) => Err(e),
        Ok(entry) => Ok(
            (le_u32(m.global_data, entry) ^ 0x67E9_0DC5).wrapping_sub(
                spec_parameter_key(parameter_index as u64),
            ),
        ),
    }
}

/// The code address of method `method_index`, read from the method pointer table.
pub open spec fn spec_method_pointer(m: LayoutMetadataView, method_index: usize) -> Result<u64, LayoutError> {
    let index = method_index as u32;
    if index * 8 > u32::MAX {
        Err(LayoutError::ArithmeticOverflow)
    } else {
        match spec_rva_add(m.method_pointer_table_rva, (index * 8) as u32) {
            Err(e) => Err(e),
            Ok(rva) => spec_read_u64_rva(m.pe, rva),
        }
    }
}

/// The decoded fixed part of a method entry.
#[derive(Clone, Copy, Debug, PartialEq, Eq, Structural)]
pub struct MethodHeader {
    pub name_index: u32,
    pub parameter_start: i32,
    pub return_type_index: u32,
    pub flags: u16,
    pub parameter_count: usize,
}

/// The fixed part of global method entry `method_index`.
pub open spec fn spec_method_header(m: LayoutMetadataView, method_index: usize) -> Result<MethodHeader, LayoutError> {
    match spec_global_entry(m, m.layout.global_method_table_offset, method_index as int, 26) {
        Err(e) => Err(e),
        Ok(entry) => {
            let g = m.global_data;
            let key = spec_method_key(method_index as u64);
            Ok(
                MethodHeader {
                    name_index: (le_u32(g, entry) ^ key) ^ 0x0E71_4BC1,
                    parameter_start: (le_u32(g, entry + 4) ^ key ^ 0x0098_89B8) as i32,
                    return_type_index: le_u32(g, entry + 8).wrapping_add(0x9AC1_F4E3) ^ key,
                    flags: le_u16(g, entry + 0x0E) ^ (key as u16) ^ m.method_attribute_xor,
                    parameter_count: (g[entry + 0x18] ^ (key as u8) ^ 0xA8) as usize,
                },
            )
        },
    }
}

/// The methods.json and dump.cs renderings of the type of global parameter `parameter_index`.
pub open spec fn spec_parameter_names(m: LayoutMetadataView, parameter_index: int) -> Result<
    (Seq<char>, Seq<char>),
    LayoutError,
> {
    match spec_read_parameter(m, parameter_index) {
        Err(e) => Err(e),
        Ok(parameter) => match spec_il2cpp_type_name(m, parameter, true, TYPE_NAME_DEPTH as nat) {
            Err(e) => Err(e),
            Ok(json_name) => match spec_il2cpp_type_name(m, parameter, false, TYPE_NAME_DEPTH as nat) {
                Err(e) => Err(e),
                Ok(dump_name) => Ok((json_name, dump_name)),
            },
        },
    }
}

/// The methods.json and dump.cs renderings of the first `count` parameters from `start`.
pub open spec fn spec_method_params(m: LayoutMetadataView, start: int, count: nat) -> Result<
    (Seq<Seq<char>>, Seq<Seq<char>>),
    LayoutError,
>
    decreases count,
{
    if count == 0 {
        Ok((Seq::empty(), Seq::empty()))
    } else {
        match spec_method_params(m, start, (count - 1) as nat) {
            Err(e) => Err(e),
            Ok((json, dump)) => match spec_parameter_names(m, start + count - 1) {
                Err(e) => Err(e),
                Ok((json_name, dump_name)) => Ok((json.push(json_name), dump.push(dump_name))),
            },
        }
    }
}

/// A name, or `fallback` when the decoded name is empty.
pub open spec fn or_placeholder(name: Seq<char>, fallback: Seq<char>) -> Seq<char> {
    if name.len() == 0 {
        fallback
    } else {
        name
    }
}

/// The method `method_index`: its name (`Method_<index>` when unnamed), rendered return and
/// parameter types, attributes, and address (with its RVA, or 0 below the image base).
pub open spec fn spec_read_method(m: LayoutMetadataView, method_index: usize) -> Result<LayoutMethodView, LayoutError> {
    match spec_method_header(m, method_index) {
        Err(e) => Err(e),
        Ok(header) => match spec_decode_string(m, header.name_index) {
            Err(e) => Err(e),
            Ok(raw_name) => match spec_il2cpp_type_name(m, header.return_type_index, false, TYPE_NAME_DEPTH as nat) {
                Err(e) => Err(e),
                Ok(return_type) => match (if header.parameter_count != 0 && header.parameter_start >= 0 {
                    spec_method_params(m, header.parameter_start as int, header.parameter_count as nat)
                } else {
                    Ok((Seq::empty(), Seq::empty()))
                }) {
                    Err(e) => Err(e),
                    Ok((json, dump)) => match spec_method_pointer(m, method_index) {
                        Err(e) => Err(e),
                        Ok(va) => Ok(
                            LayoutMethodView {
                                name: or_placeholder(raw_name, "Method_"@ + decimal(method_index as nat)),
                                return_type,
                                method_json_params: json,
                                dump_params: dump,
                                flags: header.flags,
                                va,
                                rva: if va >= m.image_base {
                                    (va - m.image_base) as u64
                                } else {
                                    0
                                },
                            },
                        ),
                    },
                },
            },
        },
    }
}

/// A method result seen through the method's view.
pub open spec fn method_result_view(r: Result<LayoutMethod, LayoutError>) -> Result<LayoutMethodView, LayoutError> {
    match r {
        Ok(method) => Ok(method@),
        Err(e) => Err(e),
    }
}

/// Once a prefix of the parameter list fails, every longer prefix fails the same way.
proof fn lemma_method_params_error(m: LayoutMetadataView, start: int, failing: nat, count: nat, e: LayoutError)
    requires
        failing <= count,
        spec_method_params(m, start, failing) == Err::<(Seq<Seq<char>>, Seq<Seq<char>>), LayoutError>(e),
    ensures
        spec_method_params(m, start, count) == Err::<(Seq<Seq<char>>, Seq<Seq<char>>), LayoutError>(e),
    decreases count - failing,
{
    if failing < count {
        lemma_method_params_error(m, start, failing + 1, count, e);
    }
}

impl LayoutMetadata {
    /// Offset of global entry `index` in the table at `table_offset`, with its bytes in range.
    fn global_entry(&self, table_offset: u32, index: usize, entry_size: usize) -> (r: Result<usize, LayoutError>)
        ensures
            widen(r) == spec_global_entry(self@, table_offset, index as int, entry_size as int),
    {
        let base = match (self.layout.payload_offset as usize).checked_add(table_offset as usize) {
            Some(v) => v,
            None => {
                assert(self.global_data@.len() == self.global_data.len());
                return Err(LayoutError::OutOfRange);
            },
        };
        entry_offset(self.global_data.as_slice(), base, index, entry_size, entry_size)
    }

    fn read_parameter(&self, parameter_index: usize) -> (r: Result<u32, LayoutError>)
        ensures
            r == spec_read_parameter(self@, parameter_index as int),
    {
        let entry = self.global_entry(self.layout.global_parameter_table_offset, parameter_index, 8)?;
        let raw = match read_u32(self.global_data.as_slice(), entry) {
            Ok(v) => v,
            Err(_) => 0,
        };
        Ok((raw ^ 0x67E9_0DC5).wrapping_sub(parameter_key(parameter_index as u64)))
    }

    fn method_pointer(&self, method_index: usize) -> (r: Result<u64, LayoutError>)
        ensures
            r == spec_method_pointer(self@, method_index),
    {
        let index = #[verifier::truncate] (method_index as u32);
        let scaled = match index.checked_mul(8) {
            Some(v) => v,
            None => {
                return Err(LayoutError::ArithmeticOverflow);
            },
        };
        let rva = match self.method_pointer_table_rva.checked_add(scaled) {
            Some(v) => v,
            None => {
                return Err(LayoutError::ArithmeticOverflow);
            },
        };
        self.pe.read_u64_rva(rva)
    }

    fn decode_method_header(&self, method_index: usize) -> (r: Result<MethodHeader, LayoutError>)
        ensures
            r == spec_method_header(self@, method_index),
    {
        let entry = self.global_entry(self.layout.global_method_table_offset, method_index, 26)?;
        let data = self.global_data.as_slice();
        let key = method_key(method_index as u64);
        let w0 = match read_u32(data, entry) {
            Ok(v) => v,
            Err(_) => 0,
        };
        let w4 = match read_u32_at(data, entry, 4) {
            Ok(v) => v,
            Err(_) => 0,
        };
        let w8 = match read_u32_at(data, entry, 8) {
            Ok(v) => v,
            Err(_) => 0,
        };
        let attributes = match read_u16_at(data, entry, 0x0E) {
            Ok(v) => v,
            Err(_) => 0,
        };
        assert(entry + 26 <= data@.len());
        assert(data@.len() == data.len());
        let count_byte = data[entry + 0x18];
        Ok(
            MethodHeader {
                name_index: (w0 ^ key) ^ 0x0E71_4BC1,
                parameter_start: #[verifier::truncate] ((w4 ^ key ^ 0x0098_89B8) as i32),
                return_type_index: w8.wrapping_add(0x9AC1_F4E3) ^ key,
                flags: attributes ^ (#[verifier::truncate] (key as u16)) ^ self.method_attribute_xor,
                parameter_count: (count_byte ^ (#[verifier::truncate] (key as u8)) ^ 0xA8) as usize,
            },
        )
    }

    fn parameter_names(&mut self, parameter_index: usize) -> (r: Result<(String, String), LayoutError>)
        requires
            old(self).wf(),
        ensures
            final(self).wf(),
            final(self)@ == old(self)@,
            match r {
                Ok((j, d)) => spec_parameter_names(old(self)@, parameter_index as int) == Ok::<
                    (Seq<char>, Seq<char>),
                    LayoutError,
                >((j@, d@)),
                Err(e) => spec_parameter_names(old(self)@, parameter_index as int) == Err::<
                    (Seq<char>, Seq<char>),
                    LayoutError,
                >(e),
            },
    {
        let parameter = self.read_parameter(parameter_index)?;
        let json_name = self.il2cpp_type_name(parameter, true)?;
        let dump_name = self.il2cpp_type_name(parameter, false)?;
        Ok((json_name, dump_name))
    }

    fn method_params(&mut self, start: usize, count: usize) -> (r: Result<(Vec<String>, Vec<String>), LayoutError>)
        requires
            old(self).wf(),
            start + count <= usize::MAX,
        ensures
            final(self).wf(),
            final(self)@ == old(self)@,
            match r {
                Ok((json, dump)) => spec_method_params(old(self)@, start as int, count as nat) == Ok::<
                    (Seq<Seq<char>>, Seq<Seq<char>>),
                    LayoutError,
                >((json.deep_view(), dump.deep_view())),
                Err(e) => spec_method_params(old(self)@, start as int, count as nat) == Err::<
                    (Seq<Seq<char>>, Seq<Seq<char>>),
                    LayoutError,
                >(e),
            },
    {
        let ghost m = self@;
        let mut json: Vec<String> = Vec::new();
        let mut dump: Vec<String> = Vec::new();
        assert(json.deep_view() =~= Seq::<Seq<char>>::empty());
        assert(dump.deep_view() =~= Seq::<Seq<char>>::empty());
        let mut index: usize = 0;
        while index < count
            invariant
                index <= count,
                start + count <= usize::MAX,
                self.wf(),
                self@ == m,
                m == old(self)@,
                spec_method_params(m, start as int, index as nat) == Ok::<
                    (Seq<Seq<char>>, Seq<Seq<char>>),
                    LayoutError,
                >((json.deep_view(), dump.deep_view())),
            decreases count - index,
        {
            let ghost next = (index + 1) as nat;
            let step = self.parameter_names(start + index);
            assert(spec_method_params(m, start as int, next) == match step {
                Err(e) => Err::<(Seq<Seq<char>>, Seq<Seq<char>>), LayoutError>(e),
                Ok((j, d)) => Ok::<(Seq<Seq<char>>, Seq<Seq<char>>), LayoutError>(
                    (json.deep_view().push(j@), dump.deep_view().push(d@)),
                ),
            });
            match step {
                Err(e) => {
                    proof {
                        lemma_method_params_error(m, start as int, next, count as nat, e);
                    }
                    return Err(e);
                },
                Ok((json_name, dump_name)) => {
                    let ghost json_before = json.deep_view();
                    let ghost dump_before = dump.deep_view();
                    json.push(json_name);
                    dump.push(dump_name);
                    assert(json.deep_view() =~= json_before.push(json_name@));
                    assert(dump.deep_view() =~= dump_before.push(dump_name@));
                },
            }
            index += 1;
        }
        Ok((json, dump))
    }

    /// Decodes method `method_index`.
    pub fn read_method(&mut self, method_index: usize) -> (r: Result<LayoutMethod, LayoutError>)
        requires
            old(self).wf(),
        ensures
            final(self).wf(),
            final(self)@ == old(self)@,
            method_result_view(r) == spec_read_method(old(self)@, method_index),
    {
        let header = self.decode_method_header(method_index)?;
        let raw_name = self.decode_string(header.name_index)?;
        let name = if raw_name.as_str().is_empty() {
            let mut placeholder = String::new();
            placeholder.append("Method_");
            push_decimal(&mut placeholder, method_index as u64);
            placeholder
        } else {
            raw_name
        };
        let return_type = self.il2cpp_type_name(header.return_type_index, false)?;
        let (method_json_params, dump_params) = if header.parameter_count != 0 && header.parameter_start >= 0 {
            self.method_params(header.parameter_start as usize, header.parameter_count)?
        } else {
            let json: Vec<String> = Vec::new();
            let dump: Vec<String> = Vec::new();
            assert(json.deep_view() =~= Seq::<Seq<char>>::empty());
            assert(dump.deep_view() =~= Seq::<Seq<char>>::empty());
            (json, dump)
        };
        let va = self.method_pointer(method_index)?;
        let rva = match va.checked_sub(self.image_base) {
            Some(v) => v,
            None => 0,
        };
        Ok(LayoutMethod { name, return_type, method_json_params, dump_params, flags: header.flags, va, rva })
    }
}


/// The byte offset of field `local_field_index` of type `type_index` inside an instance,
/// found through the type's field-offset group (0 when the type has none).
pub open spec fn spec_field_offset(m: LayoutMetadataView, type_index: int, local_field_index: int) -> Result<
    u32,
    LayoutError,
> {
    let g = m.global_data;
    let map = m.layout.payload_offset + m.layout.global_type_field_offset_map_offset + type_index * 4;
    if !in_range(g, map, 4) {
        Err(LayoutError::OutOfRange)
    } else {
        let selector = le_i32(g, map);
        if selector < 0 {
            Ok(0)
        } else {
            let group = m.layout.payload_offset + m.layout.global_field_offset_group_table_offset + selector
                * 12;
            if !in_range(g, group, 12) {
                Err(LayoutError::OutOfRange)
            } else {
                let offset_start = le_u32(g, group + 8);
                let entry = m.layout.payload_offset + m.layout.global_field_offset_table_offset + (offset_start
                    + local_field_index) * 4;
                if !in_range(g, entry, 4) {
                    Err(LayoutError::OutOfRange)
                } else {
                    Ok(le_u32(g, entry) & 0x00FF_FFFF)
                }
            }
        }
    }
}

/// Field `local_index` of type `type_index` (described by `type_def`).
pub open spec fn spec_read_field(
    m: LayoutMetadataView,
    type_index: usize,
    type_def: LayoutTypeDefView,
    local_index: int,
) -> Result<LayoutFieldView, LayoutError> {
    let g = m.global_data;
    let field_index = type_def.field_start->0 + local_index;
    let entry = m.layout.payload_offset + m.layout.global_field_table_offset + field_index * 8;
    if !in_range(g, entry, 8) {
        Err(LayoutError::OutOfRange)
    } else {
        let key = spec_field_key(type_def.raw_field_start, local_index as u32);
        let name_index = le_u32(g, entry).wrapping_add(key).wrapping_add(0x2AAF_C785);
        let field_type_index = le_u32(g, entry + 4).wrapping_add(key);
        match spec_decode_string(m, name_index) {
            Err(e) => Err(e),
            Ok(raw_name) => match spec_il2cpp_type_name(m, field_type_index, false, TYPE_NAME_DEPTH as nat) {
                Err(e) => Err(e),
                Ok(field_type) => match spec_il2cpp_type_attrs(m, field_type_index) {
                    Err(e) => Err(e),
                    Ok(flags) => {
                        let raw_offset = match spec_field_offset(m, type_index as int, local_index) {
                            Ok(o) => o,
                            Err(_) => 0,
                        };
                        let offset = if type_def.is_value_type && flags & 0x50 == 0 && raw_offset >= 0x10 {
                            (raw_offset - 0x10) as u32
                        } else {
                            raw_offset
                        };
                        Ok(
                            LayoutFieldView {
                                index: field_index as usize,
                                name: or_placeholder(raw_name, "Field_"@ + decimal(field_index as nat)),
                                field_type,
                                flags,
                                offset,
                            },
                        )
                    },
                },
            },
        }
    }
}

/// The first `count` fields of type `type_index`.
pub open spec fn spec_read_fields_prefix(
    m: LayoutMetadataView,
    type_index: usize,
    type_def: LayoutTypeDefView,
    count: nat,
) -> Result<Seq<LayoutFieldView>, LayoutError>
    decreases count,
{
    if count == 0 {
        Ok(Seq::empty())
    } else {
        match spec_read_fields_prefix(m, type_index, type_def, (count - 1) as nat) {
            Err(e) => Err(e),
            Ok(previous) => match spec_read_field(m, type_index, type_def, count - 1) {
                Err(e) => Err(e),
                Ok(field) => Ok(previous.push(field)),
            },
        }
    }
}

/// The fields of type `type_index`; none when the type has no field start.
pub open spec fn spec_read_fields(m: LayoutMetadataView, type_index: usize, type_def: LayoutTypeDefView) -> Result<
    Seq<LayoutFieldView>,
    LayoutError,
> {
    if type_def.field_start is None {
        Ok(Seq::empty())
    } else {
        spec_read_fields_prefix(m, type_index, type_def, type_def.field_count as nat)
    }
}

/// Once a prefix of the field list fails, every longer prefix fails the same way.
proof fn lemma_read_fields_error(
    m: LayoutMetadataView,
    type_index: usize,
    type_def: LayoutTypeDefView,
    failing: nat,
    count: nat,
    e: LayoutError,
)
    requires
        failing <= count,
        spec_read_fields_prefix(m, type_index, type_def, failing) == Err::<Seq<LayoutFieldView>, LayoutError>(e),
    ensures
        spec_read_fields_prefix(m, type_index, type_def, count) == Err::<Seq<LayoutFieldView>, LayoutError>(e),
    decreases count - failing,
{
    if failing < count {
        lemma_read_fields_error(m, type_index, type_def, failing + 1, count, e);
    }
}

/// A field list seen through the fields' views.
pub open spec fn fields_view(fields: Seq<LayoutField>) -> Seq<LayoutFieldView> {
    fields.map_values(|f: LayoutField| f@)
}

impl LayoutMetadata {
    fn field_offset(&self, type_index: usize, local_field_index: usize) -> (r: Result<u32, LayoutError>)
        ensures
            r == spec_field_offset(self@, type_index as int, local_field_index as int),
    {
        let data = self.global_data.as_slice();
        let map = self.global_entry(self.layout.global_type_field_offset_map_offset, type_index, 4)?;
        let selector = match read_i32(data, map) {
            Ok(v) => v,
            Err(_) => 0,
        };
        if selector < 0 {
            return Ok(0);
        }
        let group = self.global_entry(self.layout.global_field_offset_group_table_offset, selector as usize, 12)?;
        let offset_start = match read_u32_at(data, group, 8) {
            Ok(v) => v,
            Err(_) => 0,
        };
        let position = match (offset_start as usize).checked_add(local_field_index) {
            Some(v) => v,
            None => {
                assert(data@.len() == data.len());
                return Err(LayoutError::OutOfRange);
            },
        };
        let entry = self.global_entry(self.layout.global_field_offset_table_offset, position, 4)?;
        let value = match read_u32(data, entry) {
            Ok(v) => v,
            Err(_) => 0,
        };
        Ok(value & 0x00FF_FFFF)
    }

    fn read_field(&mut self, type_index: usize, type_def: &LayoutTypeDef, local_index: usize) -> (r: Result<
        LayoutField,
        LayoutError,
    >)
        requires
            old(self).wf(),
            type_def.field_start is Some,
        ensures
            final(self).wf(),
            final(self)@ == old(self)@,
            match r {
                Ok(field) => spec_read_field(old(self)@, type_index, type_def@, local_index as int) == Ok::<
                    LayoutFieldView,
                    LayoutError,
                >(field@),
                Err(e) => spec_read_field(old(self)@, type_index, type_def@, local_index as int) == Err::<
                    LayoutFieldView,
                    LayoutError,
                >(e),
            },
    {
        let field_start = match type_def.field_start {
            Some(v) => v,
            None => 0,
        };
        let field_index = match field_start.checked_add(local_index) {
            Some(v) => v,
            None => {
                assert(self.global_data@.len() == self.global_data.len());
                return Err(LayoutError::OutOfRange);
            },
        };
        let entry = self.global_entry(self.layout.global_field_table_offset, field_index, 8)?;
        let key = field_key(type_def.raw_field_start, #[verifier::truncate] (local_index as u32));
        let w0 = match read_u32(self.global_data.as_slice(), entry) {
            Ok(v) => v,
            Err(_) => 0,
        };
        let w4 = match read_u32_at(self.global_data.as_slice(), entry, 4) {
            Ok(v) => v,
            Err(_) => 0,
        };
        let name_index = w0.wrapping_add(key).wrapping_add(0x2AAF_C785);
        let field_type_index = w4.wrapping_add(key);
        let raw_name = self.decode_string(name_index)?;
        let name = if raw_name.as_str().is_empty() {
            let mut placeholder = String::new();
            placeholder.append("Field_");
            push_decimal(&mut placeholder, field_index as u64);
            placeholder
        } else {
            raw_name
        };
        let field_type = self.il2cpp_type_name(field_type_index, false)?;
        let flags = self.il2cpp_type_attrs(field_type_index)?;
        let raw_offset = match self.field_offset(type_index, local_index) {
            Ok(o) => o,
            Err(_) => 0,
        };
        let offset = if type_def.is_value_type && flags & 0x50 == 0 && raw_offset >= 0x10 {
            raw_offset - 0x10
        } else {
            raw_offset
        };
        Ok(LayoutField { index: field_index, name, field_type, flags, offset })
    }

    /// Decodes the fields of type `type_index`, described by `type_def`.
    pub fn read_fields(&mut self, type_index: usize, type_def: &LayoutTypeDef) -> (r: Result<
        Vec<LayoutField>,
        LayoutError,
    >)
        requires
            old(self).wf(),
        ensures
            final(self).wf(),
            final(self)@ == old(self)@,
            match r {
                Ok(fields) => spec_read_fields(old(self)@, type_index, type_def@) == Ok::<
                    Seq<LayoutFieldView>,
                    LayoutError,
                >(fields_view(fields@)),
                Err(e) => spec_read_fields(old(self)@, type_index, type_def@) == Err::<
                    Seq<LayoutFieldView>,
                    LayoutError,
                >(e),
            },
    {
        let ghost m = self@;
        let mut fields: Vec<LayoutField> = Vec::new();
        assert(fields_view(fields@) =~= Seq::<LayoutFieldView>::empty());
        if type_def.field_start.is_none() {
            return Ok(fields);
        }
        let count = type_def.field_count;
        let mut local: usize = 0;
        while local < count
            invariant
                local <= count,
                count == type_def@.field_count,
                type_def.field_start is Some,
                self.wf(),
                self@ == m,
                m == old(self)@,
                spec_read_fields_prefix(m, type_index, type_def@, local as nat) == Ok::<
                    Seq<LayoutFieldView>,
                    LayoutError,
                >(fields_view(fields@)),
            decreases count - local,
        {
            let step = self.read_field(type_index, type_def, local);
            match step {
                Err(e) => {
                    proof {
                        lemma_read_fields_error(m, type_index, type_def@, (local + 1) as nat, count as nat, e);
                    }
                    return Err(e);
                },
                Ok(field) => {
                    let ghost before = fields_view(fields@);
                    fields.push(field);
                    assert(fields_view(fields@) =~= before.push(field@));
                },
            }
            local += 1;
        }
        Ok(fields)
    }
}


/// Names of the `count` generic parameters from `start` (`T<i>` for unnamed ones).
pub open spec fn spec_generic_parameter_names(m: LayoutMetadataView, start: u32, count: nat) -> Result<
    Seq<Seq<char>>,
    LayoutError,
>
    decreases count,
{
    if count == 0 {
        Ok(Seq::empty())
    } else {
        match spec_generic_parameter_names(m, start, (count - 1) as nat) {
            Err(e) => Err(e),
            Ok(previous) => {
                let index = count - 1;
                match spec_generic_parameter_name(m, start.wrapping_add(index as u32)) {
                    Err(e) => Err(e),
                    Ok(found) => Ok(
                        previous.push(
                            match found {
                                Some(name) => name,
                                None => seq!['T'] + decimal(index as nat),
                            },
                        ),
                    ),
                }
            },
        }
    }
}

/// The generic parameter names of type `type_index`, when it has a readable generic
/// container with 1 to 64 parameters.
pub open spec fn spec_type_generic_parameter_names(m: LayoutMetadataView, type_index: int) -> Result<
    Option<Seq<Seq<char>>>,
    LayoutError,
> {
    match spec_type_def(m, type_index) {
        Err(e) => Err(e),
        Ok(type_def) => match type_def.generic_container {
            None => Ok(None),
            Some(container) => {
                let g = m.global_data;
                let entry = m.layout.payload_offset + m.layout.global_generic_container_table_offset + container
                    * 16;
                if entry + 16 > g.len() {
                    Ok(None)
                } else {
                    let key = spec_generic_container_key(container as u64);
                    let count = le_u32(g, entry).wrapping_add(0xF331_4477) ^ key;
                    let start = le_u32(g, entry + 0x0C).wrapping_add(0xF12A_F1B1) ^ key;
                    if count == 0 || count > 64 {
                        Ok(None)
                    } else {
                        match spec_generic_parameter_names(m, start, count as nat) {
                            Err(e) => Err(e),
                            Ok(names) => Ok(Some(names)),
                        }
                    }
                }
            },
        },
    }
}

/// Every name mapped to its methods.json spelling.
pub open spec fn json_aliases(names: Seq<Seq<char>>) -> Seq<Seq<char>> {
    names.map_values(|name: Seq<char>| spec_method_json_alias(name))
}

/// The display name of type `type_index`: its full name, and for a generic definition
/// (a name with a backtick arity) `Base<T1,T2>` with the container's parameter names, or
/// placeholder names when those are missing or of the wrong number.
pub open spec fn spec_type_def_display_name(m: LayoutMetadataView, type_index: int, method_json_style: bool) -> Result<
    Seq<char>,
    LayoutError,
> {
    match spec_type_def(m, type_index) {
        Err(e) => Err(e),
        Ok(type_def) => match spec_type_def_full_name(m, type_index) {
            Err(e) => Err(e),
            Ok(full_name) => match spec_generic_arity(type_def.name) {
                None => Ok(full_name),
                Some(arity) => match spec_type_generic_parameter_names(m, type_index) {
                    Err(e) => Err(e),
                    Ok(found) => {
                        let names = match found {
                            Some(names) => if names.len() == arity {
                                names
                            } else {
                                spec_fallback_generic_parameter_names(type_def.name, arity)
                            },
                            None => spec_fallback_generic_parameter_names(type_def.name, arity),
                        };
                        let shown = if method_json_style {
                            json_aliases(names)
                        } else {
                            names
                        };
                        Ok(generic_inst_text(full_name, shown))
                    },
                },
            },
        },
    }
}

/// Once a prefix of the parameter names fails, every longer prefix fails the same way.
proof fn lemma_generic_parameter_names_error(m: LayoutMetadataView, start: u32, failing: nat, count: nat, e: LayoutError)
    requires
        failing <= count,
        spec_generic_parameter_names(m, start, failing) == Err::<Seq<Seq<char>>, LayoutError>(e),
    ensures
        spec_generic_parameter_names(m, start, count) == Err::<Seq<Seq<char>>, LayoutError>(e),
    decreases count - failing,
{
    if failing < count {
        lemma_generic_parameter_names_error(m, start, failing + 1, count, e);
    }
}

impl LayoutMetadata {
    fn generic_parameter_names(&mut self, start: u32, count: usize) -> (r: Result<Vec<String>, LayoutError>)
        requires
            old(self).wf(),
            count <= 64,
        ensures
            final(self).wf(),
            final(self)@ == old(self)@,
            match r {
                Ok(names) => spec_generic_parameter_names(old(self)@, start, count as nat) == Ok::<
                    Seq<Seq<char>>,
                    LayoutError,
                >(names.deep_view()),
                Err(e) => spec_generic_parameter_names(old(self)@, start, count as nat) == Err::<
                    Seq<Seq<char>>,
                    LayoutError,
                >(e),
            },
    {
        let ghost m = self@;
        let mut names: Vec<String> = Vec::new();
        assert(names.deep_view() =~= Seq::<Seq<char>>::empty());
        let mut index: usize = 0;
        while index < count
            invariant
                index <= count <= 64,
                self.wf(),
                self@ == m,
                m == old(self)@,
                spec_generic_parameter_names(m, start, index as nat) == Ok::<Seq<Seq<char>>, LayoutError>(
                    names.deep_view(),
                ),
            decreases count - index,
        {
            let parameter_index = start.wrapping_add(index as u32);
            let found = match self.generic_parameter_name(parameter_index) {
                Ok(found) => found,
                Err(e) => {
                    proof {
                        lemma_generic_parameter_names_error(m, start, (index + 1) as nat, count as nat, e);
                    }
                    return Err(e);
                },
            };
            let name = match found {
                Some(name) => name,
                None => {
                    let mut placeholder = String::new();
                    push_char(&mut placeholder, 'T');
                    push_decimal(&mut placeholder, index as u64);
                    assert(placeholder@ =~= seq!['T'] + decimal(index as nat));
                    placeholder
                },
            };
            let ghost before = names.deep_view();
            names.push(name);
            assert(names.deep_view() =~= before.push(name@));
            index += 1;
        }
        Ok(names)
    }

    fn type_generic_parameter_names(&mut self, type_index: usize) -> (r: Result<Option<Vec<String>>, LayoutError>)
        requires
            old(self).wf(),
        ensures
            final(self).wf(),
            final(self)@ == old(self)@,
            match r {
                Ok(Some(names)) => spec_type_generic_parameter_names(old(self)@, type_index as int) == Ok::<
                    Option<Seq<Seq<char>>>,
                    LayoutError,
                >(Some(names.deep_view())),
                Ok(None) => spec_type_generic_parameter_names(old(self)@, type_index as int) == Ok::<
                    Option<Seq<Seq<char>>>,
                    LayoutError,
                >(None),
                Err(e) => spec_type_generic_parameter_names(old(self)@, type_index as int) == Err::<
                    Option<Seq<Seq<char>>>,
                    LayoutError,
                >(e),
            },
    {
        let container = match self.type_def(type_index)?.generic_container {
            None => {
                return Ok(None);
            },
            Some(c) => c,
        };
        let base = match (self.layout.payload_offset as usize).checked_add(
            self.layout.global_generic_container_table_offset as usize,
        ) {
            Some(v) => v,
            None => {
                assert(self.global_data@.len() == self.global_data.len());
                return Ok(None);
            },
        };
        let entry = match entry_offset(self.global_data.as_slice(), base, container as usize, 16, 16) {
            Ok(v) => v,
            Err(_) => {
                return Ok(None);
            },
        };
        let key = generic_container_key(container as u64);
        let w0 = match read_u32(self.global_data.as_slice(), entry) {
            Ok(v) => v,
            Err(_) => 0,
        };
        let w12 = match read_u32_at(self.global_data.as_slice(), entry, 0x0C) {
            Ok(v) => v,
            Err(_) => 0,
        };
        let count = w0.wrapping_add(0xF331_4477) ^ key;
        let start = w12.wrapping_add(0xF12A_F1B1) ^ key;
        if count == 0 || count > 64 {
            return Ok(None);
        }
        let names = self.generic_parameter_names(start, count as usize)?;
        Ok(Some(names))
    }

    /// The display name of type `type_index`, with generic parameters spelled out
    /// (`Dictionary<TKey,TValue>`); `method_json_style` selects C# keywords for built-ins.
    pub fn type_def_display_name(&mut self, type_index: usize, method_json_style: bool) -> (r: Result<
        String,
        LayoutError,
    >)
        requires
            old(self).wf(),
        ensures
            final(self).wf(),
            final(self)@ == old(self)@,
            string_result_view(r) == spec_type_def_display_name(old(self)@, type_index as int, method_json_style),
    {
        let type_def_name = self.type_def(type_index)?.name.clone();
        let full_name = self.type_def_full_name(type_index)?;
        let arity = match generic_arity(type_def_name.as_str()) {
            None => {
                return Ok(full_name);
            },
            Some(a) => a,
        };
        let found = self.type_generic_parameter_names(type_index)?;
        let names = match found {
            Some(names) => {
                if names.len() == arity {
                    names
                } else {
                    fallback_generic_parameter_names(type_def_name.as_str(), arity)
                }
            },
            None => fallback_generic_parameter_names(type_def_name.as_str(), arity),
        };
        let shown = if method_json_style {
            json_alias_all(&names)
        } else {
            names
        };
        Ok(render_generic_inst(full_name.as_str(), &shown))
    }
}

/// Every name replaced by its methods.json spelling.
fn json_alias_all(names: &Vec<String>) -> (r: Vec<String>)
    ensures
        r.deep_view() == json_aliases(names.deep_view()),
{
    let mut out: Vec<String> = Vec::new();
    let mut i: usize = 0;
    while i < names.len()
        invariant
            i <= names@.len(),
            out.deep_view() =~= json_aliases(names.deep_view()).take(i as int),
        decreases names@.len() - i,
    {
        let alias = method_json_alias(names[i].as_str()).to_owned();
        let ghost before = out.deep_view();
        out.push(alias);
        assert(out.deep_view() =~= before.push(alias@));
        assert(json_aliases(names.deep_view()).take(i + 1) =~= json_aliases(names.deep_view()).take(i as int).push(
            spec_method_json_alias(names.deep_view()[i as int]),
        ));
        i += 1;
    }
    assert(json_aliases(names.deep_view()).take(names@.len() as int) =~= json_aliases(names.deep_view()));
    out
}


/// The short name of the generic type definition that generic class entry
/// `generic_class_index` instantiates, or `None` when the entry is missing.
pub open spec fn spec_generic_inst_definition_name(m: LayoutMetadataView, generic_class_index: u32) -> Result<
    Option<Seq<char>>,
    LayoutError,
> {
    let class_offset = m.layout.startup_section_164_offset + generic_class_index * 8;
    if class_offset + 8 > m.startup_data.len() {
        Ok(None)
    } else {
        match spec_type_def_short_name(m, le_u32(m.startup_data, class_offset) as int) {
            Err(e) => Err(e),
            Ok(name) => Ok(Some(name)),
        }
    }
}

/// How a type reference is named in a declaration's base list: nested type definitions by
/// their short dotted name, generic instances by their definition's short name, anything
/// else by the last segment of its rendered name.
pub open spec fn spec_type_declaration_reference_name(m: LayoutMetadataView, type_index: u32) -> Result<
    Seq<char>,
    LayoutError,
> {
    match spec_read_il2cpp_type(m, type_index) {
        Err(e) => Err(e),
        Ok(entry) => if entry.kind == 0x11 || entry.kind == 0x12 || entry.kind == 0x1C {
            spec_type_def_short_name(m, entry.data as int)
        } else if entry.kind == 0x15 {
            or_fallback(
                spec_generic_inst_definition_name(m, entry.data),
                "GenericInst_"@ + decimal(entry.data as nat),
            )
        } else {
            match spec_il2cpp_type_name(m, type_index, false, TYPE_NAME_DEPTH as nat) {
                Err(e) => Err(e),
                Ok(name) => Ok(spec_shorten_declaration_reference(name)),
            }
        },
    }
}

/// The declaration name of the parent of `type_def`, if it has one.
pub open spec fn spec_read_parent_name(m: LayoutMetadataView, type_def: LayoutTypeDefView) -> Result<
    Option<Seq<char>>,
    LayoutError,
> {
    match type_def.parent_type_index {
        None => Ok(None),
        Some(parent) => match spec_type_declaration_reference_name(m, parent) {
            Err(e) => Err(e),
            Ok(name) => Ok(Some(name)),
        },
    }
}

/// A list of strings, or the error that stopped it, seen through the strings' views.
pub open spec fn strings_result_view(r: Result<Vec<String>, LayoutError>) -> Result<Seq<Seq<char>>, LayoutError> {
    match r {
        Ok(names) => Ok(names.deep_view()),
        Err(e) => Err(e),
    }
}

/// The declaration name of the interface reference stored at `position`, or `None` when
/// the reference is negative.
pub open spec fn spec_interface_reference_name(m: LayoutMetadataView, position: int) -> Result<
    Option<Seq<char>>,
    LayoutError,
> {
    let reference = le_i32(m.global_data, position);
    if reference < 0 {
        Ok(None)
    } else {
        match spec_type_declaration_reference_name(m, reference as u32) {
            Err(e) => Err(e),
            Ok(name) => Ok(Some(name)),
        }
    }
}

/// Declaration names of the non-negative entries among the first `count` interface
/// references stored from `entry`.
pub open spec fn spec_interface_names_prefix(m: LayoutMetadataView, entry: int, count: nat) -> Result<
    Seq<Seq<char>>,
    LayoutError,
>
    decreases count,
{
    if count == 0 {
        Ok(Seq::empty())
    } else {
        match spec_interface_names_prefix(m, entry, (count - 1) as nat) {
            Err(e) => Err(e),
            Ok(previous) => match spec_interface_reference_name(m, entry + (count - 1) * 4) {
                Err(e) => Err(e),
                Ok(None) => Ok(previous),
                Ok(Some(name)) => Ok(previous.push(name)),
            },
        }
    }
}

/// The declaration names of the interfaces that `type_def` implements.
pub open spec fn spec_read_interface_names(m: LayoutMetadataView, type_def: LayoutTypeDefView) -> Result<
    Seq<Seq<char>>,
    LayoutError,
> {
    if type_def.interface_start is None || type_def.interface_count == 0 {
        Ok(Seq::empty())
    } else {
        let entry = m.layout.payload_offset + m.layout.global_interface_type_table_offset
            + type_def.interface_start->0 * 4;
        if !in_range(m.global_data, entry, type_def.interface_count * 4) {
            Err(LayoutError::OutOfRange)
        } else {
            spec_interface_names_prefix(m, entry, type_def.interface_count as nat)
        }
    }
}

proof fn lemma_interface_names_error(m: LayoutMetadataView, entry: int, failing: nat, count: nat, e: LayoutError)
    requires
        failing <= count,
        spec_interface_names_prefix(m, entry, failing) == Err::<Seq<Seq<char>>, LayoutError>(e),
    ensures
        spec_interface_names_prefix(m, entry, count) == Err::<Seq<Seq<char>>, LayoutError>(e),
    decreases count - failing,
{
    if failing < count {
        lemma_interface_names_error(m, entry, failing + 1, count, e);
    }
}

impl LayoutMetadata {
    fn generic_inst_definition_name(&self, generic_class_index: u32) -> (r: Result<Option<String>, LayoutError>)
        ensures
            option_string_result_view(r) == spec_generic_inst_definition_name(self@, generic_class_index),
    {
        let class_offset = match entry_offset(
            self.startup_data.as_slice(),
            self.layout.startup_section_164_offset as usize,
            generic_class_index as usize,
            8,
            8,
        ) {
            Ok(v) => v,
            Err(_) => {
                return Ok(None);
            },
        };
        let type_def_index = match read_u32(self.startup_data.as_slice(), class_offset) {
            Ok(v) => v,
            Err(_) => 0,
        };
        let name = self.type_def_short_name(type_def_index as usize)?;
        Ok(Some(name))
    }

    fn interface_reference_name(&mut self, position: usize) -> (r: Result<Option<String>, LayoutError>)
        requires
            old(self).wf(),
            in_range(old(self)@.global_data, position as int, 4),
        ensures
            final(self).wf(),
            final(self)@ == old(self)@,
            option_string_result_view(r) == spec_interface_reference_name(old(self)@, position as int),
    {
        let reference = match read_i32(self.global_data.as_slice(), position) {
            Ok(v) => v,
            Err(_) => 0,
        };
        if reference < 0 {
            return Ok(None);
        }
        let name = self.type_declaration_reference_name(reference as u32)?;
        Ok(Some(name))
    }

    fn type_declaration_reference_name(&mut self, type_index: u32) -> (r: Result<String, LayoutError>)
        requires
            old(self).wf(),
        ensures
            final(self).wf(),
            final(self)@ == old(self)@,
            string_result_view(r) == spec_type_declaration_reference_name(old(self)@, type_index),
    {
        let entry = self.read_il2cpp_type(type_index)?;
        if entry.kind == 0x11 || entry.kind == 0x12 || entry.kind == 0x1C {
            self.type_def_short_name(entry.data as usize)
        } else if entry.kind == 0x15 {
            match self.generic_inst_definition_name(entry.data)? {
                Some(name) => Ok(name),
                None => {
                    let mut fallback = String::new();
                    fallback.append("GenericInst_");
                    push_decimal(&mut fallback, entry.data as u64);
                    Ok(fallback)
                },
            }
        } else {
            let name = self.il2cpp_type_name(type_index, false)?;
            Ok(shorten_declaration_reference(name.as_str()))
        }
    }

    /// The declaration name of the parent of `type_def`, if it has one.
    pub fn read_parent_name(&mut self, type_def: &LayoutTypeDef) -> (r: Result<Option<String>, LayoutError>)
        requires
            old(self).wf(),
        ensures
            final(self).wf(),
            final(self)@ == old(self)@,
            option_string_result_view(r) == spec_read_parent_name(old(self)@, type_def@),
    {
        match type_def.parent_type_index {
            None => Ok(None),
            Some(parent) => {
                let name = self.type_declaration_reference_name(parent)?;
                Ok(Some(name))
            },
        }
    }

    /// Appends the name of interface reference `local` of the table at `entry`, if it has one.
    fn push_interface_name(&mut self, names: &mut Vec<String>, entry: usize, local: usize, count: usize) -> (r: Result<
        (),
        LayoutError,
    >)
        requires
            old(self).wf(),
            local < count,
            in_range(old(self)@.global_data, entry as int, count * 4),
            spec_interface_names_prefix(old(self)@, entry as int, local as nat) == Ok::<Seq<Seq<char>>, LayoutError>(
                old(names).deep_view(),
            ),
        ensures
            final(self).wf(),
            final(self)@ == old(self)@,
            match r {
                Ok(_) => spec_interface_names_prefix(old(self)@, entry as int, (local + 1) as nat) == Ok::<
                    Seq<Seq<char>>,
                    LayoutError,
                >(final(names).deep_view()),
                Err(e) => spec_interface_names_prefix(old(self)@, entry as int, (local + 1) as nat) == Err::<
                    Seq<Seq<char>>,
                    LayoutError,
                >(e),
            },
    {
        assert(local * 4 + 4 <= count * 4) by (nonlinear_arith)
            requires
                local < count,
        ;
        assert(self.global_data@.len() == self.global_data.len());
        let position = entry + local * 4;
        match self.interface_reference_name(position)? {
            None => {},
            Some(name) => {
                let ghost before = names.deep_view();
                names.push(name);
                assert(names.deep_view() =~= before.push(name@));
            },
        }
        Ok(())
    }

    /// The declaration names of the interfaces that `type_def` implements.
    pub fn read_interface_names(&mut self, type_def: &LayoutTypeDef) -> (r: Result<Vec<String>, LayoutError>)
        requires
            old(self).wf(),
        ensures
            final(self).wf(),
            final(self)@ == old(self)@,
            strings_result_view(r) == spec_read_interface_names(old(self)@, type_def@),
    {
        let ghost m = self@;
        let mut names: Vec<String> = Vec::new();
        assert(names.deep_view() =~= Seq::<Seq<char>>::empty());
        let interface_start = match type_def.interface_start {
            None => {
                return Ok(names);
            },
            Some(v) => v,
        };
        let count = type_def.interface_count;
        if count == 0 {
            return Ok(names);
        }
        let entry = self.global_entry(self.layout.global_interface_type_table_offset, interface_start, 4)?;
        let ghost entry_int = entry as int;
        if !(count <= (self.global_data.len() - entry) / 4) {
            assert(!in_range(m.global_data, entry_int, count * 4));
            return Err(LayoutError::OutOfRange);
        }
        assert(in_range(m.global_data, entry_int, count * 4));
        assert(spec_read_interface_names(m, type_def@) == spec_interface_names_prefix(m, entry_int, count as nat));
        let mut local: usize = 0;
        while local < count
            invariant
                local <= count,
                in_range(m.global_data, entry as int, count * 4),
                spec_read_interface_names(m, type_def@) == spec_interface_names_prefix(m, entry as int, count as nat),
                self.wf(),
                self@ == m,
                m == old(self)@,
                spec_interface_names_prefix(m, entry as int, local as nat) == Ok::<Seq<Seq<char>>, LayoutError>(
                    names.deep_view(),
                ),
            decreases count - local,
        {
            match self.push_interface_name(&mut names, entry, local, count) {
                Err(e) => {
                    proof {
                        lemma_interface_names_error(m, entry as int, (local + 1) as nat, count as nat, e);
                    }
                    return Err(e);
                },
                Ok(()) => {},
            }
            local += 1;
        }
        Ok(names)
    }
}


/// An image, or the error that stopped its decoding, seen through the image's view.
pub open spec fn image_result_view(r: Result<LayoutImage, LayoutError>) -> Result<LayoutImageView, LayoutError> {
    match r {
        Ok(image) => Ok(image@),
        Err(e) => Err(e),
    }
}

/// Startup image entry `index`: its decoded name and type range.
pub open spec fn spec_read_image(m: LayoutMetadataView, index: int) -> Result<LayoutImageView, LayoutError> {
    let entry = m.layout.startup_image_table_offset + index * 40;
    match spec_image_name_index(m.startup_data, entry, index as u32) {
        Err(e) => Err(e),
        Ok(name_index) => match spec_image_type_start(m.startup_data, entry, index as u32) {
            Err(e) => Err(e),
            Ok(type_start) => match spec_image_type_count(m.startup_data, entry, index as u32) {
                Err(e) => Err(e),
                Ok(type_count) => match spec_decode_string(m, name_index) {
                    Err(e) => Err(e),
                    Ok(name) => Ok(
                        LayoutImageView { name, type_start: type_start as usize, type_count: type_count as usize },
                    ),
                },
            },
        },
    }
}

/// The first `count` startup images.
pub open spec fn spec_read_images_prefix(m: LayoutMetadataView, count: nat) -> Result<Seq<LayoutImageView>, LayoutError>
    decreases count,
{
    if count == 0 {
        Ok(Seq::empty())
    } else {
        match spec_read_images_prefix(m, (count - 1) as nat) {
            Err(e) => Err(e),
            Ok(previous) => match spec_read_image(m, count - 1) {
                Err(e) => Err(e),
                Ok(image) => Ok(previous.push(image)),
            },
        }
    }
}

/// The startup images, provided the whole image table lies inside the startup metadata.
pub open spec fn spec_read_images(m: LayoutMetadataView) -> Result<Seq<LayoutImageView>, LayoutError> {
    let count = m.layout.header_count_134_div40;
    if !in_range(m.startup_data, m.layout.startup_image_table_offset as int, count * 40) {
        Err(LayoutError::OutOfRange)
    } else {
        spec_read_images_prefix(m, count as nat)
    }
}

proof fn lemma_read_images_error(m: LayoutMetadataView, failing: nat, count: nat, e: LayoutError)
    requires
        failing <= count,
        spec_read_images_prefix(m, failing) == Err::<Seq<LayoutImageView>, LayoutError>(e),
    ensures
        spec_read_images_prefix(m, count) == Err::<Seq<LayoutImageView>, LayoutError>(e),
    decreases count - failing,
{
    if failing < count {
        lemma_read_images_error(m, failing + 1, count, e);
    }
}

/// An image list seen through the images' views.
pub open spec fn images_view(images: Seq<LayoutImage>) -> Seq<LayoutImageView> {
    images.map_values(|i: LayoutImage| i@)
}

/// An image list, or the error that stopped it, seen through the images' views.
pub open spec fn images_result_view(r: Result<Vec<LayoutImage>, LayoutError>) -> Result<
    Seq<LayoutImageView>,
    LayoutError,
> {
    match r {
        Ok(images) => Ok(images_view(images@)),
        Err(e) => Err(e),
    }
}

impl LayoutMetadata {
    fn read_image(&mut self, index: usize) -> (r: Result<LayoutImage, LayoutError>)
        requires
            old(self).wf(),
            in_range(
                old(self)@.startup_data,
                old(self)@.layout.startup_image_table_offset as int,
                (index + 1) * 40,
            ),
        ensures
            final(self).wf(),
            final(self)@ == old(self)@,
            image_result_view(r) == spec_read_image(old(self)@, index as int),
    {
        assert(self.startup_data@.len() == self.startup_data.len());
        assert((index + 1) * 40 == index * 40 + 40) by (nonlinear_arith);
        let entry = self.layout.startup_image_table_offset as usize + index * 40;
        let data = self.startup_data.as_slice();
        let name_index = decode_image_name_index(data, entry, index)?;
        let type_start = decode_image_type_start(data, entry, index)?;
        let type_count = decode_image_type_count(data, entry, index)?;
        let name = self.decode_string(name_index)?;
        Ok(LayoutImage { name, type_start: type_start as usize, type_count: type_count as usize })
    }

    /// Decodes the startup image table.
    fn read_images(&mut self) -> (r: Result<Vec<LayoutImage>, LayoutError>)
        requires
            old(self).wf(),
        ensures
            final(self).wf(),
            final(self)@ == old(self)@,
            images_result_view(r) == spec_read_images(old(self)@),
    {
        let ghost m = self@;
        let count = self.layout.header_count_134_div40 as usize;
        let table = self.layout.startup_image_table_offset as usize;
        assert(self.startup_data@.len() == self.startup_data.len());
        if !(count <= (self.startup_data.len() - table.min(self.startup_data.len())) / 40
            && table <= self.startup_data.len()) {
            assert(!in_range(m.startup_data, table as int, count * 40));
            return Err(LayoutError::OutOfRange);
        }
        assert(in_range(m.startup_data, table as int, count * 40));
        let mut images: Vec<LayoutImage> = Vec::new();
        assert(images_view(images@) =~= Seq::<LayoutImageView>::empty());
        let mut index: usize = 0;
        while index < count
            invariant
                index <= count,
                count == m.layout.header_count_134_div40,
                in_range(m.startup_data, m.layout.startup_image_table_offset as int, count * 40),
                spec_read_images(m) == spec_read_images_prefix(m, count as nat),
                self.wf(),
                self@ == m,
                m == old(self)@,
                spec_read_images_prefix(m, index as nat) == Ok::<Seq<LayoutImageView>, LayoutError>(
                    images_view(images@),
                ),
            decreases count - index,
        {
            assert((index + 1) * 40 <= count * 40) by (nonlinear_arith)
                requires
                    index < count,
            ;
            match self.read_image(index) {
                Err(e) => {
                    proof {
                        lemma_read_images_error(m, (index + 1) as nat, count as nat, e);
                    }
                    return Err(e);
                },
                Ok(image) => {
                    let ghost before = images_view(images@);
                    images.push(image);
                    assert(images_view(images@) =~= before.push(image@));
                },
            }
            index += 1;
        }
        Ok(images)
    }
}


/// The Il2CppType index of a type's parent, from its encoded base type; none for the
/// sentinels that mark a type without one, or one whose parent is `System.Object`,
/// `System.ValueType` or `System.Enum`.
pub open spec fn spec_parent_type_index(raw_base_type: u32) -> Option<u32> {
    if raw_base_type == TYPE_BASE_NONE || raw_base_type == TYPE_BASE_OBJECT || raw_base_type
        == TYPE_BASE_VALUE_TYPE || raw_base_type == TYPE_BASE_ENUM {
        None
    } else {
        Some(raw_base_type.wrapping_sub(TYPE_PARENT_KEY))
    }
}

/// Decodes a type's parent index from its encoded base type.
pub fn parent_type_index(raw_base_type: u32) -> (r: Option<u32>)
    ensures
        r == spec_parent_type_index(raw_base_type),
{
    if raw_base_type == TYPE_BASE_NONE || raw_base_type == TYPE_BASE_OBJECT || raw_base_type
        == TYPE_BASE_VALUE_TYPE || raw_base_type == TYPE_BASE_ENUM {
        None
    } else {
        Some(raw_base_type.wrapping_sub(TYPE_PARENT_KEY))
    }
}

/// A type name, or `Type_<index>` when the metadata gives none.
pub open spec fn nonempty_type_name(name: Seq<char>, index: int) -> Seq<char> {
    if name.len() == 0 {
        seq!['T', 'y', 'p', 'e', '_'] + decimal(index as nat)
    } else {
        name
    }
}

/// The type definition stored in the global entry at `entry` (type `index`), given its
/// decoded namespace and name; its declaring type is filled in later.
#[verifier::opaque]
pub open spec fn type_def_at(g: Seq<u8>, entry: int, index: int, namespace: Seq<char>, name: Seq<char>) -> LayoutTypeDefView {
    let raw_field_start = le_u32(g, entry + 0x20);
    let field_count = le_u16(g, entry + 0x32).wrapping_add(0x444D);
    let method_start = le_u32(g, entry + 0x08) ^ 0x1A7A_F5FEu32;
    let raw_base_type = le_u32(g, entry + 0x04);
    let generic_container = le_u16(g, entry + 0x3C).wrapping_add(0x5404);
    LayoutTypeDefView {
        namespace,
        name: nonempty_type_name(name, index),
        field_start: if field_count != 0 {
            Some(raw_field_start.wrapping_sub(0x7485_3864) as usize)
        } else {
            None
        },
        field_count: field_count as usize,
        raw_field_start,
        method_start: if method_start != u32::MAX {
            Some(method_start as usize)
        } else {
            None
        },
        method_count: le_u16(g, entry + 0x34).wrapping_add(0x5F93) as usize,
        interface_start: Some((le_u16(g, entry + 0x36) ^ 0xC28Cu16) as usize),
        interface_count: (g[entry + 0x44] ^ 0xC7u8) as usize,
        parent_type_index: spec_parent_type_index(raw_base_type),
        flags: le_u32(g, entry + 0x14) ^ TYPE_ATTRIBUTE_KEY,
        generic_container: if generic_container != u16::MAX {
            Some(generic_container as u32)
        } else {
            None
        },
        declaring_type: None,
        is_value_type: raw_base_type == TYPE_BASE_VALUE_TYPE || raw_base_type == TYPE_BASE_ENUM,
        is_enum: raw_base_type == TYPE_BASE_ENUM,
    }
}

/// Global type entry `index`, with its namespace and name decoded.
pub open spec fn spec_read_type(m: LayoutMetadataView, index: int) -> Result<LayoutTypeDefView, LayoutError> {
    match spec_global_entry(m, m.layout.global_type_table_offset, index, 0x46) {
        Err(e) => Err(e),
        Ok(entry) => {
            let g = m.global_data;
            match spec_decode_string(m, le_u32(g, entry + 0x24).wrapping_add(0xF1D3_2D89)) {
                Err(e) => Err(e),
                Ok(namespace) => match spec_decode_string(m, le_u32(g, entry + 0x28).wrapping_add(0xE9FD_68F8)) {
                    Err(e) => Err(e),
                    Ok(name) => Ok(type_def_at(g, entry, index, namespace, name)),
                },
            }
        },
    }
}

/// A type definition, or the error that stopped its decoding, seen through its view.
pub open spec fn type_def_result_view(r: Result<LayoutTypeDef, LayoutError>) -> Result<LayoutTypeDefView, LayoutError> {
    match r {
        Ok(t) => Ok(t@),
        Err(e) => Err(e),
    }
}

impl LayoutMetadata {
    fn read_type(&mut self, index: usize) -> (r: Result<LayoutTypeDef, LayoutError>)
        requires
            old(self).wf(),
        ensures
            final(self).wf(),
            final(self)@ == old(self)@,
            type_def_result_view(r) == spec_read_type(old(self)@, index as int),
    {
        let ghost m = self@;
        let entry = self.global_entry(self.layout.global_type_table_offset, index, 0x46)?;
        assert(in_range(m.global_data, entry as int, 0x46));
        assert(self.global_data@.len() == self.global_data.len());
        let g = self.global_data.as_slice();
        let namespace_index = read_u32_at(g, entry, 0x24)?.wrapping_add(0xF1D3_2D89);
        let name_index = read_u32_at(g, entry, 0x28)?.wrapping_add(0xE9FD_68F8);
        let raw_field_start = read_u32_at(g, entry, 0x20)?;
        let field_count = read_u16_at(g, entry, 0x32)?.wrapping_add(0x444D);
        let method_start = read_u32_at(g, entry, 0x08)? ^ 0x1A7A_F5FE;
        let method_count = read_u16_at(g, entry, 0x34)?.wrapping_add(0x5F93);
        let flags = read_u32_at(g, entry, 0x14)? ^ TYPE_ATTRIBUTE_KEY;
        let raw_base_type = read_u32_at(g, entry, 0x04)?;
        let generic_container = read_u16_at(g, entry, 0x3C)?.wrapping_add(0x5404);
        let interface_start = read_u16_at(g, entry, 0x36)? ^ 0xC28C;
        let interface_count = g[entry + 0x44] ^ 0xC7;
        let namespace = self.decode_string(namespace_index)?;
        let decoded_name = self.decode_string(name_index)?;
        proof {
            reveal(type_def_at);
        }
        let name = if decoded_name.as_str().is_empty() {
            let mut fallback = String::new();
            fallback.append("Type_");
            push_decimal(&mut fallback, index as u64);
            proof {
                reveal_strlit("Type_");
            }
            assert(fallback@ =~= seq!['T', 'y', 'p', 'e', '_'] + decimal(index as nat));
            fallback
        } else {
            decoded_name
        };
        Ok(LayoutTypeDef {
            namespace,
            name,
            field_start: if field_count != 0 {
                Some(raw_field_start.wrapping_sub(0x7485_3864) as usize)
            } else {
                None
            },
            field_count: field_count as usize,
            raw_field_start,
            method_start: if method_start != u32::MAX {
                Some(method_start as usize)
            } else {
                None
            },
            method_count: method_count as usize,
            interface_start: Some(interface_start as usize),
            interface_count: interface_count as usize,
            parent_type_index: parent_type_index(raw_base_type),
            flags,
            generic_container: if generic_container != u16::MAX {
                Some(generic_container as u32)
            } else {
                None
            },
            declaring_type: None,
            is_value_type: raw_base_type == TYPE_BASE_VALUE_TYPE || raw_base_type == TYPE_BASE_ENUM,
            is_enum: raw_base_type == TYPE_BASE_ENUM,
        })
    }
}


/// How many type definitions the images cover: the largest end of an image's type range.
pub open spec fn spec_type_count(images: Seq<LayoutImageView>) -> nat
    decreases images.len(),
{
    if images.len() == 0 {
        0
    } else {
        let rest = spec_type_count(images.drop_last());
        let end = images.last().type_start + images.last().type_count;
        if end > rest {
            end as nat
        } else {
            rest
        }
    }
}

/// The first `count` global type entries, each with its names decoded.
pub open spec fn spec_read_types_prefix(m: LayoutMetadataView, count: nat) -> Result<Seq<LayoutTypeDefView>, LayoutError>
    decreases count,
{
    if count == 0 {
        Ok(Seq::empty())
    } else {
        match spec_read_types_prefix(m, (count - 1) as nat) {
            Err(e) => Err(e),
            Ok(previous) => match spec_read_type(m, count - 1) {
                Err(e) => Err(e),
                Ok(t) => Ok(previous.push(t)),
            },
        }
    }
}

/// `declaring` after the first `k` entries of the nested type table at `table` have been
/// marked as declared by `parent` (entries that name no known type are skipped).
pub open spec fn assign_declaring(declaring: Seq<Option<usize>>, g: Seq<u8>, table: int, parent: int, k: nat) -> Seq<
    Option<usize>,
>
    decreases k,
{
    if k == 0 {
        declaring
    } else {
        let before = assign_declaring(declaring, g, table, parent, (k - 1) as nat);
        let nested = le_u32(g, table + (k - 1) * 4) as int;
        if nested < before.len() {
            before.update(nested, Some(parent as usize))
        } else {
            before
        }
    }
}

/// Records `parent` as the declaring type of each type in its nested type list.
pub open spec fn spec_nested_step(m: LayoutMetadataView, declaring: Seq<Option<usize>>, parent: int) -> Result<
    Seq<Option<usize>>,
    LayoutError,
> {
    match spec_global_entry(m, m.layout.global_type_table_offset, parent, 0x46) {
        Err(e) => Err(e),
        Ok(entry) => {
            let g = m.global_data;
            let nested_count = g[entry + 0x43].wrapping_add(4);
            if nested_count == 0 {
                Ok(declaring)
            } else {
                let table = m.layout.payload_offset + m.layout.global_nested_type_table_offset + (le_u16(
                    g,
                    entry + 0x3A,
                ) ^ 0xB2C0u16) * 4;
                if !in_range(g, table, nested_count * 4) {
                    Err(LayoutError::OutOfRange)
                } else {
                    Ok(assign_declaring(declaring, g, table, parent, nested_count as nat))
                }
            }
        },
    }
}

/// The declaring types after the nested type lists of the first `k` types have been applied.
pub open spec fn spec_declaring_pass(m: LayoutMetadataView, initial: Seq<Option<usize>>, k: nat) -> Result<
    Seq<Option<usize>>,
    LayoutError,
>
    decreases k,
{
    if k == 0 {
        Ok(initial)
    } else {
        match spec_declaring_pass(m, initial, (k - 1) as nat) {
            Err(e) => Err(e),
            Ok(declaring) => spec_nested_step(m, declaring, k - 1),
        }
    }
}

/// `t` with its declaring type set to `declaring`.
pub open spec fn with_declaring_type(t: LayoutTypeDefView, declaring: Option<usize>) -> LayoutTypeDefView {
    LayoutTypeDefView {
        namespace: t.namespace,
        name: t.name,
        field_start: t.field_start,
        field_count: t.field_count,
        raw_field_start: t.raw_field_start,
        method_start: t.method_start,
        method_count: t.method_count,
        interface_start: t.interface_start,
        interface_count: t.interface_count,
        parent_type_index: t.parent_type_index,
        flags: t.flags,
        generic_container: t.generic_container,
        declaring_type: declaring,
        is_value_type: t.is_value_type,
        is_enum: t.is_enum,
    }
}

/// Every type definition the images cover, each with the declaring type that the nested
/// type lists give it.
pub open spec fn spec_read_types(m: LayoutMetadataView) -> Result<Seq<LayoutTypeDefView>, LayoutError> {
    let count = spec_type_count(m.images);
    match spec_read_types_prefix(m, count) {
        Err(e) => Err(e),
        Ok(types) => match spec_declaring_pass(m, Seq::new(count, |i: int| None::<usize>), count) {
            Err(e) => Err(e),
            Ok(declaring) => Ok(Seq::new(count, |i: int| with_declaring_type(types[i], declaring[i]))),
        },
    }
}

proof fn lemma_read_types_error(m: LayoutMetadataView, failing: nat, count: nat, e: LayoutError)
    requires
        failing <= count,
        spec_read_types_prefix(m, failing) == Err::<Seq<LayoutTypeDefView>, LayoutError>(e),
    ensures
        spec_read_types_prefix(m, count) == Err::<Seq<LayoutTypeDefView>, LayoutError>(e),
    decreases count - failing,
{
    if failing < count {
        lemma_read_types_error(m, failing + 1, count, e);
    }
}

proof fn lemma_declaring_pass_error(
    m: LayoutMetadataView,
    initial: Seq<Option<usize>>,
    failing: nat,
    count: nat,
    e: LayoutError,
)
    requires
        failing <= count,
        spec_declaring_pass(m, initial, failing) == Err::<Seq<Option<usize>>, LayoutError>(e),
    ensures
        spec_declaring_pass(m, initial, count) == Err::<Seq<Option<usize>>, LayoutError>(e),
    decreases count - failing,
{
    if failing < count {
        lemma_declaring_pass_error(m, initial, failing + 1, count, e);
    }
}

proof fn lemma_assign_declaring_len(declaring: Seq<Option<usize>>, g: Seq<u8>, table: int, parent: int, k: nat)
    ensures
        assign_declaring(declaring, g, table, parent, k).len() == declaring.len(),
    decreases k,
{
    if k > 0 {
        lemma_assign_declaring_len(declaring, g, table, parent, (k - 1) as nat);
    }
}

/// A type list seen through the types' views.
pub open spec fn types_view(types: Seq<LayoutTypeDef>) -> Seq<LayoutTypeDefView> {
    types.map_values(|t: LayoutTypeDef| t@)
}

/// A type list, or the error that stopped it, seen through the types' views.
pub open spec fn types_result_view(r: Result<Vec<LayoutTypeDef>, LayoutError>) -> Result<
    Seq<LayoutTypeDefView>,
    LayoutError,
> {
    match r {
        Ok(types) => Ok(types_view(types@)),
        Err(e) => Err(e),
    }
}

/// Whether a step that updates `actual` in place agrees with `expected`.
pub open spec fn step_agrees(r: Result<(), LayoutError>, expected: Result<Seq<Option<usize>>, LayoutError>, actual: Seq<
    Option<usize>,
>) -> bool {
    match r {
        Ok(_) => expected == Ok::<Seq<Option<usize>>, LayoutError>(actual),
        Err(e) => expected == Err::<Seq<Option<usize>>, LayoutError>(e),
    }
}

impl LayoutMetadata {
    fn type_count(&self) -> (r: u128)
        ensures
            r == spec_type_count(self@.images),
    {
        let ghost all = self@.images;
        let mut count: u128 = 0;
        let mut i: usize = 0;
        assert(images_view(self.images@.subrange(0, 0)) =~= Seq::<LayoutImageView>::empty());
        while i < self.images.len()
            invariant
                i <= self.images@.len(),
                all == images_view(self.images@),
                count == spec_type_count(images_view(self.images@.subrange(0, i as int))),
                count <= 2 * (usize::MAX as int),
            decreases self.images@.len() - i,
        {
            let image = &self.images[i];
            let end = image.type_start as u128 + image.type_count as u128;
            let ghost before = images_view(self.images@.subrange(0, i as int));
            let ghost after = images_view(self.images@.subrange(0, i + 1));
            assert(after.drop_last() =~= before);
            assert(after.last() == image@);
            if end > count {
                count = end;
            }
            i += 1;
        }
        assert(self.images@.subrange(0, i as int) =~= self.images@);
        count
    }

    fn assign_nested(&self, declaring: &mut Vec<Option<usize>>, parent: usize) -> (r: Result<(), LayoutError>)
        ensures
            final(declaring)@.len() == old(declaring)@.len(),
            step_agrees(r, spec_nested_step(self@, old(declaring)@, parent as int), final(declaring)@),
    {
        let ghost m = self@;
        let entry = self.global_entry(self.layout.global_type_table_offset, parent, 0x46)?;
        assert(self.global_data@.len() == self.global_data.len());
        let g = self.global_data.as_slice();
        let nested_count = g[entry + 0x43].wrapping_add(4);
        if nested_count == 0 {
            return Ok(());
        }
        let nested_start = match read_u16_at(g, entry, 0x3A) {
            Ok(v) => v ^ 0xB2C0,
            Err(e) => {
                return Err(e);
            },
        };
        let base = match (self.layout.payload_offset as usize).checked_add(
            self.layout.global_nested_type_table_offset as usize,
        ) {
            Some(v) => v,
            None => {
                return Err(LayoutError::OutOfRange);
            },
        };
        let table = entry_offset(g, base, nested_start as usize, 4, nested_count as usize * 4)?;
        let ghost table_int = table as int;
        assert(table_int == m.layout.payload_offset + m.layout.global_nested_type_table_offset + nested_start * 4);
        let ghost initial = declaring@;
        let mut local: usize = 0;
        while local < nested_count as usize
            invariant
                local <= nested_count,
                in_range(m.global_data, table_int, nested_count * 4),
                table == table_int,
                g@ == m.global_data,
                g@.len() == g.len(),
                declaring@ == assign_declaring(initial, m.global_data, table_int, parent as int, local as nat),
                declaring@.len() == initial.len(),
            decreases nested_count - local,
        {
            assert(local * 4 + 4 <= nested_count * 4) by (nonlinear_arith)
                requires
                    local < nested_count,
            ;
            let nested = match read_u32_at(g, table, local * 4) {
                Ok(v) => v as usize,
                Err(e) => {
                    return Err(e);
                },
            };
            if nested < declaring.len() {
                declaring[nested] = Some(parent);
            }
            local += 1;
        }
        Ok(())
    }

    /// Decodes type `index` and appends it to `types`.
    fn push_type(&mut self, types: &mut Vec<LayoutTypeDef>, index: usize) -> (r: Result<(), LayoutError>)
        requires
            old(self).wf(),
            old(types)@.len() == index,
            spec_read_types_prefix(old(self)@, index as nat) == Ok::<Seq<LayoutTypeDefView>, LayoutError>(
                types_view(old(types)@),
            ),
        ensures
            final(self).wf(),
            final(self)@ == old(self)@,
            r is Ok ==> final(types)@.len() == index + 1 && spec_read_types_prefix(old(self)@, (index + 1) as nat)
                == Ok::<Seq<LayoutTypeDefView>, LayoutError>(types_view(final(types)@)),
            r is Ok ==> index < usize::MAX,
            r matches Err(e) ==> spec_read_types_prefix(old(self)@, (index + 1) as nat) == Err::<
                Seq<LayoutTypeDefView>,
                LayoutError,
            >(e),
    {
        let t = self.read_type(index)?;
        assert(self.global_data@.len() == self.global_data.len());
        assert(index * 0x46 + 0x46 <= usize::MAX);
        assert(index < usize::MAX) by (nonlinear_arith)
            requires
                index * 0x46 + 0x46 <= usize::MAX,
        ;
        let ghost before = types_view(types@);
        types.push(t);
        assert(types_view(types@) =~= before.push(t@));
        Ok(())
    }

    /// Decodes the type definitions that the images cover and links nested types to the
    /// types that declare them.
    fn read_types(&mut self) -> (r: Result<Vec<LayoutTypeDef>, LayoutError>)
        requires
            old(self).wf(),
        ensures
            final(self).wf(),
            final(self)@ == old(self)@,
            types_result_view(r) == spec_read_types(old(self)@),
    {
        let ghost m = self@;
        let type_count = self.type_count();
        let ghost count_nat = spec_type_count(m.images);
        let mut types: Vec<LayoutTypeDef> = Vec::new();
        assert(types_view(types@) =~= Seq::<LayoutTypeDefView>::empty());
        let mut index: usize = 0;
        while (index as u128) < type_count
            invariant
                index <= type_count,
                type_count == count_nat,
                count_nat == spec_type_count(m.images),
                types@.len() == index,
                self.wf(),
                self@ == m,
                m == old(self)@,
                spec_read_types_prefix(m, index as nat) == Ok::<Seq<LayoutTypeDefView>, LayoutError>(
                    types_view(types@),
                ),
            decreases type_count - index,
        {
            match self.push_type(&mut types, index) {
                Err(e) => {
                    proof {
                        lemma_read_types_error(m, (index + 1) as nat, count_nat, e);
                    }
                    return Err(e);
                },
                Ok(()) => {},
            }
            index += 1;
        }
        let count = types.len();
        assert(count == count_nat);
        let ghost first = types_view(types@);
        let mut declaring: Vec<Option<usize>> = Vec::new();
        let mut i: usize = 0;
        while i < count
            invariant
                i <= count,
                declaring@ =~= Seq::new(i as nat, |j: int| None::<usize>),
            decreases count - i,
        {
            declaring.push(None);
            i += 1;
        }
        let ghost initial = declaring@;
        assert(initial =~= Seq::new(count_nat, |j: int| None::<usize>));
        let mut parent: usize = 0;
        while parent < count
            invariant
                parent <= count,
                count == count_nat,
                initial == Seq::new(count_nat, |j: int| None::<usize>),
                spec_type_count(m.images) == count_nat,
                spec_read_types_prefix(m, count_nat) == Ok::<Seq<LayoutTypeDefView>, LayoutError>(first),
                self.wf(),
                self@ == m,
                m == old(self)@,
                declaring@.len() == count,
                spec_declaring_pass(m, initial, parent as nat) == Ok::<Seq<Option<usize>>, LayoutError>(declaring@),
            decreases count - parent,
        {
            let ghost before = declaring@;
            let step = self.assign_nested(&mut declaring, parent);
            match step {
                Err(e) => {
                    proof {
                        lemma_declaring_pass_error(m, initial, (parent + 1) as nat, count_nat, e);
                    }
                    return Err(e);
                },
                Ok(()) => {},
            }
            parent += 1;
        }
        let mut k: usize = 0;
        while k < count
            invariant
                k <= count,
                count == count_nat,
                types@.len() == count,
                declaring@.len() == count,
                first.len() == count,
                forall|j: int| 0 <= j < k ==> #[trigger] types@[j]@ == with_declaring_type(first[j], declaring@[j]),
                forall|j: int| k <= j < count ==> #[trigger] types@[j]@ == first[j],
            decreases count - k,
        {
            let d = declaring[k];
            let ghost previous = types@;
            types[k].declaring_type = d;
            assert(types@[k as int]@ == with_declaring_type(previous[k as int]@, d));
            assert(forall|j: int| 0 <= j < count && j != k ==> types@[j] == previous[j]);
            k += 1;
        }
        proof {
            assert(types_view(types@) =~= Seq::new(count_nat, |j: int| with_declaring_type(first[j], declaring@[j])));
        }
        Ok(types)
    }
}


/// The instruction bytes that load the method attribute xor key: `movdqa xmm0, [rip+disp]`
/// followed by `mov rbp, r8` and `mov [rsp+0x38], r8`.
pub open spec fn spec_method_attribute_xor_pattern() -> Seq<Option<u8>> {
    seq![
        Some(0x66u8),
        Some(0x0Fu8),
        Some(0x6Fu8),
        Some(0x05u8),
        None,
        None,
        None,
        None,
        Some(0x4Cu8),
        Some(0x89u8),
        Some(0xC5u8),
        Some(0x4Cu8),
        Some(0x89u8),
        Some(0x44u8),
        Some(0x24u8),
        Some(0x38u8),
    ]
}

/// The byte pattern of the instructions that load the method attribute xor key.
pub fn method_attribute_xor_pattern() -> (r: Vec<Option<u8>>)
    ensures
        r@ == spec_method_attribute_xor_pattern(),
{
    let mut pattern: Vec<Option<u8>> = Vec::new();
    pattern.push(Some(0x66u8));
    pattern.push(Some(0x0Fu8));
    pattern.push(Some(0x6Fu8));
    pattern.push(Some(0x05u8));
    pattern.push(None);
    pattern.push(None);
    pattern.push(None);
    pattern.push(None);
    pattern.push(Some(0x4Cu8));
    pattern.push(Some(0x89u8));
    pattern.push(Some(0xC5u8));
    pattern.push(Some(0x4Cu8));
    pattern.push(Some(0x89u8));
    pattern.push(Some(0x44u8));
    pattern.push(Some(0x24u8));
    pattern.push(Some(0x38u8));
    assert(pattern@ =~= spec_method_attribute_xor_pattern());
    pattern
}

/// The RVA that the RIP-relative instruction of `instruction_len` bytes at `instruction_rva`
/// addresses: the instruction's end plus the signed displacement in its last four bytes.
pub open spec fn spec_rip_relative_target_rva(image: PeImageView, instruction_rva: u32, instruction_len: u32) -> Result<
    u32,
    LayoutError,
> {
    let end = instruction_rva + instruction_len;
    if end > u32::MAX || end < 4 {
        Err(LayoutError::ArithmeticOverflow)
    } else {
        match spec_read_i32_rva(image, (end - 4) as u32) {
            Err(e) => Err(e),
            Ok(displacement) => {
                let target = end + displacement;
                if target < 0 || target > u32::MAX {
                    Err(LayoutError::TargetOutOfRange)
                } else {
                    Ok(target as u32)
                }
            },
        }
    }
}

/// Resolves the target of a RIP-relative instruction.
pub fn rip_relative_target_rva(image: &PeImage, instruction_rva: u32, instruction_len: u32) -> (r: Result<
    u32,
    LayoutError,
>)
    ensures
        r == spec_rip_relative_target_rva(image@, instruction_rva, instruction_len),
{
    let end = match instruction_rva.checked_add(instruction_len) {
        Some(v) => v,
        None => {
            return Err(LayoutError::ArithmeticOverflow);
        },
    };
    if end < 4 {
        return Err(LayoutError::ArithmeticOverflow);
    }
    let displacement = image.read_i32_rva(end - 4)?;
    let target = end as i64 + displacement as i64;
    if target < 0 || target > u32::MAX as i64 {
        return Err(LayoutError::TargetOutOfRange);
    }
    Ok(target as u32)
}

/// The method attribute xor key: the `u16` that the first match of the key-loading pattern
/// reads through its RIP-relative operand.
pub open spec fn spec_discover_method_attribute_xor(image: PeImageView) -> Result<u16, LayoutError> {
    let hits = spec_scan_pattern(image, spec_method_attribute_xor_pattern());
    if hits.len() == 0 {
        Err(LayoutError::MethodAttributeXorNotFound)
    } else {
        match spec_rip_relative_target_rva(image, hits[0], 8) {
            Err(e) => Err(e),
            Ok(target) => spec_read_u16_rva(image, target),
        }
    }
}

/// Finds the method attribute xor key in the game assembly.
pub fn discover_method_attribute_xor(image: &PeImage) -> (r: Result<u16, LayoutError>)
    ensures
        r == spec_discover_method_attribute_xor(image@),
{
    let pattern = method_attribute_xor_pattern();
    let hits = image.scan_pattern(pattern.as_slice());
    if hits.len() == 0 {
        return Err(LayoutError::MethodAttributeXorNotFound);
    }
    let target = rip_relative_target_rva(image, hits[0], 8)?;
    image.read_u16_rva(target)
}

/// The RVA that the pointer stored at RVA `base + delta` holds, relative to the image base.
pub open spec fn spec_table_rva(image: PeImageView, base: u32, delta: u32) -> Result<u32, LayoutError> {
    match spec_rva_add(base, delta) {
        Err(e) => Err(e),
        Ok(at) => match spec_read_u64_rva(image, at) {
            Err(e) => Err(e),
            Ok(va) => spec_va_to_rva(va, image.image_base),
        },
    }
}

fn table_rva(image: &PeImage, base: u32, delta: u32) -> (r: Result<u32, LayoutError>)
    ensures
        r == spec_table_rva(image@, base, delta),
{
    let at = match base.checked_add(delta) {
        Some(v) => v,
        None => {
            return Err(LayoutError::ArithmeticOverflow);
        },
    };
    let va = image.read_u64_rva(at)?;
    va_to_rva(va, image.image_base())
}

/// The metadata before its images and types are decoded.
pub open spec fn unpopulated_metadata(
    image: PeImageView,
    layout: StaticLayout,
    global_data: Seq<u8>,
    startup_data: Seq<u8>,
    il2cpp_type_table_rva: u32,
    method_pointer_table_rva: u32,
    generic_inst_table_rva: u32,
    method_attribute_xor: u16,
) -> LayoutMetadataView {
    LayoutMetadataView {
        layout,
        global_data,
        startup_data,
        pe: image,
        image_base: image.image_base,
        il2cpp_type_table_rva,
        method_pointer_table_rva,
        generic_inst_table_rva,
        method_attribute_xor,
        field_default_values: FieldDefaultValueTable { table_offset: 0, data_offset: 0, count: 0 },
        images: Seq::empty(),
        types: Seq::empty(),
    }
}

/// `m` with the images and types that it decodes to.
pub open spec fn spec_populate(m: LayoutMetadataView) -> Result<LayoutMetadataView, LayoutError> {
    match spec_read_images(m) {
        Err(e) => Err(e),
        Ok(images) => {
            let with_images = LayoutMetadataView { images, ..m };
            match spec_read_types(with_images) {
                Err(e) => Err(e),
                Ok(types) => Ok(LayoutMetadataView { types, ..with_images }),
            }
        },
    }
}

/// The metadata that the game assembly and the two metadata files decode to.
pub open spec fn spec_from_parts(image: PeImageView, global_data: Seq<u8>, startup_data: Seq<u8>) -> Result<
    LayoutMetadataView,
    LayoutError,
> {
    match spec_inspect_game_assembly(image) {
        Err(e) => Err(e),
        Ok(layout) => match spec_table_rva(image, layout.descriptor_rva, 0x68) {
            Err(e) => Err(e),
            Ok(il2cpp_type_table_rva) => match spec_table_rva(image, layout.metadata_registration_rva, 0x88) {
                Err(e) => Err(e),
                Ok(method_pointer_table_rva) => match spec_table_rva(image, layout.descriptor_rva, 0x20) {
                    Err(e) => Err(e),
                    Ok(generic_inst_table_rva) => match spec_discover_method_attribute_xor(image) {
                        Err(e) => Err(e),
                        Ok(method_attribute_xor) => spec_populate(
                            unpopulated_metadata(
                                image,
                                layout,
                                global_data,
                                startup_data,
                                il2cpp_type_table_rva,
                                method_pointer_table_rva,
                                generic_inst_table_rva,
                                method_attribute_xor,
                            ),
                        ),
                    },
                },
            },
        },
    }
}

/// A metadata model, or the error that stopped its decoding, seen through its view.
pub open spec fn metadata_result_view(r: Result<LayoutMetadata, LayoutError>) -> Result<LayoutMetadataView, LayoutError> {
    match r {
        Ok(m) => Ok(m@),
        Err(e) => Err(e),
    }
}

impl LayoutMetadata {
    /// Decodes the metadata model from the game assembly and the contents of the global and
    /// startup metadata files.
    pub fn from_parts(pe: PeImage, global_data: Vec<u8>, startup_data: Vec<u8>) -> (r: Result<
        LayoutMetadata,
        LayoutError,
    >)
        ensures
            metadata_result_view(r) == spec_from_parts(pe@, global_data@, startup_data@),
            r matches Ok(m) ==> m.wf(),
    {
        let layout = inspect_game_assembly(&pe)?;
        let image_base = pe.image_base();
        let il2cpp_type_table_rva = table_rva(&pe, layout.descriptor_rva, 0x68)?;
        let method_pointer_table_rva = table_rva(&pe, layout.metadata_registration_rva, 0x88)?;
        let generic_inst_table_rva = table_rva(&pe, layout.descriptor_rva, 0x20)?;
        let method_attribute_xor = discover_method_attribute_xor(&pe)?;
        let ghost image = pe@;
        let mut metadata = LayoutMetadata {
            layout,
            global_data,
            startup_data,
            pe,
            image_base,
            il2cpp_type_table_rva,
            method_pointer_table_rva,
            generic_inst_table_rva,
            method_attribute_xor,
            field_default_values: FieldDefaultValueTable { table_offset: 0, data_offset: 0, count: 0 },
            images: Vec::new(),
            types: Vec::new(),
            string_cache: HashMap::new(),
        };
        assert(metadata@.images =~= Seq::<LayoutImageView>::empty());
        assert(metadata@.types =~= Seq::<LayoutTypeDefView>::empty());
        let ghost unpopulated = metadata@;
        let images = metadata.read_images()?;
        let ghost cache = metadata.string_cache@;
        metadata.images = images;
        assert(metadata.wf()) by {
            assert(metadata.string_cache@ == cache);
        }
        let ghost with_images = metadata@;
        assert(with_images == LayoutMetadataView { images: with_images.images, ..unpopulated });
        let types = metadata.read_types()?;
        metadata.types = types;
        assert(metadata.wf());
        assert(metadata@ == LayoutMetadataView { types: metadata@.types, ..with_images });
        Ok(metadata)
    }

    /// Sets where the field default value table and its data live, and how many entries the
    /// table has.
    pub fn set_field_default_value_table(&mut self, table: FieldDefaultValueTable)
        requires
            old(self).wf(),
        ensures
            final(self).wf(),
            final(self)@ == (LayoutMetadataView { field_default_values: table, ..old(self)@ }),
    {
        self.field_default_values = table;
    }
}


/// Byte offset of entry `i` of the field default value table.
pub open spec fn default_value_entry(m: LayoutMetadataView, i: int) -> int {
    m.layout.payload_offset + m.field_default_values.table_offset + i * 12
}

/// The field index that entry `i` of the field default value table belongs to.
pub open spec fn default_value_key(m: LayoutMetadataView, i: int) -> i32 {
    le_i32(m.global_data, default_value_entry(m, i) + 8)
}

/// The `size` bytes of default value data that entry `i` points at; none when its data
/// index is negative.
pub open spec fn default_value_data(m: LayoutMetadataView, i: int, size: int) -> Result<Option<Seq<u8>>, LayoutError> {
    let data_index = le_i32(m.global_data, default_value_entry(m, i) + 4);
    if data_index < 0 {
        Ok(None)
    } else {
        let data = m.layout.payload_offset + m.field_default_values.data_offset + data_index;
        if !in_range(m.global_data, data, size) {
            Err(LayoutError::OutOfRange)
        } else {
            Ok(Some(m.global_data.subrange(data, data + size)))
        }
    }
}

/// Binary search of the entries `low..high` of the field default value table for `field_index`.
pub open spec fn spec_default_value_search(m: LayoutMetadataView, field_index: i32, size: int, low: int, high: int) -> Result<
    Option<Seq<u8>>,
    LayoutError,
>
    decreases high - low,
{
    if low < high {
        let mid = low + (high - low) / 2;
        if !in_range(m.global_data, default_value_entry(m, mid), 12) {
            Err(LayoutError::OutOfRange)
        } else if default_value_key(m, mid) < field_index {
            spec_default_value_search(m, field_index, size, mid + 1, high)
        } else if default_value_key(m, mid) > field_index {
            spec_default_value_search(m, field_index, size, low, mid)
        } else {
            default_value_data(m, mid, size)
        }
    } else {
        Ok(None)
    }
}

/// The `size` bytes of default value data of field `field_index`, found by binary search of
/// the field default value table; `FieldIndexTooLarge` when the index does not fit in `i32`.
pub open spec fn spec_read_field_default_value_data(m: LayoutMetadataView, field_index: usize, size: usize) -> Result<
    Option<Seq<u8>>,
    LayoutError,
> {
    if field_index > i32::MAX {
        Err(LayoutError::FieldIndexTooLarge)
    } else {
        spec_default_value_search(m, field_index as i32, size as int, 0, m.field_default_values.count as int)
    }
}

/// A byte lookup, or the error that stopped it, seen through the bytes' view.
pub open spec fn bytes_result_view(r: Result<Option<Vec<u8>>, LayoutError>) -> Result<Option<Seq<u8>>, LayoutError> {
    match r {
        Ok(Some(bytes)) => Ok(Some(bytes@)),
        Ok(None) => Ok(None),
        Err(e) => Err(e),
    }
}

/// The field default value table is well formed: every entry lies inside the global
/// metadata and the entries are sorted by strictly increasing field index.
pub open spec fn default_value_table_sorted(m: LayoutMetadataView) -> bool {
    &&& forall|i: int|
        0 <= i < m.field_default_values.count ==> in_range(m.global_data, #[trigger] default_value_entry(m, i), 12)
    &&& forall|i: int, j: int|
        0 <= i < j < m.field_default_values.count ==> #[trigger] default_value_key(m, i) < #[trigger] default_value_key(
            m,
            j,
        )
}

proof fn lemma_search_finds(m: LayoutMetadataView, field_index: i32, size: int, low: int, high: int, i: int)
    requires
        default_value_table_sorted(m),
        0 <= low <= i < high <= m.field_default_values.count,
        default_value_key(m, i) == field_index,
    ensures
        spec_default_value_search(m, field_index, size, low, high) == default_value_data(m, i, size),
    decreases high - low,
{
    let mid = low + (high - low) / 2;
    assert(in_range(m.global_data, default_value_entry(m, mid), 12));
    if default_value_key(m, mid) < field_index {
        if i <= mid {
            if i < mid {
                assert(default_value_key(m, i) < default_value_key(m, mid));
            }
        }
        lemma_search_finds(m, field_index, size, mid + 1, high, i);
    } else if default_value_key(m, mid) > field_index {
        if i >= mid {
            if i > mid {
                assert(default_value_key(m, mid) < default_value_key(m, i));
            }
        }
        lemma_search_finds(m, field_index, size, low, mid, i);
    } else {
        if i < mid {
            assert(default_value_key(m, i) < default_value_key(m, mid));
        } else if i > mid {
            assert(default_value_key(m, mid) < default_value_key(m, i));
        }
    }
}

proof fn lemma_search_absent(m: LayoutMetadataView, field_index: i32, size: int, low: int, high: int)
    requires
        default_value_table_sorted(m),
        0 <= low,
        high <= m.field_default_values.count,
        forall|i: int| low <= i < high ==> default_value_key(m, i) != field_index,
    ensures
        spec_default_value_search(m, field_index, size, low, high) == Ok::<Option<Seq<u8>>, LayoutError>(None),
    decreases high - low,
{
    if low < high {
        let mid = low + (high - low) / 2;
        assert(in_range(m.global_data, default_value_entry(m, mid), 12));
        assert(default_value_key(m, mid) != field_index);
        if default_value_key(m, mid) < field_index {
            lemma_search_absent(m, field_index, size, mid + 1, high);
        } else {
            lemma_search_absent(m, field_index, size, low, mid);
        }
    }
}

/// On a sorted field default value table, the lookup of a field finds the entry that
/// belongs to that field, and finds nothing when no entry does.
pub proof fn lemma_default_value_lookup_on_sorted_table(m: LayoutMetadataView, field_index: usize, size: usize)
    requires
        default_value_table_sorted(m),
        field_index <= i32::MAX,
    ensures
        forall|i: int|
            0 <= i < m.field_default_values.count && default_value_key(m, i) == field_index ==> #[trigger]
            default_value_data(m, i, size as int) == spec_read_field_default_value_data(m, field_index, size),
        (forall|i: int| 0 <= i < m.field_default_values.count ==> default_value_key(m, i) != field_index)
            ==> spec_read_field_default_value_data(m, field_index, size) == Ok::<Option<Seq<u8>>, LayoutError>(
            None,
        ),
{
    let count = m.field_default_values.count as int;
    assert forall|i: int|
        0 <= i < count && default_value_key(m, i) == field_index implies #[trigger] default_value_data(
        m,
        i,
        size as int,
    ) == spec_read_field_default_value_data(m, field_index, size) by {
        lemma_search_finds(m, field_index as i32, size as int, 0, count, i);
    }
    if forall|i: int| 0 <= i < count ==> default_value_key(m, i) != field_index {
        lemma_search_absent(m, field_index as i32, size as int, 0, count);
    }
}

impl LayoutMetadata {
    fn default_value_bytes(&self, entry: usize, size: usize) -> (r: Result<Option<Vec<u8>>, LayoutError>)
        requires
            exists|i: int| #![auto] default_value_entry(self@, i) == entry && in_range(self@.global_data, entry as int, 12),
        ensures
            forall|i: int| #![auto] default_value_entry(self@, i) == entry ==> bytes_result_view(r) == default_value_data(self@, i, size as int),
            r matches Ok(Some(bytes)) ==> bytes@.len() == size,
    {
        assert(self.global_data@.len() == self.global_data.len());
        let g = self.global_data.as_slice();
        let data_index = match read_i32_at(g, entry, 4) {
            Ok(v) => v,
            Err(e) => {
                return Err(e);
            },
        };
        if data_index < 0 {
            return Ok(None);
        }
        let base = match (self.layout.payload_offset as usize).checked_add(
            self.field_default_values.data_offset as usize,
        ) {
            Some(v) => v,
            None => {
                return Err(LayoutError::OutOfRange);
            },
        };
        let start = entry_offset(g, base, data_index as usize, 1, size)?;
        let mut bytes: Vec<u8> = Vec::new();
        let mut k: usize = 0;
        while k < size
            invariant
                k <= size,
                start + size <= g@.len(),
                g@.len() == g.len(),
                bytes@ =~= g@.subrange(start as int, start + k),
            decreases size - k,
        {
            bytes.push(g[start + k]);
            k += 1;
        }
        Ok(Some(bytes))
    }

    /// The `size` bytes of default value data of global field `field_index`, or `None` when
    /// the field default value table has no entry for it or the entry has no data.
    pub fn read_field_default_value_data(&self, field_index: usize, size: usize) -> (r: Result<
        Option<Vec<u8>>,
        LayoutError,
    >)
        ensures
            bytes_result_view(r) == spec_read_field_default_value_data(self@, field_index, size),
            r matches Ok(Some(bytes)) ==> bytes@.len() == size,
    {
        let ghost m = self@;
        if field_index > i32::MAX as usize {
            return Err(LayoutError::FieldIndexTooLarge);
        }
        let key = field_index as i32;
        let base = match (self.layout.payload_offset as usize).checked_add(
            self.field_default_values.table_offset as usize,
        ) {
            Some(v) => v,
            None => {
                if self.field_default_values.count == 0 {
                    return Ok(None);
                }
                assert(self.global_data@.len() == self.global_data.len());
                assert(!in_range(m.global_data, default_value_entry(m, 0 + (self.field_default_values.count - 0) / 2), 12));
                return Err(LayoutError::OutOfRange);
            },
        };
        let mut low: usize = 0;
        let mut high: usize = self.field_default_values.count as usize;
        while low < high
            invariant
                low <= high <= m.field_default_values.count,
                self@ == m,
                base == m.layout.payload_offset + m.field_default_values.table_offset,
                field_index <= i32::MAX,
                key == field_index as i32,
                spec_read_field_default_value_data(m, field_index, size) == spec_default_value_search(
                    m,
                    key,
                    size as int,
                    low as int,
                    high as int,
                ),
            decreases high - low,
        {
            let mid = low + (high - low) / 2;
            let entry = entry_offset(self.global_data.as_slice(), base, mid, 12, 12)?;
            assert(entry == default_value_entry(m, mid as int));
            assert(self.global_data@.len() == self.global_data.len());
            let entry_key = match read_i32_at(self.global_data.as_slice(), entry, 8) {
                Ok(v) => v,
                Err(e) => {
                    return Err(e);
                },
            };
            if entry_key < key {
                low = mid + 1;
            } else if entry_key > key {
                high = mid;
            } else {
                return self.default_value_bytes(entry, size);
            }
        }
        Ok(None)
    }
}


/// The name of the hidden instance field that holds an enum's underlying value.
pub open spec fn enum_value_field_name() -> Seq<char> {
    seq!['v', 'a', 'l', 'u', 'e', '_', '_']
}

/// The enum constants among the first `count` of `fields`: each literal (flag `0x40`)
/// field other than `value__`, with the `i32` of its default value data.
pub open spec fn spec_enum_values_from(m: LayoutMetadataView, fields: Seq<LayoutFieldView>, count: nat) -> Result<
    Seq<LayoutEnumValueView>,
    LayoutError,
>
    decreases count,
{
    if count == 0 {
        Ok(Seq::empty())
    } else {
        match spec_enum_values_from(m, fields, (count - 1) as nat) {
            Err(e) => Err(e),
            Ok(previous) => {
                let field = fields[count - 1];
                if field.name == enum_value_field_name() || field.flags & 0x40u16 == 0 {
                    Ok(previous)
                } else {
                    match spec_read_field_default_value_data(m, field.index, 4) {
                        Err(e) => Err(e),
                        Ok(None) => Err(LayoutError::MissingEnumDefaultValue),
                        Ok(Some(bytes)) => Ok(previous.push(LayoutEnumValueView { name: field.name, value: le_i32(bytes, 0) })),
                    }
                }
            },
        }
    }
}

/// The named constants of type `type_index` when it is an enum; none otherwise.
pub open spec fn spec_read_enum_values(m: LayoutMetadataView, type_index: usize, type_def: LayoutTypeDefView) -> Result<
    Seq<LayoutEnumValueView>,
    LayoutError,
> {
    if !type_def.is_enum {
        Ok(Seq::empty())
    } else {
        match spec_read_fields(m, type_index, type_def) {
            Err(e) => Err(e),
            Ok(fields) => spec_enum_values_from(m, fields, fields.len()),
        }
    }
}

proof fn lemma_enum_values_error(m: LayoutMetadataView, fields: Seq<LayoutFieldView>, failing: nat, count: nat, e: LayoutError)
    requires
        failing <= count,
        spec_enum_values_from(m, fields, failing) == Err::<Seq<LayoutEnumValueView>, LayoutError>(e),
    ensures
        spec_enum_values_from(m, fields, count) == Err::<Seq<LayoutEnumValueView>, LayoutError>(e),
    decreases count - failing,
{
    if failing < count {
        lemma_enum_values_error(m, fields, failing + 1, count, e);
    }
}

/// An enum constant list, or the error that stopped it, seen through the constants' views.
pub open spec fn enum_values_result_view(r: Result<Vec<LayoutEnumValue>, LayoutError>) -> Result<
    Seq<LayoutEnumValueView>,
    LayoutError,
> {
    match r {
        Ok(values) => Ok(values@.map_values(|v: LayoutEnumValue| v@)),
        Err(e) => Err(e),
    }
}

impl LayoutMetadata {
    /// Appends the enum constant that `field` defines, if it defines one.
    fn push_enum_value(&self, values: &mut Vec<LayoutEnumValue>, field: &LayoutField) -> (r: Result<(), LayoutError>)
        ensures
            match r {
                Ok(_) => {
                    let f = field@;
                    if f.name == enum_value_field_name() || f.flags & 0x40u16 == 0 {
                        final(values)@.map_values(|v: LayoutEnumValue| v@) == old(values)@.map_values(|v: LayoutEnumValue| v@)
                    } else {
                        exists|bytes: Seq<u8>|
                            spec_read_field_default_value_data(self@, f.index, 4) == Ok::<Option<Seq<u8>>, LayoutError>(Some(bytes))
                                && final(values)@.map_values(|v: LayoutEnumValue| v@) == old(values)@.map_values(
                                |v: LayoutEnumValue| v@,
                            ).push(LayoutEnumValueView { name: f.name, value: le_i32(bytes, 0) })
                    }
                },
                Err(e) => !(field@.name == enum_value_field_name() || field@.flags & 0x40u16 == 0) && (
                    spec_read_field_default_value_data(self@, field@.index, 4) == Err::<Option<Seq<u8>>, LayoutError>(e)
                    || (spec_read_field_default_value_data(self@, field@.index, 4) == Ok::<
                        Option<Seq<u8>>,
                        LayoutError,
                    >(None) && e == LayoutError::MissingEnumDefaultValue)),
            },
    {
        let is_value_field = str_eq(field.name.as_str(), "value__");
        proof {
            reveal_strlit("value__");
        }
        assert("value__"@ =~= enum_value_field_name());
        assert(is_value_field == (field.name@ == enum_value_field_name()));
        if is_value_field || field.flags & 0x40 == 0 {
            return Ok(());
        }
        let data = match self.read_field_default_value_data(field.index, 4)? {
            Some(bytes) => bytes,
            None => {
                return Err(LayoutError::MissingEnumDefaultValue);
            },
        };
        assert(data@.len() == 4);
        let value = match read_i32(data.as_slice(), 0) {
            Ok(v) => v,
            Err(e) => {
                return Err(e);
            },
        };
        let ghost before = values@.map_values(|v: LayoutEnumValue| v@);
        let entry = LayoutEnumValue { name: field.name.clone(), value };
        values.push(entry);
        assert(values@.map_values(|v: LayoutEnumValue| v@) =~= before.push(entry@));
        Ok(())
    }

    /// The named constants of type `type_index` (described by `type_def`) when it is an enum,
    /// with their values from the field default value table; none when it is not an enum.
    pub fn read_enum_values(&mut self, type_index: usize, type_def: &LayoutTypeDef) -> (r: Result<
        Vec<LayoutEnumValue>,
        LayoutError,
    >)
        requires
            old(self).wf(),
        ensures
            final(self).wf(),
            final(self)@ == old(self)@,
            enum_values_result_view(r) == spec_read_enum_values(old(self)@, type_index, type_def@),
    {
        let ghost m = self@;
        let mut values: Vec<LayoutEnumValue> = Vec::new();
        assert(values@.map_values(|v: LayoutEnumValue| v@) =~= Seq::<LayoutEnumValueView>::empty());
        if !type_def.is_enum {
            return Ok(values);
        }
        let fields = self.read_fields(type_index, type_def)?;
        let ghost field_views = fields_view(fields@);
        let mut i: usize = 0;
        while i < fields.len()
            invariant
                i <= fields@.len(),
                field_views == fields_view(fields@),
                self.wf(),
                self@ == m,
                m == old(self)@,
                spec_read_enum_values(m, type_index, type_def@) == spec_enum_values_from(
                    m,
                    field_views,
                    field_views.len(),
                ),
                spec_enum_values_from(m, field_views, i as nat) == Ok::<Seq<LayoutEnumValueView>, LayoutError>(
                    values@.map_values(|v: LayoutEnumValue| v@),
                ),
            decreases fields@.len() - i,
        {
            assert(field_views[i as int] == fields@[i as int]@);
            match self.push_enum_value(&mut values, &fields[i]) {
                Err(e) => {
                    proof {
                        lemma_enum_values_error(m, field_views, (i + 1) as nat, field_views.len(), e);
                    }
                    return Err(e);
                },
                Ok(()) => {},
            }
            i += 1;
        }
        assert(field_views.len() == fields@.len());
        Ok(values)
    }
}


/// Every image's type range ends within the type count of the images.
proof fn lemma_type_count_covers(images: Seq<LayoutImageView>)
    ensures
        forall|i: int|
            0 <= i < images.len() ==> #[trigger] images[i].type_start + images[i].type_count <= spec_type_count(images),
    decreases images.len(),
{
    if images.len() > 0 {
        let rest = images.drop_last();
        lemma_type_count_covers(rest);
        assert forall|i: int| 0 <= i < images.len() implies #[trigger] images[i].type_start + images[i].type_count
            <= spec_type_count(images) by {
            if i < images.len() - 1 {
                assert(rest[i] == images[i]);
            }
        }
    }
}

/// Marking nested types keeps every declaring type below `bound` when the parent is.
proof fn lemma_assign_declaring_bounded(
    declaring: Seq<Option<usize>>,
    g: Seq<u8>,
    table: int,
    parent: int,
    k: nat,
    bound: int,
)
    requires
        0 <= parent < bound,
        forall|i: int| 0 <= i < declaring.len() ==> (#[trigger] declaring[i] matches Some(p) ==> p < bound),
    ensures
        forall|i: int|
            0 <= i < assign_declaring(declaring, g, table, parent, k).len() ==> (#[trigger] assign_declaring(
                declaring,
                g,
                table,
                parent,
                k,
            )[i] matches Some(p) ==> p < bound),
    decreases k,
{
    if k > 0 {
        lemma_assign_declaring_bounded(declaring, g, table, parent, (k - 1) as nat, bound);
    }
}

/// After the nested type lists of the first `k` types, every declaring type is one of them.
proof fn lemma_declaring_pass_bounded(m: LayoutMetadataView, initial: Seq<Option<usize>>, k: nat)
    requires
        forall|i: int| 0 <= i < initial.len() ==> #[trigger] initial[i] is None,
    ensures
        spec_declaring_pass(m, initial, k) matches Ok(d) ==> d.len() == initial.len() && forall|i: int|
            0 <= i < d.len() ==> (#[trigger] d[i] matches Some(p) ==> p < k),
    decreases k,
{
    if k > 0 {
        lemma_declaring_pass_bounded(m, initial, (k - 1) as nat);
        match spec_declaring_pass(m, initial, (k - 1) as nat) {
            Err(_) => {},
            Ok(d) => {
                match spec_global_entry(m, m.layout.global_type_table_offset, k - 1, 0x46) {
                    Err(_) => {},
                    Ok(entry) => {
                        let g = m.global_data;
                        let nested_count = g[entry + 0x43].wrapping_add(4);
                        let table = m.layout.payload_offset + m.layout.global_nested_type_table_offset + (le_u16(
                            g,
                            entry + 0x3A,
                        ) ^ 0xB2C0u16) * 4;
                        lemma_assign_declaring_bounded(d, g, table, k - 1, nested_count as nat, k as int);
                        lemma_assign_declaring_len(d, g, table, k - 1, nested_count as nat);
                    },
                }
            },
        }
    }
}

/// The shape of every decoded type definition: a non-empty name, an enum is a value type,
/// fields start somewhere exactly when there are any, and the interface list has a start.
pub open spec fn type_def_shape(t: LayoutTypeDefView) -> bool {
    &&& t.name.len() > 0
    &&& t.is_enum ==> t.is_value_type
    &&& (t.field_start is Some) == (t.field_count != 0)
    &&& t.interface_start is Some
}

proof fn lemma_read_types_prefix_shape(m: LayoutMetadataView, count: nat)
    ensures
        spec_read_types_prefix(m, count) matches Ok(types) ==> forall|i: int|
            0 <= i < types.len() ==> type_def_shape(#[trigger] types[i]),
    decreases count,
{
    if count > 0 {
        lemma_read_types_prefix_shape(m, (count - 1) as nat);
        reveal(type_def_at);
        if let Ok(types) = spec_read_types_prefix(m, count) {
            let previous = spec_read_types_prefix(m, (count - 1) as nat)->Ok_0;
            let t = spec_read_type(m, count - 1)->Ok_0;
            assert(types == previous.push(t));
            assert(type_def_shape(t));
            assert forall|i: int| 0 <= i < types.len() implies type_def_shape(#[trigger] types[i]) by {
                if i < previous.len() {
                    assert(types[i] == previous[i]);
                }
            }
        }
    }
}

/// A decoded model is consistent: there are as many type definitions as the images
/// cover, every image's type range lies within them, every declaring type names one of
/// them, and each has the shape of a decoded type definition.
pub proof fn lemma_decoded_model_consistent(image: PeImageView, global_data: Seq<u8>, startup_data: Seq<u8>)
    requires
        spec_from_parts(image, global_data, startup_data) is Ok,
    ensures
        ({
            let m = spec_from_parts(image, global_data, startup_data)->Ok_0;
            &&& m.types.len() == spec_type_count(m.images)
            &&& forall|i: int|
                0 <= i < m.images.len() ==> #[trigger] m.images[i].type_start + m.images[i].type_count <= m.types.len()
            &&& forall|i: int|
                0 <= i < m.types.len() ==> (#[trigger] m.types[i].declaring_type matches Some(p) ==> p < m.types.len())
            &&& forall|i: int| 0 <= i < m.types.len() ==> type_def_shape(#[trigger] m.types[i])
        }),
{
    let layout = spec_inspect_game_assembly(image)->Ok_0;
    let base = unpopulated_metadata(
        image,
        layout,
        global_data,
        startup_data,
        spec_table_rva(image, layout.descriptor_rva, 0x68)->Ok_0,
        spec_table_rva(image, layout.metadata_registration_rva, 0x88)->Ok_0,
        spec_table_rva(image, layout.descriptor_rva, 0x20)->Ok_0,
        spec_discover_method_attribute_xor(image)->Ok_0,
    );
    let images = spec_read_images(base)->Ok_0;
    let with_images = LayoutMetadataView { images, ..base };
    let count = spec_type_count(images);
    let first = spec_read_types_prefix(with_images, count)->Ok_0;
    let initial = Seq::new(count, |i: int| None::<usize>);
    lemma_type_count_covers(images);
    lemma_declaring_pass_bounded(with_images, initial, count);
    lemma_read_types_prefix_len(with_images, count);
    lemma_read_types_prefix_shape(with_images, count);
    let m = spec_from_parts(image, global_data, startup_data)->Ok_0;
    assert forall|i: int| 0 <= i < m.types.len() implies type_def_shape(#[trigger] m.types[i]) by {
        assert(type_def_shape(first[i]));
    }
}

proof fn lemma_read_types_prefix_len(m: LayoutMetadataView, count: nat)
    ensures
        spec_read_types_prefix(m, count) matches Ok(types) ==> types.len() == count,
    decreases count,
{
    if count > 0 {
        lemma_read_types_prefix_len(m, (count - 1) as nat);
    }
}


/// Each of the `count` parameter names read from `start` is non-empty.
proof fn lemma_generic_parameter_names_shape(m: LayoutMetadataView, start: u32, count: nat)
    ensures
        spec_generic_parameter_names(m, start, count) matches Ok(names) ==> names.len() == count && forall|j: int|
            0 <= j < names.len() ==> #[trigger] names[j].len() > 0,
    decreases count,
{
    if count > 0 {
        lemma_generic_parameter_names_shape(m, start, (count - 1) as nat);
        if let Ok(names) = spec_generic_parameter_names(m, start, count) {
            let previous = spec_generic_parameter_names(m, start, (count - 1) as nat)->Ok_0;
            let index = count - 1;
            let found = spec_generic_parameter_name(m, start.wrapping_add(index as u32))->Ok_0;
            let last = match found {
                Some(name) => name,
                None => seq!['T'] + decimal(index as nat),
            };
            assert(names == previous.push(last));
            assert forall|j: int| 0 <= j < names.len() implies #[trigger] names[j].len() > 0 by {
                if j < previous.len() {
                    assert(names[j] == previous[j]);
                }
            }
        }
    }
}

/// A type without a generic container has no generic parameter names; the names of one
/// with a container number from 1 to 64, and none of them is empty.
pub proof fn lemma_type_generic_parameter_names_shape(m: LayoutMetadataView, type_index: int)
    ensures
        spec_type_def(m, type_index) matches Ok(t) && t.generic_container is None ==> spec_type_generic_parameter_names(
            m,
            type_index,
        ) == Ok::<Option<Seq<Seq<char>>>, LayoutError>(None),
        spec_type_generic_parameter_names(m, type_index) matches Ok(Some(names)) ==> 1 <= names.len() <= 64
            && forall|j: int| 0 <= j < names.len() ==> #[trigger] names[j].len() > 0,
{
    if let Ok(t) = spec_type_def(m, type_index) {
        if let Some(container) = t.generic_container {
            let g = m.global_data;
            let entry = m.layout.payload_offset + m.layout.global_generic_container_table_offset + container * 16;
            if entry + 16 <= g.len() {
                let key = spec_generic_container_key(container as u64);
                let count = le_u32(g, entry).wrapping_add(0xF331_4477) ^ key;
                let start = le_u32(g, entry + 0x0C).wrapping_add(0xF12A_F1B1) ^ key;
                lemma_generic_parameter_names_shape(m, start, count as nat);
            }
        }
    }
}

/// A field offset has at most 24 bits, and it is 0 for a type whose offset selector is
/// negative.
pub proof fn lemma_field_offset_bounds(m: LayoutMetadataView, type_index: int, local_field_index: int)
    ensures
        ({
            let map = m.layout.payload_offset + m.layout.global_type_field_offset_map_offset + type_index * 4;
            in_range(m.global_data, map, 4) && le_i32(m.global_data, map) < 0
        }) ==> spec_field_offset(m, type_index, local_field_index) == Ok::<u32, LayoutError>(0),
        spec_field_offset(m, type_index, local_field_index) matches Ok(v) ==> v <= 0x00FF_FFFF,
{
    if let Ok(v) = spec_field_offset(m, type_index, local_field_index) {
        let g = m.global_data;
        let map = m.layout.payload_offset + m.layout.global_type_field_offset_map_offset + type_index * 4;
        let selector = le_i32(g, map);
        if selector >= 0 {
            let group = m.layout.payload_offset + m.layout.global_field_offset_group_table_offset + selector * 12;
            let offset_start = le_u32(g, group + 8);
            let entry = m.layout.payload_offset + m.layout.global_field_offset_table_offset + (offset_start
                + local_field_index) * 4;
            let raw = le_u32(g, entry);
            assert(raw & 0x00FF_FFFF <= 0x00FF_FFFF) by (bit_vector);
        }
    }
}

/// A declaring chain found within `b1` steps is the same within any `b2 >= b1`.
proof fn lemma_chain_budget(types: Seq<LayoutTypeDefView>, index: int, b1: nat, b2: nat)
    requires
        b1 <= b2,
        spec_declaring_chain(types, index, b1) is Ok,
    ensures
        spec_declaring_chain(types, index, b2) == spec_declaring_chain(types, index, b1),
    decreases b1,
{
    if let Some(parent) = types[index].declaring_type {
        lemma_chain_budget(types, parent as int, (b1 - 1) as nat, (b2 - 1) as nat);
    }
}

/// A nested type's name is its declaring type's name, a dot, and its own name; a type
/// without a declaring type has its own (for the full name, namespace-qualified) name.
/// This holds for the full and the short name alike, wherever the name is found.
pub proof fn lemma_nested_type_name_parent(m: LayoutMetadataView, index: int, qualified: bool)
    requires
        spec_nested_type_name(m, index, qualified) is Ok,
    ensures
        0 <= index < m.types.len(),
        m.types[index].declaring_type matches Some(p) ==> spec_nested_type_name(m, p as int, qualified) is Ok
            && spec_nested_type_name(m, index, qualified)->Ok_0 == spec_nested_type_name(
            m,
            p as int,
            qualified,
        )->Ok_0 + seq!['.'] + m.types[index].name,
        m.types[index].declaring_type is None ==> spec_nested_type_name(m, index, qualified)->Ok_0 == (if qualified {
            qualified_root_name(m.types[index])
        } else {
            m.types[index].name
        }),
{
    let n = m.types.len();
    let chain = spec_declaring_chain(m.types, index, n)->Ok_0;
    if let Some(p) = m.types[index].declaring_type {
        let rest = spec_declaring_chain(m.types, p as int, (n - 1) as nat)->Ok_0;
        lemma_chain_budget(m.types, p as int, (n - 1) as nat, n);
        assert(chain == seq![index] + rest);
        assert(rest.len() >= 1) by {
            if m.types[p as int].declaring_type is Some {
                lemma_chain_step(m.types, p as int, (n - 1) as nat);
            }
        }
        assert(chain.skip(1) =~= rest);
    }
}

/// Whether a field of an enum is one of its named constants: a literal (flag `0x40`) other
/// than the hidden `value__`.
pub open spec fn is_enum_constant(f: LayoutFieldView) -> bool {
    f.name != enum_value_field_name() && f.flags & 0x40u16 != 0
}

/// The constants of the fields, each with the `i32` of its four bytes of default value data.
pub open spec fn enum_values_match(m: LayoutMetadataView, constants: Seq<LayoutFieldView>, values: Seq<LayoutEnumValueView>) -> bool {
    &&& values.len() == constants.len()
    &&& forall|j: int|
        0 <= j < values.len() ==> {
            &&& (#[trigger] values[j]).name == constants[j].name
            &&& spec_read_field_default_value_data(m, constants[j].index, 4) matches Ok(Some(bytes))
            &&& values[j].value == le_i32(bytes, 0)
        }
}

proof fn lemma_enum_values_from_constants(m: LayoutMetadataView, fields: Seq<LayoutFieldView>, count: nat)
    requires
        count <= fields.len(),
    ensures
        spec_enum_values_from(m, fields, count) matches Ok(values) ==> enum_values_match(
            m,
            fields.take(count as int).filter(|f: LayoutFieldView| is_enum_constant(f)),
            values,
        ),
    decreases count,
{
    reveal(Seq::filter);
    if count > 0 {
        lemma_enum_values_from_constants(m, fields, (count - 1) as nat);
        if let Ok(values) = spec_enum_values_from(m, fields, count) {
            let pred = |f: LayoutFieldView| is_enum_constant(f);
            let previous = spec_enum_values_from(m, fields, (count - 1) as nat)->Ok_0;
            let before = fields.take(count - 1).filter(pred);
            let taken = fields.take(count as int);
            assert(taken.drop_last() =~= fields.take(count - 1));
            assert(taken.last() == fields[count - 1]);
            let field = fields[count - 1];
            if is_enum_constant(field) {
                assert(taken.filter(pred) == before.push(field));
                let bytes = spec_read_field_default_value_data(m, field.index, 4)->Ok_0->0;
                assert(values == previous.push(LayoutEnumValueView { name: field.name, value: le_i32(bytes, 0) }));
                assert forall|j: int| 0 <= j < values.len() implies {
                    &&& (#[trigger] values[j]).name == taken.filter(pred)[j].name
                    &&& spec_read_field_default_value_data(m, taken.filter(pred)[j].index, 4) matches Ok(Some(b))
                    &&& values[j].value == le_i32(b, 0)
                } by {
                    if j < previous.len() {
                        assert(values[j] == previous[j]);
                        assert(taken.filter(pred)[j] == before[j]);
                    }
                }
            } else {
                assert(taken.filter(pred) == before);
                assert(values == previous);
            }
        }
    }
}

/// The constants of an enum are its literal fields other than `value__`, in field order,
/// each with the `i32` of its four bytes of default value data; a type that is not an
/// enum has none.
pub proof fn lemma_enum_values_are_constant_fields(m: LayoutMetadataView, type_index: usize, type_def: LayoutTypeDefView)
    ensures
        !type_def.is_enum ==> spec_read_enum_values(m, type_index, type_def) == Ok::<
            Seq<LayoutEnumValueView>,
            LayoutError,
        >(Seq::empty()),
        type_def.is_enum && spec_read_fields(m, type_index, type_def) is Ok ==> (spec_read_enum_values(
            m,
            type_index,
            type_def,
        ) matches Ok(values) ==> enum_values_match(
            m,
            spec_read_fields(m, type_index, type_def)->Ok_0.filter(|f: LayoutFieldView| is_enum_constant(f)),
            values,
        )),
{
    if type_def.is_enum {
        if let Ok(fields) = spec_read_fields(m, type_index, type_def) {
            lemma_enum_values_from_constants(m, fields, fields.len());
            assert(fields.take(fields.len() as int) =~= fields);
        }
    }
}

/// How many of the `count` interface references stored from `entry` are non-negative.
pub open spec fn nonnegative_references(g: Seq<u8>, entry: int, count: nat) -> nat
    decreases count,
{
    if count == 0 {
        0
    } else {
        nonnegative_references(g, entry, (count - 1) as nat) + if le_i32(g, entry + (count - 1) * 4) >= 0 {
            1nat
        } else {
            0nat
        }
    }
}

proof fn lemma_interface_names_prefix_count(m: LayoutMetadataView, entry: int, count: nat)
    ensures
        spec_interface_names_prefix(m, entry, count) matches Ok(names) ==> names.len() == nonnegative_references(
            m.global_data,
            entry,
            count,
        ),
    decreases count,
{
    if count > 0 {
        lemma_interface_names_prefix_count(m, entry, (count - 1) as nat);
    }
}

/// A type without interfaces has no interface names; otherwise the reference table must
/// lie inside the global metadata, and there is one name per non-negative reference.
pub proof fn lemma_interface_names_count(m: LayoutMetadataView, type_def: LayoutTypeDefView)
    ensures
        type_def.interface_start is None || type_def.interface_count == 0 ==> spec_read_interface_names(m, type_def)
            == Ok::<Seq<Seq<char>>, LayoutError>(Seq::empty()),
        ({
            let entry = m.layout.payload_offset + m.layout.global_interface_type_table_offset
                + type_def.interface_start->0 * 4;
            type_def.interface_start is Some && type_def.interface_count != 0 ==> {
                &&& !in_range(m.global_data, entry, type_def.interface_count * 4) ==> spec_read_interface_names(
                    m,
                    type_def,
                ) == Err::<Seq<Seq<char>>, LayoutError>(LayoutError::OutOfRange)
                &&& spec_read_interface_names(m, type_def) matches Ok(names) ==> names.len()
                    == nonnegative_references(m.global_data, entry, type_def.interface_count as nat)
            }
        }),
{
    if type_def.interface_start is Some && type_def.interface_count != 0 {
        let entry = m.layout.payload_offset + m.layout.global_interface_type_table_offset
            + type_def.interface_start->0 * 4;
        lemma_interface_names_prefix_count(m, entry, type_def.interface_count as nat);
    }
}

/// The type reached from `index` after `k` steps to declaring types, while every step
/// stays inside the type table.
pub open spec fn declaring_step(types: Seq<LayoutTypeDefView>, index: int, k: nat) -> Option<int>
    decreases k,
{
    if k == 0 {
        if 0 <= index < types.len() {
            Some(index)
        } else {
            None
        }
    } else {
        match declaring_step(types, index, (k - 1) as nat) {
            None => None,
            Some(j) => match types[j].declaring_type {
                None => None,
                Some(p) => if (p as int) < types.len() {
                    Some(p as int)
                } else {
                    None
                },
            },
        }
    }
}

/// Following declaring types from `index` comes back to a type it has already passed.
pub open spec fn declaring_cycle(types: Seq<LayoutTypeDefView>, index: int) -> bool {
    exists|a: nat, b: nat|
        #![trigger declaring_step(types, index, a), declaring_step(types, index, b)]
        a < b && declaring_step(types, index, a) is Some && declaring_step(types, index, a) == declaring_step(
            types,
            index,
            b,
        )
}

proof fn lemma_declaring_step_prefix(types: Seq<LayoutTypeDefView>, index: int, k: nat, l: nat)
    requires
        k <= l,
        declaring_step(types, index, l) is Some,
    ensures
        declaring_step(types, index, k) is Some,
    decreases l - k,
{
    if k < l {
        lemma_declaring_step_prefix(types, index, (k + 1) as nat, l);
    }
}

proof fn lemma_declaring_step_periodic(types: Seq<LayoutTypeDefView>, index: int, a: nat, b: nat, t: nat)
    requires
        declaring_step(types, index, a) == declaring_step(types, index, b),
    ensures
        declaring_step(types, index, a + t) == declaring_step(types, index, b + t),
    decreases t,
{
    if t > 0 {
        lemma_declaring_step_periodic(types, index, a, b, (t - 1) as nat);
        assert(declaring_step(types, index, (a + t) as nat) == declaring_step(types, index, (b + t) as nat));
    }
}

proof fn lemma_declaring_cycle_endless(types: Seq<LayoutTypeDefView>, index: int, a: nat, b: nat, k: nat)
    requires
        a < b,
        declaring_step(types, index, a) is Some,
        declaring_step(types, index, a) == declaring_step(types, index, b),
    ensures
        declaring_step(types, index, k) is Some,
    decreases k,
{
    if k <= b {
        lemma_declaring_step_prefix(types, index, k, b);
    } else {
        let earlier = (k - (b - a)) as nat;
        lemma_declaring_cycle_endless(types, index, a, b, earlier);
        lemma_declaring_step_periodic(types, index, a, b, (k - b) as nat);
        assert(a + (k - b) == earlier);
    }
}

proof fn lemma_endless_chain_refused(types: Seq<LayoutTypeDefView>, index: int, offset: nat, j: int, budget: nat)
    requires
        declaring_step(types, index, offset) == Some(j),
        forall|k: nat| #[trigger] declaring_step(types, index, k) is Some,
    ensures
        spec_declaring_chain(types, j, budget) matches Err(LayoutError::DeclaringTypeCycle(_)),
    decreases budget,
{
    if budget > 0 {
        assert(declaring_step(types, index, offset + 1) is Some);
        let p = types[j].declaring_type->0 as int;
        assert(declaring_step(types, index, offset + 1) == Some(p));
        lemma_endless_chain_refused(types, index, offset + 1, p, (budget - 1) as nat);
    }
}

/// A type whose declaring types lead back to a type already passed has no name: the
/// lookup stops with a cycle error.
pub proof fn lemma_declaring_cycle_refused(m: LayoutMetadataView, index: int, qualified: bool)
    requires
        declaring_cycle(m.types, index),
    ensures
        spec_nested_type_name(m, index, qualified) == Err::<Seq<char>, LayoutError>(
            LayoutError::DeclaringTypeCycle(index as usize),
        ),
{
    let (a, b) = choose|a: nat, b: nat|
        #![trigger declaring_step(m.types, index, a), declaring_step(m.types, index, b)]
        a < b && declaring_step(m.types, index, a) is Some && declaring_step(m.types, index, a) == declaring_step(
            m.types,
            index,
            b,
        );
    assert forall|k: nat| #[trigger] declaring_step(m.types, index, k) is Some by {
        lemma_declaring_cycle_endless(m.types, index, a, b, k);
    }
    assert(declaring_step(m.types, index, 0) is Some);
    lemma_endless_chain_refused(m.types, index, 0, index, m.types.len());
}

proof fn lemma_method_params_len(m: LayoutMetadataView, start: int, count: nat)
    ensures
        spec_method_params(m, start, count) matches Ok((json, dump)) ==> json.len() == count && dump.len() == count,
    decreases count,
{
    if count > 0 {
        lemma_method_params_len(m, start, (count - 1) as nat);
    }
}

/// A decoded method has a non-empty name, one rendered parameter type per parameter in
/// both styles (none when the count is 0 or the start negative), and the RVA of its
/// address (0 below the image base).
pub proof fn lemma_read_method_shape(m: LayoutMetadataView, method_index: usize)
    ensures
        spec_read_method(m, method_index) matches Ok(method) ==> {
            let header = spec_method_header(m, method_index)->Ok_0;
            &&& method.name.len() > 0
            &&& method.method_json_params.len() == method.dump_params.len()
            &&& method.dump_params.len() == (if header.parameter_count != 0 && header.parameter_start >= 0 {
                header.parameter_count as int
            } else {
                0
            })
            &&& method.rva == (if method.va >= m.image_base {
                (method.va - m.image_base) as u64
            } else {
                0
            })
        },
{
    if let Ok(method) = spec_read_method(m, method_index) {
        let header = spec_method_header(m, method_index)->Ok_0;
        if header.parameter_count != 0 && header.parameter_start >= 0 {
            lemma_method_params_len(m, header.parameter_start as int, header.parameter_count as nat);
        }
    }
}

/// The offset that field `local_index` of a type is given: the field offset table's value
/// (0 where that cannot be read), less the 16-byte object header for an instance field of
/// a value type.
pub open spec fn adjusted_field_offset(
    m: LayoutMetadataView,
    type_index: usize,
    type_def: LayoutTypeDefView,
    local_index: int,
    flags: u16,
) -> u32 {
    let raw_offset = match spec_field_offset(m, type_index as int, local_index) {
        Ok(o) => o,
        Err(_) => 0,
    };
    if type_def.is_value_type && flags & 0x50 == 0 && raw_offset >= 0x10 {
        (raw_offset - 0x10) as u32
    } else {
        raw_offset
    }
}

proof fn lemma_read_fields_prefix_shape(m: LayoutMetadataView, type_index: usize, type_def: LayoutTypeDefView, count: nat)
    requires
        type_def.field_start is Some,
    ensures
        spec_read_fields_prefix(m, type_index, type_def, count) matches Ok(fields) ==> {
            &&& fields.len() == count
            &&& forall|k: int|
                0 <= k < fields.len() ==> {
                    &&& (#[trigger] fields[k]).index == (type_def.field_start->0 + k) as usize
                    &&& fields[k].name.len() > 0
                    &&& fields[k].offset == adjusted_field_offset(m, type_index, type_def, k, fields[k].flags)
                    &&& fields[k].offset <= 0x00FF_FFFF
                }
        },
    decreases count,
{
    if count > 0 {
        lemma_read_fields_prefix_shape(m, type_index, type_def, (count - 1) as nat);
        if let Ok(fields) = spec_read_fields_prefix(m, type_index, type_def, count) {
            let previous = spec_read_fields_prefix(m, type_index, type_def, (count - 1) as nat)->Ok_0;
            let field = spec_read_field(m, type_index, type_def, count - 1)->Ok_0;
            assert(fields == previous.push(field));
            lemma_field_offset_bounds(m, type_index as int, count - 1);
            assert forall|k: int| 0 <= k < fields.len() implies {
                &&& (#[trigger] fields[k]).index == (type_def.field_start->0 + k) as usize
                &&& fields[k].name.len() > 0
                &&& fields[k].offset == adjusted_field_offset(m, type_index, type_def, k, fields[k].flags)
                &&& fields[k].offset <= 0x00FF_FFFF
            } by {
                if k < previous.len() {
                    assert(fields[k] == previous[k]);
                }
            }
        }
    }
}

/// The fields of a type: none without a field start; otherwise one per field of its count,
/// with consecutive indices from the field start, non-empty names, and the adjusted offsets
/// of the field offset table, each at most 24 bits.
pub proof fn lemma_read_fields_shape(m: LayoutMetadataView, type_index: usize, type_def: LayoutTypeDefView)
    ensures
        type_def.field_start is None ==> spec_read_fields(m, type_index, type_def) == Ok::<
            Seq<LayoutFieldView>,
            LayoutError,
        >(Seq::empty()),
        spec_read_fields(m, type_index, type_def) matches Ok(fields) ==> {
            &&& fields.len() == (if type_def.field_start is Some {
                type_def.field_count as int
            } else {
                0
            })
            &&& forall|k: int|
                0 <= k < fields.len() ==> {
                    &&& (#[trigger] fields[k]).index == (type_def.field_start->0 + k) as usize
                    &&& fields[k].name.len() > 0
                    &&& fields[k].offset == adjusted_field_offset(m, type_index, type_def, k, fields[k].flags)
                    &&& fields[k].offset <= 0x00FF_FFFF
                }
        },
{
    if type_def.field_start is Some {
        lemma_read_fields_prefix_shape(m, type_index, type_def, type_def.field_count as nat);
    }
}

/// Whether the first `count` fields include an enum constant without a default value entry.
pub open spec fn constant_without_default(m: LayoutMetadataView, fields: Seq<LayoutFieldView>, count: nat) -> bool {
    exists|k: int|
        0 <= k < count && is_enum_constant(#[trigger] fields[k]) && spec_read_field_default_value_data(
            m,
            fields[k].index,
            4,
        ) == Ok::<Option<Seq<u8>>, LayoutError>(None)
}

proof fn lemma_enum_values_from_missing(m: LayoutMetadataView, fields: Seq<LayoutFieldView>, count: nat)
    requires
        count <= fields.len(),
        forall|k: int|
            0 <= k < count && is_enum_constant(#[trigger] fields[k]) ==> spec_read_field_default_value_data(
                m,
                fields[k].index,
                4,
            ) is Ok,
    ensures
        constant_without_default(m, fields, count) ==> spec_enum_values_from(m, fields, count) == Err::<
            Seq<LayoutEnumValueView>,
            LayoutError,
        >(LayoutError::MissingEnumDefaultValue),
        !constant_without_default(m, fields, count) ==> spec_enum_values_from(m, fields, count) is Ok,
    decreases count,
{
    if count > 0 {
        lemma_enum_values_from_missing(m, fields, (count - 1) as nat);
        let field = fields[count - 1];
        if constant_without_default(m, fields, (count - 1) as nat) {
            let k = choose|k: int|
                0 <= k < count - 1 && is_enum_constant(#[trigger] fields[k]) && spec_read_field_default_value_data(
                    m,
                    fields[k].index,
                    4,
                ) == Ok::<Option<Seq<u8>>, LayoutError>(None);
            assert(constant_without_default(m, fields, count));
        } else {
            if constant_without_default(m, fields, count) {
                let k = choose|k: int|
                    0 <= k < count && is_enum_constant(#[trigger] fields[k]) && spec_read_field_default_value_data(
                        m,
                        fields[k].index,
                        4,
                    ) == Ok::<Option<Seq<u8>>, LayoutError>(None);
                if k < count - 1 {
                    assert(constant_without_default(m, fields, (count - 1) as nat));
                }
                assert(k == count - 1);
            } else {
                if is_enum_constant(field) {
                    assert(spec_read_field_default_value_data(m, field.index, 4) is Ok);
                    assert(spec_read_field_default_value_data(m, field.index, 4) != Ok::<Option<Seq<u8>>, LayoutError>(
                        None,
                    ));
                }
            }
        }
    }
}

/// Where every enum constant's default value lookup succeeds, the constants are read
/// exactly when each has an entry; otherwise the error is the missing default value.
pub proof fn lemma_enum_values_need_default_values(m: LayoutMetadataView, type_index: usize, type_def: LayoutTypeDefView)
    requires
        type_def.is_enum,
        spec_read_fields(m, type_index, type_def) is Ok,
        ({
            let fields = spec_read_fields(m, type_index, type_def)->Ok_0;
            forall|k: int|
                0 <= k < fields.len() && is_enum_constant(#[trigger] fields[k]) ==> spec_read_field_default_value_data(
                    m,
                    fields[k].index,
                    4,
                ) is Ok
        }),
    ensures
        ({
            let fields = spec_read_fields(m, type_index, type_def)->Ok_0;
            &&& constant_without_default(m, fields, fields.len()) ==> spec_read_enum_values(m, type_index, type_def)
                == Err::<Seq<LayoutEnumValueView>, LayoutError>(LayoutError::MissingEnumDefaultValue)
            &&& !constant_without_default(m, fields, fields.len()) ==> spec_read_enum_values(
                m,
                type_index,
                type_def,
            ) is Ok
        }),
{
    let fields = spec_read_fields(m, type_index, type_def)->Ok_0;
    lemma_enum_values_from_missing(m, fields, fields.len());
}

/// A by-reference type's name ends with `&`, and a type of an unknown kind is named by its
/// kind and payload: `Il2CppType_0x<kind>_<data>`.
pub proof fn lemma_type_name_marks(m: LayoutMetadataView, type_index: u32)
    requires
        spec_read_il2cpp_type(m, type_index) is Ok,
    ensures
        ({
            let entry = spec_read_il2cpp_type(m, type_index)->Ok_0;
            let name = spec_il2cpp_type_name(m, type_index, false, TYPE_NAME_DEPTH as nat);
            &&& entry.bits & 0x40 != 0 ==> (name matches Ok(n) ==> n.len() > 0 && n.last() == '&')
            &&& (builtin_type_name(entry.kind) is None && entry.kind != 0x11 && entry.kind != 0x12 && entry.kind
                != 0x1C && entry.kind != 0x0F && entry.kind != 0x13 && entry.kind != 0x1E && entry.kind != 0x1D
                && entry.kind != 0x15) ==> name == Ok::<Seq<char>, LayoutError>(
                {
                    let base = "Il2CppType_0x"@ + crate::text::hexadecimal(entry.kind as nat, true) + seq!['_']
                        + decimal(entry.data as nat);
                    if entry.bits & 0x40 != 0 {
                        base.push('&')
                    } else {
                        base
                    }
                },
            )
        }),
{
}

/// Each built-in element kind is named by its own System type, and in method-JSON style by
/// its C# keyword: `0x0E` is `System.String` (`string`), `0x02` `System.Boolean` (`bool`),
/// `0x08` `System.Int32` (`int`), and so on, for every Il2CppType entry of that kind that is
/// not by-reference.
pub proof fn lemma_builtin_type_names(m: LayoutMetadataView, type_index: u32)
    requires
        spec_read_il2cpp_type(m, type_index) matches Ok(entry) && entry.bits & 0x40 == 0,
    ensures
        ({
            let entry = spec_read_il2cpp_type(m, type_index)->Ok_0;
            let plain = spec_il2cpp_type_name(m, type_index, false, TYPE_NAME_DEPTH as nat);
            let json = spec_il2cpp_type_name(m, type_index, true, TYPE_NAME_DEPTH as nat);
            &&& entry.kind == 0x01 ==> plain == Ok::<Seq<char>, LayoutError>("System.Void"@) && json == Ok::<
                Seq<char>,
                LayoutError,
            >("void"@)
            &&& entry.kind == 0x02 ==> plain == Ok::<Seq<char>, LayoutError>("System.Boolean"@) && json == Ok::<
                Seq<char>,
                LayoutError,
            >("bool"@)
            &&& entry.kind == 0x03 ==> plain == Ok::<Seq<char>, LayoutError>("System.Char"@) && json == Ok::<
                Seq<char>,
                LayoutError,
            >("char"@)
            &&& entry.kind == 0x04 ==> plain == Ok::<Seq<char>, LayoutError>("System.SByte"@) && json == Ok::<
                Seq<char>,
                LayoutError,
            >("sbyte"@)
            &&& entry.kind == 0x05 ==> plain == Ok::<Seq<char>, LayoutError>("System.Byte"@) && json == Ok::<
                Seq<char>,
                LayoutError,
            >("byte"@)
            &&& entry.kind == 0x06 ==> plain == Ok::<Seq<char>, LayoutError>("System.Int16"@) && json == Ok::<
                Seq<char>,
                LayoutError,
            >("short"@)
            &&& entry.kind == 0x07 ==> plain == Ok::<Seq<char>, LayoutError>("System.UInt16"@) && json == Ok::<
                Seq<char>,
                LayoutError,
            >("ushort"@)
            &&& entry.kind == 0x08 ==> plain == Ok::<Seq<char>, LayoutError>("System.Int32"@) && json == Ok::<
                Seq<char>,
                LayoutError,
            >("int"@)
            &&& entry.kind == 0x09 ==> plain == Ok::<Seq<char>, LayoutError>("System.UInt32"@) && json == Ok::<
                Seq<char>,
                LayoutError,
            >("uint"@)
            &&& entry.kind == 0x0A ==> plain == Ok::<Seq<char>, LayoutError>("System.Int64"@) && json == Ok::<
                Seq<char>,
                LayoutError,
            >("long"@)
            &&& entry.kind == 0x0B ==> plain == Ok::<Seq<char>, LayoutError>("System.UInt64"@) && json == Ok::<
                Seq<char>,
                LayoutError,
            >("ulong"@)
            &&& entry.kind == 0x0C ==> plain == Ok::<Seq<char>, LayoutError>("System.Single"@) && json == Ok::<
                Seq<char>,
                LayoutError,
            >("float"@)
            &&& entry.kind == 0x0D ==> plain == Ok::<Seq<char>, LayoutError>("System.Double"@) && json == Ok::<
                Seq<char>,
                LayoutError,
            >("double"@)
            &&& entry.kind == 0x0E ==> plain == Ok::<Seq<char>, LayoutError>("System.String"@) && json == Ok::<
                Seq<char>,
                LayoutError,
            >("string"@)
            &&& entry.kind == 0x10 ==> plain == Ok::<Seq<char>, LayoutError>("System.TypedReference"@) && json == Ok::<
                Seq<char>,
                LayoutError,
            >("System.TypedReference"@)
            &&& entry.kind == 0x18 ==> plain == Ok::<Seq<char>, LayoutError>("System.IntPtr"@) && json == Ok::<
                Seq<char>,
                LayoutError,
            >("System.IntPtr"@)
            &&& entry.kind == 0x19 ==> plain == Ok::<Seq<char>, LayoutError>("System.UIntPtr"@) && json == Ok::<
                Seq<char>,
                LayoutError,
            >("System.UIntPtr"@)
        }),
{
    crate::text::lemma_builtin_json_aliases();
}

/// A decoded method's address is the little-endian `u64` at entry `method_index` of the
/// method pointer table, whose entries are eight bytes apart, and its RVA is that address
/// less the image base (0 below it).
pub proof fn lemma_method_address_from_pointer_table(m: LayoutMetadataView, method_index: usize)
    requires
        method_index <= u32::MAX,
    ensures
        spec_read_method(m, method_index) matches Ok(method) ==> {
            &&& m.method_pointer_table_rva + 8 * method_index <= u32::MAX
            &&& spec_read_u64_rva(m.pe, (m.method_pointer_table_rva + 8 * method_index) as u32) == Ok::<
                u64,
                LayoutError,
            >(method.va)
            &&& method.rva == (if method.va >= m.image_base {
                (method.va - m.image_base) as u64
            } else {
                0
            })
        },
{
    assert(method_index as u32 == method_index);
}

/// The offset of field `local_field_index` of a type with a non-negative offset selector:
/// the selector picks a 12-byte group entry, whose `u32` at byte 8 is where the type's
/// offsets start in the field offset table; the field's offset is the `u32` at entry
/// start + local index of that table (four bytes apart), masked to 24 bits.
pub proof fn lemma_field_offset_from_tables(m: LayoutMetadataView, type_index: int, local_field_index: int)
    ensures
        ({
            let data = m.global_data;
            let selector_at = m.layout.payload_offset + m.layout.global_type_field_offset_map_offset + 4 * type_index;
            let selector = le_i32(data, selector_at);
            let group_entry = m.layout.payload_offset + m.layout.global_field_offset_group_table_offset + 12
                * selector;
            let first = le_u32(data, group_entry + 8);
            let slot = m.layout.payload_offset + m.layout.global_field_offset_table_offset + 4 * (first
                + local_field_index);
            in_range(data, selector_at, 4) && selector >= 0 && in_range(data, group_entry, 12) && in_range(data, slot, 4)
                ==> spec_field_offset(m, type_index, local_field_index) == Ok::<u32, LayoutError>(
                le_u32(data, slot) & 0x00FF_FFFF,
            )
        }),
{
}

/// Type definition `index` as read from its 0x46-byte entry in the global type table: the
/// entry lies inside the data; its attribute word, base type word, field count and
/// method count are the entry's words at 0x14, 0x04, 0x32 and 0x34, decoded.
pub open spec fn type_matches_entry(m: LayoutMetadataView, index: int, t: LayoutTypeDefView) -> bool {
    let g = m.global_data;
    let entry = m.layout.payload_offset + m.layout.global_type_table_offset + 0x46 * index;
    let base_type = le_u32(g, entry + 0x04);
    &&& in_range(g, entry, 0x46)
    &&& t.flags == le_u32(g, entry + 0x14) ^ TYPE_ATTRIBUTE_KEY
    &&& t.is_enum == (base_type == TYPE_BASE_ENUM)
    &&& t.is_value_type == (base_type == TYPE_BASE_VALUE_TYPE || base_type == TYPE_BASE_ENUM)
    &&& t.field_count == le_u16(g, entry + 0x32).wrapping_add(0x444D) as usize
    &&& t.method_count == le_u16(g, entry + 0x34).wrapping_add(0x5F93) as usize
}

proof fn lemma_read_types_prefix_entries(m: LayoutMetadataView, count: nat)
    ensures
        spec_read_types_prefix(m, count) matches Ok(types) ==> forall|i: int|
            0 <= i < types.len() ==> type_matches_entry(m, i, #[trigger] types[i]),
    decreases count,
{
    if count > 0 {
        lemma_read_types_prefix_entries(m, (count - 1) as nat);
        lemma_read_types_prefix_len(m, (count - 1) as nat);
        reveal(type_def_at);
        if let Ok(types) = spec_read_types_prefix(m, count) {
            let previous = spec_read_types_prefix(m, (count - 1) as nat)->Ok_0;
            let t = spec_read_type(m, count - 1)->Ok_0;
            assert(types == previous.push(t));
            assert(type_matches_entry(m, count - 1, t));
            assert forall|i: int| 0 <= i < types.len() implies type_matches_entry(m, i, #[trigger] types[i]) by {
                if i < previous.len() {
                    assert(types[i] == previous[i]);
                    assert(type_matches_entry(m, i, previous[i]));
                } else {
                    assert(types[i] == t);
                }
            }
        }
    }
}

/// Every type definition of a decoded model is the one that its own entry of the type
/// table encodes: type `i` is read from the entry at `0x46 * i`.
pub proof fn lemma_decoded_types_match_entries(image: PeImageView, global_data: Seq<u8>, startup_data: Seq<u8>)
    requires
        spec_from_parts(image, global_data, startup_data) is Ok,
    ensures
        ({
            let m = spec_from_parts(image, global_data, startup_data)->Ok_0;
            forall|i: int| 0 <= i < m.types.len() ==> type_matches_entry(m, i, #[trigger] m.types[i])
        }),
{
    let layout = spec_inspect_game_assembly(image)->Ok_0;
    let base = unpopulated_metadata(
        image,
        layout,
        global_data,
        startup_data,
        spec_table_rva(image, layout.descriptor_rva, 0x68)->Ok_0,
        spec_table_rva(image, layout.metadata_registration_rva, 0x88)->Ok_0,
        spec_table_rva(image, layout.descriptor_rva, 0x20)->Ok_0,
        spec_discover_method_attribute_xor(image)->Ok_0,
    );
    let images = spec_read_images(base)->Ok_0;
    let with_images = LayoutMetadataView { images, ..base };
    let count = spec_type_count(images);
    let first = spec_read_types_prefix(with_images, count)->Ok_0;
    lemma_read_types_prefix_entries(with_images, count);
    lemma_read_types_prefix_len(with_images, count);
    let m = spec_from_parts(image, global_data, startup_data)->Ok_0;
    assert(m.global_data == with_images.global_data && m.layout == with_images.layout);
    assert forall|i: int| 0 <= i < m.types.len() implies type_matches_entry(m, i, #[trigger] m.types[i]) by {
        assert(type_matches_entry(with_images, i, first[i]));
    }
}

/// A decoded method is read from its 26-byte entry of the global method table: the entry
/// at `26 * method_index` lies inside the data, and the method's attribute flags are the
/// entry's `u16` at 0x0E, unmasked with the method's key and the attribute xor.
pub proof fn lemma_method_from_entry(m: LayoutMetadataView, method_index: usize)
    ensures
        spec_read_method(m, method_index) matches Ok(method) ==> {
            let entry = m.layout.payload_offset + m.layout.global_method_table_offset + 26 * method_index;
            &&& in_range(m.global_data, entry, 26)
            &&& method.flags == le_u16(m.global_data, entry + 0x0E) ^ (spec_method_key(method_index as u64) as u16)
                ^ m.method_attribute_xor
        },
{
}

/// The Il2CppType index that global parameter `parameter_index` names, read from its
/// 8-byte entry of the global parameter table.
pub open spec fn parameter_type_at(m: LayoutMetadataView, parameter_index: int) -> u32 {
    let entry = m.layout.payload_offset + m.layout.global_parameter_table_offset + 8 * parameter_index;
    (le_u32(m.global_data, entry) ^ 0x67E9_0DC5).wrapping_sub(spec_parameter_key(parameter_index as u64))
}

/// `json` and `dump` are, position by position, the names in both styles of the
/// Il2CppTypes that the parameter entries from `start` name.
#[verifier::opaque]
pub open spec fn params_named_by_table(m: LayoutMetadataView, start: int, json: Seq<Seq<char>>, dump: Seq<Seq<char>>) -> bool {
    &&& json.len() == dump.len()
    &&& forall|k: int|
        0 <= k < dump.len() ==> {
            &&& spec_il2cpp_type_name(m, parameter_type_at(m, start + k), true, TYPE_NAME_DEPTH as nat) == Ok::<
                Seq<char>,
                LayoutError,
            >(#[trigger] json[k])
            &&& spec_il2cpp_type_name(m, parameter_type_at(m, start + k), false, TYPE_NAME_DEPTH as nat) == Ok::<
                Seq<char>,
                LayoutError,
            >(dump[k])
        }
}

proof fn lemma_method_params_from_entries(m: LayoutMetadataView, start: int, count: nat)
    ensures
        spec_method_params(m, start, count) matches Ok((json, dump)) ==> params_named_by_table(m, start, json, dump),
    decreases count,
{
    reveal(params_named_by_table);
    if count > 0 {
        lemma_method_params_from_entries(m, start, (count - 1) as nat);
        lemma_method_params_len(m, start, (count - 1) as nat);
        lemma_method_params_len(m, start, count);
        if let Ok((json, dump)) = spec_method_params(m, start, count) {
            let (pj, pd) = spec_method_params(m, start, (count - 1) as nat)->Ok_0;
            let (jn, dn) = spec_parameter_names(m, start + count - 1)->Ok_0;
            assert(json == pj.push(jn) && dump == pd.push(dn));
            assert forall|k: int| 0 <= k < dump.len() implies {
                &&& spec_il2cpp_type_name(m, parameter_type_at(m, start + k), true, TYPE_NAME_DEPTH as nat)
                    == Ok::<Seq<char>, LayoutError>(#[trigger] json[k])
                &&& spec_il2cpp_type_name(m, parameter_type_at(m, start + k), false, TYPE_NAME_DEPTH as nat)
                    == Ok::<Seq<char>, LayoutError>(dump[k])
            } by {
                if k < count - 1 {
                    assert(json[k] == pj[k] && dump[k] == pd[k]);
                } else {
                    assert(json[k] == jn && dump[k] == dn);
                }
            }
        }
    }
}

/// The parameter types of a decoded method are the names of the Il2CppTypes that its
/// parameters' entries of the global parameter table (8 bytes apart, from the method's
/// parameter start) name, in both styles.
pub proof fn lemma_method_params_from_parameter_table(m: LayoutMetadataView, method_index: usize)
    ensures
        spec_read_method(m, method_index) matches Ok(method) ==> params_named_by_table(
            m,
            spec_method_header(m, method_index)->Ok_0.parameter_start as int,
            method.method_json_params,
            method.dump_params,
        ),
{
    if let Ok(method) = spec_read_method(m, method_index) {
        let header = spec_method_header(m, method_index)->Ok_0;
        if header.parameter_count != 0 && header.parameter_start >= 0 {
            lemma_method_params_from_entries(m, header.parameter_start as int, header.parameter_count as nat);
        } else {
            reveal(params_named_by_table);
        }
    }
}

/// A type-definition reference (kinds `0x11`, `0x12` and `0x1C`) that is not by-reference
/// is named by the full name of the type definition its payload indexes.
pub proof fn lemma_type_definition_reference_names(m: LayoutMetadataView, type_index: u32)
    requires
        spec_read_il2cpp_type(m, type_index) matches Ok(entry) && entry.bits & 0x40 == 0 && (entry.kind == 0x11
            || entry.kind == 0x12 || entry.kind == 0x1C),
    ensures
        spec_il2cpp_type_name(m, type_index, false, TYPE_NAME_DEPTH as nat) == spec_type_def_full_name(
            m,
            spec_read_il2cpp_type(m, type_index)->Ok_0.data as int,
        ),
{
}
} // verus!
