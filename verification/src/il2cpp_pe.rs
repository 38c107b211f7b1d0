//! The decisions taken while preparing a standard IL2CPP image: which registration
//! addresses to use, which exports to record, how sections map to virtual addresses.
use vstd::prelude::*;

use crate::errors::LayoutError;
use crate::text::chars_of;

verus! {

/// The registrations that the symbol search gives (zero for those it does not find).
pub open spec fn symbol_registrations(symbols: Option<(u64, u64)>) -> (u64, u64) {
    match symbols {
        Some(pair) => pair,
        None => (0, 0),
    }
}

/// Whether the section search is needed: the symbol search left a registration at zero.
pub fn needs_section_search(symbols: Option<(u64, u64)>) -> (r: bool)
    ensures
        r == (symbol_registrations(symbols).0 == 0 || symbol_registrations(symbols).1 == 0),
{
    match symbols {
        Some((code, metadata)) => code == 0 || metadata == 0,
        None => true,
    }
}

/// The registrations after the section search replaced what it found.
pub open spec fn searched_registrations(symbols: Option<(u64, u64)>, found_code: Option<u64>, found_metadata: Option<u64>) -> (
    u64,
    u64,
) {
    let from_symbols = symbol_registrations(symbols);
    if from_symbols.0 == 0 || from_symbols.1 == 0 {
        (
            match found_code {
                Some(c) => c,
                None => from_symbols.0,
            },
            match found_metadata {
                Some(m) => m,
                None => from_symbols.1,
            },
        )
    } else {
        from_symbols
    }
}

/// The code and metadata registration addresses: those of the symbol search, replaced by
/// those of the section search when the symbol search left one at zero; refused when one
/// is still zero.
pub fn resolve_registrations(symbols: Option<(u64, u64)>, found_code: Option<u64>, found_metadata: Option<u64>) -> (r:
    Result<(u64, u64), LayoutError>)
    ensures
        ({
            let chosen = searched_registrations(symbols, found_code, found_metadata);
            if chosen.0 == 0 || chosen.1 == 0 {
                r == Err::<(u64, u64), LayoutError>(LayoutError::RegistrationsNotFound)
            } else {
                r == Ok::<(u64, u64), LayoutError>(chosen)
            }
        }),
{
    let (mut code, mut metadata) = match symbols {
        Some(pair) => pair,
        None => (0, 0),
    };
    if code == 0 || metadata == 0 {
        match found_code {
            Some(c) => {
                code = c;
            },
            None => {},
        }
        match found_metadata {
            Some(m) => {
                metadata = m;
            },
            None => {},
        }
    }
    if code == 0 || metadata == 0 {
        return Err(LayoutError::RegistrationsNotFound);
    }
    Ok((code, metadata))
}

/// Whether `prefix` starts `s`.
pub open spec fn starts_with(s: Seq<char>, prefix: Seq<char>) -> bool {
    prefix.len() <= s.len() && s.subrange(0, prefix.len() as int) == prefix
}

fn str_starts_with(s: &str, prefix: &str) -> (r: bool)
    ensures
        r == starts_with(s@, prefix@),
{
    let text = chars_of(s);
    let head = chars_of(prefix);
    if head.len() > text.len() {
        return false;
    }
    let mut i: usize = 0;
    while i < head.len()
        invariant
            i <= head@.len() <= text@.len(),
            text@ == s@,
            head@ == prefix@,
            forall|j: int| 0 <= j < i ==> text@[j] == head@[j],
        decreases head@.len() - i,
    {
        if text[i] != head[i] {
            assert(s@.subrange(0, prefix@.len() as int)[i as int] != prefix@[i as int]);
            return false;
        }
        i += 1;
    }
    assert(s@.subrange(0, prefix@.len() as int) =~= prefix@);
    true
}

/// Whether an export belongs to the IL2CPP or Mono runtime API.
pub fn is_api_export(name: &str) -> (r: bool)
    ensures
        r == (starts_with(name@, "il2cpp_"@) || starts_with(name@, "mono_"@)),
{
    str_starts_with(name, "il2cpp_") || str_starts_with(name, "mono_")
}

/// How many of `method_indices` are non-negative (methods with a compiled body).
pub open spec fn count_non_negative(method_indices: Seq<i32>) -> nat
    decreases method_indices.len(),
{
    if method_indices.len() == 0 {
        0
    } else {
        count_non_negative(method_indices.drop_last()) + if method_indices.last() >= 0 {
            1nat
        } else {
            0nat
        }
    }
}

/// Counts the method definitions that have a method pointer.
pub fn count_method_pointers(method_indices: &Vec<i32>) -> (r: usize)
    ensures
        r == count_non_negative(method_indices@),
{
    let mut count: usize = 0;
    let mut i: usize = 0;
    while i < method_indices.len()
        invariant
            i <= method_indices@.len(),
            count == count_non_negative(method_indices@.take(i as int)),
            count <= i,
        decreases method_indices@.len() - i,
    {
        assert(method_indices@.take(i + 1).drop_last() =~= method_indices@.take(i as int));
        if method_indices[i] >= 0 {
            count += 1;
        }
        i += 1;
    }
    assert(method_indices@.take(method_indices@.len() as int) =~= method_indices@);
    count
}

/// The virtual-address segment of a section: its address past the image base, its size
/// and its file offset; refused when the address overflows 64 bits.
pub fn va_segment(virtual_address: u32, virtual_size: u32, raw_offset: u32, image_base: u64) -> (r: Result<
    (u64, u64, u64),
    LayoutError,
>)
    ensures
        virtual_address + image_base <= u64::MAX ==> r == Ok::<(u64, u64, u64), LayoutError>(
            ((virtual_address + image_base) as u64, virtual_size as u64, raw_offset as u64),
        ),
        virtual_address + image_base > u64::MAX ==> r == Err::<(u64, u64, u64), LayoutError>(
            LayoutError::ArithmeticOverflow,
        ),
{
    match (virtual_address as u64).checked_add(image_base) {
        Some(vaddr) => Ok((vaddr, virtual_size as u64, raw_offset as u64)),
        None => Err(LayoutError::ArithmeticOverflow),
    }
}

} // verus!
