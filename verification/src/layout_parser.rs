//! A preview of the obfuscated metadata sections: the first entries of the image,
//! assembly, type, method and interface-pair tables, decoded and rendered as report
//! lines. A preview stops at the first entry that cannot be decoded; the lines rendered
//! up to there are kept.
use vstd::prelude::*;
use vstd::string::StringExecFns;

use crate::bytes::{in_range, le_u16, le_u32, read_u16_at, read_u32_at, spec_read_u16, spec_read_u32};
use crate::errors::LayoutError;
use crate::keys::{
    assembly_link_key, assembly_name_key, decode_image_name_index, decode_image_type_count, decode_image_type_start,
    method_key, spec_assembly_link_key, spec_assembly_name_key, spec_image_name_index, spec_image_type_count,
    spec_image_type_start, spec_method_key,
};
use crate::static_layout::StaticLayout;
use crate::strings::{decode_string_raw, spec_decode_string_raw};
use crate::text::{decimal, hexadecimal, push_decimal, push_hex, push_hex_padded, zero_padded};

verus! {

/// The lines of rows `0..k` of a table preview whose row `i` renders as `row(i)`, and
/// whether every row rendered; the rows stop at the first that fails.
pub open spec fn rows_upto(row: spec_fn(int) -> Result<Seq<char>, LayoutError>, k: nat) -> (
    Seq<Seq<char>>,
    Result<(), LayoutError>,
)
    decreases k,
{
    if k == 0 {
        (Seq::empty(), Ok(()))
    } else {
        let previous = rows_upto(row, (k - 1) as nat);
        if previous.1 is Err {
            previous
        } else {
            match row(k - 1) {
                Ok(line) => (previous.0.push(line), Ok(())),
                Err(e) => (previous.0, Err(e)),
            }
        }
    }
}

/// Once a row fails, the preview of any longer prefix is the same.
proof fn lemma_rows_stop(row: spec_fn(int) -> Result<Seq<char>, LayoutError>, failing: nat, count: nat)
    requires
        failing <= count,
        rows_upto(row, failing).1 is Err,
    ensures
        rows_upto(row, count) == rows_upto(row, failing),
    decreases count - failing,
{
    if failing < count {
        lemma_rows_stop(row, failing, (count - 1) as nat);
    }
}

/// Appends `line` to `lines`.
fn push_line(lines: &mut Vec<String>, line: String)
    ensures
        final(lines).deep_view() == old(lines).deep_view().push(line@),
{
    let ghost before = lines.deep_view();
    lines.push(line);
    assert(lines.deep_view() =~= before.push(line@));
}

/// The smaller of `a` and `b`.
pub open spec fn min_nat(a: int, b: int) -> nat {
    if a < b {
        a as nat
    } else {
        b as nat
    }
}

// ----- images -----

/// Row `index` of the image preview.
pub open spec fn spec_image_row(layout: StaticLayout, global_data: Seq<u8>, startup_data: Seq<u8>, index: int) -> Result<
    Seq<char>,
    LayoutError,
> {
    let entry = layout.startup_image_table_offset + index * 40;
    match spec_image_name_index(startup_data, entry, index as u32) {
        Err(e) => Err(e),
        Ok(name_index) => match spec_image_type_start(startup_data, entry, index as u32) {
            Err(e) => Err(e),
            Ok(type_start) => match spec_image_type_count(startup_data, entry, index as u32) {
                Err(e) => Err(e),
                Ok(type_count) => match spec_decode_string_raw(global_data, layout, name_index) {
                    Err(e) => Err(e),
                    Ok(name) => if type_start + type_count > u32::MAX {
                        Err(LayoutError::ArithmeticOverflow)
                    } else {
                        Ok(
                            "    image["@ + decimal(index as nat) + "] type_range="@ + decimal(type_start as nat)
                                + ".."@ + decimal((type_start + type_count) as nat) + " name_index=0x"@ + zero_padded(
                                hexadecimal(name_index as nat, true),
                                8,
                            ) + " name="@ + name,
                        )
                    },
                },
            },
        },
    }
}

/// The image rows as a function of the row index.
pub open spec fn image_rows(layout: StaticLayout, global_data: Seq<u8>, startup_data: Seq<u8>) -> spec_fn(int) -> Result<
    Seq<char>,
    LayoutError,
> {
    |i: int| spec_image_row(layout, global_data, startup_data, i)
}

/// The image preview: the table line, then up to ten image rows.
#[verifier::opaque]
pub open spec fn spec_image_preview(layout: StaticLayout, global_data: Seq<u8>, startup_data: Seq<u8>) -> (
    Seq<Seq<char>>,
    Result<(), LayoutError>,
) {
    let count = layout.header_count_134_div40;
    let table = layout.startup_image_table_offset;
    if !in_range(startup_data, table as int, count * 40) {
        (Seq::empty(), Err(LayoutError::OutOfRange))
    } else {
        let rows = rows_upto(image_rows(layout, global_data, startup_data), min_nat(count as int, 10));
        (
            seq![
                "  image table: offset 0x"@ + hexadecimal(table as nat, true) + ", count "@ + decimal(count as nat),
            ] + rows.0,
            rows.1,
        )
    }
}

fn image_row(layout: &StaticLayout, global_data: &[u8], startup_data: &[u8], index: usize) -> (r: Result<
    String,
    LayoutError,
>)
    requires
        layout.startup_image_table_offset + index * 40 <= usize::MAX,
    ensures
        match r {
            Ok(line) => spec_image_row(*layout, global_data@, startup_data@, index as int) == Ok::<
                Seq<char>,
                LayoutError,
            >(line@),
            Err(e) => spec_image_row(*layout, global_data@, startup_data@, index as int) == Err::<
                Seq<char>,
                LayoutError,
            >(e),
        },
{
    let entry = layout.startup_image_table_offset as usize + index * 40;
    let name_index = decode_image_name_index(startup_data, entry, index)?;
    let type_start = decode_image_type_start(startup_data, entry, index)?;
    let type_count = decode_image_type_count(startup_data, entry, index)?;
    let name = decode_string_raw(global_data, layout, name_index)?;
    if type_start > u32::MAX - type_count {
        return Err(LayoutError::ArithmeticOverflow);
    }
    let mut line = String::new();
    line.append("    image[");
    push_decimal(&mut line, index as u64);
    line.append("] type_range=");
    push_decimal(&mut line, type_start as u64);
    line.append("..");
    push_decimal(&mut line, (type_start + type_count) as u64);
    line.append(" name_index=0x");
    push_hex_padded(&mut line, name_index as u64, 8);
    line.append(" name=");
    line.append(name.as_str());
    Ok(line)
}

/// Appends the image preview to `lines`.
pub fn image_preview(layout: &StaticLayout, global_data: &[u8], startup_data: &[u8], lines: &mut Vec<String>) -> (r:
    Result<(), LayoutError>)
    ensures
        final(lines).deep_view() == old(lines).deep_view() + spec_image_preview(*layout, global_data@, startup_data@).0,
        r == spec_image_preview(*layout, global_data@, startup_data@).1,
{
    proof {
        reveal(spec_image_preview);
    }
    let ghost initial = lines.deep_view();
    let count = layout.header_count_134_div40 as usize;
    let table = layout.startup_image_table_offset as usize;
    assert(startup_data@.len() == startup_data.len());
    if !(table <= startup_data.len() && count <= (startup_data.len() - table) / 40) {
        assert(!in_range(startup_data@, table as int, count * 40));
        assert(initial + Seq::<Seq<char>>::empty() =~= initial);
        return Err(LayoutError::OutOfRange);
    }
    let mut header = String::new();
    header.append("  image table: offset 0x");
    push_hex(&mut header, table as u64, true);
    header.append(", count ");
    push_decimal(&mut header, count as u64);
    let ghost header_line = header@;
    push_line(lines, header);
    let ghost row = image_rows(*layout, global_data@, startup_data@);
    let ghost head = lines.deep_view();
    let preview = if count < 10 {
        count
    } else {
        10
    };
    let ghost expected = spec_image_preview(*layout, global_data@, startup_data@);
    assert(expected.0 == seq![header_line] + rows_upto(row, preview as nat).0);
    assert(expected.1 == rows_upto(row, preview as nat).1);
    let mut index: usize = 0;
    while index < preview
        invariant
            index <= preview <= count,
            count == layout.header_count_134_div40,
            table + count * 40 <= startup_data@.len(),
            startup_data@.len() == startup_data.len(),
            table == layout.startup_image_table_offset,
            row == image_rows(*layout, global_data@, startup_data@),
            rows_upto(row, index as nat).1 is Ok,
            lines.deep_view() == head + rows_upto(row, index as nat).0,
            head == initial.push(header_line),
            initial == old(lines).deep_view(),
            expected == spec_image_preview(*layout, global_data@, startup_data@),
            expected.0 == seq![header_line] + rows_upto(row, preview as nat).0,
            expected.1 == rows_upto(row, preview as nat).1,
        decreases preview - index,
    {
        assert(table + index * 40 <= usize::MAX) by (nonlinear_arith)
            requires
                index < count,
                table + count * 40 <= startup_data.len(),
                startup_data.len() <= usize::MAX,
        ;
        match image_row(layout, global_data, startup_data, index) {
            Ok(line) => {
                assert(row(index as int) == spec_image_row(*layout, global_data@, startup_data@, index as int));
                push_line(lines, line);
                assert(lines.deep_view() =~= head + rows_upto(row, (index + 1) as nat).0);
            },
            Err(e) => {
                proof {
                    assert(row(index as int) == spec_image_row(*layout, global_data@, startup_data@, index as int));
                    lemma_rows_stop(row, (index + 1) as nat, preview as nat);
                    assert(lines.deep_view() =~= head + rows_upto(row, (index + 1) as nat).0);
                }
                assert(lines.deep_view() =~= initial + expected.0);
                return Err(e);
            },
        }
        index += 1;
    }
    assert(lines.deep_view() =~= initial + expected.0);
    Ok(())
}


// ----- assemblies -----

/// The image index of the startup assembly link entry at `entry_offset` (assembly `assembly_index`).
pub open spec fn spec_assembly_image_index(data: Seq<u8>, entry_offset: int, assembly_index: int) -> Result<u32, LayoutError> {
    match spec_read_u32(data, entry_offset + 4) {
        Err(e) => Err(e),
        Ok(v) => Ok(v ^ spec_assembly_link_key(assembly_index as u64) ^ 0x508B_7D78u32),
    }
}

/// The name string index of the startup assembly name entry at `entry_offset`.
pub open spec fn spec_assembly_name_index(data: Seq<u8>, entry_offset: int, assembly_index: int) -> Result<u32, LayoutError> {
    match spec_read_u32(data, entry_offset + 0x1C) {
        Err(e) => Err(e),
        Ok(v) => Ok(v.wrapping_add(0x8DE9_829F) ^ spec_assembly_name_key(assembly_index as u64)),
    }
}

/// Decodes the image index of a startup assembly link entry.
pub fn decode_assembly_image_index(data: &[u8], entry_offset: usize, assembly_index: usize) -> (r: Result<
    u32,
    LayoutError,
>)
    ensures
        r == spec_assembly_image_index(data@, entry_offset as int, assembly_index as int),
{
    let key = assembly_link_key(assembly_index as u64);
    let v = read_u32_at(data, entry_offset, 4)?;
    Ok(v ^ key ^ 0x508B_7D78)
}

/// Decodes the name string index of a startup assembly name entry.
pub fn decode_assembly_name_index(data: &[u8], entry_offset: usize, assembly_index: usize) -> (r: Result<
    u32,
    LayoutError,
>)
    ensures
        r == spec_assembly_name_index(data@, entry_offset as int, assembly_index as int),
{
    let key = assembly_name_key(assembly_index as u64);
    let v = read_u32_at(data, entry_offset, 0x1C)?;
    Ok(v.wrapping_add(0x8DE9_829F) ^ key)
}

/// Row `index` of the assembly preview.
pub open spec fn spec_assembly_row(layout: StaticLayout, global_data: Seq<u8>, startup_data: Seq<u8>, index: int) -> Result<
    Seq<char>,
    LayoutError,
> {
    let link = layout.startup_assembly_table_offset + index * 16;
    let name_entry = layout.startup_assembly_name_table_offset + index * 44;
    match spec_assembly_image_index(startup_data, link, index) {
        Err(e) => Err(e),
        Ok(image_index) => match spec_assembly_name_index(startup_data, name_entry, index) {
            Err(e) => Err(e),
            Ok(name_index) => match spec_decode_string_raw(global_data, layout, name_index) {
                Err(e) => Err(e),
                Ok(name) => Ok(
                    "    assembly["@ + decimal(index as nat) + "] image_index="@ + decimal(image_index as nat)
                        + " name_index=0x"@ + zero_padded(hexadecimal(name_index as nat, true), 8) + " name="@ + name,
                ),
            },
        },
    }
}

/// The assembly rows as a function of the row index.
pub open spec fn assembly_rows(layout: StaticLayout, global_data: Seq<u8>, startup_data: Seq<u8>) -> spec_fn(int) -> Result<
    Seq<char>,
    LayoutError,
> {
    |i: int| spec_assembly_row(layout, global_data, startup_data, i)
}

/// The assembly preview: the table line, then up to ten assembly rows.
#[verifier::opaque]
pub open spec fn spec_assembly_preview(layout: StaticLayout, global_data: Seq<u8>, startup_data: Seq<u8>) -> (
    Seq<Seq<char>>,
    Result<(), LayoutError>,
) {
    let count = layout.header_count_178;
    let link = layout.startup_assembly_table_offset;
    let names = layout.startup_assembly_name_table_offset;
    if !in_range(startup_data, link as int, count * 16) || !in_range(startup_data, names as int, count * 44) {
        (Seq::empty(), Err(LayoutError::OutOfRange))
    } else {
        let rows = rows_upto(assembly_rows(layout, global_data, startup_data), min_nat(count as int, 10));
        (
            seq![
                "  assembly table: link offset 0x"@ + hexadecimal(link as nat, true) + ", name offset 0x"@
                    + hexadecimal(names as nat, true) + ", count "@ + decimal(count as nat),
            ] + rows.0,
            rows.1,
        )
    }
}

fn assembly_row(layout: &StaticLayout, global_data: &[u8], startup_data: &[u8], index: usize) -> (r: Result<
    String,
    LayoutError,
>)
    requires
        layout.startup_assembly_table_offset + index * 16 <= usize::MAX,
        layout.startup_assembly_name_table_offset + index * 44 <= usize::MAX,
    ensures
        match r {
            Ok(line) => spec_assembly_row(*layout, global_data@, startup_data@, index as int) == Ok::<
                Seq<char>,
                LayoutError,
            >(line@),
            Err(e) => spec_assembly_row(*layout, global_data@, startup_data@, index as int) == Err::<
                Seq<char>,
                LayoutError,
            >(e),
        },
{
    let link = layout.startup_assembly_table_offset as usize + index * 16;
    let name_entry = layout.startup_assembly_name_table_offset as usize + index * 44;
    let image_index = decode_assembly_image_index(startup_data, link, index)?;
    let name_index = decode_assembly_name_index(startup_data, name_entry, index)?;
    let name = decode_string_raw(global_data, layout, name_index)?;
    let mut line = String::new();
    line.append("    assembly[");
    push_decimal(&mut line, index as u64);
    line.append("] image_index=");
    push_decimal(&mut line, image_index as u64);
    line.append(" name_index=0x");
    push_hex_padded(&mut line, name_index as u64, 8);
    line.append(" name=");
    line.append(name.as_str());
    Ok(line)
}

/// Appends the assembly preview to `lines`.
pub fn assembly_preview(layout: &StaticLayout, global_data: &[u8], startup_data: &[u8], lines: &mut Vec<String>) -> (r:
    Result<(), LayoutError>)
    ensures
        final(lines).deep_view() == old(lines).deep_view() + spec_assembly_preview(
            *layout,
            global_data@,
            startup_data@,
        ).0,
        r == spec_assembly_preview(*layout, global_data@, startup_data@).1,
{
    proof {
        reveal(spec_assembly_preview);
    }
    let ghost initial = lines.deep_view();
    let count = layout.header_count_178 as usize;
    let link = layout.startup_assembly_table_offset as usize;
    let names = layout.startup_assembly_name_table_offset as usize;
    assert(startup_data@.len() == startup_data.len());
    if !(link <= startup_data.len() && count <= (startup_data.len() - link) / 16) {
        assert(!in_range(startup_data@, link as int, count * 16));
        assert(initial + Seq::<Seq<char>>::empty() =~= initial);
        return Err(LayoutError::OutOfRange);
    }
    if !(names <= startup_data.len() && count <= (startup_data.len() - names) / 44) {
        assert(!in_range(startup_data@, names as int, count * 44));
        assert(initial + Seq::<Seq<char>>::empty() =~= initial);
        return Err(LayoutError::OutOfRange);
    }
    let mut header = String::new();
    header.append("  assembly table: link offset 0x");
    push_hex(&mut header, link as u64, true);
    header.append(", name offset 0x");
    push_hex(&mut header, names as u64, true);
    header.append(", count ");
    push_decimal(&mut header, count as u64);
    let ghost header_line = header@;
    push_line(lines, header);
    let ghost row = assembly_rows(*layout, global_data@, startup_data@);
    let ghost head = lines.deep_view();
    let preview = if count < 10 {
        count
    } else {
        10
    };
    let ghost expected = spec_assembly_preview(*layout, global_data@, startup_data@);
    assert(expected.0 == seq![header_line] + rows_upto(row, preview as nat).0);
    assert(expected.1 == rows_upto(row, preview as nat).1);
    let mut index: usize = 0;
    while index < preview
        invariant
            index <= preview <= count,
            count == layout.header_count_178,
            link + count * 16 <= startup_data@.len(),
            names + count * 44 <= startup_data@.len(),
            startup_data@.len() == startup_data.len(),
            link == layout.startup_assembly_table_offset,
            names == layout.startup_assembly_name_table_offset,
            row == assembly_rows(*layout, global_data@, startup_data@),
            rows_upto(row, index as nat).1 is Ok,
            lines.deep_view() == head + rows_upto(row, index as nat).0,
            head == initial.push(header_line),
            initial == old(lines).deep_view(),
            expected == spec_assembly_preview(*layout, global_data@, startup_data@),
            expected.0 == seq![header_line] + rows_upto(row, preview as nat).0,
            expected.1 == rows_upto(row, preview as nat).1,
        decreases preview - index,
    {
        assert(link + index * 16 <= usize::MAX && names + index * 44 <= usize::MAX) by (nonlinear_arith)
            requires
                index < count,
                link + count * 16 <= startup_data.len(),
                names + count * 44 <= startup_data.len(),
                startup_data.len() <= usize::MAX,
        ;
        match assembly_row(layout, global_data, startup_data, index) {
            Ok(line) => {
                assert(row(index as int) == spec_assembly_row(*layout, global_data@, startup_data@, index as int));
                push_line(lines, line);
                assert(lines.deep_view() =~= head + rows_upto(row, (index + 1) as nat).0);
            },
            Err(e) => {
                proof {
                    assert(row(index as int) == spec_assembly_row(*layout, global_data@, startup_data@, index as int));
                    lemma_rows_stop(row, (index + 1) as nat, preview as nat);
                    assert(lines.deep_view() =~= head + rows_upto(row, (index + 1) as nat).0);
                }
                assert(lines.deep_view() =~= initial + expected.0);
                return Err(e);
            },
        }
        index += 1;
    }
    assert(lines.deep_view() =~= initial + expected.0);
    Ok(())
}

// ----- interface pairs -----

/// Row `index` of the interface-pair preview.
pub open spec fn spec_pair_row(layout: StaticLayout, startup_data: Seq<u8>, index: int) -> Result<Seq<char>, LayoutError> {
    let entry = layout.startup_section_164_offset + index * 8;
    match spec_read_u32(startup_data, entry) {
        Err(e) => Err(e),
        Ok(first) => match spec_read_u32(startup_data, entry + 4) {
            Err(e) => Err(e),
            Ok(second) => Ok(
                "    pair["@ + decimal(index as nat) + "] = (0x"@ + hexadecimal(first as nat, true) + ", 0x"@
                    + hexadecimal(second as nat, true) + ")"@,
            ),
        },
    }
}

/// The interface-pair rows as a function of the row index.
pub open spec fn pair_rows(layout: StaticLayout, startup_data: Seq<u8>) -> spec_fn(int) -> Result<Seq<char>, LayoutError> {
    |i: int| spec_pair_row(layout, startup_data, i)
}

/// The interface-pair preview: the table line, then up to eight pair rows.
#[verifier::opaque]
pub open spec fn spec_interface_pair_preview(layout: StaticLayout, startup_data: Seq<u8>) -> (
    Seq<Seq<char>>,
    Result<(), LayoutError>,
) {
    let count = layout.header_count_bc;
    let table = layout.startup_section_164_offset;
    if !in_range(startup_data, table as int, count * 8) {
        (Seq::empty(), Err(LayoutError::OutOfRange))
    } else {
        let rows = rows_upto(pair_rows(layout, startup_data), min_nat(count as int, 8));
        (
            seq![
                "  interface-pair-like table: offset 0x"@ + hexadecimal(table as nat, true) + ", count "@ + decimal(
                    count as nat,
                ),
            ] + rows.0,
            rows.1,
        )
    }
}

fn pair_row(layout: &StaticLayout, startup_data: &[u8], index: usize) -> (r: Result<String, LayoutError>)
    requires
        layout.startup_section_164_offset + index * 8 <= usize::MAX,
    ensures
        match r {
            Ok(line) => spec_pair_row(*layout, startup_data@, index as int) == Ok::<Seq<char>, LayoutError>(line@),
            Err(e) => spec_pair_row(*layout, startup_data@, index as int) == Err::<Seq<char>, LayoutError>(e),
        },
{
    let entry = layout.startup_section_164_offset as usize + index * 8;
    let first = read_u32_at(startup_data, entry, 0)?;
    let second = read_u32_at(startup_data, entry, 4)?;
    let mut line = String::new();
    line.append("    pair[");
    push_decimal(&mut line, index as u64);
    line.append("] = (0x");
    push_hex(&mut line, first as u64, true);
    line.append(", 0x");
    push_hex(&mut line, second as u64, true);
    line.append(")");
    Ok(line)
}

/// Appends the interface-pair preview to `lines`.
pub fn interface_pair_preview(layout: &StaticLayout, startup_data: &[u8], lines: &mut Vec<String>) -> (r: Result<
    (),
    LayoutError,
>)
    ensures
        final(lines).deep_view() == old(lines).deep_view() + spec_interface_pair_preview(*layout, startup_data@).0,
        r == spec_interface_pair_preview(*layout, startup_data@).1,
{
    proof {
        reveal(spec_interface_pair_preview);
    }
    let ghost initial = lines.deep_view();
    let count = layout.header_count_bc as usize;
    let table = layout.startup_section_164_offset as usize;
    assert(startup_data@.len() == startup_data.len());
    if !(table <= startup_data.len() && count <= (startup_data.len() - table) / 8) {
        assert(!in_range(startup_data@, table as int, count * 8));
        assert(initial + Seq::<Seq<char>>::empty() =~= initial);
        return Err(LayoutError::OutOfRange);
    }
    let mut header = String::new();
    header.append("  interface-pair-like table: offset 0x");
    push_hex(&mut header, table as u64, true);
    header.append(", count ");
    push_decimal(&mut header, count as u64);
    let ghost header_line = header@;
    push_line(lines, header);
    let ghost row = pair_rows(*layout, startup_data@);
    let ghost head = lines.deep_view();
    let preview = if count < 8 {
        count
    } else {
        8
    };
    let ghost expected = spec_interface_pair_preview(*layout, startup_data@);
    assert(expected.0 == seq![header_line] + rows_upto(row, preview as nat).0);
    assert(expected.1 == rows_upto(row, preview as nat).1);
    let mut index: usize = 0;
    while index < preview
        invariant
            index <= preview <= count,
            count == layout.header_count_bc,
            table + count * 8 <= startup_data@.len(),
            startup_data@.len() == startup_data.len(),
            table == layout.startup_section_164_offset,
            row == pair_rows(*layout, startup_data@),
            rows_upto(row, index as nat).1 is Ok,
            lines.deep_view() == head + rows_upto(row, index as nat).0,
            head == initial.push(header_line),
            initial == old(lines).deep_view(),
            expected == spec_interface_pair_preview(*layout, startup_data@),
            expected.0 == seq![header_line] + rows_upto(row, preview as nat).0,
            expected.1 == rows_upto(row, preview as nat).1,
        decreases preview - index,
    {
        assert(table + index * 8 <= usize::MAX) by (nonlinear_arith)
            requires
                index < count,
                table + count * 8 <= startup_data.len(),
                startup_data.len() <= usize::MAX,
        ;
        match pair_row(layout, startup_data, index) {
            Ok(line) => {
                assert(row(index as int) == spec_pair_row(*layout, startup_data@, index as int));
                push_line(lines, line);
                assert(lines.deep_view() =~= head + rows_upto(row, (index + 1) as nat).0);
            },
            Err(e) => {
                proof {
                    assert(row(index as int) == spec_pair_row(*layout, startup_data@, index as int));
                    lemma_rows_stop(row, (index + 1) as nat, preview as nat);
                    assert(lines.deep_view() =~= head + rows_upto(row, (index + 1) as nat).0);
                }
                assert(lines.deep_view() =~= initial + expected.0);
                return Err(e);
            },
        }
        index += 1;
    }
    assert(lines.deep_view() =~= initial + expected.0);
    Ok(())
}


// ----- types -----

/// The namespace string index of the global type entry at `entry_offset`.
pub open spec fn spec_type_namespace_index(data: Seq<u8>, entry_offset: int) -> Result<u32, LayoutError> {
    match spec_read_u32(data, entry_offset + 0x24) {
        Err(e) => Err(e),
        Ok(v) => Ok(v.wrapping_add(0xF1D3_2D89)),
    }
}

/// The name string index of the global type entry at `entry_offset`.
pub open spec fn spec_type_name_index(data: Seq<u8>, entry_offset: int) -> Result<u32, LayoutError> {
    match spec_read_u32(data, entry_offset + 0x28) {
        Err(e) => Err(e),
        Ok(v) => Ok(v.wrapping_add(0xE9FD_68F8)),
    }
}

/// The first method index of the global type entry at `entry_offset` (`u32::MAX` for none).
pub open spec fn spec_type_method_start(data: Seq<u8>, entry_offset: int) -> Result<u32, LayoutError> {
    match spec_read_u32(data, entry_offset + 0x08) {
        Err(e) => Err(e),
        Ok(v) => Ok(v ^ 0x1A7A_F5FEu32),
    }
}

/// The method count of the global type entry at `entry_offset`.
pub open spec fn spec_type_method_count(data: Seq<u8>, entry_offset: int) -> Result<u16, LayoutError> {
    match spec_read_u16(data, entry_offset + 0x34) {
        Err(e) => Err(e),
        Ok(v) => Ok(v.wrapping_add(0x5F93)),
    }
}

/// Decodes the namespace string index of a global type entry.
pub fn decode_type_namespace_index(data: &[u8], entry_offset: usize) -> (r: Result<u32, LayoutError>)
    ensures
        r == spec_type_namespace_index(data@, entry_offset as int),
{
    Ok(read_u32_at(data, entry_offset, 0x24)?.wrapping_add(0xF1D3_2D89))
}

/// Decodes the name string index of a global type entry.
pub fn decode_type_name_index(data: &[u8], entry_offset: usize) -> (r: Result<u32, LayoutError>)
    ensures
        r == spec_type_name_index(data@, entry_offset as int),
{
    Ok(read_u32_at(data, entry_offset, 0x28)?.wrapping_add(0xE9FD_68F8))
}

/// Decodes the first method index of a global type entry.
pub fn decode_type_method_start(data: &[u8], entry_offset: usize) -> (r: Result<u32, LayoutError>)
    ensures
        r == spec_type_method_start(data@, entry_offset as int),
{
    Ok(read_u32_at(data, entry_offset, 0x08)? ^ 0x1A7A_F5FE)
}

/// Decodes the method count of a global type entry.
pub fn decode_type_method_count(data: &[u8], entry_offset: usize) -> (r: Result<u16, LayoutError>)
    ensures
        r == spec_type_method_count(data@, entry_offset as int),
{
    Ok(read_u16_at(data, entry_offset, 0x34)?.wrapping_add(0x5F93))
}

/// Whether a method range renders without overflow: it is empty, or its end fits in 32 bits.
pub open spec fn method_range_renders(method_start: u32, method_count: u16) -> bool {
    method_start == u32::MAX || method_count == 0 || method_start + method_count <= u32::MAX
}

/// `methods=-` for a type without methods, else `methods=<start>..<end>`.
pub open spec fn spec_format_method_range(method_start: u32, method_count: u16) -> Seq<char> {
    if method_start == u32::MAX || method_count == 0 {
        "methods=-"@
    } else {
        "methods="@ + decimal(method_start as nat) + ".."@ + decimal((method_start + method_count) as nat)
    }
}

/// Renders the method range of a type.
pub fn format_method_range(method_start: u32, method_count: u16) -> (r: String)
    requires
        method_range_renders(method_start, method_count),
    ensures
        r@ == spec_format_method_range(method_start, method_count),
{
    let mut out = String::new();
    if method_start == u32::MAX || method_count == 0 {
        out.append("methods=-");
    } else {
        out.append("methods=");
        push_decimal(&mut out, method_start as u64);
        out.append("..");
        push_decimal(&mut out, method_start as u64 + method_count as u64);
    }
    assert(out@ =~= spec_format_method_range(method_start, method_count));
    out
}

/// A namespace and a name joined with a dot, or the name alone for the global namespace.
pub open spec fn qualified(namespace: Seq<char>, name: Seq<char>) -> Seq<char> {
    if namespace.len() == 0 {
        name
    } else {
        namespace + "."@ + name
    }
}

/// Row `local` of the type preview of the types from `type_start` in the table at `table`.
pub open spec fn spec_type_row(layout: StaticLayout, global_data: Seq<u8>, table: int, type_start: int, local: int) -> Result<
    Seq<char>,
    LayoutError,
> {
    let type_index = type_start + local;
    let entry = table + type_index * 70;
    match spec_type_namespace_index(global_data, entry) {
        Err(e) => Err(e),
        Ok(namespace_index) => match spec_type_name_index(global_data, entry) {
            Err(e) => Err(e),
            Ok(name_index) => match spec_type_method_start(global_data, entry) {
                Err(e) => Err(e),
                Ok(method_start) => match spec_type_method_count(global_data, entry) {
                    Err(e) => Err(e),
                    Ok(method_count) => match spec_decode_string_raw(global_data, layout, namespace_index) {
                        Err(e) => Err(e),
                        Ok(namespace) => match spec_decode_string_raw(global_data, layout, name_index) {
                            Err(e) => Err(e),
                            Ok(name) => if !method_range_renders(method_start, method_count) {
                                Err(LayoutError::ArithmeticOverflow)
                            } else if namespace.len() == 0 {
                                Ok(
                                    "    type["@ + decimal(type_index as nat) + "] "@ + spec_format_method_range(
                                        method_start,
                                        method_count,
                                    ) + " name="@ + name,
                                )
                            } else {
                                Ok(
                                    "    type["@ + decimal(type_index as nat) + "] "@ + spec_format_method_range(
                                        method_start,
                                        method_count,
                                    ) + " name="@ + namespace + "."@ + name,
                                )
                            },
                        },
                    },
                },
            },
        },
    }
}

/// The type rows as a function of the row index.
pub open spec fn type_rows(layout: StaticLayout, global_data: Seq<u8>, table: int, type_start: int) -> spec_fn(int) -> Result<
    Seq<char>,
    LayoutError,
> {
    |i: int| spec_type_row(layout, global_data, table, type_start, i)
}

/// The type preview: the type range of the first image, then up to twelve of its types.
#[verifier::opaque]
pub open spec fn spec_type_preview(layout: StaticLayout, global_data: Seq<u8>, startup_data: Seq<u8>) -> (
    Seq<Seq<char>>,
    Result<(), LayoutError>,
) {
    let image_table = layout.startup_image_table_offset as int;
    match spec_image_type_start(startup_data, image_table, 0) {
        Err(e) => (Seq::empty(), Err(e)),
        Ok(type_start) => match spec_image_type_count(startup_data, image_table, 0) {
            Err(e) => (Seq::empty(), Err(e)),
            Ok(type_count) => {
                let table = layout.payload_offset + layout.global_type_table_offset;
                if !in_range(global_data, table + type_start * 70, type_count * 70) {
                    (Seq::empty(), Err(LayoutError::OutOfRange))
                } else {
                    let rows = rows_upto(type_rows(layout, global_data, table, type_start as int), min_nat(type_count as int, 12));
                    (
                        seq![
                            "  type table: offset 0x"@ + hexadecimal(table as nat, true) + ", first image type count "@
                                + decimal(type_count as nat),
                        ] + rows.0,
                        rows.1,
                    )
                }
            },
        },
    }
}

fn type_row(layout: &StaticLayout, global_data: &[u8], table: usize, type_start: usize, local: usize) -> (r: Result<
    String,
    LayoutError,
>)
    requires
        table + (type_start + local) * 70 <= usize::MAX,
    ensures
        match r {
            Ok(line) => spec_type_row(*layout, global_data@, table as int, type_start as int, local as int) == Ok::<
                Seq<char>,
                LayoutError,
            >(line@),
            Err(e) => spec_type_row(*layout, global_data@, table as int, type_start as int, local as int) == Err::<
                Seq<char>,
                LayoutError,
            >(e),
        },
{
    assert(type_start + local <= usize::MAX) by (nonlinear_arith)
        requires
            table + (type_start + local) * 70 <= usize::MAX,
    ;
    let type_index = type_start + local;
    let entry = table + type_index * 70;
    let namespace_index = decode_type_namespace_index(global_data, entry)?;
    let name_index = decode_type_name_index(global_data, entry)?;
    let method_start = decode_type_method_start(global_data, entry)?;
    let method_count = decode_type_method_count(global_data, entry)?;
    let namespace = decode_string_raw(global_data, layout, namespace_index)?;
    let name = decode_string_raw(global_data, layout, name_index)?;
    if !(method_start == u32::MAX || method_count == 0 || method_start <= u32::MAX - method_count as u32) {
        return Err(LayoutError::ArithmeticOverflow);
    }
    let range = format_method_range(method_start, method_count);
    let mut line = String::new();
    line.append("    type[");
    push_decimal(&mut line, type_index as u64);
    line.append("] ");
    line.append(range.as_str());
    line.append(" name=");
    if namespace.as_str().is_empty() {
        line.append(name.as_str());
    } else {
        line.append(namespace.as_str());
        line.append(".");
        line.append(name.as_str());
    }
    Ok(line)
}

/// Appends the type preview to `lines`.
pub fn type_preview(layout: &StaticLayout, global_data: &[u8], startup_data: &[u8], lines: &mut Vec<String>) -> (r:
    Result<(), LayoutError>)
    ensures
        final(lines).deep_view() == old(lines).deep_view() + spec_type_preview(*layout, global_data@, startup_data@).0,
        r == spec_type_preview(*layout, global_data@, startup_data@).1,
{
    proof {
        reveal(spec_type_preview);
    }
    let ghost initial = lines.deep_view();
    assert(initial + Seq::<Seq<char>>::empty() =~= initial);
    let image_table = layout.startup_image_table_offset as usize;
    let type_start = decode_image_type_start(startup_data, image_table, 0)? as usize;
    let type_count = decode_image_type_count(startup_data, image_table, 0)? as usize;
    assert(global_data@.len() == global_data.len());
    let table = match (layout.payload_offset as usize).checked_add(layout.global_type_table_offset as usize) {
        Some(v) => v,
        None => {
            return Err(LayoutError::OutOfRange);
        },
    };
    if !(type_start <= (global_data.len() - table.min(global_data.len())) / 70 && table <= global_data.len()) {
        assert(!in_range(global_data@, table + type_start * 70, type_count * 70)) by (nonlinear_arith)
            requires
                !(type_start <= (global_data.len() - table) / 70 && table <= global_data.len()) || table
                    > global_data.len(),
                table >= 0,
                type_count >= 0,
        ;
        return Err(LayoutError::OutOfRange);
    }
    let first = table + type_start * 70;
    if !(type_count <= (global_data.len() - first) / 70) {
        assert(!in_range(global_data@, table + type_start * 70, type_count * 70));
        return Err(LayoutError::OutOfRange);
    }
    let mut header = String::new();
    header.append("  type table: offset 0x");
    push_hex(&mut header, table as u64, true);
    header.append(", first image type count ");
    push_decimal(&mut header, type_count as u64);
    let ghost header_line = header@;
    push_line(lines, header);
    let ghost row = type_rows(*layout, global_data@, table as int, type_start as int);
    let ghost head = lines.deep_view();
    let preview = if type_count < 12 {
        type_count
    } else {
        12
    };
    let ghost expected = spec_type_preview(*layout, global_data@, startup_data@);
    assert(expected.0 == seq![header_line] + rows_upto(row, preview as nat).0);
    assert(expected.1 == rows_upto(row, preview as nat).1);
    let mut local: usize = 0;
    while local < preview
        invariant
            local <= preview <= type_count,
            first == table + type_start * 70,
            first + type_count * 70 <= global_data@.len(),
            global_data@.len() == global_data.len(),
            row == type_rows(*layout, global_data@, table as int, type_start as int),
            rows_upto(row, local as nat).1 is Ok,
            lines.deep_view() == head + rows_upto(row, local as nat).0,
            head == initial.push(header_line),
            initial == old(lines).deep_view(),
            expected == spec_type_preview(*layout, global_data@, startup_data@),
            expected.0 == seq![header_line] + rows_upto(row, preview as nat).0,
            expected.1 == rows_upto(row, preview as nat).1,
        decreases preview - local,
    {
        assert(table + (type_start + local) * 70 <= usize::MAX) by (nonlinear_arith)
            requires
                local < type_count,
                first == table + type_start * 70,
                first + type_count * 70 <= global_data.len(),
                global_data.len() <= usize::MAX,
        ;
        match type_row(layout, global_data, table, type_start, local) {
            Ok(line) => {
                assert(row(local as int) == spec_type_row(*layout, global_data@, table as int, type_start as int, local as int));
                push_line(lines, line);
                assert(lines.deep_view() =~= head + rows_upto(row, (local + 1) as nat).0);
            },
            Err(e) => {
                proof {
                    assert(row(local as int) == spec_type_row(*layout, global_data@, table as int, type_start as int, local as int));
                    lemma_rows_stop(row, (local + 1) as nat, preview as nat);
                    assert(lines.deep_view() =~= head + rows_upto(row, (local + 1) as nat).0);
                }
                assert(lines.deep_view() =~= initial + expected.0);
                return Err(e);
            },
        }
        local += 1;
    }
    assert(lines.deep_view() =~= initial + expected.0);
    Ok(())
}


// ----- methods -----

/// The name string index of the global method entry at `entry_offset` (method `method_index`).
pub open spec fn spec_method_name_index(data: Seq<u8>, entry_offset: int, method_index: int) -> Result<u32, LayoutError> {
    match spec_read_u32(data, entry_offset) {
        Err(e) => Err(e),
        Ok(v) => Ok((v ^ spec_method_key(method_index as u64)) ^ 0x0E71_4BC1u32),
    }
}

/// Decodes the name string index of a global method entry.
pub fn decode_method_name_index(data: &[u8], entry_offset: usize, method_index: usize) -> (r: Result<u32, LayoutError>)
    ensures
        r == spec_method_name_index(data@, entry_offset as int, method_index as int),
{
    let v = read_u32_at(data, entry_offset, 0)?;
    Ok((v ^ method_key(method_index as u64)) ^ 0x0E71_4BC1)
}

/// The first of the types `type_start + local..type_start + type_count` (in the table at
/// `table`) that has methods: its index, entry offset, first method and method count.
pub open spec fn spec_find_type_with_methods_from(
    data: Seq<u8>,
    table: int,
    type_start: int,
    type_count: int,
    local: int,
) -> Result<Option<(usize, usize, u32, u16)>, LayoutError>
    decreases type_count - local,
{
    if local >= type_count {
        Ok(None)
    } else {
        let type_index = type_start + local;
        let entry = table + type_index * 70;
        match spec_type_method_start(data, entry) {
            Err(e) => Err(e),
            Ok(method_start) => match spec_type_method_count(data, entry) {
                Err(e) => Err(e),
                Ok(method_count) => if method_start != u32::MAX && method_count != 0 {
                    Ok(Some((type_index as usize, entry as usize, method_start, method_count)))
                } else {
                    spec_find_type_with_methods_from(data, table, type_start, type_count, local + 1)
                },
            },
        }
    }
}

/// Finds the first of `type_count` types from `type_start` whose method range is not empty.
pub fn find_first_type_with_methods(data: &[u8], type_table: usize, type_start: usize, type_count: usize) -> (r:
    Result<Option<(usize, usize, u32, u16)>, LayoutError>)
    ensures
        r == spec_find_type_with_methods_from(
            data@,
            type_table as int,
            type_start as int,
            type_count as int,
            0,
        ),
{
    let mut local: usize = 0;
    assert(data@.len() == data.len());
    while local < type_count
        invariant
            local <= type_count,
            data@.len() == data.len(),
            spec_find_type_with_methods_from(data@, type_table as int, type_start as int, type_count as int, 0)
                == spec_find_type_with_methods_from(
                data@,
                type_table as int,
                type_start as int,
                type_count as int,
                local as int,
            ),
        decreases type_count - local,
    {
        let ghost entry_int = type_table + (type_start + local) * 70;
        let entry = match type_start.checked_add(local) {
            None => {
                assert(entry_int > usize::MAX) by (nonlinear_arith)
                    requires
                        type_start + local > usize::MAX,
                        entry_int == type_table + (type_start + local) * 70,
                        type_table >= 0,
                ;
                return Err(LayoutError::OutOfRange);
            },
            Some(type_index) => match type_index.checked_mul(70) {
                None => {
                    return Err(LayoutError::OutOfRange);
                },
                Some(scaled) => match type_table.checked_add(scaled) {
                    None => {
                        return Err(LayoutError::OutOfRange);
                    },
                    Some(v) => v,
                },
            },
        };
        let method_start = decode_type_method_start(data, entry)?;
        let method_count = decode_type_method_count(data, entry)?;
        if method_start != u32::MAX && method_count != 0 {
            return Ok(Some((type_start + local, entry, method_start, method_count)));
        }
        local += 1;
    }
    Ok(None)
}

/// Row `local` of the method preview of the methods from `method_start` in the table at `table`.
pub open spec fn spec_method_row(layout: StaticLayout, global_data: Seq<u8>, table: int, method_start: int, local: int) -> Result<
    Seq<char>,
    LayoutError,
> {
    let method_index = method_start + local;
    let entry = table + method_index * 26;
    match spec_method_name_index(global_data, entry, method_index) {
        Err(e) => Err(e),
        Ok(name_index) => match spec_decode_string_raw(global_data, layout, name_index) {
            Err(e) => Err(e),
            Ok(name) => Ok(
                "    method["@ + decimal(method_index as nat) + "] name_index=0x"@ + zero_padded(
                    hexadecimal(name_index as nat, true),
                    8,
                ) + " name="@ + name,
            ),
        },
    }
}

/// The method rows as a function of the row index.
pub open spec fn method_rows(layout: StaticLayout, global_data: Seq<u8>, table: int, method_start: int) -> spec_fn(int) -> Result<
    Seq<char>,
    LayoutError,
> {
    |i: int| spec_method_row(layout, global_data, table, method_start, i)
}

/// The line that introduces the method preview.
pub open spec fn method_table_line(table: int, type_index: usize, type_name_text: Seq<char>, method_start: u32, method_count: u16) -> Seq<char> {
    "  method table: offset 0x"@ + hexadecimal(table as nat, true) + ", first method type["@ + decimal(type_index as nat)
        + "] "@ + type_name_text + " range="@ + decimal(method_start as nat) + ".."@ + decimal(
        (method_start + method_count) as nat,
    )
}

fn method_table_header(
    table: usize,
    type_index: usize,
    namespace: &str,
    name: &str,
    method_start: u32,
    method_count: u16,
) -> (r: String)
    requires
        method_start + method_count <= u32::MAX,
    ensures
        r@ == method_table_line(table as int, type_index, qualified(namespace@, name@), method_start, method_count),
{
    let mut header = String::new();
    header.append("  method table: offset 0x");
    push_hex(&mut header, table as u64, true);
    header.append(", first method type[");
    push_decimal(&mut header, type_index as u64);
    header.append("] ");
    let ghost before = header@;
    if namespace.is_empty() {
        header.append(name);
    } else {
        header.append(namespace);
        header.append(".");
        header.append(name);
    }
    assert(header@ =~= before + qualified(namespace@, name@));
    header.append(" range=");
    push_decimal(&mut header, method_start as u64);
    header.append("..");
    push_decimal(&mut header, method_start as u64 + method_count as u64);
    assert(header@ =~= method_table_line(table as int, type_index, qualified(namespace@, name@), method_start, method_count));
    header
}

/// The method preview once the first type with methods is known: the method table line
/// with the type's name and method range, then up to ten of its methods.
#[verifier::opaque]
pub open spec fn spec_found_type_methods(
    layout: StaticLayout,
    global_data: Seq<u8>,
    type_index: usize,
    entry: usize,
    method_start: u32,
    method_count: u16,
) -> (Seq<Seq<char>>, Result<(), LayoutError>) {
    let table = layout.payload_offset + layout.global_method_table_offset;
    if !in_range(global_data, table + method_start * 26, method_count * 26) {
        (Seq::empty(), Err(LayoutError::OutOfRange))
    } else {
        match spec_type_namespace_index(global_data, entry as int) {
            Err(e) => (Seq::empty(), Err(e)),
            Ok(namespace_index) => match spec_decode_string_raw(global_data, layout, namespace_index) {
                Err(e) => (Seq::empty(), Err(e)),
                Ok(namespace) => match spec_type_name_index(global_data, entry as int) {
                    Err(e) => (Seq::empty(), Err(e)),
                    Ok(name_index) => match spec_decode_string_raw(global_data, layout, name_index) {
                        Err(e) => (Seq::empty(), Err(e)),
                        Ok(name) => if method_start + method_count > u32::MAX {
                            (Seq::empty(), Err(LayoutError::ArithmeticOverflow))
                        } else {
                            let rows = rows_upto(
                                method_rows(layout, global_data, table, method_start as int),
                                min_nat(method_count as int, 10),
                            );
                            (
                                seq![method_table_line(table, type_index, qualified(namespace, name), method_start, method_count)]
                                    + rows.0,
                                rows.1,
                            )
                        },
                    },
                },
            },
        }
    }
}

/// The method preview: the methods of the first type of the first image that has any.
#[verifier::opaque]
pub open spec fn spec_method_preview(layout: StaticLayout, global_data: Seq<u8>, startup_data: Seq<u8>) -> (
    Seq<Seq<char>>,
    Result<(), LayoutError>,
) {
    let image_table = layout.startup_image_table_offset as int;
    match spec_image_type_start(startup_data, image_table, 0) {
        Err(e) => (Seq::empty(), Err(e)),
        Ok(type_start) => match spec_image_type_count(startup_data, image_table, 0) {
            Err(e) => (Seq::empty(), Err(e)),
            Ok(type_count) => {
                let table = layout.payload_offset + layout.global_type_table_offset;
                if !in_range(global_data, table + type_start * 70, type_count * 70) {
                    (Seq::empty(), Err(LayoutError::OutOfRange))
                } else {
                    match spec_find_type_with_methods_from(
                        global_data,
                        table,
                        type_start as int,
                        type_count as int,
                        0,
                    ) {
                        Err(e) => (Seq::empty(), Err(e)),
                        Ok(None) => (seq!["  method table: no methods found in first image"@], Ok(())),
                        Ok(Some(found)) => spec_found_type_methods(layout, global_data, found.0, found.1, found.2, found.3),
                    }
                }
            },
        },
    }
}

fn method_row(layout: &StaticLayout, global_data: &[u8], table: usize, method_start: usize, local: usize) -> (r: Result<
    String,
    LayoutError,
>)
    requires
        table + (method_start + local) * 26 <= usize::MAX,
    ensures
        match r {
            Ok(line) => spec_method_row(*layout, global_data@, table as int, method_start as int, local as int) == Ok::<
                Seq<char>,
                LayoutError,
            >(line@),
            Err(e) => spec_method_row(*layout, global_data@, table as int, method_start as int, local as int) == Err::<
                Seq<char>,
                LayoutError,
            >(e),
        },
{
    assert(method_start + local <= usize::MAX) by (nonlinear_arith)
        requires
            table + (method_start + local) * 26 <= usize::MAX,
    ;
    let method_index = method_start + local;
    let entry = table + method_index * 26;
    let name_index = decode_method_name_index(global_data, entry, method_index)?;
    let name = decode_string_raw(global_data, layout, name_index)?;
    let mut line = String::new();
    line.append("    method[");
    push_decimal(&mut line, method_index as u64);
    line.append("] name_index=0x");
    push_hex_padded(&mut line, name_index as u64, 8);
    line.append(" name=");
    line.append(name.as_str());
    Ok(line)
}

/// Appends the method lines of the type found at `entry` to `lines`.
fn found_type_methods(
    layout: &StaticLayout,
    global_data: &[u8],
    type_index: usize,
    entry: usize,
    method_start: u32,
    method_count: u16,
    lines: &mut Vec<String>,
) -> (r: Result<(), LayoutError>)
    ensures
        final(lines).deep_view() == old(lines).deep_view() + spec_found_type_methods(
            *layout,
            global_data@,
            type_index,
            entry,
            method_start,
            method_count,
        ).0,
        r == spec_found_type_methods(*layout, global_data@, type_index, entry, method_start, method_count).1,
{
    proof {
        reveal(spec_found_type_methods);
    }
    let ghost initial = lines.deep_view();
    assert(initial + Seq::<Seq<char>>::empty() =~= initial);
    assert(global_data@.len() == global_data.len());
    let table = match (layout.payload_offset as usize).checked_add(layout.global_method_table_offset as usize) {
        Some(v) => v,
        None => {
            return Err(LayoutError::OutOfRange);
        },
    };
    let start = method_start as usize;
    let count = method_count as usize;
    if !(table <= global_data.len() && start <= (global_data.len() - table) / 26) {
        assert(!in_range(global_data@, table + method_start * 26, method_count * 26)) by (nonlinear_arith)
            requires
                !(table <= global_data.len() && start <= (global_data.len() - table) / 26),
                start == method_start,
                count == method_count,
        ;
        return Err(LayoutError::OutOfRange);
    }
    let first = table + start * 26;
    if !(count <= (global_data.len() - first) / 26) {
        assert(!in_range(global_data@, table + method_start * 26, method_count * 26));
        return Err(LayoutError::OutOfRange);
    }
    let namespace_index = decode_type_namespace_index(global_data, entry)?;
    let namespace = decode_string_raw(global_data, layout, namespace_index)?;
    let name_index = decode_type_name_index(global_data, entry)?;
    let name = decode_string_raw(global_data, layout, name_index)?;
    if method_start > u32::MAX - method_count as u32 {
        return Err(LayoutError::ArithmeticOverflow);
    }
    let header = method_table_header(table, type_index, namespace.as_str(), name.as_str(), method_start, method_count);
    let ghost header_line = header@;
    push_line(lines, header);
    let ghost row = method_rows(*layout, global_data@, table as int, start as int);
    let ghost head = lines.deep_view();
    let preview = if count < 10 {
        count
    } else {
        10
    };
    let ghost expected = spec_found_type_methods(*layout, global_data@, type_index, entry, method_start, method_count);
    assert(expected.0 == seq![header_line] + rows_upto(row, preview as nat).0);
    assert(expected.1 == rows_upto(row, preview as nat).1);
    let mut local: usize = 0;
    while local < preview
        invariant
            local <= preview <= count,
            first == table + start * 26,
            first + count * 26 <= global_data@.len(),
            global_data@.len() == global_data.len(),
            row == method_rows(*layout, global_data@, table as int, start as int),
            rows_upto(row, local as nat).1 is Ok,
            lines.deep_view() == head + rows_upto(row, local as nat).0,
            head == initial.push(header_line),
            initial == old(lines).deep_view(),
            expected == spec_found_type_methods(*layout, global_data@, type_index, entry, method_start, method_count),
            expected.0 == seq![header_line] + rows_upto(row, preview as nat).0,
            expected.1 == rows_upto(row, preview as nat).1,
        decreases preview - local,
    {
        assert(table + (start + local) * 26 <= usize::MAX) by (nonlinear_arith)
            requires
                local < count,
                first == table + start * 26,
                first + count * 26 <= global_data.len(),
                global_data.len() <= usize::MAX,
        ;
        match method_row(layout, global_data, table, start, local) {
            Ok(line) => {
                assert(row(local as int) == spec_method_row(*layout, global_data@, table as int, start as int, local as int));
                push_line(lines, line);
                assert(lines.deep_view() =~= head + rows_upto(row, (local + 1) as nat).0);
            },
            Err(e) => {
                proof {
                    assert(row(local as int) == spec_method_row(*layout, global_data@, table as int, start as int, local as int));
                    lemma_rows_stop(row, (local + 1) as nat, preview as nat);
                    assert(lines.deep_view() =~= head + rows_upto(row, (local + 1) as nat).0);
                }
                assert(lines.deep_view() =~= initial + expected.0);
                return Err(e);
            },
        }
        local += 1;
    }
    assert(lines.deep_view() =~= initial + expected.0);
    Ok(())
}

/// Appends the method preview to `lines`.
pub fn method_preview(layout: &StaticLayout, global_data: &[u8], startup_data: &[u8], lines: &mut Vec<String>) -> (r:
    Result<(), LayoutError>)
    ensures
        final(lines).deep_view() == old(lines).deep_view() + spec_method_preview(*layout, global_data@, startup_data@).0,
        r == spec_method_preview(*layout, global_data@, startup_data@).1,
{
    proof {
        reveal(spec_method_preview);
    }
    let ghost initial = lines.deep_view();
    assert(initial + Seq::<Seq<char>>::empty() =~= initial);
    let image_table = layout.startup_image_table_offset as usize;
    let type_start = decode_image_type_start(startup_data, image_table, 0)? as usize;
    let type_count = decode_image_type_count(startup_data, image_table, 0)? as usize;
    assert(global_data@.len() == global_data.len());
    let table = match (layout.payload_offset as usize).checked_add(layout.global_type_table_offset as usize) {
        Some(v) => v,
        None => {
            return Err(LayoutError::OutOfRange);
        },
    };
    if !(type_start <= (global_data.len() - table.min(global_data.len())) / 70 && table <= global_data.len()) {
        assert(!in_range(global_data@, table + type_start * 70, type_count * 70)) by (nonlinear_arith)
            requires
                !(type_start <= (global_data.len() - table) / 70 && table <= global_data.len()) || table
                    > global_data.len(),
                table >= 0,
                type_count >= 0,
        ;
        return Err(LayoutError::OutOfRange);
    }
    let first = table + type_start * 70;
    if !(type_count <= (global_data.len() - first) / 70) {
        assert(!in_range(global_data@, table + type_start * 70, type_count * 70));
        return Err(LayoutError::OutOfRange);
    }
    match find_first_type_with_methods(global_data, table, type_start, type_count)? {
        None => {
            let mut line = String::new();
            line.append("  method table: no methods found in first image");
            push_line(lines, line);
            Ok(())
        },
        Some(found) => found_type_methods(layout, global_data, found.0, found.1, found.2, found.3, lines),
    }
}

/// The previews one after another, stopping after the first that fails.
pub open spec fn then_preview(
    first: (Seq<Seq<char>>, Result<(), LayoutError>),
    second: (Seq<Seq<char>>, Result<(), LayoutError>),
) -> (Seq<Seq<char>>, Result<(), LayoutError>) {
    if first.1 is Err {
        first
    } else {
        (first.0 + second.0, second.1)
    }
}

/// The whole metadata section preview: a heading, then the image, assembly, type, method
/// and interface-pair previews, stopping after the first that fails.
pub open spec fn spec_metadata_section_preview(layout: StaticLayout, global_data: Seq<u8>, startup_data: Seq<u8>) -> (
    Seq<Seq<char>>,
    Result<(), LayoutError>,
) {
    then_preview(
        (seq!["Metadata section preview:"@], Ok(())),
        then_preview(
            spec_image_preview(layout, global_data, startup_data),
            then_preview(
                spec_assembly_preview(layout, global_data, startup_data),
                then_preview(
                    spec_type_preview(layout, global_data, startup_data),
                    then_preview(
                        spec_method_preview(layout, global_data, startup_data),
                        spec_interface_pair_preview(layout, startup_data),
                    ),
                ),
            ),
        ),
    )
}

/// Renders the metadata section preview into `lines`; without startup metadata, the
/// single line that says the preview is skipped.
pub fn inspect_metadata_sections(
    layout: &StaticLayout,
    global_data: &[u8],
    startup_data: Option<&[u8]>,
    lines: &mut Vec<String>,
) -> (r: Result<(), LayoutError>)
    ensures
        match startup_data {
            None => r is Ok && final(lines).deep_view() == old(lines).deep_view().push(
                "Metadata section preview skipped: startup-metadata.dat not found."@,
            ),
            Some(data) => final(lines).deep_view() == old(lines).deep_view() + spec_metadata_section_preview(
                *layout,
                global_data@,
                data@,
            ).0 && r == spec_metadata_section_preview(*layout, global_data@, data@).1,
        },
{
    let startup_data = match startup_data {
        None => {
            let mut line = String::new();
            line.append("Metadata section preview skipped: startup-metadata.dat not found.");
            push_line(lines, line);
            return Ok(());
        },
        Some(data) => data,
    };
    let ghost initial = lines.deep_view();
    let mut heading = String::new();
    heading.append("Metadata section preview:");
    push_line(lines, heading);
    let ghost a = lines.deep_view();
    let images = image_preview(layout, global_data, startup_data, lines);
    let ghost b = lines.deep_view();
    if images.is_err() {
        assert(lines.deep_view() =~= initial + spec_metadata_section_preview(*layout, global_data@, startup_data@).0);
        return images;
    }
    let assemblies = assembly_preview(layout, global_data, startup_data, lines);
    let ghost c = lines.deep_view();
    if assemblies.is_err() {
        assert(lines.deep_view() =~= initial + spec_metadata_section_preview(*layout, global_data@, startup_data@).0);
        return assemblies;
    }
    let types = type_preview(layout, global_data, startup_data, lines);
    if types.is_err() {
        assert(lines.deep_view() =~= initial + spec_metadata_section_preview(*layout, global_data@, startup_data@).0);
        return types;
    }
    let methods = method_preview(layout, global_data, startup_data, lines);
    if methods.is_err() {
        assert(lines.deep_view() =~= initial + spec_metadata_section_preview(*layout, global_data@, startup_data@).0);
        return methods;
    }
    let pairs = interface_pair_preview(layout, startup_data, lines);
    assert(lines.deep_view() =~= initial + spec_metadata_section_preview(*layout, global_data@, startup_data@).0);
    pairs
}

} // verus!
