//! A minimal PE (Portable Executable) image: its bytes, its section table and
//! its preferred base address, with reads addressed by relative virtual address.
use vstd::prelude::*;

use crate::bytes::{
    checked_read, entry_offset, le_i32, read_i32, read_u16, read_u64, widen, in_range, le_u32, read_u16_at, read_u32, read_u32_at, read_u64_at,
    spec_read_i32, spec_read_u16, spec_read_u32, spec_read_u64,
};
use crate::errors::LayoutError;

verus! {

/// One entry of the section table: where a section lives in memory and in the file.
#[derive(Clone, Copy, Debug, PartialEq, Eq, Structural)]
pub struct PeSection {
    pub virtual_address: u32,
    pub virtual_size: u32,
    pub raw_offset: u32,
    pub raw_size: u32,
}

/// A parsed PE image.
pub struct PeImage {
    data: Vec<u8>,
    sections: Vec<PeSection>,
    image_base: u64,
}

/// What a `PeImage` stands for: the file bytes, the section table, the image base.
pub struct PeImageView {
    pub data: Seq<u8>,
    pub sections: Seq<PeSection>,
    pub image_base: u64,
}

impl View for PeImage {
    type V = PeImageView;

    closed spec fn view(&self) -> PeImageView {
        PeImageView { data: self.data@, sections: self.sections@, image_base: self.image_base }
    }
}

/// The section entry whose header starts at `offset`.
pub open spec fn spec_section_at(data: Seq<u8>, offset: int) -> Result<PeSection, LayoutError> {
    checked_read(
        data,
        offset + 8,
        16,
        PeSection {
            virtual_size: le_u32(data, offset + 8),
            virtual_address: le_u32(data, offset + 12),
            raw_size: le_u32(data, offset + 16),
            raw_offset: le_u32(data, offset + 20),
        },
    )
}

/// The first `count` entries of the section table at `table`.
pub open spec fn spec_sections(data: Seq<u8>, table: int, count: nat) -> Result<Seq<PeSection>, LayoutError>
    decreases count,
{
    if count == 0 {
        Ok(Seq::empty())
    } else {
        match spec_sections(data, table, (count - 1) as nat) {
            Err(e) => Err(e),
            Ok(prefix) => match spec_section_at(data, table + (count - 1) * 40) {
                Err(e) => Err(e),
                Ok(section) => Ok(prefix.push(section)),
            },
        }
    }
}

/// The image base named by an optional header of the given magic at `optional_header`.
pub open spec fn spec_image_base(data: Seq<u8>, optional_header: int, magic: u16) -> Result<u64, LayoutError> {
    if magic == 0x20B {
        spec_read_u64(data, optional_header + 24)
    } else if magic == 0x10B {
        match spec_read_u32(data, optional_header + 28) {
            Ok(v) => Ok(v as u64),
            Err(e) => Err(e),
        }
    } else {
        Err(LayoutError::UnsupportedOptionalHeader)
    }
}

/// `data` starts with the DOS signature `MZ`.
pub open spec fn has_mz_signature(data: Seq<u8>) -> bool {
    data.len() >= 2 && data[0] == 0x4D && data[1] == 0x5A
}

/// `data` holds the signature `PE\0\0` at `offset`.
pub open spec fn has_pe_signature(data: Seq<u8>, offset: int) -> bool {
    in_range(data, offset, 4) && data[offset] == 0x50 && data[offset + 1] == 0x45 && data[offset + 2]
        == 0 && data[offset + 3] == 0
}

/// The image that `data` holds, or why it holds none.
pub open spec fn spec_parse_pe(data: Seq<u8>) -> Result<PeImageView, LayoutError> {
    if !has_mz_signature(data) {
        Err(LayoutError::NotPeImage)
    } else {
        match spec_read_u32(data, 0x3C) {
            Err(e) => Err(e),
            Ok(pe_offset) => {
                let coff = pe_offset + 4;
                if !has_pe_signature(data, pe_offset as int) {
                    Err(LayoutError::InvalidPeSignature)
                } else {
                    match spec_read_u16(data, coff + 2) {
                        Err(e) => Err(e),
                        Ok(section_count) => match spec_read_u16(data, coff + 16) {
                            Err(e) => Err(e),
                            Ok(optional_header_size) => match spec_read_u16(data, coff + 20) {
                                Err(e) => Err(e),
                                Ok(magic) => match spec_image_base(data, coff + 20, magic) {
                                    Err(e) => Err(e),
                                    Ok(image_base) => match spec_sections(
                                        data,
                                        coff + 20 + optional_header_size,
                                        section_count as nat,
                                    ) {
                                        Err(e) => Err(e),
                                        Ok(sections) => Ok(
                                            PeImageView { data, sections, image_base },
                                        ),
                                    },
                                },
                            },
                        },
                    }
                }
            },
        }
    }
}

/// Whether `rva` lies inside `section` (its extent is the larger of its virtual and raw sizes).
pub open spec fn section_contains(section: PeSection, rva: u32) -> bool {
    let size = if section.virtual_size >= section.raw_size {
        section.virtual_size
    } else {
        section.raw_size
    };
    section.virtual_address <= rva && rva < section.virtual_address + size
}

/// File offset of `rva` according to the first section, from `start` on, that contains it.
pub open spec fn spec_rva_in_sections(sections: Seq<PeSection>, rva: u32, start: int) -> Option<int>
    decreases sections.len() - start,
{
    if start < 0 || start >= sections.len() {
        None
    } else if section_contains(sections[start], rva) {
        Some(sections[start].raw_offset + (rva - sections[start].virtual_address))
    } else {
        spec_rva_in_sections(sections, rva, start + 1)
    }
}

/// File offset of `rva`: the first section containing it decides.
pub open spec fn spec_rva_to_offset(image: PeImageView, rva: u32) -> Result<int, LayoutError> {
    match spec_rva_in_sections(image.sections, rva, 0) {
        None => Err(LayoutError::RvaOutsideSections(rva)),
        Some(offset) => if offset <= usize::MAX {
            Ok(offset)
        } else {
            Err(LayoutError::OutOfRange)
        },
    }
}

/// A read at `rva`, with `read` applied to the file offset that `rva` maps to.
pub open spec fn spec_read_at_rva<T>(
    image: PeImageView,
    rva: u32,
    read: spec_fn(Seq<u8>, int) -> Result<T, LayoutError>,
) -> Result<T, LayoutError> {
    match spec_rva_to_offset(image, rva) {
        Err(e) => Err(e),
        Ok(offset) => read(image.data, offset),
    }
}

pub open spec fn spec_read_u16_rva(image: PeImageView, rva: u32) -> Result<u16, LayoutError> {
    spec_read_at_rva(image, rva, |d: Seq<u8>, o: int| spec_read_u16(d, o))
}

pub open spec fn spec_read_u32_rva(image: PeImageView, rva: u32) -> Result<u32, LayoutError> {
    spec_read_at_rva(image, rva, |d: Seq<u8>, o: int| spec_read_u32(d, o))
}

pub open spec fn spec_read_i32_rva(image: PeImageView, rva: u32) -> Result<i32, LayoutError> {
    spec_read_at_rva(image, rva, |d: Seq<u8>, o: int| spec_read_i32(d, o))
}

pub open spec fn spec_read_u64_rva(image: PeImageView, rva: u32) -> Result<u64, LayoutError> {
    spec_read_at_rva(image, rva, |d: Seq<u8>, o: int| spec_read_u64(d, o))
}

/// The `size` bytes at `rva`.
pub open spec fn spec_read_bytes_rva(image: PeImageView, rva: u32, size: int) -> Result<Seq<u8>, LayoutError> {
    spec_read_at_rva(
        image,
        rva,
        |d: Seq<u8>, o: int| checked_read(d, o, size, d.subrange(o, o + size)),
    )
}

impl PeImage {
    /// Parses the DOS header, the PE signature, the COFF and optional headers and the section table.
    pub fn parse(data: Vec<u8>) -> (r: Result<PeImage, LayoutError>)
        ensures
            match r {
                Ok(image) => spec_parse_pe(data@) == Ok::<PeImageView, LayoutError>(image@),
                Err(e) => spec_parse_pe(data@) == Err::<PeImageView, LayoutError>(e),
            },
    {
        if !(data.len() >= 2 && data[0] == 0x4D && data[1] == 0x5A) {
            return Err(LayoutError::NotPeImage);
        }
        let pe_offset = read_u32(data.as_slice(), 0x3C)?;
        let pe_offset = pe_offset as usize;
        let has_signature = pe_offset <= data.len() && 4 <= data.len() - pe_offset && data[pe_offset]
            == 0x50 && data[pe_offset + 1] == 0x45 && data[pe_offset + 2] == 0 && data[pe_offset + 3]
            == 0;
        if !has_signature {
            return Err(LayoutError::InvalidPeSignature);
        }
        let coff = pe_offset + 4;
        let section_count = read_u16_at(data.as_slice(), coff, 2)?;
        let optional_header_size = read_u16_at(data.as_slice(), coff, 16)?;
        let optional_magic = read_u16_at(data.as_slice(), coff, 20)?;
        let optional_header = match coff.checked_add(20) {
            Some(v) => v,
            None => {
                return Err(LayoutError::OutOfRange);
            },
        };
        let image_base = if optional_magic == 0x20B {
            read_u64_at(data.as_slice(), optional_header, 24)?
        } else if optional_magic == 0x10B {
            read_u32_at(data.as_slice(), optional_header, 28)? as u64
        } else {
            return Err(LayoutError::UnsupportedOptionalHeader);
        };
        let sections = read_sections(
            data.as_slice(),
            optional_header,
            optional_header_size as usize,
            section_count as usize,
        )?;
        Ok(PeImage { data, sections, image_base })
    }

    /// The preferred load address of the image.
    pub fn image_base(&self) -> (r: u64)
        ensures
            r == self@.image_base,
    {
        self.image_base
    }
}

impl PeImage {
    /// Maps `rva` to a file offset through the first section that contains it.
    pub fn rva_to_offset(&self, rva: u32) -> (r: Result<usize, LayoutError>)
        ensures
            widen(r) == spec_rva_to_offset(self@, rva),
    {
        let mut index: usize = 0;
        while index < self.sections.len()
            invariant
                index <= self.sections@.len(),
                spec_rva_in_sections(self.sections@, rva, 0) == spec_rva_in_sections(
                    self.sections@,
                    rva,
                    index as int,
                ),
            decreases self.sections@.len() - index,
        {
            let section = self.sections[index];
            let size = if section.virtual_size >= section.raw_size {
                section.virtual_size
            } else {
                section.raw_size
            };
            if rva >= section.virtual_address && (rva as u64) < section.virtual_address as u64
                + size as u64 {
                let offset = section.raw_offset as u64 + (rva - section.virtual_address) as u64;
                if offset <= usize::MAX as u64 {
                    return Ok(offset as usize);
                } else {
                    return Err(LayoutError::OutOfRange);
                }
            }
            index += 1;
        }
        Err(LayoutError::RvaOutsideSections(rva))
    }

    pub fn read_u32_rva(&self, rva: u32) -> (r: Result<u32, LayoutError>)
        ensures
            r == spec_read_u32_rva(self@, rva),
    {
        let offset = self.rva_to_offset(rva)?;
        read_u32(self.data.as_slice(), offset)
    }

    pub fn read_u16_rva(&self, rva: u32) -> (r: Result<u16, LayoutError>)
        ensures
            r == spec_read_u16_rva(self@, rva),
    {
        let offset = self.rva_to_offset(rva)?;
        read_u16(self.data.as_slice(), offset)
    }

    pub fn read_i32_rva(&self, rva: u32) -> (r: Result<i32, LayoutError>)
        ensures
            r == spec_read_i32_rva(self@, rva),
    {
        let offset = self.rva_to_offset(rva)?;
        read_i32(self.data.as_slice(), offset)
    }

    pub fn read_u64_rva(&self, rva: u32) -> (r: Result<u64, LayoutError>)
        ensures
            r == spec_read_u64_rva(self@, rva),
    {
        let offset = self.rva_to_offset(rva)?;
        read_u64(self.data.as_slice(), offset)
    }

    /// The `size` bytes at `rva`, borrowed from the image.
    pub fn read_bytes_rva(&self, rva: u32, size: usize) -> (r: Result<&[u8], LayoutError>)
        ensures
            match r {
                Ok(bytes) => spec_read_bytes_rva(self@, rva, size as int) == Ok::<Seq<u8>, LayoutError>(
                    bytes@,
                ),
                Err(e) => spec_read_bytes_rva(self@, rva, size as int) == Err::<Seq<u8>, LayoutError>(e),
            },
    {
        let offset = self.rva_to_offset(rva)?;
        let data = self.data.as_slice();
        if offset <= data.len() && size <= data.len() - offset {
            let bytes = slice_range(data, offset, offset + size);
            Ok(bytes)
        } else {
            Err(LayoutError::OutOfRange)
        }
    }
}

/// `pattern` matches `data` at `offset`: each fixed byte equals the byte there.
pub open spec fn pattern_matches_at(data: Seq<u8>, offset: int, pattern: Seq<Option<u8>>) -> bool {
    forall|k: int|
        0 <= k < pattern.len() ==> match #[trigger] pattern[k] {
            Some(b) => data[offset + k] == b,
            None => true,
        }
}

/// The file extent `start..end` that a scan of `section` covers, or `None` when the scan
/// skips the section (it runs past the data or is shorter than `need` bytes).
pub open spec fn scan_window(data_len: int, section: PeSection, need: int) -> Option<(int, int)> {
    let start = section.raw_offset as int;
    let end = if start + section.raw_size > usize::MAX {
        usize::MAX as int
    } else {
        start + section.raw_size
    };
    if end > data_len || end < start + need {
        None
    } else {
        Some((start, end))
    }
}

/// RVA of the byte `delta` bytes into `section` (wrapping at 32 bits).
pub open spec fn rva_in_section(section: PeSection, delta: int) -> u32 {
    section.virtual_address.wrapping_add(delta as u32)
}

/// RVAs of the matches of `pattern` among the first `count` candidate offsets from `start`.
pub open spec fn pattern_hits(
    data: Seq<u8>,
    section: PeSection,
    start: int,
    pattern: Seq<Option<u8>>,
    count: nat,
) -> Seq<u32>
    decreases count,
{
    if count == 0 {
        Seq::empty()
    } else {
        let offset = start + count - 1;
        pattern_hits(data, section, start, pattern, (count - 1) as nat) + if pattern_matches_at(
            data,
            offset,
            pattern,
        ) {
            seq![rva_in_section(section, count - 1)]
        } else {
            Seq::empty()
        }
    }
}

/// RVAs of the matches of `pattern` inside `section`, in file order.
pub open spec fn section_pattern_hits(data: Seq<u8>, section: PeSection, pattern: Seq<Option<u8>>) -> Seq<u32> {
    match scan_window(data.len() as int, section, pattern.len() as int) {
        None => Seq::empty(),
        Some((start, end)) => pattern_hits(data, section, start, pattern, (end - pattern.len() - start + 1) as nat),
    }
}

/// Matches of `pattern` in the first `count` sections.
pub open spec fn pattern_hits_in_sections(image: PeImageView, pattern: Seq<Option<u8>>, count: nat) -> Seq<u32>
    decreases count,
{
    if count == 0 {
        Seq::empty()
    } else {
        pattern_hits_in_sections(image, pattern, (count - 1) as nat) + section_pattern_hits(
            image.data,
            image.sections[count - 1],
            pattern,
        )
    }
}

/// RVAs of every place where `pattern` matches the raw bytes of a section, section by section.
pub open spec fn spec_scan_pattern(image: PeImageView, pattern: Seq<Option<u8>>) -> Seq<u32> {
    if pattern.len() == 0 {
        Seq::empty()
    } else {
        pattern_hits_in_sections(image, pattern, image.sections.len())
    }
}

/// The 32-bit displacement at `offset`, read as the operand of a RIP-relative instruction
/// at RVA `rva`, addresses `target_va`.
pub open spec fn displacement_targets(image: PeImageView, offset: int, rva: u32, target_va: u64) -> bool {
    image.image_base.wrapping_add(rva as u64).wrapping_add(4).wrapping_add_signed(
        le_i32(image.data, offset) as i64,
    ) == target_va
}

/// RVAs of the displacements addressing `target_va` among the first `count` offsets from `start`.
pub open spec fn xref_hits(image: PeImageView, section: PeSection, start: int, target_va: u64, count: nat) -> Seq<u32>
    decreases count,
{
    if count == 0 {
        Seq::empty()
    } else {
        let rva = rva_in_section(section, count - 1);
        xref_hits(image, section, start, target_va, (count - 1) as nat) + if displacement_targets(
            image,
            start + count - 1,
            rva,
            target_va,
        ) {
            seq![rva]
        } else {
            Seq::empty()
        }
    }
}

/// Displacements addressing `target_va` inside `section`; the scan stops five bytes before its end.
pub open spec fn section_xref_hits(image: PeImageView, section: PeSection, target_va: u64) -> Seq<u32> {
    match scan_window(image.data.len() as int, section, 4) {
        None => Seq::empty(),
        Some((start, end)) => xref_hits(image, section, start, target_va, (end - 4 - start) as nat),
    }
}

pub open spec fn xref_hits_in_sections(image: PeImageView, target_va: u64, count: nat) -> Seq<u32>
    decreases count,
{
    if count == 0 {
        Seq::empty()
    } else {
        xref_hits_in_sections(image, target_va, (count - 1) as nat) + section_xref_hits(
            image,
            image.sections[count - 1],
            target_va,
        )
    }
}

impl PeImage {
    /// RVAs of the RIP-relative displacements in section bytes that address `target_va`.
    pub fn scan_rip_relative_xrefs(&self, target_va: u64) -> (r: Vec<u32>)
        ensures
            r@ == xref_hits_in_sections(self@, target_va, self@.sections.len()),
    {
        let data = self.data.as_slice();
        let mut matches: Vec<u32> = Vec::new();
        let mut si: usize = 0;
        while si < self.sections.len()
            invariant
                si <= self.sections@.len(),
                data@ == self@.data,
                matches@ == xref_hits_in_sections(self@, target_va, si as nat),
            decreases self.sections@.len() - si,
        {
            let section = self.sections[si];
            let start = section.raw_offset as usize;
            let end = start.saturating_add(section.raw_size as usize);
            let ghost before = matches@;
            if end <= data.len() && end >= start && end - start >= 4 {
                let stop = end - 4;
                let mut offset = start;
                while offset < stop
                    invariant
                        start <= offset <= stop,
                        stop == end - 4,
                        end <= data@.len(),
                        data@ == self@.data,
                        section == self@.sections[si as int],
                        start == section.raw_offset,
                        matches@ == before + xref_hits(self@, section, start as int, target_va, (offset - start) as nat),
                    decreases stop - offset,
                {
                    let displacement = u32_le_at(data, offset) as i32;
                    let displacement_rva = section.virtual_address.wrapping_add((offset - start) as u32);
                    let rip = self.image_base.wrapping_add(displacement_rva as u64).wrapping_add(4);
                    let ghost prior = matches@;
                    if rip.wrapping_add_signed(displacement as i64) == target_va {
                        matches.push(displacement_rva);
                    }
                    assert(matches@ == before + xref_hits(self@, section, start as int, target_va, (offset + 1 - start) as nat));
                    offset += 1;
                }
            }
            si += 1;
        }
        matches
    }

    /// RVAs of every match of `pattern` (`None` matches any byte) in the raw bytes of the sections.
    pub fn scan_pattern(&self, pattern: &[Option<u8>]) -> (r: Vec<u32>)
        ensures
            r@ == spec_scan_pattern(self@, pattern@),
    {
        let mut matches: Vec<u32> = Vec::new();
        if pattern.len() == 0 {
            return matches;
        }
        let data = self.data.as_slice();
        let mut si: usize = 0;
        while si < self.sections.len()
            invariant
                si <= self.sections@.len(),
                pattern@.len() > 0,
                data@ == self@.data,
                matches@ == pattern_hits_in_sections(self@, pattern@, si as nat),
            decreases self.sections@.len() - si,
        {
            let section = self.sections[si];
            let start = section.raw_offset as usize;
            let end = start.saturating_add(section.raw_size as usize);
            let ghost before = matches@;
            if end <= data.len() && end >= start && end - start >= pattern.len() {
                let last = end - pattern.len();
                let mut offset = start;
                while offset <= last
                    invariant
                        start <= offset <= last + 1,
                        last == end - pattern@.len(),
                        end <= data@.len(),
                        pattern@.len() > 0,
                        data@ == self@.data,
                        section == self@.sections[si as int],
                        start == section.raw_offset,
                        matches@ == before + pattern_hits(data@, section, start as int, pattern@, (offset - start) as nat),
                    decreases last + 1 - offset,
                {
                    if matches_at(data, offset, pattern) {
                        matches.push(section.virtual_address.wrapping_add((offset - start) as u32));
                    }
                    assert(matches@ == before + pattern_hits(data@, section, start as int, pattern@, (offset + 1 - start) as nat));
                    offset += 1;
                }
            }
            si += 1;
        }
        matches
    }
}

/// Whether `pattern` matches `data` at `offset`.
fn matches_at(data: &[u8], offset: usize, pattern: &[Option<u8>]) -> (r: bool)
    requires
        offset + pattern@.len() <= data@.len(),
    ensures
        r == pattern_matches_at(data@, offset as int, pattern@),
{
    let mut k: usize = 0;
    assert(data@.len() == data.len());
    while k < pattern.len()
        invariant
            k <= pattern@.len(),
            data@.len() <= usize::MAX,
            offset + pattern@.len() <= data@.len(),
            forall|j: int|
                0 <= j < k ==> match #[trigger] pattern@[j] {
                    Some(b) => data@[offset + j] == b,
                    None => true,
                },
        decreases pattern@.len() - k,
    {
        match pattern[k] {
            Some(b) => {
                if data[offset + k] != b {
                    assert(!pattern_matches_at(data@, offset as int, pattern@)) by {
                        assert(match pattern@[k as int] {
                            Some(b) => data@[offset + k] == b,
                            None => true,
                        } == false);
                    }
                    return false;
                }
            },
            None => {},
        }
        k += 1;
    }
    true
}

/// The little-endian `u32` at `offset` (which must be in range).
fn u32_le_at(data: &[u8], offset: usize) -> (v: u32)
    requires
        in_range(data@, offset as int, 4),
    ensures
        v == le_u32(data@, offset as int),
{
    match read_u32(data, offset) {
        Ok(v) => v,
        Err(_) => 0,
    }
}

/// The bytes `start..end` of `data`.
fn slice_range(data: &[u8], start: usize, end: usize) -> (r: &[u8])
    requires
        start <= end <= data@.len(),
    ensures
        r@ == data@.subrange(start as int, end as int),
{
    &data[start..end]
}

/// Reads `count` section headers from the table at `optional_header + optional_header_size`.
fn read_sections(data: &[u8], optional_header: usize, optional_header_size: usize, count: usize) -> (r:
    Result<Vec<PeSection>, LayoutError>)
    ensures
        match r {
            Ok(sections) => spec_sections(data@, optional_header + optional_header_size, count as nat)
                == Ok::<Seq<PeSection>, LayoutError>(sections@),
            Err(e) => spec_sections(data@, optional_header + optional_header_size, count as nat)
                == Err::<Seq<PeSection>, LayoutError>(e),
        },
{
    let ghost table = optional_header + optional_header_size;
    let mut sections: Vec<PeSection> = Vec::new();
    let mut index: usize = 0;
    while index < count
        invariant
            index <= count,
            table == optional_header + optional_header_size,
            spec_sections(data@, table, index as nat) == Ok::<Seq<PeSection>, LayoutError>(sections@),
        decreases count - index,
    {
        let ghost next = spec_section_at(data@, table + index * 40);
        assert(spec_sections(data@, table, (index + 1) as nat) == match next {
            Err(e) => Err(e),
            Ok(section) => Ok::<Seq<PeSection>, LayoutError>(sections@.push(section)),
        });
        let section = match read_section(data, optional_header, optional_header_size, index) {
            Ok(s) => s,
            Err(e) => {
                proof {
                    lemma_sections_error_propagates(data@, table, (index + 1) as nat, count as nat, e);
                }
                return Err(e);
            },
        };
        sections.push(section);
        index += 1;
    }
    Ok(sections)
}

/// Once a prefix of the section table fails to read, every longer prefix fails the same way.
proof fn lemma_sections_error_propagates(data: Seq<u8>, table: int, failing: nat, count: nat, e: LayoutError)
    requires
        failing <= count,
        spec_sections(data, table, failing) == Err::<Seq<PeSection>, LayoutError>(e),
    ensures
        spec_sections(data, table, count) == Err::<Seq<PeSection>, LayoutError>(e),
    decreases count - failing,
{
    if failing < count {
        lemma_sections_error_propagates(data, table, failing + 1, count, e);
    }
}

fn read_section(data: &[u8], optional_header: usize, optional_header_size: usize, index: usize) -> (r:
    Result<PeSection, LayoutError>)
    ensures
        r == spec_section_at(data@, optional_header + optional_header_size + index * 40),
{
    let ghost offset = optional_header + optional_header_size + index * 40;
    let table = match optional_header.checked_add(optional_header_size) {
        Some(t) => t,
        None => {
            assert(data@.len() == data.len());
            return Err(LayoutError::OutOfRange);
        },
    };
    let start = match entry_offset(data, table, index, 40, 24) {
        Ok(s) => s,
        Err(e) => {
            return Err(e);
        },
    };
    assert(start == offset);
    let virtual_size = read_u32_at(data, start, 8)?;
    let virtual_address = read_u32_at(data, start, 12)?;
    let raw_size = read_u32_at(data, start, 16)?;
    let raw_offset = read_u32_at(data, start, 20)?;
    Ok(PeSection { virtual_address, virtual_size, raw_offset, raw_size })
}


/// `rva` is where `pattern` matches inside a section: at some offset of the section's scan
/// window, with the whole pattern inside the window.
pub open spec fn is_pattern_hit(image: PeImageView, pattern: Seq<Option<u8>>, rva: u32) -> bool {
    exists|si: int, k: int| #![trigger rva_in_section(image.sections[si], k)] hit_at(image, pattern, si, k, rva)
}

/// `rva` is the RVA of offset `k` of the scan window of section `si`, and the whole of
/// `pattern` matches there inside the window.
pub open spec fn hit_at(image: PeImageView, pattern: Seq<Option<u8>>, si: int, k: int, rva: u32) -> bool {
    &&& 0 <= si < image.sections.len()
    &&& scan_window(image.data.len() as int, image.sections[si], pattern.len() as int) matches Some((start, end))
    &&& 0 <= k
    &&& start + k + pattern.len() <= end
    &&& pattern_matches_at(image.data, start + k, pattern)
    &&& rva == rva_in_section(image.sections[si], k)
}

/// `rva` is the RVA of one of the first `count` offsets from `start` of `section`, and
/// `pattern` matches there.
pub open spec fn hit_in_window(data: Seq<u8>, section: PeSection, start: int, pattern: Seq<Option<u8>>, count: nat, rva: u32) -> bool {
    exists|k: int|
        #![trigger rva_in_section(section, k)]
        0 <= k < count && pattern_matches_at(data, start + k, pattern) && rva == rva_in_section(section, k)
}

proof fn lemma_pattern_hits_match(data: Seq<u8>, section: PeSection, start: int, pattern: Seq<Option<u8>>, count: nat)
    ensures
        forall|j: int|
            0 <= j < pattern_hits(data, section, start, pattern, count).len() ==> hit_in_window(
                data,
                section,
                start,
                pattern,
                count,
                #[trigger] pattern_hits(data, section, start, pattern, count)[j],
            ),
    decreases count,
{
    if count > 0 {
        lemma_pattern_hits_match(data, section, start, pattern, (count - 1) as nat);
        let previous = pattern_hits(data, section, start, pattern, (count - 1) as nat);
        let all = pattern_hits(data, section, start, pattern, count);
        assert forall|j: int| 0 <= j < all.len() implies hit_in_window(data, section, start, pattern, count, #[trigger] all[j]) by {
            if j < previous.len() {
                assert(all[j] == previous[j]);
                assert(hit_in_window(data, section, start, pattern, (count - 1) as nat, previous[j]));
                let k = choose|k: int|
                    #![trigger rva_in_section(section, k)]
                    0 <= k < count - 1 && pattern_matches_at(data, start + k, pattern) && previous[j] == rva_in_section(
                        section,
                        k,
                    );
                assert(rva_in_section(section, k) == all[j]);
            } else {
                let k = count - 1;
                assert(pattern_matches_at(data, start + k, pattern) && all[j] == rva_in_section(section, k));
            }
        }
    }
}

proof fn lemma_hits_in_sections_match(image: PeImageView, pattern: Seq<Option<u8>>, count: nat)
    requires
        count <= image.sections.len(),
    ensures
        forall|j: int|
            0 <= j < pattern_hits_in_sections(image, pattern, count).len() ==> is_pattern_hit(
                image,
                pattern,
                #[trigger] pattern_hits_in_sections(image, pattern, count)[j],
            ),
    decreases count,
{
    if count > 0 {
        lemma_hits_in_sections_match(image, pattern, (count - 1) as nat);
        let previous = pattern_hits_in_sections(image, pattern, (count - 1) as nat);
        let si = count - 1;
        let section = image.sections[si];
        let own = section_pattern_hits(image.data, section, pattern);
        let all = pattern_hits_in_sections(image, pattern, count);
        assert(all == previous + own);
        assert forall|j: int| 0 <= j < all.len() implies is_pattern_hit(image, pattern, #[trigger] all[j]) by {
            if j < previous.len() {
                assert(all[j] == previous[j]);
            } else {
                let jj = j - previous.len();
                assert(all[j] == own[jj]);
                match scan_window(image.data.len() as int, section, pattern.len() as int) {
                    None => {},
                    Some((start, end)) => {
                        let count_here = (end - pattern.len() - start + 1) as nat;
                        lemma_pattern_hits_match(image.data, section, start, pattern, count_here);
                        assert(hit_in_window(image.data, section, start, pattern, count_here, own[jj]));
                        let k = choose|k: int|
                            #![trigger rva_in_section(section, k)]
                            0 <= k < count_here && pattern_matches_at(image.data, start + k, pattern) && own[jj]
                                == rva_in_section(section, k);
                        assert(hit_at(image, pattern, si, k, all[j]));
                    },
                }
            }
        }
    }
}

/// Every RVA that a pattern scan reports is a place inside a section where the pattern
/// matches.
pub proof fn lemma_scan_pattern_hits_match(image: PeImageView, pattern: Seq<Option<u8>>)
    ensures
        forall|j: int|
            0 <= j < spec_scan_pattern(image, pattern).len() ==> is_pattern_hit(
                image,
                pattern,
                #[trigger] spec_scan_pattern(image, pattern)[j],
            ),
{
    if pattern.len() > 0 {
        lemma_hits_in_sections_match(image, pattern, image.sections.len());
    }
}


/// `rva` lies in section `i` and in none of the sections before it.
pub open spec fn first_section_containing(sections: Seq<PeSection>, rva: u32, i: int) -> bool {
    &&& 0 <= i < sections.len()
    &&& section_contains(sections[i], rva)
    &&& forall|j: int| 0 <= j < i ==> !section_contains(#[trigger] sections[j], rva)
}

proof fn lemma_rva_in_sections_first(sections: Seq<PeSection>, rva: u32, start: int)
    requires
        0 <= start,
        forall|j: int| 0 <= j < start ==> !section_contains(#[trigger] sections[j], rva),
    ensures
        spec_rva_in_sections(sections, rva, start) matches Some(o) ==> exists|i: int|
            first_section_containing(sections, rva, i) && o == sections[i].raw_offset + (rva
                - sections[i].virtual_address),
        spec_rva_in_sections(sections, rva, start) is None ==> forall|i: int|
            0 <= i < sections.len() ==> !section_contains(#[trigger] sections[i], rva),
    decreases sections.len() - start,
{
    if start < sections.len() {
        if section_contains(sections[start], rva) {
            assert(first_section_containing(sections, rva, start));
        } else {
            assert forall|j: int| 0 <= j < start + 1 implies !section_contains(#[trigger] sections[j], rva) by {}
            lemma_rva_in_sections_first(sections, rva, start + 1);
        }
    }
}

/// An RVA maps to a file offset through the first section that contains it; it maps to
/// none exactly when no section contains it.
pub proof fn lemma_rva_to_offset_first_section(image: PeImageView, rva: u32)
    ensures
        spec_rva_to_offset(image, rva) matches Ok(o) ==> exists|i: int|
            first_section_containing(image.sections, rva, i) && o == image.sections[i].raw_offset + (rva
                - image.sections[i].virtual_address),
        (spec_rva_to_offset(image, rva) == Err::<int, LayoutError>(LayoutError::RvaOutsideSections(rva))) <==> (forall|
            i: int,
        | 0 <= i < image.sections.len() ==> !section_contains(#[trigger] image.sections[i], rva)),
{
    lemma_rva_in_sections_first(image.sections, rva, 0);
    if forall|i: int| 0 <= i < image.sections.len() ==> !section_contains(#[trigger] image.sections[i], rva) {
        if let Some(o) = spec_rva_in_sections(image.sections, rva, 0) {
            let i = choose|i: int|
                first_section_containing(image.sections, rva, i) && o == image.sections[i].raw_offset + (rva
                    - image.sections[i].virtual_address);
            assert(section_contains(image.sections[i], rva));
        }
    }
}

proof fn lemma_pattern_hits_complete(
    data: Seq<u8>,
    section: PeSection,
    start: int,
    pattern: Seq<Option<u8>>,
    count: nat,
    k: int,
)
    requires
        0 <= k < count,
        pattern_matches_at(data, start + k, pattern),
    ensures
        pattern_hits(data, section, start, pattern, count).contains(rva_in_section(section, k)),
    decreases count,
{
    let all = pattern_hits(data, section, start, pattern, count);
    let previous = pattern_hits(data, section, start, pattern, (count - 1) as nat);
    if k == count - 1 {
        assert(all[all.len() - 1] == rva_in_section(section, k));
    } else {
        lemma_pattern_hits_complete(data, section, start, pattern, (count - 1) as nat, k);
        let j = choose|j: int| 0 <= j < previous.len() && previous[j] == rva_in_section(section, k);
        assert(all[j] == previous[j]);
    }
}

proof fn lemma_hits_in_sections_complete(image: PeImageView, pattern: Seq<Option<u8>>, count: nat, si: int, k: int, rva: u32)
    requires
        count <= image.sections.len(),
        si < count,
        hit_at(image, pattern, si, k, rva),
    ensures
        pattern_hits_in_sections(image, pattern, count).contains(rva),
    decreases count,
{
    let previous = pattern_hits_in_sections(image, pattern, (count - 1) as nat);
    let section = image.sections[count - 1];
    let own = section_pattern_hits(image.data, section, pattern);
    let all = pattern_hits_in_sections(image, pattern, count);
    assert(all == previous + own);
    if si == count - 1 {
        let (start, end) = scan_window(image.data.len() as int, section, pattern.len() as int)->0;
        let count_here = (end - pattern.len() - start + 1) as nat;
        lemma_pattern_hits_complete(image.data, section, start, pattern, count_here, k);
        let j = choose|j: int| 0 <= j < own.len() && own[j] == rva;
        assert(all[previous.len() + j] == own[j]);
    } else {
        lemma_hits_in_sections_complete(image, pattern, (count - 1) as nat, si, k, rva);
        let j = choose|j: int| 0 <= j < previous.len() && previous[j] == rva;
        assert(all[j] == previous[j]);
    }
}

/// A scan for a non-empty pattern reports exactly the places inside sections where the
/// pattern matches: each reported RVA is such a place, and each such place is reported.
pub proof fn lemma_scan_pattern_exact(image: PeImageView, pattern: Seq<Option<u8>>)
    requires
        pattern.len() > 0,
    ensures
        forall|rva: u32| #[trigger] spec_scan_pattern(image, pattern).contains(rva) <==> is_pattern_hit(image, pattern, rva),
{
    lemma_scan_pattern_hits_match(image, pattern);
    assert forall|rva: u32| #[trigger] spec_scan_pattern(image, pattern).contains(rva) <==> is_pattern_hit(image, pattern, rva) by {
        if is_pattern_hit(image, pattern, rva) {
            let (si, k) = choose|si: int, k: int| #![trigger rva_in_section(image.sections[si], k)] hit_at(image, pattern, si, k, rva);
            lemma_hits_in_sections_complete(image, pattern, image.sections.len(), si, k, rva);
        }
        if spec_scan_pattern(image, pattern).contains(rva) {
            let j = choose|j: int| 0 <= j < spec_scan_pattern(image, pattern).len() && spec_scan_pattern(image, pattern)[j] == rva;
            assert(is_pattern_hit(image, pattern, spec_scan_pattern(image, pattern)[j]));
        }
    }
}

/// `rva` is the RVA of offset `k` of the scan window of section `si`, the displacement
/// there lies inside the window (which stops before its last four bytes), and it
/// addresses `target_va`.
pub open spec fn xref_at(image: PeImageView, target_va: u64, si: int, k: int, rva: u32) -> bool {
    &&& 0 <= si < image.sections.len()
    &&& scan_window(image.data.len() as int, image.sections[si], 4) matches Some((start, end))
    &&& 0 <= k
    &&& start + k + 4 < end
    &&& rva == rva_in_section(image.sections[si], k)
    &&& displacement_targets(image, start + k, rva, target_va)
}

/// `rva` is a place inside a section whose displacement addresses `target_va`.
pub open spec fn is_xref(image: PeImageView, target_va: u64, rva: u32) -> bool {
    exists|si: int, k: int| #![trigger rva_in_section(image.sections[si], k)] xref_at(image, target_va, si, k, rva)
}

proof fn lemma_xref_hits_exact(image: PeImageView, section: PeSection, start: int, target_va: u64, count: nat, rva: u32)
    ensures
        xref_hits(image, section, start, target_va, count).contains(rva) <==> exists|k: int|
            #![trigger rva_in_section(section, k)]
            0 <= k < count && rva == rva_in_section(section, k) && displacement_targets(image, start + k, rva, target_va),
    decreases count,
{
    if count > 0 {
        lemma_xref_hits_exact(image, section, start, target_va, (count - 1) as nat, rva);
        let previous = xref_hits(image, section, start, target_va, (count - 1) as nat);
        let all = xref_hits(image, section, start, target_va, count);
        let last = rva_in_section(section, count - 1);
        let tail = if displacement_targets(image, start + count - 1, last, target_va) {
            seq![last]
        } else {
            Seq::empty()
        };
        assert(all == previous + tail);
        if all.contains(rva) {
            let j = choose|j: int| 0 <= j < all.len() && all[j] == rva;
            if j < previous.len() {
                assert(previous[j] == rva);
            } else {
                assert(rva == rva_in_section(section, count - 1));
            }
        }
        if exists|k: int|
            #![trigger rva_in_section(section, k)]
            0 <= k < count && rva == rva_in_section(section, k) && displacement_targets(image, start + k, rva, target_va) {
            let k = choose|k: int|
                #![trigger rva_in_section(section, k)]
                0 <= k < count && rva == rva_in_section(section, k) && displacement_targets(image, start + k, rva, target_va);
            if k == count - 1 {
                assert(all[all.len() - 1] == rva);
            } else {
                let j = choose|j: int| 0 <= j < previous.len() && previous[j] == rva;
                assert(all[j] == previous[j]);
            }
        }
    }
}

proof fn lemma_xref_sections_exact(image: PeImageView, target_va: u64, count: nat, rva: u32)
    requires
        count <= image.sections.len(),
    ensures
        xref_hits_in_sections(image, target_va, count).contains(rva) <==> exists|si: int, k: int|
            #![trigger rva_in_section(image.sections[si], k)]
            si < count && xref_at(image, target_va, si, k, rva),
    decreases count,
{
    if count > 0 {
        lemma_xref_sections_exact(image, target_va, (count - 1) as nat, rva);
        let si = count - 1;
        let section = image.sections[si];
        let previous = xref_hits_in_sections(image, target_va, (count - 1) as nat);
        let own = section_xref_hits(image, section, target_va);
        let all = xref_hits_in_sections(image, target_va, count);
        assert(all == previous + own);
        if let Some((start, end)) = scan_window(image.data.len() as int, section, 4) {
            lemma_xref_hits_exact(image, section, start, target_va, (end - 4 - start) as nat, rva);
        }
        if all.contains(rva) {
            let j = choose|j: int| 0 <= j < all.len() && all[j] == rva;
            if j < previous.len() {
                assert(previous[j] == rva);
            } else {
                assert(own[j - previous.len()] == rva);
                let (start, end) = scan_window(image.data.len() as int, section, 4)->0;
                let k = choose|k: int|
                    #![trigger rva_in_section(section, k)]
                    0 <= k < (end - 4 - start) as nat && rva == rva_in_section(section, k) && displacement_targets(
                        image,
                        start + k,
                        rva,
                        target_va,
                    );
                assert(xref_at(image, target_va, si, k, rva));
            }
        }
        if exists|s2: int, k: int|
            #![trigger rva_in_section(image.sections[s2], k)]
            s2 < count && xref_at(image, target_va, s2, k, rva) {
            let (s2, k) = choose|s2: int, k: int|
                #![trigger rva_in_section(image.sections[s2], k)]
                s2 < count && xref_at(image, target_va, s2, k, rva);
            if s2 == si {
                assert(rva == rva_in_section(section, k));
                let j = choose|j: int| 0 <= j < own.len() && own[j] == rva;
                assert(all[previous.len() + j] == own[j]);
            } else {
                assert(previous.contains(rva));
                let j = choose|j: int| 0 <= j < previous.len() && previous[j] == rva;
                assert(all[j] == previous[j]);
            }
        }
    }
}

/// A cross-reference scan reports exactly the places inside sections whose RIP-relative
/// displacement addresses `target_va`.
pub proof fn lemma_rip_relative_xrefs_exact(image: PeImageView, target_va: u64)
    ensures
        forall|rva: u32| #[trigger] xref_hits_in_sections(image, target_va, image.sections.len()).contains(rva)
            <==> is_xref(image, target_va, rva),
{
    assert forall|rva: u32| #[trigger] xref_hits_in_sections(image, target_va, image.sections.len()).contains(rva)
        <==> is_xref(image, target_va, rva) by {
        lemma_xref_sections_exact(image, target_va, image.sections.len(), rva);
    }
}
} // verus!
