//! Mapping virtual addresses to file offsets through a binary's segment or
//! section table.

use vstd::prelude::*;

verus! {

/// `PT_LOAD`, the ELF program header type of loadable segments.
pub const PT_LOAD: u32 = 1;

/// An ELF program header, as far as address mapping needs it.
#[derive(Debug, Clone, Copy, PartialEq, Eq, Structural)]
pub struct ElfSegment {
    pub p_type: u32,
    pub p_vaddr: u64,
    pub p_filesz: u64,
    pub p_offset: u64,
}

/// A PE section header, as far as address mapping needs it.
#[derive(Debug, Clone, Copy, PartialEq, Eq, Structural)]
pub struct PeSection {
    pub virtual_address: u32,
    pub virtual_size: u32,
    pub size_of_raw_data: u32,
    pub pointer_to_raw_data: u32,
}

/// A Mach-O segment, as far as address mapping needs it.
#[derive(Debug, Clone, Copy, PartialEq, Eq, Structural)]
pub struct MachSegment {
    pub vmaddr: u64,
    pub filesize: u64,
    pub fileoff: u64,
}

/// How a format's virtual addresses map to file offsets.
pub enum AddressMap {
    Elf(Vec<ElfSegment>),
    Pe { image_base: u64, sections: Vec<PeSection> },
    MachO(Vec<MachSegment>),
}

/// `a + b` saturated at `u64::MAX`.
pub open spec fn sat_add(a: u64, b: u64) -> int {
    if a + b <= u64::MAX { a + b } else { u64::MAX as int }
}

/// Offset of `va` in the first loadable ELF segment, from `i` on, whose file
/// image covers it.
pub open spec fn elf_offset_from(segs: Seq<ElfSegment>, va: u64, i: int) -> Option<int>
    decreases segs.len() - i,
{
    if i < 0 || i >= segs.len() {
        None
    } else {
        let s = segs[i];
        if s.p_type == PT_LOAD && s.p_vaddr <= va && va < sat_add(s.p_vaddr, s.p_filesz) {
            Some(s.p_offset + (va - s.p_vaddr))
        } else {
            elf_offset_from(segs, va, i + 1)
        }
    }
}

/// Extent of a PE section in memory: the larger of its virtual and raw sizes.
pub open spec fn pe_extent(s: PeSection) -> int {
    if s.virtual_size >= s.size_of_raw_data { s.virtual_size as int } else { s.size_of_raw_data as int }
}

/// Offset of relative address `rva` in the first PE section, from `i` on,
/// that covers it.
pub open spec fn pe_offset_from(secs: Seq<PeSection>, rva: int, i: int) -> Option<int>
    decreases secs.len() - i,
{
    if i < 0 || i >= secs.len() {
        None
    } else {
        let s = secs[i];
        if s.virtual_address <= rva && rva < s.virtual_address + pe_extent(s) {
            Some(s.pointer_to_raw_data + (rva - s.virtual_address))
        } else {
            pe_offset_from(secs, rva, i + 1)
        }
    }
}

/// Offset of `va` in the first Mach-O segment, from `i` on, whose file image covers it.
pub open spec fn mach_offset_from(segs: Seq<MachSegment>, va: u64, i: int) -> Option<int>
    decreases segs.len() - i,
{
    if i < 0 || i >= segs.len() {
        None
    } else {
        let s = segs[i];
        if s.vmaddr <= va && va < sat_add(s.vmaddr, s.filesize) {
            Some(s.fileoff + (va - s.vmaddr))
        } else {
            mach_offset_from(segs, va, i + 1)
        }
    }
}

/// File offset of a virtual address under a map.
pub open spec fn offset_of(map: AddressMap, va: u64) -> Option<int> {
    match map {
        AddressMap::Elf(segs) => elf_offset_from(segs@, va, 0),
        AddressMap::Pe { image_base, sections } => if va < image_base { None } else { pe_offset_from(sections@, va - image_base, 0) },
        AddressMap::MachO(segs) => mach_offset_from(segs@, va, 0),
    }
}

/// The file offset of `va`, if any, fits in a `usize`.
pub open spec fn offset_fits(o: Option<int>) -> bool {
    o matches Some(v) ==> v <= usize::MAX
}

fn saturating_end(start: u64, size: u64) -> (e: u64)
    ensures
        e == sat_add(start, size),
{
    if start <= u64::MAX - size { start + size } else { u64::MAX }
}

fn offset_sum(base: u64, delta: u64) -> (r: usize)
    requires
        base + delta <= usize::MAX,
    ensures
        r == base + delta,
{
    (base + delta) as usize
}

/// File offset of `va` in an ELF image: the first loadable segment whose file
/// image covers it decides.
pub fn elf_offset_for_va(segs: &Vec<ElfSegment>, va: u64) -> (r: Option<usize>)
    requires
        offset_fits(elf_offset_from(segs@, va, 0)),
    ensures
        match r {
            Some(o) => elf_offset_from(segs@, va, 0) == Some(o as int),
            None => elf_offset_from(segs@, va, 0) is None,
        },
{
    let mut i: usize = 0;
    while i < segs.len()
        invariant
            i <= segs@.len(),
            elf_offset_from(segs@, va, 0) == elf_offset_from(segs@, va, i as int),
            offset_fits(elf_offset_from(segs@, va, 0)),
        decreases segs@.len() - i,
    {
        let s = segs[i];
        if s.p_type == PT_LOAD && s.p_vaddr <= va && va < saturating_end(s.p_vaddr, s.p_filesz) {
            return Some(offset_sum(s.p_offset, va - s.p_vaddr));
        }
        i = i + 1;
    }
    None
}

/// File offset of `va` in a PE image based at `image_base`: the first section
/// covering its relative address decides.
pub fn pe_offset_for_va(secs: &Vec<PeSection>, va: u64, image_base: u64) -> (r: Option<usize>)
    requires
        offset_fits(offset_of(AddressMap::Pe { image_base, sections: *secs }, va)),
    ensures
        match r {
            Some(o) => offset_of(AddressMap::Pe { image_base, sections: *secs }, va) == Some(o as int),
            None => offset_of(AddressMap::Pe { image_base, sections: *secs }, va) is None,
        },
{
    if va < image_base {
        return None;
    }
    let rva: u64 = va - image_base;
    assert(offset_of(AddressMap::Pe { image_base, sections: *secs }, va) == pe_offset_from(secs@, rva as int, 0));
    let mut i: usize = 0;
    while i < secs.len()
        invariant
            i <= secs@.len(),
            pe_offset_from(secs@, rva as int, 0) == pe_offset_from(secs@, rva as int, i as int),
            offset_of(AddressMap::Pe { image_base, sections: *secs }, va) == pe_offset_from(secs@, rva as int, 0),
            offset_fits(offset_of(AddressMap::Pe { image_base, sections: *secs }, va)),
        decreases secs@.len() - i,
    {
        let s = secs[i];
        let start = s.virtual_address as u64;
        let extent: u64 = if s.virtual_size >= s.size_of_raw_data { s.virtual_size as u64 } else { s.size_of_raw_data as u64 };
        if rva >= start && rva < start + extent {
            proof {
                assert(extent == pe_extent(s));
                assert(pe_offset_from(secs@, rva as int, i as int) == Some(s.pointer_to_raw_data + (rva - start)));
            }
            return Some(offset_sum(s.pointer_to_raw_data as u64, rva - start));
        }
        i = i + 1;
    }
    None
}

/// File offset of `va` in a Mach-O image: the first segment whose file image
/// covers it decides.
pub fn macho_offset_for_va(segs: &Vec<MachSegment>, va: u64) -> (r: Option<usize>)
    requires
        offset_fits(mach_offset_from(segs@, va, 0)),
    ensures
        match r {
            Some(o) => mach_offset_from(segs@, va, 0) == Some(o as int),
            None => mach_offset_from(segs@, va, 0) is None,
        },
{
    let mut i: usize = 0;
    while i < segs.len()
        invariant
            i <= segs@.len(),
            mach_offset_from(segs@, va, 0) == mach_offset_from(segs@, va, i as int),
            offset_fits(mach_offset_from(segs@, va, 0)),
        decreases segs@.len() - i,
    {
        let s = segs[i];
        if s.vmaddr <= va && va < saturating_end(s.vmaddr, s.filesize) {
            return Some(offset_sum(s.fileoff, va - s.vmaddr));
        }
        i = i + 1;
    }
    None
}

/// Whether the file offset of `va` in an ELF image, if any, is at most `len`.
fn elf_offset_within(segs: &Vec<ElfSegment>, va: u64, len: usize) -> (b: bool)
    ensures
        b == (elf_offset_from(segs@, va, 0) matches Some(o) ==> o <= len),
{
    let mut i: usize = 0;
    while i < segs.len()
        invariant
            i <= segs@.len(),
            elf_offset_from(segs@, va, 0) == elf_offset_from(segs@, va, i as int),
        decreases segs@.len() - i,
    {
        let s = segs[i];
        if s.p_type == PT_LOAD && s.p_vaddr <= va && va < saturating_end(s.p_vaddr, s.p_filesz) {
            let delta = va - s.p_vaddr;
            return s.p_offset <= u64::MAX - delta && s.p_offset + delta <= len as u64;
        }
        i = i + 1;
    }
    true
}

/// Whether the file offset of `va` in a PE image based at `image_base`, if
/// any, is at most `len`.
fn pe_offset_within(secs: &Vec<PeSection>, va: u64, image_base: u64, len: usize) -> (b: bool)
    ensures
        b == (offset_of(AddressMap::Pe { image_base, sections: *secs }, va) matches Some(o) ==> o <= len),
{
    if va < image_base {
        return true;
    }
    let rva: u64 = va - image_base;
    assert(offset_of(AddressMap::Pe { image_base, sections: *secs }, va) == pe_offset_from(secs@, rva as int, 0));
    let mut i: usize = 0;
    while i < secs.len()
        invariant
            i <= secs@.len(),
            pe_offset_from(secs@, rva as int, 0) == pe_offset_from(secs@, rva as int, i as int),
            offset_of(AddressMap::Pe { image_base, sections: *secs }, va) == pe_offset_from(secs@, rva as int, 0),
        decreases secs@.len() - i,
    {
        let s = secs[i];
        let start = s.virtual_address as u64;
        let extent: u64 = if s.virtual_size >= s.size_of_raw_data { s.virtual_size as u64 } else { s.size_of_raw_data as u64 };
        if rva >= start && rva < start + extent {
            proof {
                assert(extent == pe_extent(s));
            }
            return s.pointer_to_raw_data as u64 + (rva - start) <= len as u64;
        }
        i = i + 1;
    }
    true
}

/// Whether the file offset of `va` in a Mach-O image, if any, is at most `len`.
fn macho_offset_within(segs: &Vec<MachSegment>, va: u64, len: usize) -> (b: bool)
    ensures
        b == (mach_offset_from(segs@, va, 0) matches Some(o) ==> o <= len),
{
    let mut i: usize = 0;
    while i < segs.len()
        invariant
            i <= segs@.len(),
            mach_offset_from(segs@, va, 0) == mach_offset_from(segs@, va, i as int),
        decreases segs@.len() - i,
    {
        let s = segs[i];
        if s.vmaddr <= va && va < saturating_end(s.vmaddr, s.filesize) {
            let delta = va - s.vmaddr;
            return s.fileoff <= u64::MAX - delta && s.fileoff + delta <= len as u64;
        }
        i = i + 1;
    }
    true
}

impl AddressMap {
    /// File offset of a virtual address.
    pub fn offset_for_va(&self, va: u64) -> (r: Option<usize>)
        requires
            offset_fits(offset_of(*self, va)),
        ensures
            match r {
                Some(o) => offset_of(*self, va) == Some(o as int),
                None => offset_of(*self, va) is None,
            },
    {
        match self {
            AddressMap::Elf(segs) => elf_offset_for_va(segs, va),
            AddressMap::Pe { image_base, sections } => pe_offset_for_va(sections, va, *image_base),
            AddressMap::MachO(segs) => macho_offset_for_va(segs, va),
        }
    }

    /// Whether the file offset of `va`, if it has one, is at most `len`.
    pub fn offset_within(&self, va: u64, len: usize) -> (b: bool)
        ensures
            b == (offset_of(*self, va) matches Some(o) ==> o <= len),
    {
        match self {
            AddressMap::Elf(segs) => elf_offset_within(segs, va, len),
            AddressMap::Pe { image_base, sections } => pe_offset_within(sections, va, *image_base, len),
            AddressMap::MachO(segs) => macho_offset_within(segs, va, len),
        }
    }
}

} // verus!
