//! Parsing PE / ELF / Mach-O containers and recovering a function listing.

use vstd::prelude::*;
use crate::binary::{BinaryFormat, BinaryInfo, FunctionInfo};
use crate::binwalk::functions::{build_functions, lists_functions, listed_entry_ok, function_disassembly, listing_in_file, listing_within, disassembles, listed_count, offset_in_file};
use crate::binwalk::disasm::info_view;
use crate::binwalk::layout::{AddressMap, ElfSegment, MachSegment, PeSection, offset_of};
use crate::binwalk::table::{AddressTable, name_view, ascending, lemma_ascending_unique};
use crate::assoc::assoc_map;

use crate::text::{concat2, concat3};
use vstd::string::StrSliceExecFns;
use goblin::elf::Sym;
use goblin::strtab::Strtab;

verus! {

/// The kind of container `goblin::Object::parse` recognizes.
#[derive(Debug, Clone, Copy, PartialEq, Eq, Structural)]
pub enum ObjectKind {
    Elf,
    Pe,
    Te,
    Coff,
    /// A single-architecture Mach-O image.
    MachO,
    /// A multi-architecture Mach-O container.
    MachFat,
    Archive,
    /// Unknown magic, or a kind goblin may add later.
    Unknown,
}

/// What `goblin::Object::parse` makes of the bytes: the kind of container,
/// or the text of its error.
pub uninterp spec fn goblin_object(bytes: Seq<u8>) -> Result<ObjectKind, Seq<char>>;

/// Calls `goblin::Object::parse` and tells the kinds apart, one arm each
/// (`Object` is non-exhaustive, so a kind goblin adds later is `Unknown`);
/// an error comes back as its `Display` text. The outcome is named by
/// [`goblin_object`].
#[verifier::external_body]
fn object_kind(bytes: &[u8]) -> (r: Result<ObjectKind, String>)
    ensures
        match r {
            Ok(k) => goblin_object(bytes@) == Ok::<ObjectKind, Seq<char>>(k),
            Err(m) => goblin_object(bytes@) == Err::<ObjectKind, Seq<char>>(m@),
        },
{
    Ok(match goblin::Object::parse(bytes).map_err(|e| e.to_string())? {
        goblin::Object::Elf(_) => ObjectKind::Elf,
        goblin::Object::PE(_) => ObjectKind::Pe,
        goblin::Object::TE(_) => ObjectKind::Te,
        goblin::Object::COFF(_) => ObjectKind::Coff,
        goblin::Object::Mach(goblin::mach::Mach::Binary(_)) => ObjectKind::MachO,
        goblin::Object::Mach(goblin::mach::Mach::Fat(_)) => ObjectKind::MachFat,
        goblin::Object::Archive(_) => ObjectKind::Archive,
        goblin::Object::Unknown(_) => ObjectKind::Unknown,
        _ => ObjectKind::Unknown,
    })
}

/// What the listing reads of an ELF image.
pub struct ElfFacts {
    pub machine: u16,
    pub entry: u64,
    /// Symbols as (is a function, value, name).
    pub syms: Vec<(bool, u64, Option<String>)>,
    /// Dynamic symbols as (is a function, value, name).
    pub dynsyms: Vec<(bool, u64, Option<String>)>,
    pub segments: Vec<ElfSegment>,
}

/// The plain values of an ELF image's facts.
pub open spec fn elf_view(f: ElfFacts) -> (u16, u64, Seq<(bool, u64, Option<Seq<char>>)>, Seq<(bool, u64, Option<Seq<char>>)>, Seq<ElfSegment>) {
    (f.machine, f.entry, symbol_views(f.syms@), symbol_views(f.dynsyms@), f.segments@)
}

/// What `goblin::elf::Elf::parse` reads from the bytes, as the listing uses
/// it, or none where it fails.
pub uninterp spec fn goblin_elf(bytes: Seq<u8>) -> Option<(u16, u64, Seq<(bool, u64, Option<Seq<char>>)>, Seq<(bool, u64, Option<Seq<char>>)>, Seq<ElfSegment>)>;

/// Calls `goblin::elf::Elf::parse` and reads `header.e_machine`, `entry`,
/// each symbol of `syms` and `dynsyms` (`is_function`, `st_value`, its name
/// by `Strtab::get_at` in `strtab` or `dynstrtab`) and each program header.
/// The result is named by [`goblin_elf`]. `Object::parse` parses an ELF
/// image by this same call, so where it reports one, this call succeeds.
#[verifier::external_body]
fn read_elf(bytes: &[u8]) -> (r: Option<ElfFacts>)
    ensures
        r matches Some(f) ==> goblin_elf(bytes@) == Some(elf_view(f)),
        goblin_elf(bytes@) is None ==> r is None,
        goblin_object(bytes@) is Ok && goblin_object(bytes@)->Ok_0 == ObjectKind::Elf ==> r is Some,
{
    let e = goblin::elf::Elf::parse(bytes).ok()?;
    let sym = |s: Sym, t: &Strtab| (s.is_function(), s.st_value, t.get_at(s.st_name).map(String::from));
    Some(ElfFacts {
        machine: e.header.e_machine,
        entry: e.entry,
        syms: e.syms.iter().map(|s| sym(s, &e.strtab)).collect(),
        dynsyms: e.dynsyms.iter().map(|s| sym(s, &e.dynstrtab)).collect(),
        segments: e.program_headers.iter().map(|p| ElfSegment { p_type: p.p_type, p_vaddr: p.p_vaddr, p_filesz: p.p_filesz, p_offset: p.p_offset }).collect(),
    })
}

/// What the listing reads of a PE image.
pub struct PeFacts {
    pub machine: u16,
    pub image_base: u64,
    /// The entry point's relative address, where there is an optional header.
    pub entry_rva: Option<u64>,
    /// Exports as (name, relative address).
    pub exports: Vec<(Option<String>, u64)>,
    pub sections: Vec<PeSection>,
}

/// The plain values of a PE image's facts.
pub open spec fn pe_view(f: PeFacts) -> (u16, u64, Option<u64>, Seq<(Option<Seq<char>>, u64)>, Seq<PeSection>) {
    (f.machine, f.image_base, f.entry_rva, export_views(f.exports@), f.sections@)
}

/// What `goblin::pe::PE::parse` reads from the bytes, as the listing uses
/// it, or none where it fails.
pub uninterp spec fn goblin_pe(bytes: Seq<u8>) -> Option<(u16, u64, Option<u64>, Seq<(Option<Seq<char>>, u64)>, Seq<PeSection>)>;

/// Calls `goblin::pe::PE::parse` and reads `header.coff_header.machine`,
/// `image_base`, the optional header's `address_of_entry_point`, each export
/// (name, `rva`) and each section header. The result is named by
/// [`goblin_pe`]. `Object::parse` parses a PE image by this same call, so
/// where it reports one, this call succeeds.
#[verifier::external_body]
fn read_pe(bytes: &[u8]) -> (r: Option<PeFacts>)
    ensures
        r matches Some(f) ==> goblin_pe(bytes@) == Some(pe_view(f)),
        goblin_pe(bytes@) is None ==> r is None,
        goblin_object(bytes@) is Ok && goblin_object(bytes@)->Ok_0 == ObjectKind::Pe ==> r is Some,
{
    let p = goblin::pe::PE::parse(bytes).ok()?;
    Some(PeFacts {
        machine: p.header.coff_header.machine,
        image_base: p.image_base as u64,
        entry_rva: p.header.optional_header.as_ref().map(|h| h.standard_fields.address_of_entry_point as u64),
        exports: p.exports.iter().map(|x| (x.name.map(String::from), x.rva as u64)).collect(),
        sections: p.sections.iter().map(|s| PeSection { virtual_address: s.virtual_address, virtual_size: s.virtual_size,
            size_of_raw_data: s.size_of_raw_data, pointer_to_raw_data: s.pointer_to_raw_data }).collect(),
    })
}

/// What the listing reads of a single-architecture Mach-O image.
pub struct MachFacts {
    pub cputype: u32,
    pub entry: u64,
    /// Symbols as (name, value, global), or none where goblin reports an error.
    pub syms: Vec<Option<(String, u64, bool)>>,
    pub segments: Vec<MachSegment>,
}

/// The plain values of a Mach-O image's facts.
pub open spec fn mach_view(f: MachFacts) -> (u32, u64, Seq<Option<(Seq<char>, u64, bool)>>, Seq<MachSegment>) {
    (f.cputype, f.entry, mach_symbol_views(f.syms@), f.segments@)
}

/// What `goblin::mach::Mach::parse` reads from the bytes where it finds a
/// single-architecture image, as the listing uses it; none otherwise.
pub uninterp spec fn goblin_mach(bytes: Seq<u8>) -> Option<(u32, u64, Seq<Option<(Seq<char>, u64, bool)>>, Seq<MachSegment>)>;

/// Calls `goblin::mach::Mach::parse`; for a single-architecture image reads
/// `header.cputype`, `entry`, each of `symbols()` (name, `n_value`,
/// `is_global`, or none where goblin reports an error for it) and each
/// segment. The result is named by [`goblin_mach`]. `Object::parse` parses
/// a Mach-O image by this same call, so where it reports a
/// single-architecture one, this call finds it.
#[verifier::external_body]
fn read_macho(bytes: &[u8]) -> (r: Option<MachFacts>)
    ensures
        r matches Some(f) ==> goblin_mach(bytes@) == Some(mach_view(f)),
        goblin_mach(bytes@) is None ==> r is None,
        goblin_object(bytes@) is Ok && goblin_object(bytes@)->Ok_0 == ObjectKind::MachO ==> r is Some,
{
    match goblin::mach::Mach::parse(bytes).ok()? {
        goblin::mach::Mach::Binary(m) => Some(MachFacts {
            cputype: m.header.cputype,
            entry: m.entry,
            syms: m.symbols().map(|s| s.ok().map(|(n, l)| (n.to_string(), l.n_value, l.is_global()))).collect(),
            segments: m.segments.iter().map(|s| MachSegment { vmaddr: s.vmaddr, filesize: s.filesize, fileoff: s.fileoff }).collect(),
        }),
        goblin::mach::Mach::Fat(_) => None,
    }
}

/// Architecture name and bitness of an ELF machine number.
pub open spec fn elf_arch(machine: u16) -> (Option<Seq<char>>, u32) {
    if machine == 62 {
        (Some("x86_64"@), 64)
    } else if machine == 3 {
        (Some("x86"@), 32)
    } else if machine == 183 {
        (Some("aarch64"@), 0)
    } else if machine == 40 {
        (Some("arm"@), 0)
    } else {
        (None, 0)
    }
}

/// Architecture name and bitness of a PE machine number.
pub open spec fn pe_arch(machine: u16) -> (Option<Seq<char>>, u32) {
    if machine == 0x8664 {
        (Some("x86_64"@), 64)
    } else if machine == 0x14c {
        (Some("x86"@), 32)
    } else if machine == 0xaa64 {
        (Some("aarch64"@), 0)
    } else {
        (None, 0)
    }
}

/// Architecture name and bitness of a Mach-O CPU type.
pub open spec fn macho_arch(cputype: u32) -> (Option<Seq<char>>, u32) {
    if cputype == 0x0100_0007 {
        (Some("x86_64"@), 64)
    } else if cputype == 7 {
        (Some("x86"@), 32)
    } else if cputype == 0x0100_000c {
        (Some("aarch64"@), 0)
    } else {
        (None, 0)
    }
}

fn arch_text(s: &str) -> (r: Option<String>)
    ensures
        r matches Some(t) && t@ == s@,
{
    Some(String::from_str(s))
}

fn elf_arch_of(machine: u16) -> (r: (Option<String>, u32))
    ensures
        name_view(r.0) == elf_arch(machine).0,
        r.1 == elf_arch(machine).1,
{
    if machine == 62 {
        (arch_text("x86_64"), 64)
    } else if machine == 3 {
        (arch_text("x86"), 32)
    } else if machine == 183 {
        (arch_text("aarch64"), 0)
    } else if machine == 40 {
        (arch_text("arm"), 0)
    } else {
        (None, 0)
    }
}

fn pe_arch_of(machine: u16) -> (r: (Option<String>, u32))
    ensures
        name_view(r.0) == pe_arch(machine).0,
        r.1 == pe_arch(machine).1,
{
    if machine == 0x8664 {
        (arch_text("x86_64"), 64)
    } else if machine == 0x14c {
        (arch_text("x86"), 32)
    } else if machine == 0xaa64 {
        (arch_text("aarch64"), 0)
    } else {
        (None, 0)
    }
}

fn macho_arch_of(cputype: u32) -> (r: (Option<String>, u32))
    ensures
        name_view(r.0) == macho_arch(cputype).0,
        r.1 == macho_arch(cputype).1,
{
    if cputype == 0x0100_0007 {
        (arch_text("x86_64"), 64)
    } else if cputype == 7 {
        (arch_text("x86"), 32)
    } else if cputype == 0x0100_000c {
        (arch_text("aarch64"), 0)
    } else {
        (None, 0)
    }
}

/// Disassembling the listing of the candidate addresses `m` reads only
/// within a file of `len` bytes, whichever ascending order lists them.
pub open spec fn addresses_in_file(m: Map<u64, Option<Seq<char>>>, bitness: u32, map: AddressMap, len: int) -> bool {
    forall|s: Seq<(u64, Option<Seq<char>>)>| ascending(s) && assoc_map(s) == m ==> #[trigger] listing_in_file(s, bitness, map, len)
}

/// Whether the listing of `table` stays within a file of `len` bytes.
fn check_in_file(len: usize, table: &AddressTable, bitness: u32, map: &AddressMap) -> (b: bool)
    requires
        table.wf(),
    ensures
        b == addresses_in_file(table@, bitness, *map, len as int),
{
    let b = listing_within(len, table, bitness, map);
    proof {
        table.lemma_sorted();
        if b {
            assert forall|s: Seq<(u64, Option<Seq<char>>)>| ascending(s) && assoc_map(s) == table@ implies #[trigger] listing_in_file(s, bitness, *map, len as int) by {
                lemma_ascending_unique(s, table.sorted());
            }
        } else {
            assert(!listing_in_file(table.sorted(), bitness, *map, len as int));
        }
    }
    b
}

fn copy_elf_segments(v: &Vec<ElfSegment>) -> (r: Vec<ElfSegment>)
    ensures
        r@ == v@,
{
    let mut r: Vec<ElfSegment> = Vec::new();
    let mut i: usize = 0;
    while i < v.len()
        invariant
            i <= v@.len(),
            r@ == v@.subrange(0, i as int),
        decreases v@.len() - i,
    {
        r.push(v[i]);
        proof { assert(r@ =~= v@.subrange(0, i + 1)); }
        i = i + 1;
    }
    assert(r@ =~= v@);
    r
}

fn copy_pe_sections(v: &Vec<PeSection>) -> (r: Vec<PeSection>)
    ensures
        r@ == v@,
{
    let mut r: Vec<PeSection> = Vec::new();
    let mut i: usize = 0;
    while i < v.len()
        invariant
            i <= v@.len(),
            r@ == v@.subrange(0, i as int),
        decreases v@.len() - i,
    {
        r.push(v[i]);
        proof { assert(r@ =~= v@.subrange(0, i + 1)); }
        i = i + 1;
    }
    assert(r@ =~= v@);
    r
}

fn copy_mach_segments(v: &Vec<MachSegment>) -> (r: Vec<MachSegment>)
    ensures
        r@ == v@,
{
    let mut r: Vec<MachSegment> = Vec::new();
    let mut i: usize = 0;
    while i < v.len()
        invariant
            i <= v@.len(),
            r@ == v@.subrange(0, i as int),
        decreases v@.len() - i,
    {
        r.push(v[i]);
        proof { assert(r@ =~= v@.subrange(0, i + 1)); }
        i = i + 1;
    }
    assert(r@ =~= v@);
    r
}

/// ELF symbols as (is a function, value, name text).
pub open spec fn symbol_views(v: Seq<(bool, u64, Option<String>)>) -> Seq<(bool, u64, Option<Seq<char>>)> {
    v.map_values(|s: (bool, u64, Option<String>)| (s.0, s.1, name_view(s.2)))
}

/// Adds the function symbols with a non-zero value, in order, keeping the
/// first name seen for an address.
pub open spec fn with_function_symbols(m: Map<u64, Option<Seq<char>>>, syms: Seq<(bool, u64, Option<Seq<char>>)>) -> Map<u64, Option<Seq<char>>>
    decreases syms.len(),
{
    if syms.len() == 0 {
        m
    } else {
        let prev = with_function_symbols(m, syms.drop_last());
        let s = syms.last();
        if s.0 && s.1 != 0 && !prev.contains_key(s.1) { prev.insert(s.1, s.2) } else { prev }
    }
}

/// Candidate functions of an ELF image: the entry point as `_start`, then
/// the function symbols, then the dynamic function symbols.
pub open spec fn elf_addresses(entry: u64, syms: Seq<(bool, u64, Option<Seq<char>>)>, dynsyms: Seq<(bool, u64, Option<Seq<char>>)>) -> Map<u64, Option<Seq<char>>> {
    with_function_symbols(with_function_symbols(Map::empty().insert(entry, Some("_start"@)), syms), dynsyms)
}

fn clone_name(n: &Option<String>) -> (r: Option<String>)
    ensures
        name_view(r) == name_view(*n),
{
    match n {
        Some(s) => Some(s.clone()),
        None => None,
    }
}

fn add_function_symbols(table: &mut AddressTable, syms: &Vec<(bool, u64, Option<String>)>)
    requires
        old(table).wf(),
    ensures
        final(table).wf(),
        final(table)@ == with_function_symbols(old(table)@, symbol_views(syms@)),
{
    let ghost start = table@;
    let ghost views = symbol_views(syms@);
    let mut i: usize = 0;
    while i < syms.len()
        invariant
            views == symbol_views(syms@),
            i <= syms@.len(),
            table.wf(),
            table@ == with_function_symbols(start, views.subrange(0, i as int)),
        decreases syms@.len() - i,
    {
        let s = &syms[i];
        proof {
            assert(views.subrange(0, i + 1).drop_last() =~= views.subrange(0, i as int));
            assert(views.subrange(0, i + 1).last() == views[i as int]);
        }
        if s.0 && s.1 != 0 {
            table.insert_if_absent(s.1, clone_name(&s.2));
        }
        i = i + 1;
    }
    assert(views.subrange(0, syms@.len() as int) =~= views);
}

/// The candidate addresses of an ELF image, in a table (see [`elf_addresses`]).
pub fn elf_table(entry: u64, syms: &Vec<(bool, u64, Option<String>)>, dynsyms: &Vec<(bool, u64, Option<String>)>) -> (t: AddressTable)
    ensures
        t.wf(),
        t@ == elf_addresses(entry, symbol_views(syms@), symbol_views(dynsyms@)),
{
    let mut table = AddressTable::new();
    table.insert(entry, Some(String::from_str("_start")));
    add_function_symbols(&mut table, syms);
    add_function_symbols(&mut table, dynsyms);
    table
}

/// The listing of an ELF image from the values goblin reads out of it: the
/// entry point, machine, symbols, dynamic symbols and program headers.
/// `requires` rules out images whose listed functions would be read past the
/// end of `bytes`.
pub fn elf_info(path: String, bytes: &[u8], machine: u16, entry: u64, syms: &Vec<(bool, u64, Option<String>)>,
    dynsyms: &Vec<(bool, u64, Option<String>)>, segments: Vec<ElfSegment>) -> (info: BinaryInfo)
    requires
        addresses_in_file(elf_addresses(entry, symbol_views(syms@), symbol_views(dynsyms@)), elf_arch(machine).1,
            AddressMap::Elf(segments), bytes@.len() as int),
    ensures
        info.path == path,
        info.format == BinaryFormat::Elf,
        info.entry_point == Some(entry),
        name_view(info.architecture) == elf_arch(machine).0,
        lists_functions(elf_addresses(entry, symbol_views(syms@), symbol_views(dynsyms@)), bytes@, elf_arch(machine).1,
            AddressMap::Elf(segments), info.functions@),
{
    let (architecture, bitness) = elf_arch_of(machine);
    let table = elf_table(entry, syms, dynsyms);
    let map = AddressMap::Elf(segments);
    proof {
        table.lemma_sorted();
        assert(listing_in_file(table.sorted(), bitness, map, bytes@.len() as int));
    }
    let functions = build_functions(bytes, &table, bitness, &map);
    BinaryInfo { path, format: BinaryFormat::Elf, entry_point: Some(entry), architecture, functions }
}

/// The address at `rva` past the image base (where it fits in a `u64`).
pub open spec fn pe_address(image_base: u64, rva: u64) -> u64 {
    (image_base + rva) as u64
}

/// PE exports as (name text, relative address).
pub open spec fn export_views(v: Seq<(Option<String>, u64)>) -> Seq<(Option<Seq<char>>, u64)> {
    v.map_values(|e: (Option<String>, u64)| (name_view(e.0), e.1))
}

/// Adds the named exports, in order, at image base plus relative address; a
/// later name for an address replaces an earlier one.
pub open spec fn with_exports(m: Map<u64, Option<Seq<char>>>, image_base: u64, exports: Seq<(Option<Seq<char>>, u64)>) -> Map<u64, Option<Seq<char>>>
    decreases exports.len(),
{
    if exports.len() == 0 {
        m
    } else {
        let prev = with_exports(m, image_base, exports.drop_last());
        match exports.last().0 {
            Some(name) => prev.insert(pe_address(image_base, exports.last().1), Some(name)),
            None => prev,
        }
    }
}

/// The entry point of a PE image: image base plus the entry's relative address.
pub open spec fn pe_entry(image_base: u64, entry_rva: Option<u64>) -> Option<u64> {
    match entry_rva {
        Some(r) => Some(pe_address(image_base, r)),
        None => None,
    }
}

/// Candidate functions of a PE image: the entry point as `entry`, then the
/// named exports.
pub open spec fn pe_addresses(image_base: u64, entry_rva: Option<u64>, exports: Seq<(Option<Seq<char>>, u64)>) -> Map<u64, Option<Seq<char>>> {
    let start = match pe_entry(image_base, entry_rva) {
        Some(ep) => Map::empty().insert(ep, Some("entry"@)),
        None => Map::empty(),
    };
    with_exports(start, image_base, exports)
}

/// Image base plus the entry point's and each named export's relative
/// address fits in a `u64`.
pub open spec fn pe_sums_fit(image_base: u64, entry_rva: Option<u64>, exports: Seq<(Option<Seq<char>>, u64)>) -> bool {
    &&& entry_rva matches Some(r) ==> image_base + r <= u64::MAX
    &&& forall|i: int| 0 <= i < exports.len() && (#[trigger] exports[i]).0 is Some ==> image_base + exports[i].1 <= u64::MAX
}

/// Whether image base plus the entry point's and each named export's
/// relative address fits in a `u64`.
fn pe_sums_ok(image_base: u64, entry_rva: Option<u64>, exports: &Vec<(Option<String>, u64)>) -> (b: bool)
    ensures
        b == pe_sums_fit(image_base, entry_rva, export_views(exports@)),
{
    let ghost views = export_views(exports@);
    match entry_rva {
        Some(r) => {
            if image_base > u64::MAX - r {
                return false;
            }
        },
        None => {},
    }
    let mut i: usize = 0;
    while i < exports.len()
        invariant
            views == export_views(exports@),
            i <= exports@.len(),
            forall|k: int| 0 <= k < i && (#[trigger] views[k]).0 is Some ==> image_base + views[k].1 <= u64::MAX,
        decreases exports@.len() - i,
    {
        let named = match &exports[i].0 { Some(_) => true, None => false };
        if named && image_base > u64::MAX - exports[i].1 {
            proof { assert(views[i as int].0 is Some); }
            return false;
        }
        i = i + 1;
    }
    true
}

fn add_exports(table: &mut AddressTable, image_base: u64, exports: &Vec<(Option<String>, u64)>)
    requires
        old(table).wf(),
        forall|i: int| 0 <= i < exports@.len() && (#[trigger] export_views(exports@)[i]).0 is Some
            ==> image_base + export_views(exports@)[i].1 <= u64::MAX,
    ensures
        final(table).wf(),
        final(table)@ == with_exports(old(table)@, image_base, export_views(exports@)),
{
    let ghost start = table@;
    let ghost views = export_views(exports@);
    let mut i: usize = 0;
    while i < exports.len()
        invariant
            views == export_views(exports@),
            i <= exports@.len(),
            forall|k: int| 0 <= k < exports@.len() && (#[trigger] views[k]).0 is Some ==> image_base + views[k].1 <= u64::MAX,
            table.wf(),
            table@ == with_exports(start, image_base, views.subrange(0, i as int)),
        decreases exports@.len() - i,
    {
        let e = &exports[i];
        proof {
            assert(views.subrange(0, i + 1).drop_last() =~= views.subrange(0, i as int));
            assert(views.subrange(0, i + 1).last() == views[i as int]);
        }
        match &e.0 {
            Some(name) => {
                proof { assert(views[i as int].0 is Some); }
                table.insert(image_base + e.1, Some(name.clone()));
            },
            None => {},
        }
        i = i + 1;
    }
    assert(views.subrange(0, exports@.len() as int) =~= views);
}

/// The candidate addresses of a PE image, in a table (see [`pe_addresses`]).
pub fn pe_table(image_base: u64, entry_rva: Option<u64>, exports: &Vec<(Option<String>, u64)>) -> (t: AddressTable)
    requires
        pe_sums_fit(image_base, entry_rva, export_views(exports@)),
    ensures
        t.wf(),
        t@ == pe_addresses(image_base, entry_rva, export_views(exports@)),
{
    let mut table = AddressTable::new();
    match entry_rva {
        Some(r) => table.insert(image_base + r, Some(String::from_str("entry"))),
        None => {},
    }
    add_exports(&mut table, image_base, exports);
    table
}

/// The listing of a PE image from the values goblin reads out of it: the
/// machine, image base, entry point, exports and section headers. `requires`
/// rules out images whose entry point or named exports lie past the end of
/// the 64-bit address space, and those whose listed functions would be read
/// past the end of `bytes`.
pub fn pe_info(path: String, bytes: &[u8], machine: u16, image_base: u64, entry_rva: Option<u64>,
    exports: &Vec<(Option<String>, u64)>, sections: Vec<PeSection>) -> (info: BinaryInfo)
    requires
        pe_sums_fit(image_base, entry_rva, export_views(exports@)),
        addresses_in_file(pe_addresses(image_base, entry_rva, export_views(exports@)), pe_arch(machine).1,
            AddressMap::Pe { image_base, sections }, bytes@.len() as int),
    ensures
        info.path == path,
        info.format == BinaryFormat::Pe,
        info.entry_point == pe_entry(image_base, entry_rva),
        name_view(info.architecture) == pe_arch(machine).0,
        lists_functions(pe_addresses(image_base, entry_rva, export_views(exports@)), bytes@, pe_arch(machine).1,
            AddressMap::Pe { image_base, sections }, info.functions@),
{
    let (architecture, bitness) = pe_arch_of(machine);
    let entry: Option<u64> = match entry_rva {
        Some(r) => Some(image_base + r),
        None => None,
    };
    let table = pe_table(image_base, entry_rva, exports);
    let map = AddressMap::Pe { image_base, sections };
    proof {
        table.lemma_sorted();
        assert(listing_in_file(table.sorted(), bitness, map, bytes@.len() as int));
    }
    let functions = build_functions(bytes, &table, bitness, &map);
    BinaryInfo { path, format: BinaryFormat::Pe, entry_point: entry, architecture, functions }
}

/// Mach-O symbols as (name text, value, global), or none where goblin
/// reported an error.
pub open spec fn mach_symbol_views(v: Seq<Option<(String, u64, bool)>>) -> Seq<Option<(Seq<char>, u64, bool)>> {
    v.map_values(|s: Option<(String, u64, bool)>| match s { Some(t) => Some((t.0@, t.1, t.2)), None => None })
}

/// A Mach-O symbol counts as a function when its value is non-zero and it is
/// global or its name starts with an underscore.
pub open spec fn mach_symbol_counts(name: Seq<char>, value: u64, global: bool) -> bool {
    value != 0 && ((name.len() > 0 && name[0] == '_') || global)
}

/// Adds the Mach-O symbols that count as functions, in order, keeping the
/// first name seen for an address.
pub open spec fn with_mach_symbols(m: Map<u64, Option<Seq<char>>>, syms: Seq<Option<(Seq<char>, u64, bool)>>) -> Map<u64, Option<Seq<char>>>
    decreases syms.len(),
{
    if syms.len() == 0 {
        m
    } else {
        let prev = with_mach_symbols(m, syms.drop_last());
        match syms.last() {
            Some((name, value, global)) => if mach_symbol_counts(name, value, global) && !prev.contains_key(value) {
                prev.insert(value, Some(name))
            } else {
                prev
            },
            None => prev,
        }
    }
}

/// Candidate functions of a Mach-O image: a non-zero entry point as
/// `_main`, then the symbols that count as functions.
pub open spec fn macho_addresses(entry: u64, syms: Seq<Option<(Seq<char>, u64, bool)>>) -> Map<u64, Option<Seq<char>>> {
    let start = if entry != 0 { Map::empty().insert(entry, Some("_main"@)) } else { Map::empty() };
    with_mach_symbols(start, syms)
}

fn starts_with_underscore(name: &String) -> (r: bool)
    ensures
        r == (name@.len() > 0 && name@[0] == '_'),
{
    let s = name.as_str();
    if s.unicode_len() == 0 {
        false
    } else {
        s.get_char(0) == '_'
    }
}

fn add_mach_symbols(table: &mut AddressTable, syms: &Vec<Option<(String, u64, bool)>>)
    requires
        old(table).wf(),
    ensures
        final(table).wf(),
        final(table)@ == with_mach_symbols(old(table)@, mach_symbol_views(syms@)),
{
    let ghost start = table@;
    let ghost views = mach_symbol_views(syms@);
    let mut i: usize = 0;
    while i < syms.len()
        invariant
            views == mach_symbol_views(syms@),
            i <= syms@.len(),
            table.wf(),
            table@ == with_mach_symbols(start, views.subrange(0, i as int)),
        decreases syms@.len() - i,
    {
        proof {
            assert(views.subrange(0, i + 1).drop_last() =~= views.subrange(0, i as int));
            assert(views.subrange(0, i + 1).last() == views[i as int]);
        }
        match &syms[i] {
            Some(t) => {
                if t.1 != 0 && (starts_with_underscore(&t.0) || t.2) {
                    table.insert_if_absent(t.1, Some(t.0.clone()));
                }
            },
            None => {},
        }
        i = i + 1;
    }
    assert(views.subrange(0, syms@.len() as int) =~= views);
}

/// The candidate addresses of a Mach-O image, in a table (see [`macho_addresses`]).
pub fn macho_table(entry: u64, syms: &Vec<Option<(String, u64, bool)>>) -> (t: AddressTable)
    ensures
        t.wf(),
        t@ == macho_addresses(entry, mach_symbol_views(syms@)),
{
    let mut table = AddressTable::new();
    if entry != 0 {
        table.insert(entry, Some(String::from_str("_main")));
    }
    add_mach_symbols(&mut table, syms);
    table
}

/// The listing of a Mach-O image from the values goblin reads out of it: the
/// CPU type, entry point, symbols and segments. `requires` rules out images
/// whose listed functions would be read past the end of `bytes`.
pub fn macho_info(path: String, bytes: &[u8], cputype: u32, entry: u64, syms: &Vec<Option<(String, u64, bool)>>,
    segments: Vec<MachSegment>) -> (info: BinaryInfo)
    requires
        addresses_in_file(macho_addresses(entry, mach_symbol_views(syms@)), macho_arch(cputype).1,
            AddressMap::MachO(segments), bytes@.len() as int),
    ensures
        info.path == path,
        info.format == BinaryFormat::MachO,
        info.entry_point == if entry == 0 { None::<u64> } else { Some(entry) },
        name_view(info.architecture) == macho_arch(cputype).0,
        lists_functions(macho_addresses(entry, mach_symbol_views(syms@)), bytes@, macho_arch(cputype).1,
            AddressMap::MachO(segments), info.functions@),
{
    let (architecture, bitness) = macho_arch_of(cputype);
    let table = macho_table(entry, syms);
    let map = AddressMap::MachO(segments);
    proof {
        table.lemma_sorted();
        assert(listing_in_file(table.sorted(), bitness, map, bytes@.len() as int));
    }
    let functions = build_functions(bytes, &table, bitness, &map);
    BinaryInfo { path, format: BinaryFormat::MachO, entry_point: if entry == 0 { None } else { Some(entry) }, architecture, functions }
}

/// What the listing of an ELF image with `f` comes to: the listing when its
/// functions can be read from `bytes`, else the error for a function past the
/// end of the file.
pub open spec fn elf_outcome(path: String, bytes: Seq<u8>, f: ElfFacts, r: Result<BinaryInfo, crate::error::Error>) -> bool {
    let m = elf_addresses(f.entry, symbol_views(f.syms@), symbol_views(f.dynsyms@));
    let map = AddressMap::Elf(f.segments);
    if addresses_in_file(m, elf_arch(f.machine).1, map, bytes.len() as int) {
        &&& r matches Ok(info)
        &&& info.path == path
        &&& info.format == BinaryFormat::Elf
        &&& info.entry_point == Some(f.entry)
        &&& name_view(info.architecture) == elf_arch(f.machine).0
        &&& lists_functions(m, bytes, elf_arch(f.machine).1, map, info.functions@)
    } else {
        r matches Err(crate::error::Error::InvalidArgument(msg)) && msg@ == parse_error_text(path@, outside_file_text())
    }
}

/// What the listing of a PE image with `f` comes to: an error where its
/// entry point or a named export lies past the end of the address space or
/// a function past the end of the file, else the listing.
pub open spec fn pe_outcome(path: String, bytes: Seq<u8>, f: PeFacts, r: Result<BinaryInfo, crate::error::Error>) -> bool {
    let exports = export_views(f.exports@);
    let m = pe_addresses(f.image_base, f.entry_rva, exports);
    let map = AddressMap::Pe { image_base: f.image_base, sections: f.sections };
    if !pe_sums_fit(f.image_base, f.entry_rva, exports) {
        r matches Err(crate::error::Error::InvalidArgument(msg)) && msg@ == parse_error_text(path@, address_overflow_text())
    } else if addresses_in_file(m, pe_arch(f.machine).1, map, bytes.len() as int) {
        &&& r matches Ok(info)
        &&& info.path == path
        &&& info.format == BinaryFormat::Pe
        &&& info.entry_point == pe_entry(f.image_base, f.entry_rva)
        &&& name_view(info.architecture) == pe_arch(f.machine).0
        &&& lists_functions(m, bytes, pe_arch(f.machine).1, map, info.functions@)
    } else {
        r matches Err(crate::error::Error::InvalidArgument(msg)) && msg@ == parse_error_text(path@, outside_file_text())
    }
}

/// What the listing of a Mach-O image with `f` comes to: the listing when
/// its functions can be read from `bytes`, else the error for a function
/// past the end of the file.
pub open spec fn mach_outcome(path: String, bytes: Seq<u8>, f: MachFacts, r: Result<BinaryInfo, crate::error::Error>) -> bool {
    let m = macho_addresses(f.entry, mach_symbol_views(f.syms@));
    let map = AddressMap::MachO(f.segments);
    if addresses_in_file(m, macho_arch(f.cputype).1, map, bytes.len() as int) {
        &&& r matches Ok(info)
        &&& info.path == path
        &&& info.format == BinaryFormat::MachO
        &&& info.entry_point == if f.entry == 0 { None::<u64> } else { Some(f.entry) }
        &&& name_view(info.architecture) == macho_arch(f.cputype).0
        &&& lists_functions(m, bytes, macho_arch(f.cputype).1, map, info.functions@)
    } else {
        r matches Err(crate::error::Error::InvalidArgument(msg)) && msg@ == parse_error_text(path@, outside_file_text())
    }
}

/// Text of the error for bytes goblin cannot parse.
pub open spec fn parse_error_text(path: Seq<char>, detail: Seq<char>) -> Seq<char> {
    "parse "@ + path + ": "@ + detail
}

/// Detail of the error for an image whose listed functions would be read
/// past the end of its bytes.
pub open spec fn outside_file_text() -> Seq<char> {
    "a listed function lies past the end of the file"@
}

/// Detail of the error for a PE image whose entry point or a named export
/// lies past the end of the 64-bit address space.
pub open spec fn address_overflow_text() -> Seq<char> {
    "an entry point or export lies past the end of the address space"@
}

fn image_error(path: &String, detail: &str) -> (e: crate::error::Error)
    ensures
        e matches crate::error::Error::InvalidArgument(m) && m@ == parse_error_text(path@, detail@),
{
    let prefix = concat3("parse ", path.as_str(), ": ");
    crate::error::Error::InvalidArgument(concat2(prefix.as_str(), detail))
}

/// Two maps that give every address the same offset agree on which
/// listings stay within the file.
proof fn lemma_same_offsets(m: Map<u64, Option<Seq<char>>>, bitness: u32, a: AddressMap, b: AddressMap, len: int)
    requires
        forall|va: u64| #[trigger] offset_of(a, va) == offset_of(b, va),
    ensures
        addresses_in_file(m, bitness, a, len) == addresses_in_file(m, bitness, b, len),
{
    assert forall|s: Seq<(u64, Option<Seq<char>>)>| ascending(s) && assoc_map(s) == m implies
        listing_in_file(s, bitness, a, len) == listing_in_file(s, bitness, b, len) by {
        assert forall|i: int| 0 <= i < listed_count(s.len() as int) implies
            offset_in_file(a, #[trigger] s[i].0, len) == offset_in_file(b, s[i].0, len) by {
            assert(offset_of(a, s[i].0) == offset_of(b, s[i].0));
        }
    }
    if addresses_in_file(m, bitness, a, len) {
        assert forall|s: Seq<(u64, Option<Seq<char>>)>| ascending(s) && assoc_map(s) == m implies
            #[trigger] listing_in_file(s, bitness, b, len) by {
            assert(listing_in_file(s, bitness, a, len));
        }
    }
    if addresses_in_file(m, bitness, b, len) {
        assert forall|s: Seq<(u64, Option<Seq<char>>)>| ascending(s) && assoc_map(s) == m implies
            #[trigger] listing_in_file(s, bitness, a, len) by {
            assert(listing_in_file(s, bitness, b, len));
        }
    }
}

/// The listing of an ELF image from its facts (see [`elf_outcome`]).
pub fn analyze_elf(path: String, bytes: &[u8], f: ElfFacts) -> (r: Result<BinaryInfo, crate::error::Error>)
    ensures
        elf_outcome(path, bytes@, f, r),
{
    let table = elf_table(f.entry, &f.syms, &f.dynsyms);
    let (_architecture, bitness) = elf_arch_of(f.machine);
    let map = AddressMap::Elf(copy_elf_segments(&f.segments));
    let ghost fmap = AddressMap::Elf(f.segments);
    proof {
        assert forall|va: u64| #[trigger] offset_of(map, va) == offset_of(fmap, va) by {}
        lemma_same_offsets(table@, bitness, map, fmap, bytes@.len() as int);
    }
    if !check_in_file(bytes.len(), &table, bitness, &map) {
        proof { reveal_strlit("a listed function lies past the end of the file"); }
        return Err(image_error(&path, "a listed function lies past the end of the file"));
    }
    let ElfFacts { machine, entry, syms, dynsyms, segments } = f;
    Ok(elf_info(path, bytes, machine, entry, &syms, &dynsyms, segments))
}

/// The listing of a PE image from its facts (see [`pe_outcome`]).
pub fn analyze_pe(path: String, bytes: &[u8], f: PeFacts) -> (r: Result<BinaryInfo, crate::error::Error>)
    ensures
        pe_outcome(path, bytes@, f, r),
{
    if !pe_sums_ok(f.image_base, f.entry_rva, &f.exports) {
        proof { reveal_strlit("an entry point or export lies past the end of the address space"); }
        return Err(image_error(&path, "an entry point or export lies past the end of the address space"));
    }
    let table = pe_table(f.image_base, f.entry_rva, &f.exports);
    let (_architecture, bitness) = pe_arch_of(f.machine);
    let map = AddressMap::Pe { image_base: f.image_base, sections: copy_pe_sections(&f.sections) };
    let ghost fmap = AddressMap::Pe { image_base: f.image_base, sections: f.sections };
    proof {
        assert forall|va: u64| #[trigger] offset_of(map, va) == offset_of(fmap, va) by {}
        lemma_same_offsets(table@, bitness, map, fmap, bytes@.len() as int);
    }
    if !check_in_file(bytes.len(), &table, bitness, &map) {
        proof { reveal_strlit("a listed function lies past the end of the file"); }
        return Err(image_error(&path, "a listed function lies past the end of the file"));
    }
    let PeFacts { machine, image_base, entry_rva, exports, sections } = f;
    Ok(pe_info(path, bytes, machine, image_base, entry_rva, &exports, sections))
}

/// The listing of a Mach-O image from its facts (see [`mach_outcome`]).
pub fn analyze_macho(path: String, bytes: &[u8], f: MachFacts) -> (r: Result<BinaryInfo, crate::error::Error>)
    ensures
        mach_outcome(path, bytes@, f, r),
{
    let table = macho_table(f.entry, &f.syms);
    let (_architecture, bitness) = macho_arch_of(f.cputype);
    let map = AddressMap::MachO(copy_mach_segments(&f.segments));
    let ghost fmap = AddressMap::MachO(f.segments);
    proof {
        assert forall|va: u64| #[trigger] offset_of(map, va) == offset_of(fmap, va) by {}
        lemma_same_offsets(table@, bitness, map, fmap, bytes@.len() as int);
    }
    if !check_in_file(bytes.len(), &table, bitness, &map) {
        proof { reveal_strlit("a listed function lies past the end of the file"); }
        return Err(image_error(&path, "a listed function lies past the end of the file"));
    }
    let MachFacts { cputype, entry, syms, segments } = f;
    Ok(macho_info(path, bytes, cputype, entry, &syms, segments))
}

/// What analysing the bytes of an executable read from `path` comes to,
/// given what goblin makes of them (see [`analyze_bytes`]).
pub open spec fn analysis(path: String, bytes: Seq<u8>, r: Result<BinaryInfo, crate::error::Error>) -> bool {
    match goblin_object(bytes) {
        Err(detail) => r matches Err(crate::error::Error::InvalidArgument(m)) && m@ == parse_error_text(path@, detail),
        Ok(ObjectKind::Elf) => exists|f: ElfFacts| goblin_elf(bytes) == Some(elf_view(f)) && #[trigger] elf_outcome(path, bytes, f, r),
        Ok(ObjectKind::Pe) => exists|f: PeFacts| goblin_pe(bytes) == Some(pe_view(f)) && #[trigger] pe_outcome(path, bytes, f, r),
        Ok(ObjectKind::MachO) => exists|f: MachFacts| goblin_mach(bytes) == Some(mach_view(f)) && #[trigger] mach_outcome(path, bytes, f, r),
        Ok(ObjectKind::MachFat) => {
            &&& r matches Ok(info)
            &&& info.path == path
            &&& info.format == BinaryFormat::MachO
            &&& info.entry_point is None
            &&& name_view(info.architecture) == Some("fat"@)
            &&& info.functions@.len() == 0
        },
        Ok(_) => {
            &&& r matches Ok(info)
            &&& info.path == path
            &&& info.format == BinaryFormat::Unknown
            &&& info.entry_point is None
            &&& info.architecture is None
            &&& info.functions@.len() == 0
        },
    }
}

/// Analyzes the bytes of an executable read from `path`: goblin decides the
/// container kind; ELF, PE and single-architecture Mach-O images are listed,
/// a multi-architecture Mach-O container is reported as such without
/// functions, and any other kind as `Unknown`. Bytes goblin cannot parse are
/// an invalid argument, and so is an image the listing cannot be taken from
/// (functions that would be read past the end of the bytes, or PE addresses
/// past the end of the address space).
pub fn analyze_bytes(path: String, bytes: &[u8]) -> (r: Result<BinaryInfo, crate::error::Error>)
    ensures
        analysis(path, bytes@, r),
{
    match object_kind(bytes) {
        Err(detail) => Err(image_error(&path, detail.as_str())),
        Ok(ObjectKind::Elf) => {
            let f = read_elf(bytes).unwrap();
            let ghost g = f;
            let r = analyze_elf(path, bytes, f);
            proof { assert(elf_outcome(path, bytes@, g, r)); }
            r
        },
        Ok(ObjectKind::Pe) => {
            let f = read_pe(bytes).unwrap();
            let ghost g = f;
            let r = analyze_pe(path, bytes, f);
            proof { assert(pe_outcome(path, bytes@, g, r)); }
            r
        },
        Ok(ObjectKind::MachO) => {
            let f = read_macho(bytes).unwrap();
            let ghost g = f;
            let r = analyze_macho(path, bytes, f);
            proof { assert(mach_outcome(path, bytes@, g, r)); }
            r
        },
        Ok(ObjectKind::MachFat) => {
            proof { reveal_strlit("fat"); }
            Ok(BinaryInfo {
                path,
                format: BinaryFormat::MachO,
                entry_point: None,
                architecture: Some(String::from_str("fat")),
                functions: Vec::new(),
            })
        },
        Ok(_) => Ok(BinaryInfo {
            path,
            format: BinaryFormat::Unknown,
            entry_point: None,
            architecture: None,
            functions: Vec::new(),
        }),
    }
}

/// The plain values of a listed function: address, name, size and
/// disassembly.
pub open spec fn function_view(f: FunctionInfo) -> (u64, Option<Seq<char>>, Option<u64>, Seq<(u64, Seq<char>, Seq<char>)>) {
    (f.address, name_view(f.name), f.size, info_view(f.disasm@))
}

/// The plain values of an analysis: path, format, entry point, architecture
/// and functions.
pub open spec fn binary_view(b: BinaryInfo) -> (Seq<char>, BinaryFormat, Option<u64>, Option<Seq<char>>,
    Seq<(u64, Option<Seq<char>>, Option<u64>, Seq<(u64, Seq<char>, Seq<char>)>)>) {
    (b.path@, b.format, b.entry_point, name_view(b.architecture), b.functions@.map_values(|f: FunctionInfo| function_view(f)))
}

/// Two listings of the same addresses from the same bytes, under maps that
/// give every address the same offset, list the same functions.
proof fn lemma_listing_unique(m: Map<u64, Option<Seq<char>>>, bytes: Seq<u8>, bitness: u32, a: AddressMap, b: AddressMap,
    fs1: Seq<FunctionInfo>, fs2: Seq<FunctionInfo>)
    requires
        forall|va: u64| #[trigger] offset_of(a, va) == offset_of(b, va),
        lists_functions(m, bytes, bitness, a, fs1),
        lists_functions(m, bytes, bitness, b, fs2),
    ensures
        fs1.map_values(|f: FunctionInfo| function_view(f)) == fs2.map_values(|f: FunctionInfo| function_view(f)),
{
    let s1 = choose|s: Seq<(u64, Option<Seq<char>>)>| {
        &&& ascending(s)
        &&& assoc_map(s) == m
        &&& fs1.len() == listed_count(s.len() as int)
        &&& forall|i: int| 0 <= i < fs1.len() ==> #[trigger] listed_entry_ok(s, fs1.len() as int, i, fs1[i], bytes, bitness, a)
    };
    let s2 = choose|s: Seq<(u64, Option<Seq<char>>)>| {
        &&& ascending(s)
        &&& assoc_map(s) == m
        &&& fs2.len() == listed_count(s.len() as int)
        &&& forall|i: int| 0 <= i < fs2.len() ==> #[trigger] listed_entry_ok(s, fs2.len() as int, i, fs2[i], bytes, bitness, b)
    };
    lemma_ascending_unique(s1, s2);
    let n = fs1.len() as int;
    assert forall|i: int| 0 <= i < n implies #[trigger] function_view(fs1[i]) == function_view(fs2[i]) by {
        assert(listed_entry_ok(s1, n, i, fs1[i], bytes, bitness, a));
        assert(listed_entry_ok(s1, n, i, fs2[i], bytes, bitness, b));
        assert(offset_of(a, s1[i].0) == offset_of(b, s1[i].0));
        if i + 1 < n {
            assert(offset_of(a, s1[i + 1].0) == offset_of(b, s1[i + 1].0));
        }
        assert(function_disassembly(bytes, s1, n, i, bitness, a) == function_disassembly(bytes, s1, n, i, bitness, b));
    }
    assert(fs1.map_values(|f: FunctionInfo| function_view(f)) =~= fs2.map_values(|f: FunctionInfo| function_view(f)));
}

/// An analysis depends on the path and the bytes alone: any two analyses of
/// the same bytes read from the same path agree on success, on every listed
/// value, and on the error text.
pub proof fn law_analysis_is_a_function(path: String, bytes: Seq<u8>, r1: Result<BinaryInfo, crate::error::Error>,
    r2: Result<BinaryInfo, crate::error::Error>)
    requires
        analysis(path, bytes, r1),
        analysis(path, bytes, r2),
    ensures
        r1 is Ok <==> r2 is Ok,
        r1 is Ok && r2 is Ok ==> binary_view(r1->Ok_0) == binary_view(r2->Ok_0),
        r1 matches Err(e1) ==> (e1 matches crate::error::Error::InvalidArgument(m1) && r2 matches Err(
            crate::error::Error::InvalidArgument(m2),
        ) && m1@ == m2@),
{
    let len = bytes.len() as int;
    match goblin_object(bytes) {
        Err(_) => {},
        Ok(ObjectKind::Elf) => {
            let f1 = choose|f: ElfFacts| goblin_elf(bytes) == Some(elf_view(f)) && #[trigger] elf_outcome(path, bytes, f, r1);
            let f2 = choose|f: ElfFacts| goblin_elf(bytes) == Some(elf_view(f)) && #[trigger] elf_outcome(path, bytes, f, r2);
            let a = AddressMap::Elf(f1.segments);
            let b = AddressMap::Elf(f2.segments);
            assert(f1.segments@ == f2.segments@);
            assert forall|va: u64| #[trigger] offset_of(a, va) == offset_of(b, va) by {}
            let m = elf_addresses(f1.entry, symbol_views(f1.syms@), symbol_views(f1.dynsyms@));
            lemma_same_offsets(m, elf_arch(f1.machine).1, a, b, len);
            if let (Ok(x), Ok(y)) = (r1, r2) {
                lemma_listing_unique(m, bytes, elf_arch(f1.machine).1, a, b, x.functions@, y.functions@);
            }
        },
        Ok(ObjectKind::Pe) => {
            let f1 = choose|f: PeFacts| goblin_pe(bytes) == Some(pe_view(f)) && #[trigger] pe_outcome(path, bytes, f, r1);
            let f2 = choose|f: PeFacts| goblin_pe(bytes) == Some(pe_view(f)) && #[trigger] pe_outcome(path, bytes, f, r2);
            let a = AddressMap::Pe { image_base: f1.image_base, sections: f1.sections };
            let b = AddressMap::Pe { image_base: f2.image_base, sections: f2.sections };
            assert(f1.sections@ == f2.sections@);
            assert forall|va: u64| #[trigger] offset_of(a, va) == offset_of(b, va) by {}
            let m = pe_addresses(f1.image_base, f1.entry_rva, export_views(f1.exports@));
            lemma_same_offsets(m, pe_arch(f1.machine).1, a, b, len);
            if let (Ok(x), Ok(y)) = (r1, r2) {
                lemma_listing_unique(m, bytes, pe_arch(f1.machine).1, a, b, x.functions@, y.functions@);
            }
        },
        Ok(ObjectKind::MachO) => {
            let f1 = choose|f: MachFacts| goblin_mach(bytes) == Some(mach_view(f)) && #[trigger] mach_outcome(path, bytes, f, r1);
            let f2 = choose|f: MachFacts| goblin_mach(bytes) == Some(mach_view(f)) && #[trigger] mach_outcome(path, bytes, f, r2);
            let a = AddressMap::MachO(f1.segments);
            let b = AddressMap::MachO(f2.segments);
            assert(f1.segments@ == f2.segments@);
            assert forall|va: u64| #[trigger] offset_of(a, va) == offset_of(b, va) by {}
            let m = macho_addresses(f1.entry, mach_symbol_views(f1.syms@));
            lemma_same_offsets(m, macho_arch(f1.cputype).1, a, b, len);
            if let (Ok(x), Ok(y)) = (r1, r2) {
                lemma_listing_unique(m, bytes, macho_arch(f1.cputype).1, a, b, x.functions@, y.functions@);
            }
        },
        Ok(_) => {
            if let (Ok(x), Ok(y)) = (r1, r2) {
                assert(x.functions@.map_values(|f: FunctionInfo| function_view(f)) =~= y.functions@.map_values(|f: FunctionInfo| function_view(f)));
            }
        },
    }
}

/// The machine number of an ELF image decides its architecture and how its
/// functions are disassembled: x86-64 (62) is "x86_64" and 64-bit code, i386
/// (3) is "x86" and 32-bit code, AArch64 (183) is "aarch64" and ARM (40) is
/// "arm", neither disassembled; any other machine has no name and is not
/// disassembled.
pub proof fn law_elf_machines(machine: u16)
    ensures
        elf_arch(machine).1 == 64 <==> machine == 62,
        elf_arch(machine).1 == 32 <==> machine == 3,
        machine != 62 && machine != 3 ==> elf_arch(machine).1 == 0,
        machine == 62 ==> elf_arch(machine).0 == Some("x86_64"@),
        machine == 3 ==> elf_arch(machine).0 == Some("x86"@),
        machine == 183 ==> elf_arch(machine).0 == Some("aarch64"@),
        machine == 40 ==> elf_arch(machine).0 == Some("arm"@),
        machine != 62 && machine != 3 && machine != 183 && machine != 40 ==> elf_arch(machine).0 is None,
{
}

/// The machine number of a PE image decides its architecture and how its
/// functions are disassembled: AMD64 (0x8664) is "x86_64" and 64-bit code,
/// i386 (0x14c) is "x86" and 32-bit code, ARM64 (0xaa64) is "aarch64", not
/// disassembled; any other machine has no name and is not disassembled.
pub proof fn law_pe_machines(machine: u16)
    ensures
        pe_arch(machine).1 == 64 <==> machine == 0x8664,
        pe_arch(machine).1 == 32 <==> machine == 0x14c,
        machine != 0x8664 && machine != 0x14c ==> pe_arch(machine).1 == 0,
        machine == 0x8664 ==> pe_arch(machine).0 == Some("x86_64"@),
        machine == 0x14c ==> pe_arch(machine).0 == Some("x86"@),
        machine == 0xaa64 ==> pe_arch(machine).0 == Some("aarch64"@),
        machine != 0x8664 && machine != 0x14c && machine != 0xaa64 ==> pe_arch(machine).0 is None,
{
}

/// The CPU type of a Mach-O image decides its architecture and how its
/// functions are disassembled: x86-64 (0x0100_0007) is "x86_64" and 64-bit
/// code, i386 (7) is "x86" and 32-bit code, ARM64 (0x0100_000c) is
/// "aarch64", not disassembled; any other CPU type has no name and is not
/// disassembled.
pub proof fn law_macho_cputypes(cputype: u32)
    ensures
        macho_arch(cputype).1 == 64 <==> cputype == 0x0100_0007,
        macho_arch(cputype).1 == 32 <==> cputype == 7,
        cputype != 0x0100_0007 && cputype != 7 ==> macho_arch(cputype).1 == 0,
        cputype == 0x0100_0007 ==> macho_arch(cputype).0 == Some("x86_64"@),
        cputype == 7 ==> macho_arch(cputype).0 == Some("x86"@),
        cputype == 0x0100_000c ==> macho_arch(cputype).0 == Some("aarch64"@),
        cputype != 0x0100_0007 && cputype != 7 && cputype != 0x0100_000c ==> macho_arch(cputype).0 is None,
{
}

/// Only 32- and 64-bit code is disassembled.
pub proof fn law_disassembled_bitness(bitness: u32)
    ensures
        disassembles(bitness) <==> (bitness == 32 || bitness == 64),
{
}

/// A listed i386 ELF image is named "x86" and each of its functions is
/// disassembled as 32-bit code; a listed x86-64 one is named "x86_64" and
/// disassembled as 64-bit code.
pub proof fn law_elf_listing_bitness(path: String, bytes: Seq<u8>, f: ElfFacts, info: BinaryInfo)
    requires
        elf_outcome(path, bytes, f, Ok(info)),
    ensures
        f.machine == 3 ==> name_view(info.architecture) == Some("x86"@) && lists_functions(
            elf_addresses(f.entry, symbol_views(f.syms@), symbol_views(f.dynsyms@)), bytes, 32, AddressMap::Elf(f.segments),
            info.functions@),
        f.machine == 62 ==> name_view(info.architecture) == Some("x86_64"@) && lists_functions(
            elf_addresses(f.entry, symbol_views(f.syms@), symbol_views(f.dynsyms@)), bytes, 64, AddressMap::Elf(f.segments),
            info.functions@),
{
}

/// A listed i386 PE image is named "x86" and disassembled as 32-bit code; a
/// listed AMD64 one is named "x86_64" and disassembled as 64-bit code.
pub proof fn law_pe_listing_bitness(path: String, bytes: Seq<u8>, f: PeFacts, info: BinaryInfo)
    requires
        pe_outcome(path, bytes, f, Ok(info)),
    ensures
        f.machine == 0x14c ==> name_view(info.architecture) == Some("x86"@) && lists_functions(
            pe_addresses(f.image_base, f.entry_rva, export_views(f.exports@)), bytes, 32,
            AddressMap::Pe { image_base: f.image_base, sections: f.sections }, info.functions@),
        f.machine == 0x8664 ==> name_view(info.architecture) == Some("x86_64"@) && lists_functions(
            pe_addresses(f.image_base, f.entry_rva, export_views(f.exports@)), bytes, 64,
            AddressMap::Pe { image_base: f.image_base, sections: f.sections }, info.functions@),
{
}

/// A listed i386 Mach-O image is named "x86" and disassembled as 32-bit
/// code; a listed x86-64 one is named "x86_64" and disassembled as 64-bit
/// code.
pub proof fn law_macho_listing_bitness(path: String, bytes: Seq<u8>, f: MachFacts, info: BinaryInfo)
    requires
        mach_outcome(path, bytes, f, Ok(info)),
    ensures
        f.cputype == 7 ==> name_view(info.architecture) == Some("x86"@) && lists_functions(
            macho_addresses(f.entry, mach_symbol_views(f.syms@)), bytes, 32, AddressMap::MachO(f.segments),
            info.functions@),
        f.cputype == 0x0100_0007 ==> name_view(info.architecture) == Some("x86_64"@) && lists_functions(
            macho_addresses(f.entry, mach_symbol_views(f.syms@)), bytes, 64, AddressMap::MachO(f.segments),
            info.functions@),
{
}

} // verus!
