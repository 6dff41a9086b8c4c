//! Recovering a function listing from candidate addresses.

use vstd::prelude::*;
use crate::binary::FunctionInfo;
use crate::binwalk::disasm::{disassemble, disassembly, info_view, MAX_INSTRUCTIONS};
use crate::binwalk::layout::{AddressMap, offset_of};
use crate::binwalk::table::{AddressTable, name_view, ascending};
use crate::assoc::assoc_map;

verus! {

/// At most this many functions are listed, the lowest addresses first.
pub const MAX_FUNCTIONS: usize = 64;

/// Number of functions listed for a table of `n` addresses.
pub open spec fn listed_count(n: int) -> int {
    if n <= MAX_FUNCTIONS { n } else { MAX_FUNCTIONS as int }
}

/// Whether functions of a binary of this bitness are disassembled.
pub open spec fn disassembles(bitness: u32) -> bool {
    bitness == 32 || bitness == 64
}

/// End of the byte window disassembled for listed entry `i` of `s` (`n`
/// listed) whose address maps to file offset `off`: the next listed
/// function's offset, else 64 bytes on; clipped to the file, not before
/// `off`, and at most 128 bytes past it.
pub open spec fn window_end(s: Seq<(u64, Option<Seq<char>>)>, n: int, i: int, map: AddressMap, len: int, off: int) -> int {
    let fallback = if off + 64 <= len { off + 64 } else { len };
    let e0 = if i + 1 < n {
        match offset_of(map, s[i + 1].0) {
            Some(e) => e,
            None => fallback,
        }
    } else {
        fallback
    };
    let e1 = if e0 <= len { e0 } else { len };
    let e2 = if e1 >= off { e1 } else { off };
    if e2 - off <= 128 { e2 } else { off + 128 }
}

/// The disassembly listed for entry `i` of `s` (`n` listed): for 32- and
/// 64-bit code whose address maps into the file, the listing of its byte
/// window at its address; otherwise none.
pub open spec fn function_disassembly(bytes: Seq<u8>, s: Seq<(u64, Option<Seq<char>>)>, n: int, i: int, bitness: u32,
    map: AddressMap) -> Seq<(u64, Seq<char>, Seq<char>)> {
    if !disassembles(bitness) {
        Seq::empty()
    } else {
        match offset_of(map, s[i].0) {
            None => Seq::empty(),
            Some(off) => disassembly(bitness, bytes.subrange(off, window_end(s, n, i, map, bytes.len() as int, off)), s[i].0),
        }
    }
}

/// The listed function `i` of a table: its address, name, size (the gap
/// to the next listed address; none for the last one) and disassembly.
pub open spec fn listed_entry_ok(table: Seq<(u64, Option<Seq<char>>)>, n: int, i: int, f: FunctionInfo, bytes: Seq<u8>,
    bitness: u32, map: AddressMap) -> bool {
    &&& f.address == table[i].0
    &&& name_view(f.name) == table[i].1
    &&& f.size == if i + 1 < n { Some((table[i + 1].0 - table[i].0) as u64) } else { None::<u64> }
    &&& info_view(f.disasm@) == function_disassembly(bytes, table, n, i, bitness, map)
}

/// `fs` lists the lowest addresses of the address map `m` in ascending
/// order (at most [`MAX_FUNCTIONS`] of them), each with its name, its gap to
/// the next listed address, and its disassembly from `bytes` under `map`.
pub open spec fn lists_functions(m: Map<u64, Option<Seq<char>>>, bytes: Seq<u8>, bitness: u32, map: AddressMap,
    fs: Seq<FunctionInfo>) -> bool {
    exists|s: Seq<(u64, Option<Seq<char>>)>| {
        &&& ascending(s)
        &&& assoc_map(s) == m
        &&& fs.len() == listed_count(s.len() as int)
        &&& forall|i: int| 0 <= i < fs.len() ==> #[trigger] listed_entry_ok(s, fs.len() as int, i, fs[i], bytes, bitness, map)
    }
}

/// The file offset of `va`, where it has one, lies within a file of `len` bytes.
pub open spec fn offset_in_file(map: AddressMap, va: u64, len: int) -> bool {
    offset_of(map, va) matches Some(o) ==> o <= len
}

/// Disassembling the listed entries of `s` reads only within a file of `len`
/// bytes: each listed address that maps to the file maps inside it.
pub open spec fn listing_in_file(s: Seq<(u64, Option<Seq<char>>)>, bitness: u32, map: AddressMap, len: int) -> bool {
    disassembles(bitness) ==> forall|i: int| 0 <= i < listed_count(s.len() as int) ==> offset_in_file(map, #[trigger] s[i].0, len)
}

fn min_usize(a: usize, b: usize) -> (r: usize)
    ensures
        r == if a <= b { a } else { b },
{
    if a <= b { a } else { b }
}

/// Whether disassembling the listing of `table` reads only within a file of
/// `len` bytes (see [`listing_in_file`]).
pub fn listing_within(len: usize, table: &AddressTable, bitness: u32, map: &AddressMap) -> (b: bool)
    requires
        table.wf(),
    ensures
        b == listing_in_file(table.sorted(), bitness, *map, len as int),
{
    if !(bitness == 32 || bitness == 64) {
        return true;
    }
    let n = min_usize(table.len(), MAX_FUNCTIONS);
    let mut i: usize = 0;
    while i < n
        invariant
            n == listed_count(table.sorted().len() as int),
            n <= table.sorted().len(),
            i <= n,
            disassembles(bitness),
            forall|k: int| 0 <= k < i ==> offset_in_file(*map, #[trigger] table.sorted()[k].0, len as int),
        decreases n - i,
    {
        let (addr, _name) = table.entry(i);
        if !map.offset_within(addr, len) {
            proof {
                assert(!offset_in_file(*map, table.sorted()[i as int].0, len as int));
            }
            return false;
        }
        i = i + 1;
    }
    true
}

/// Lists up to [`MAX_FUNCTIONS`] functions from the lowest addresses of
/// `table`, each sized by the gap to the next listed address and, for 32- and
/// 64-bit code whose address maps into the file, disassembled from its first
/// bytes (up to the next function, at most 128 bytes). `requires` rules
/// out listings whose disassembly would start past the end of `bytes`.
pub fn build_functions(bytes: &[u8], table: &AddressTable, bitness: u32, map: &AddressMap) -> (r: Vec<FunctionInfo>)
    requires
        table.wf(),
        listing_in_file(table.sorted(), bitness, *map, bytes@.len() as int),
    ensures
        r.len() == listed_count(table.sorted().len() as int),
        lists_functions(table@, bytes@, bitness, *map, r@),
        forall|i: int| 0 <= i < r.len() ==> #[trigger] listed_entry_ok(table.sorted(), r.len() as int, i, r[i], bytes@, bitness, *map),
        forall|i: int| 0 <= i < r.len() ==> (#[trigger] r[i]).disasm.len() <= MAX_INSTRUCTIONS,
        forall|i: int| 0 <= i < r.len() && (#[trigger] r[i]).disasm.len() > 0 ==> r[i].disasm@[0].address == r[i].address,
{
    let total = table.len();
    let n = min_usize(total, MAX_FUNCTIONS);
    let len = bytes.len();
    let mut functions: Vec<FunctionInfo> = Vec::new();
    let mut i: usize = 0;
    proof { table.lemma_sorted(); }
    while i < n
        invariant
            n == listed_count(table.sorted().len() as int),
            n <= table.sorted().len(),
            len == bytes@.len(),
            ascending(table.sorted()),
            listing_in_file(table.sorted(), bitness, *map, bytes@.len() as int),
            i <= n,
            functions.len() == i,
            forall|k: int| 0 <= k < i ==> #[trigger] listed_entry_ok(table.sorted(), n as int, k, functions[k], bytes@, bitness, *map),
            forall|k: int| 0 <= k < i ==> (#[trigger] functions[k]).disasm.len() <= MAX_INSTRUCTIONS,
            forall|k: int| 0 <= k < i && (#[trigger] functions[k]).disasm.len() > 0 ==> functions[k].disasm@[0].address == functions[k].address,
        decreases n - i,
    {
        let (addr, name) = table.entry(i);
        let next: Option<u64> = if i + 1 < n { Some(table.entry(i + 1).0) } else { None };
        let size: Option<u64> = match next {
            Some(nx) => {
                proof { assert(table.sorted()[i as int].0 < table.sorted()[i + 1].0); }
                Some(nx - addr)
            },
            None => None,
        };
        let disasm = if bitness == 32 || bitness == 64 {
            proof { assert(offset_in_file(*map, table.sorted()[i as int].0, len as int)); }
            match map.offset_for_va(addr) {
                Some(off) => {
                    proof { assert(offset_in_file(*map, table.sorted()[i as int].0, len as int)); }
                    let next_off = match next {
                        Some(nx) => {
                            proof { assert(offset_in_file(*map, table.sorted()[i + 1].0, len as int)); }
                            map.offset_for_va(nx)
                        },
                        None => None,
                    };
                    let e0: usize = match next_off {
                        Some(e) => e,
                        None => if len - off >= 64 { off + 64 } else { len },
                    };
                    let e1 = min_usize(e0, len);
                    let e2: usize = if e1 >= off { e1 } else { off };
                    let cut: usize = if e2 - off <= 128 { e2 } else { off + 128 };
                    let code = vstd::slice::slice_subrange(bytes, off, cut);
                    proof {
                        assert(cut as int == window_end(table.sorted(), n as int, i as int, *map, len as int, off as int));
                    }
                    disassemble(code, addr, bitness)
                },
                None => {
                    let v: Vec<crate::binary::InstructionInfo> = Vec::new();
                    assert(info_view(v@) =~= Seq::empty());
                    v
                },
            }
        } else {
            let v: Vec<crate::binary::InstructionInfo> = Vec::new();
            assert(info_view(v@) =~= Seq::empty());
            v
        };
        let f = FunctionInfo { name, address: addr, size, disasm };
        let ghost before = functions@;
        proof {
            assert(listed_entry_ok(table.sorted(), n as int, i as int, f, bytes@, bitness, *map));
        }
        functions.push(f);
        proof {
            assert forall|k: int| 0 <= k < i + 1 implies #[trigger] listed_entry_ok(table.sorted(), n as int, k, functions[k], bytes@, bitness, *map) by {
                if k < i { assert(functions[k] == before[k]); }
            }
            assert forall|k: int| 0 <= k < i + 1 implies (#[trigger] functions[k]).disasm.len() <= MAX_INSTRUCTIONS
                && (functions[k].disasm.len() > 0 ==> functions[k].disasm@[0].address == functions[k].address) by {
                if k < i { assert(functions[k] == before[k]); }
            }
        }
        i = i + 1;
    }
    proof {
        table.lemma_sorted();
        let s = table.sorted();
        assert(forall|i: int| 0 <= i < functions@.len() ==> #[trigger] listed_entry_ok(s, functions@.len() as int, i, functions@[i], bytes@, bitness, *map));
        assert(ascending(s) && assoc_map(s) == table@ && functions@.len() == listed_count(s.len() as int));
    }
    functions
}

/// At most 64 functions are listed, the lowest addresses first; a listed
/// function's byte window never runs more than 128 bytes past its start, and
/// the last listed function gets 64 bytes (or what is left of the file).
pub proof fn law_listing_limits(s: Seq<(u64, Option<Seq<char>>)>, n: int, i: int, map: AddressMap, len: int, off: int)
    requires
        0 <= off <= len,
    ensures
        n <= 64 ==> listed_count(n) == n,
        n > 64 ==> listed_count(n) == 64,
        off <= window_end(s, n, i, map, len, off) <= off + 128,
        window_end(s, n, i, map, len, off) <= len,
        i + 1 >= n && off + 64 <= len ==> window_end(s, n, i, map, len, off) == off + 64,
        i + 1 >= n && off + 64 > len ==> window_end(s, n, i, map, len, off) == len,
{
}

} // verus!
