//! Light disassembly of a run of x86 / x86-64 bytes.

use vstd::prelude::*;
use crate::binary::InstructionInfo;
use crate::text::{hex_string, hex_join};
use iced_x86::Formatter;

verus! {

/// At most this many instructions are decoded per run.
pub const MAX_INSTRUCTIONS: usize = 32;

/// What iced decodes from `code`, taken to start at address `ip`, with a
/// decoder of `bitness` bits and no options, iterating while bytes remain:
/// each instruction as (address, length in bytes, whether it is invalid,
/// its Intel-syntax text).
pub uninterp spec fn iced_listing(bitness: u32, code: Seq<u8>, ip: u64) -> Seq<(u64, usize, bool, Seq<char>)>;

/// Where instruction `k` of a listing starts within the run: the sum of the
/// lengths of the instructions before it.
pub open spec fn run_offset(l: Seq<(u64, usize, bool, Seq<char>)>, k: int) -> int
    decreases k,
{
    if k <= 0 { 0 } else { run_offset(l, k - 1) + l[k - 1].1 }
}

/// `a + b` modulo 2^64.
pub open spec fn wrap_add(a: u64, b: int) -> int {
    (a + b) % 0x1_0000_0000_0000_0000
}

/// Iterates `Decoder::with_ip(bitness, code, ip, DecoderOptions::NONE)` and
/// hands out each instruction as `Instruction::ip`, `Instruction::len`,
/// `Instruction::is_invalid` and its text from `IntelFormatter::format`. The
/// listing is named by [`iced_listing`]. iced's source also shows: the
/// iterator yields while a byte remains, so non-empty code gives at least one
/// instruction; the first is at `ip`; each next one starts where the previous
/// ends (addresses wrap modulo 2^64); no instruction is longer than 15 bytes;
/// the instructions follow each other from the first byte of the code and
/// none reads past its end (the decoder's limit is the end of the code).
/// iced panics unless `bitness` is 16, 32 or 64, which `requires` rules out.
#[verifier::external_body]
fn decode_all(bitness: u32, code: &[u8], ip: u64) -> (v: Vec<(u64, usize, bool, String)>)
    requires
        bitness == 16 || bitness == 32 || bitness == 64,
    ensures
        v@.map_values(|e: (u64, usize, bool, String)| (e.0, e.1, e.2, e.3@)) == iced_listing(bitness, code@, ip),
        code@.len() > 0 ==> v@.len() > 0 && v@[0].0 == ip,
        forall|k: int| 0 <= k < v@.len() ==> #[trigger] v@[k].1 <= 15,
        forall|k: int| 0 <= k < v@.len() - 1 ==> v@[k + 1].0 == wrap_add(#[trigger] v@[k].0, v@[k].1 as int),
        forall|k: int| 0 <= k < v@.len() ==> run_offset(iced_listing(bitness, code@, ip), k) + (#[trigger] v@[k]).1 <= code@.len(),
{
    let mut formatter = iced_x86::IntelFormatter::new();
    let mut decoder = iced_x86::Decoder::with_ip(bitness, code, ip, iced_x86::DecoderOptions::NONE);
    decoder.iter().map(|i| {
        let mut text = String::new();
        formatter.format(&i, &mut text);
        (i.ip(), i.len(), i.is_invalid(), text)
    }).collect()
}

/// The offset of an instruction's first byte within the run: how far its
/// address lies past the run's start, zero when before it.
pub open spec fn offset_in_run(address: u64, ip: u64) -> int {
    if address >= ip { address - ip } else { 0 }
}

/// The bytes column of an instruction: hex of the run's bytes from its
/// offset for its length (clipped to the run), empty when the offset lies
/// past the run.
pub open spec fn bytes_column(code: Seq<u8>, address: u64, ip: u64, len: int) -> Seq<char> {
    let start = offset_in_run(address, ip);
    if start < code.len() {
        let end = if start + len <= code.len() { start + len } else { code.len() as int };
        hex_join(code.subrange(start, end))
    } else {
        Seq::empty()
    }
}

/// Number of decoded instructions listed from position `i` on: up to
/// [`MAX_INSTRUCTIONS`] in all, stopping after the first invalid one.
pub open spec fn listed_until(l: Seq<(u64, usize, bool, Seq<char>)>, i: int) -> int
    decreases l.len() - i,
{
    if i < 0 || i >= l.len() || i >= MAX_INSTRUCTIONS {
        i
    } else if l[i].2 {
        i + 1
    } else {
        listed_until(l, i + 1)
    }
}

/// What is listed of a decoded run `l` of `code` at `ip`, as (address, bytes
/// column, text) per instruction.
pub open spec fn listing_from(code: Seq<u8>, ip: u64, l: Seq<(u64, usize, bool, Seq<char>)>) -> Seq<(u64, Seq<char>, Seq<char>)> {
    Seq::new(listed_until(l, 0) as nat, |k: int| (l[k].0, bytes_column(code, l[k].0, ip, l[k].1 as int), l[k].3))
}

/// The listing of a run, as (address, bytes column, text) per instruction.
pub open spec fn disassembly(bitness: u32, code: Seq<u8>, ip: u64) -> Seq<(u64, Seq<char>, Seq<char>)> {
    if code.len() == 0 || !(bitness == 16 || bitness == 32 || bitness == 64) {
        Seq::empty()
    } else {
        listing_from(code, ip, iced_listing(bitness, code, ip))
    }
}

/// The plain values of decoded instructions.
pub open spec fn decoded_view(v: Seq<(u64, usize, bool, String)>) -> Seq<(u64, usize, bool, Seq<char>)> {
    v.map_values(|e: (u64, usize, bool, String)| (e.0, e.1, e.2, e.3@))
}

/// The (address, bytes, text) views of listed instructions.
pub open spec fn info_view(v: Seq<InstructionInfo>) -> Seq<(u64, Seq<char>, Seq<char>)> {
    v.map_values(|i: InstructionInfo| (i.address, i.bytes@, i.text@))
}

proof fn lemma_listed_until(l: Seq<(u64, usize, bool, Seq<char>)>, i: int)
    requires
        0 <= i,
    ensures
        i <= listed_until(l, i) <= MAX_INSTRUCTIONS || listed_until(l, i) == i,
        listed_until(l, i) <= l.len() || listed_until(l, i) == i,
        i < l.len() && i < MAX_INSTRUCTIONS ==> listed_until(l, i) >= i + 1,
        forall|j: int| i <= j < listed_until(l, i) - 1 ==> !(#[trigger] l[j]).2,
    decreases l.len() - i,
{
    if i < l.len() && i < MAX_INSTRUCTIONS && !l[i].2 {
        lemma_listed_until(l, i + 1);
    }
}

/// The bytes column of an instruction at `address` of `len` bytes.
fn column(code: &[u8], address: u64, ip: u64, len: usize) -> (s: String)
    ensures
        s@ == bytes_column(code@, address, ip, len as int),
{
    let start: u64 = if address >= ip { address - ip } else { 0 };
    if start < code.len() as u64 {
        let s = start as usize;
        let end: usize = if len <= code.len() - s { s + len } else { code.len() };
        hex_string(slice_range(code, s, end))
    } else {
        String::new()
    }
}

/// Lists decoded instructions of `code` taken to start at `ip`: up to
/// [`MAX_INSTRUCTIONS`] of them, stopping after the first invalid one, each as
/// its address, its bytes from `code` as space-separated hex, and its text.
pub fn list_decoded(code: &[u8], ip: u64, decoded: &Vec<(u64, usize, bool, String)>) -> (out: Vec<InstructionInfo>)
    ensures
        info_view(out@) == listing_from(code@, ip, decoded_view(decoded@)),
        out.len() <= MAX_INSTRUCTIONS,
{
    let ghost l = decoded_view(decoded@);
    let ghost target = listing_from(code@, ip, l);
    proof {
        lemma_listed_until(l, 0);
        assert(l.len() == decoded@.len());
    }
    let mut out: Vec<InstructionInfo> = Vec::new();
    let mut n: usize = 0;
    while n < decoded.len() && n < MAX_INSTRUCTIONS && !(n > 0 && decoded[n - 1].2)
        invariant
            l == decoded_view(decoded@),
            n <= decoded@.len(),
            n <= MAX_INSTRUCTIONS,
            listed_until(l, 0) == (if n > 0 && l[n - 1].2 { n as int } else { listed_until(l, n as int) }),
        decreases decoded@.len() - n,
    {
        proof {
            assert(l[n as int] == (decoded@[n as int].0, decoded@[n as int].1, decoded@[n as int].2, decoded@[n as int].3@));
        }
        n = n + 1;
    }
    proof {
        if n > 0 {
            assert(l[n - 1] == (decoded@[n - 1].0, decoded@[n - 1].1, decoded@[n - 1].2, decoded@[n - 1].3@));
        }
        assert(listed_until(l, 0) == n);
        assert(target.len() == n);
    }
    let mut k: usize = 0;
    while k < n
        invariant
            l == decoded_view(decoded@),
            n <= decoded@.len(),
            n == listed_until(l, 0),
            target == listing_from(code@, ip, l),
            target.len() == n,
            k <= n,
            info_view(out@) == target.subrange(0, k as int),
        decreases n - k,
    {
        let e = &decoded[k];
        let text = e.3.clone();
        let bytes = column(code, e.0, ip, e.1);
        let info = InstructionInfo { address: e.0, bytes, text };
        proof {
            assert(l[k as int] == (e.0, e.1, e.2, e.3@));
            assert(target[k as int] == (l[k as int].0, bytes_column(code@, l[k as int].0, ip, l[k as int].1 as int), l[k as int].3));
        }
        let ghost before = out@;
        out.push(info);
        proof {
            assert(info_view(before).len() == before.len());
            assert forall|j: int| 0 <= j < k + 1 implies #[trigger] info_view(out@)[j] == target.subrange(0, k + 1)[j] by {
                if j < k {
                    assert(out@[j] == before[j]);
                    assert(info_view(before)[j] == target.subrange(0, k as int)[j]);
                }
            }
            assert(info_view(out@) =~= target.subrange(0, k + 1));
        }
        k = k + 1;
    }
    proof {
        assert(target.subrange(0, n as int) =~= target);
    }
    out
}

/// Where the run ends before the end of the address space, each instruction
/// lies at the run's start plus the lengths of those before it.
proof fn lemma_plain_addresses(l: Seq<(u64, usize, bool, Seq<char>)>, ip: u64, len: int, k: int)
    requires
        l.len() > 0 ==> l[0].0 == ip,
        forall|j: int| 0 <= j < l.len() - 1 ==> l[j + 1].0 == wrap_add(#[trigger] l[j].0, l[j].1 as int),
        forall|j: int| 0 <= j < l.len() ==> run_offset(l, j) + (#[trigger] l[j]).1 <= len,
        ip + len <= u64::MAX,
        0 <= k < l.len(),
    ensures
        l[k].0 == ip + run_offset(l, k),
    decreases k,
{
    if k > 0 {
        lemma_plain_addresses(l, ip, len, k - 1);
        assert(l[k - 1].0 + l[k - 1].1 <= u64::MAX);
        assert(l[k].0 == wrap_add(l[k - 1].0, l[k - 1].1 as int));
        assert((l[k - 1].0 + l[k - 1].1) % 0x1_0000_0000_0000_0000 == l[k - 1].0 + l[k - 1].1);
    }
}

/// Decodes up to [`MAX_INSTRUCTIONS`] instructions from `code`, taken to
/// start at address `ip`, stopping after the first invalid one or at the end
/// of the code. Each entry holds the instruction's address, its bytes as
/// space-separated hex, and its Intel-syntax text. Empty code or a bitness
/// other than 16, 32 or 64 gives no instructions. Each next instruction starts
/// where the previous one ends; where the run ends before the end of the
/// address space, that is the plain sum, and every instruction ends within the
/// code.
pub fn disassemble(code: &[u8], ip: u64, bitness: u32) -> (out: Vec<InstructionInfo>)
    ensures
        info_view(out@) == disassembly(bitness, code@, ip),
        out.len() <= MAX_INSTRUCTIONS,
        (code@.len() == 0 || !(bitness == 16 || bitness == 32 || bitness == 64)) <==> out.len() == 0,
        out.len() > 0 ==> out@[0].address == ip,
        forall|k: int| 0 <= k < out.len() - 1 ==> out@[k + 1].address
            == wrap_add(#[trigger] out@[k].address, iced_listing(bitness, code@, ip)[k].1 as int),
        forall|k: int| 0 <= k < out.len() - 1 ==> !(#[trigger] iced_listing(bitness, code@, ip)[k]).2,
        ip + code@.len() <= u64::MAX ==> forall|k: int| 0 <= k < out.len() ==>
            (#[trigger] out@[k]).address + iced_listing(bitness, code@, ip)[k].1 <= ip + code@.len(),
        ip + code@.len() <= u64::MAX ==> forall|k: int| 0 <= k < out.len() - 1 ==>
            out@[k + 1].address == (#[trigger] out@[k]).address + iced_listing(bitness, code@, ip)[k].1,
{
    if code.len() == 0 || !(bitness == 16 || bitness == 32 || bitness == 64) {
        let out: Vec<InstructionInfo> = Vec::new();
        assert(info_view(out@) =~= disassembly(bitness, code@, ip));
        return out;
    }
    let decoded = decode_all(bitness, code, ip);
    let ghost l = iced_listing(bitness, code@, ip);
    let out = list_decoded(code, ip, &decoded);
    proof {
        assert(decoded_view(decoded@) == l);
        lemma_listed_until(l, 0);
        let target = listing_from(code@, ip, l);
        assert(info_view(out@) == target);
        assert(info_view(out@).len() == out@.len());
        assert(target.len() == listed_until(l, 0));
        assert(l.len() > 0);
        assert(out@.len() <= l.len());
        assert(forall|k: int| 0 <= k < out.len() ==> #[trigger] info_view(out@)[k] == target[k]);
        assert forall|k: int| 0 <= k < l.len() implies #[trigger] l[k] == (decoded@[k].0, decoded@[k].1, decoded@[k].2, decoded@[k].3@) by {}
        if out.len() > 0 {
            assert(info_view(out@)[0] == target[0]);
            assert(decoded@[0].0 == ip);
        }
        assert forall|k: int| 0 <= k < out.len() - 1 implies out@[k + 1].address
            == wrap_add(#[trigger] out@[k].address, l[k].1 as int) by {
            assert(info_view(out@)[k] == target[k]);
            assert(info_view(out@)[k + 1] == target[k + 1]);
            assert(l[k] == (decoded@[k].0, decoded@[k].1, decoded@[k].2, decoded@[k].3@));
            assert(l[k + 1] == (decoded@[k + 1].0, decoded@[k + 1].1, decoded@[k + 1].2, decoded@[k + 1].3@));
            assert(decoded@[k + 1].0 == wrap_add(decoded@[k].0, decoded@[k].1 as int));
        }
        assert forall|k: int| 0 <= k < out.len() - 1 implies !(#[trigger] l[k]).2 by {
            assert(info_view(out@).len() == out@.len());
        }
        if ip + code@.len() <= u64::MAX {
            assert forall|j: int| 0 <= j < l.len() - 1 implies l[j + 1].0 == wrap_add(#[trigger] l[j].0, l[j].1 as int) by {
                assert(l[j] == (decoded@[j].0, decoded@[j].1, decoded@[j].2, decoded@[j].3@));
                assert(l[j + 1] == (decoded@[j + 1].0, decoded@[j + 1].1, decoded@[j + 1].2, decoded@[j + 1].3@));
                assert(decoded@[j + 1].0 == wrap_add(decoded@[j].0, decoded@[j].1 as int));
            }
            assert forall|j: int| 0 <= j < l.len() implies run_offset(l, j) + (#[trigger] l[j]).1 <= code@.len() by {
                assert(l[j] == (decoded@[j].0, decoded@[j].1, decoded@[j].2, decoded@[j].3@));
                assert(run_offset(l, j) + decoded@[j].1 <= code@.len());
            }
            assert forall|k: int| 0 <= k < out.len() implies
                (#[trigger] out@[k]).address + l[k].1 <= ip + code@.len() by {
                assert(info_view(out@)[k] == target[k]);
                lemma_plain_addresses(l, ip, code@.len() as int, k);
            }
            assert forall|k: int| 0 <= k < out.len() - 1 implies
                out@[k + 1].address == (#[trigger] out@[k]).address + l[k].1 by {
                assert(info_view(out@)[k] == target[k]);
                assert(info_view(out@)[k + 1] == target[k + 1]);
                lemma_plain_addresses(l, ip, code@.len() as int, k);
                lemma_plain_addresses(l, ip, code@.len() as int, k + 1);
            }
        }
    }
    out
}

/// The bytes of `v` from `start` up to `end`.
fn slice_range(v: &[u8], start: usize, end: usize) -> (r: &[u8])
    requires
        start <= end <= v@.len(),
    ensures
        r@ == v@.subrange(start as int, end as int),
{
    vstd::slice::slice_subrange(v, start, end)
}

proof fn lemma_listed_from(l: Seq<(u64, usize, bool, Seq<char>)>, i: int)
    requires
        0 <= i,
    ensures
        (forall|j: int| i <= j < l.len() && j < 32 ==> !(#[trigger] l[j]).2)
            ==> listed_until(l, i) == (if i >= l.len() || i >= 32 { i } else if l.len() <= 32 { l.len() as int } else { 32 }),
        forall|f: int| i <= f < l.len() && f < 32 && (#[trigger] l[f]).2 && (forall|j: int| i <= j < f ==> !l[j].2)
            ==> listed_until(l, i) == f + 1,
    decreases l.len() - i,
{
    if i < l.len() && i < 32 {
        lemma_listed_from(l, i + 1);
        assert forall|f: int| i <= f < l.len() && f < 32 && (#[trigger] l[f]).2 && (forall|j: int| i <= j < f ==> !l[j].2)
            implies listed_until(l, i) == f + 1 by {
            if f > i {
                assert(!l[i].2);
            }
        }
    }
}

/// A run lists its decoded instructions in order up to and including the
/// first invalid one, and never more than 32: with no invalid instruction
/// among the first 32, it lists 32 of them or all there are.
pub proof fn law_listing_length(l: Seq<(u64, usize, bool, Seq<char>)>)
    ensures
        (forall|j: int| 0 <= j < l.len() && j < 32 ==> !(#[trigger] l[j]).2)
            ==> listed_until(l, 0) == (if l.len() <= 32 { l.len() as int } else { 32 }),
        forall|f: int| 0 <= f < l.len() && f < 32 && (#[trigger] l[f]).2 && (forall|j: int| 0 <= j < f ==> !l[j].2)
            ==> listed_until(l, 0) == f + 1,
{
    lemma_listed_from(l, 0);
}

} // verus!
