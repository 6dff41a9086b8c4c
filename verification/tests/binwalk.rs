use maxwell::binary::BinaryFormat;
use maxwell::binwalk::analyze::{analyze_bytes, elf_info, macho_info, pe_info};
use maxwell::binwalk::disasm::{disassemble, list_decoded};
use maxwell::binwalk::layout::{AddressMap, ElfSegment, MachSegment, PeSection, elf_offset_for_va, macho_offset_for_va, pe_offset_for_va};
use maxwell::binwalk::table::AddressTable;
use maxwell::binwalk::functions::{build_functions, listing_within};

#[test]
fn disassembles_x86_64_prologue() {
    let code = [0x55u8, 0x48, 0x89, 0xe5, 0xc3];
    let out = disassemble(&code, 0x401000, 64);
    assert_eq!(out.len(), 3);
    assert_eq!(out[0].address, 0x401000);
    assert_eq!(out[0].bytes, "55");
    assert_eq!(out[0].text, "push rbp");
    assert_eq!(out[1].address, 0x401001);
    assert_eq!(out[1].bytes, "48 89 e5");
    assert_eq!(out[1].text, "mov rbp,rsp");
    assert_eq!(out[2].bytes, "c3");
    assert_eq!(out[2].text, "ret");
}

#[test]
fn disassembly_edge_cases() {
    assert!(disassemble(&[], 0, 64).is_empty());
    assert!(disassemble(&[0x90], 0, 8).is_empty());
    let nops = [0x90u8; 100];
    assert_eq!(disassemble(&nops, 0, 32).len(), 32);
    let truncated = disassemble(&[0x0f], 0x10, 64);
    assert_eq!(truncated.len(), 1);
    assert_eq!(truncated[0].address, 0x10);
    assert_eq!(truncated[0].bytes, "0f");
    let one = disassemble(&[0xc3], 0, 16);
    assert_eq!(one.len(), 1);
    assert_eq!(one[0].text, "ret");
}

#[test]
fn segment_lookup() {
    let segs = vec![
        ElfSegment { p_type: 6, p_vaddr: 0x1000, p_filesz: 0x100, p_offset: 0x999 },
        ElfSegment { p_type: 1, p_vaddr: 0x1000, p_filesz: 0x100, p_offset: 0x200 },
    ];
    assert_eq!(elf_offset_for_va(&segs, 0x1010), Some(0x210));
    assert_eq!(elf_offset_for_va(&segs, 0x1100), None);
    let secs = vec![PeSection { virtual_address: 0x1000, virtual_size: 0x10, size_of_raw_data: 0x200, pointer_to_raw_data: 0x400 }];
    assert_eq!(pe_offset_for_va(&secs, 0x401100, 0x400000), Some(0x500));
    assert_eq!(pe_offset_for_va(&secs, 0x3fffff, 0x400000), None);
    let ms = vec![MachSegment { vmaddr: 0x100000000, filesize: 0x1000, fileoff: 0 }];
    assert_eq!(macho_offset_for_va(&ms, 0x100000f00), Some(0xf00));
    assert_eq!(macho_offset_for_va(&ms, 0x100001000), None);
}

#[test]
fn address_table_keeps_order_and_first_names() {
    let mut t = AddressTable::new();
    t.insert(30, Some("c".into()));
    t.insert(10, Some("a".into()));
    t.insert_if_absent(20, Some("b".into()));
    t.insert_if_absent(10, Some("other".into()));
    assert_eq!(t.len(), 3);
    assert_eq!(t.entry(0), (10, Some("a".to_string())));
    assert_eq!(t.entry(1), (20, Some("b".to_string())));
    assert_eq!(t.entry(2), (30, Some("c".to_string())));
    t.insert(10, None);
    assert_eq!(t.entry(0), (10, None));
}

#[test]
fn function_listing_sizes_and_limit() {
    let mut t = AddressTable::new();
    for i in 0..70u64 {
        t.insert(0x1000 + i * 0x10, None);
    }
    let map = AddressMap::Elf(Vec::new());
    let fs = build_functions(&[], &t, 64, &map);
    assert_eq!(fs.len(), 64);
    assert_eq!(fs[0].address, 0x1000);
    assert_eq!(fs[0].size, Some(0x10));
    assert_eq!(fs[63].size, None);
    assert!(fs.iter().all(|f| f.disasm.is_empty()));
}

#[test]
fn elf_listing_from_parts() {
    let mut bytes = vec![0u8; 0x40];
    bytes.extend_from_slice(&[0x55, 0x48, 0x89, 0xe5, 0xc3]);
    let segs = vec![ElfSegment { p_type: 1, p_vaddr: 0x401000, p_filesz: bytes.len() as u64, p_offset: 0 }];
    let syms = vec![
        (true, 0x401040u64, Some("main".to_string())),
        (true, 0x401000u64, Some("not_start".to_string())),
        (false, 0x401020u64, Some("data".to_string())),
        (true, 0u64, Some("undefined".to_string())),
    ];
    let info = elf_info("/opt/app/server".into(), &bytes, 62, 0x401000, &syms, &Vec::new(), segs);
    assert_eq!(info.format, BinaryFormat::Elf);
    assert_eq!(info.entry_point, Some(0x401000));
    assert_eq!(info.architecture.as_deref(), Some("x86_64"));
    assert_eq!(info.functions.len(), 2);
    assert_eq!(info.functions[0].name.as_deref(), Some("_start"));
    assert_eq!(info.functions[0].size, Some(0x40));
    assert_eq!(info.functions[1].name.as_deref(), Some("main"));
    assert_eq!(info.functions[1].size, None);
    assert_eq!(info.functions[1].disasm.len(), 3);
    assert_eq!(info.functions[1].disasm[2].text, "ret");
}

#[test]
fn pe_and_macho_listings_from_parts() {
    let exports = vec![(Some("Run".to_string()), 0x2000u64), (None, 0x3000u64)];
    let info = pe_info("a.exe".into(), &[], 0x14c, 0x400000, Some(0x1000), &exports, Vec::new());
    assert_eq!(info.format, BinaryFormat::Pe);
    assert_eq!(info.entry_point, Some(0x401000));
    assert_eq!(info.architecture.as_deref(), Some("x86"));
    let names: Vec<Option<&str>> = info.functions.iter().map(|f| f.name.as_deref()).collect();
    assert_eq!(names, vec![Some("entry"), Some("Run")]);
    let syms = vec![
        Some(("_main_helper".to_string(), 0x100000f00u64, false)),
        Some(("local".to_string(), 0x100000f80u64, false)),
        Some(("exported".to_string(), 0x100000fa0u64, true)),
        None,
    ];
    let m = macho_info("a.out".into(), &[], 0x0100_000c, 0, &syms, Vec::new());
    assert_eq!(m.format, BinaryFormat::MachO);
    assert_eq!(m.entry_point, None);
    assert_eq!(m.architecture.as_deref(), Some("aarch64"));
    let names: Vec<Option<&str>> = m.functions.iter().map(|f| f.name.as_deref()).collect();
    assert_eq!(names, vec![Some("_main_helper"), Some("exported")]);
}

#[test]
fn unparseable_bytes_are_an_invalid_argument() {
    match analyze_bytes("tiny".into(), &[1, 2]) {
        Err(maxwell::error::Error::InvalidArgument(m)) => assert!(m.starts_with("parse tiny: ")),
        other => panic!("unexpected: {other:?}"),
    }
    let unknown = analyze_bytes("blob".into(), &[0u8; 64]).unwrap();
    assert_eq!(unknown.format, BinaryFormat::Unknown);
    assert!(unknown.functions.is_empty());
}

#[test]
fn listings_past_the_end_of_the_file_are_detected() {
    let mut t = AddressTable::new();
    t.insert(0x1010, None);
    let past = AddressMap::Elf(vec![ElfSegment { p_type: 1, p_vaddr: 0x1000, p_filesz: 0x100, p_offset: 0x200 }]);
    assert!(past.offset_within(0x1010, 0x210));
    assert!(!past.offset_within(0x1010, 0x20f));
    assert!(!listing_within(0x100, &t, 64, &past));
    assert!(listing_within(0x210, &t, 64, &past));
    assert!(listing_within(0x100, &t, 0, &past));
    let overflowing = AddressMap::Elf(vec![ElfSegment { p_type: 1, p_vaddr: 0x1000, p_filesz: 0x100, p_offset: u64::MAX }]);
    assert!(!overflowing.offset_within(0x1010, usize::MAX));
    assert!(overflowing.offset_within(0x2000, 0));
    let pe = AddressMap::Pe { image_base: 0x400000, sections: vec![PeSection { virtual_address: 0x1000, virtual_size: 0x10, size_of_raw_data: 0x200, pointer_to_raw_data: 0x400 }] };
    assert!(pe.offset_within(0x401100, 0x500));
    assert!(!pe.offset_within(0x401100, 0x4ff));
    let mach = AddressMap::MachO(vec![MachSegment { vmaddr: 0x100000000, filesize: 0x1000, fileoff: 0x10 }]);
    assert!(!mach.offset_within(0x100000f00, 0xf00));
}

/// A minimal 64-bit x86 ELF executable: header, one loadable segment whose
/// file image starts at `p_offset`, entry point 0x400000.
fn tiny_elf(p_offset: u64) -> Vec<u8> {
    let mut b = vec![0x7f, b'E', b'L', b'F', 2, 1, 1, 0, 0, 0, 0, 0, 0, 0, 0, 0];
    b.extend_from_slice(&2u16.to_le_bytes());
    b.extend_from_slice(&62u16.to_le_bytes());
    b.extend_from_slice(&1u32.to_le_bytes());
    b.extend_from_slice(&0x400000u64.to_le_bytes());
    b.extend_from_slice(&64u64.to_le_bytes());
    b.extend_from_slice(&0u64.to_le_bytes());
    b.extend_from_slice(&0u32.to_le_bytes());
    for v in [64u16, 56, 1, 64, 0, 0] {
        b.extend_from_slice(&v.to_le_bytes());
    }
    b.extend_from_slice(&1u32.to_le_bytes());
    b.extend_from_slice(&5u32.to_le_bytes());
    for v in [p_offset, 0x400000, 0x400000, 0x100, 0x100, 0x1000] {
        b.extend_from_slice(&v.to_le_bytes());
    }
    b.extend_from_slice(&[0xc3; 8]);
    b
}

#[test]
fn elf_whose_entry_lies_past_the_end_of_the_file_is_refused() {
    let inside = analyze_bytes("tiny".into(), &tiny_elf(120)).unwrap();
    assert_eq!(inside.format, BinaryFormat::Elf);
    assert_eq!(inside.entry_point, Some(0x400000));
    assert_eq!(inside.functions.len(), 1);
    assert_eq!(inside.functions[0].name.as_deref(), Some("_start"));
    assert_eq!(inside.functions[0].disasm[0].text, "ret");
    match analyze_bytes("trunc".into(), &tiny_elf(0x10000)) {
        Err(maxwell::error::Error::InvalidArgument(m)) => {
            assert_eq!(m, "parse trunc: a listed function lies past the end of the file")
        }
        other => panic!("unexpected: {other:?}"),
    }
}

#[test]
fn disassembly_lists_address_bytes_and_text() {
    let out = disassemble(&[0x90u8, 0xc3], 0x1000, 64);
    assert_eq!(out.len(), 2);
    assert_eq!((out[0].address, out[0].bytes.as_str(), out[0].text.as_str()), (0x1000, "90", "nop"));
    assert_eq!((out[1].address, out[1].bytes.as_str(), out[1].text.as_str()), (0x1001, "c3", "ret"));
}

#[test]
fn each_function_is_disassembled_from_its_own_window() {
    let mut t = AddressTable::new();
    t.insert(0x1000, Some("f".into()));
    t.insert(0x1001, None);
    let map = AddressMap::Elf(vec![ElfSegment { p_type: 1, p_vaddr: 0x1000, p_filesz: 2, p_offset: 0 }]);
    let fs = build_functions(&[0x90u8, 0xc3], &t, 64, &map);
    assert_eq!(fs.len(), 2);
    assert_eq!(fs[0].name.as_deref(), Some("f"));
    assert_eq!(fs[0].size, Some(1));
    assert_eq!(fs[0].disasm.len(), 1);
    assert_eq!((fs[0].disasm[0].address, fs[0].disasm[0].bytes.as_str(), fs[0].disasm[0].text.as_str()), (0x1000, "90", "nop"));
    assert_eq!(fs[1].size, None);
    assert_eq!(fs[1].disasm.len(), 1);
    assert_eq!((fs[1].disasm[0].address, fs[1].disasm[0].bytes.as_str(), fs[1].disasm[0].text.as_str()), (0x1001, "c3", "ret"));
}

#[test]
fn each_instruction_starts_where_the_previous_ends() {
    let code = [0x55u8, 0x48, 0x89, 0xe5, 0x90, 0xc3];
    let out = disassemble(&code, 0xffff_ffff_ffff_fffe, 64);
    assert_eq!(out.len(), 4);
    assert_eq!(out[0].address, 0xffff_ffff_ffff_fffe);
    assert_eq!(out[1].address, 0xffff_ffff_ffff_ffff);
    assert_eq!(out[2].address, 0x2);
    assert_eq!(out[3].address, 0x3);
    let bad = disassemble(&[0x90u8, 0x0f, 0x0f, 0x0f], 0, 64);
    assert_eq!(bad.len(), 2);
    assert_eq!(bad[0].text, "nop");
}

#[test]
fn analysing_the_same_bytes_twice_agrees() {
    let bytes = tiny_elf(120);
    let a = analyze_bytes("tiny".into(), &bytes).unwrap();
    let b = analyze_bytes("tiny".into(), &bytes).unwrap();
    assert_eq!(a, b);
    let e1 = analyze_bytes("x".into(), &[1, 2]).unwrap_err();
    let e2 = analyze_bytes("x".into(), &[1, 2]).unwrap_err();
    assert_eq!(e1.message(), e2.message());
}

#[test]
fn decoded_instructions_are_listed_up_to_the_first_invalid() {
    let decoded = vec![
        (0x10u64, 1usize, false, "nop".to_string()),
        (0x11, 2, true, "(bad)".to_string()),
        (0x13, 1, false, "ret".to_string()),
    ];
    let out = list_decoded(&[0x90, 0x0f, 0x0b, 0xc3], 0x10, &decoded);
    assert_eq!(out.len(), 2);
    assert_eq!((out[0].address, out[0].bytes.as_str(), out[0].text.as_str()), (0x10, "90", "nop"));
    assert_eq!((out[1].address, out[1].bytes.as_str(), out[1].text.as_str()), (0x11, "0f 0b", "(bad)"));
    let plain = disassemble(&[0x55u8, 0x48, 0x89, 0xe5, 0xc3], 0x1000, 64);
    assert_eq!(plain[1].address, plain[0].address + 1);
    assert_eq!(plain[2].address, plain[1].address + 3);
}
