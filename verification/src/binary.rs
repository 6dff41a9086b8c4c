//! Binary analysis contracts.

use vstd::prelude::*;

verus! {

/// Recognized executable container formats.
#[derive(Debug, Clone, Copy, PartialEq, Eq, Structural)]
pub enum BinaryFormat {
    Pe,
    Elf,
    MachO,
    Unknown,
}

/// One disassembled instruction.
#[derive(Debug, Clone, PartialEq, Eq)]
pub struct InstructionInfo {
    pub address: u64,
    pub bytes: String,
    pub text: String,
}

/// Disassembled / recovered function summary.
#[derive(Debug, Clone, PartialEq, Eq)]
pub struct FunctionInfo {
    pub name: Option<String>,
    pub address: u64,
    pub size: Option<u64>,
    pub disasm: Vec<InstructionInfo>,
}

/// Summary of a parsed executable.
#[derive(Debug, Clone, PartialEq, Eq)]
pub struct BinaryInfo {
    pub path: String,
    pub format: BinaryFormat,
    pub entry_point: Option<u64>,
    pub architecture: Option<String>,
    pub functions: Vec<FunctionInfo>,
}

} // verus!
