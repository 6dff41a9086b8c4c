//! Static binary analysis: structure parse and light disassembly. Read-only:
//! samples are never executed.

pub mod analyze;
pub mod disasm;
pub mod functions;
pub mod layout;
pub mod table;

use vstd::prelude::*;

verus! {

/// Identity used in the `source` field of events this module emits.
pub const CRATE_NAME: &'static str = "max-binwalk";

} // verus!
