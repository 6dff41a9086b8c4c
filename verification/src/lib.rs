//! Shared contracts, collaboration core, proxy heuristics and binary
//! analysis for the Maxwell security workbench.

pub mod assoc;
pub mod binary;
pub mod binwalk;
pub mod console;
pub mod control;
pub mod bus;
pub mod error;
pub mod event;
pub mod finding;
pub mod ids;
pub mod orchestrator;
pub mod proxy;
pub mod request;
pub mod session;
pub mod text;

use vstd::prelude::*;

verus! {

/// Platform identity, used in logs and capability negotiation.
pub const PLATFORM_NAME: &'static str = "Maxwell";

/// Version of the platform, the version of this package.
pub const PLATFORM_VERSION: &'static str = "0.1.0";

} // verus!
