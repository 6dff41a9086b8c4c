//! Error taxonomy shared by all modules.

use vstd::prelude::*;
use crate::text::concat2;

verus! {

/// Top-level error for workbench operations.
#[derive(Debug)]
pub enum Error {
    InvalidArgument(String),
    NotFound(String),
    PermissionDenied(String),
    Serialization(String),
    Internal(String),
}

/// The text shown for an error: a fixed prefix per kind, then the detail.
pub open spec fn error_text(e: Error) -> Seq<char> {
    match e {
        Error::InvalidArgument(d) => "invalid argument: "@ + d@,
        Error::NotFound(d) => "not found: "@ + d@,
        Error::PermissionDenied(d) => "permission denied: "@ + d@,
        Error::Serialization(d) => "serialization error: "@ + d@,
        Error::Internal(d) => "internal error: "@ + d@,
    }
}

impl Error {
    /// Human-readable message for the error (its display form).
    pub fn message(&self) -> (s: String)
        ensures
            s@ == error_text(*self),
    {
        match self {
            Error::InvalidArgument(d) => concat2("invalid argument: ", d.as_str()),
            Error::NotFound(d) => concat2("not found: ", d.as_str()),
            Error::PermissionDenied(d) => concat2("permission denied: ", d.as_str()),
            Error::Serialization(d) => concat2("serialization error: ", d.as_str()),
            Error::Internal(d) => concat2("internal error: ", d.as_str()),
        }
    }
}

} // verus!
