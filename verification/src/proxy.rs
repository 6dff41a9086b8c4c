//! Intercepting-proxy logic: anomaly heuristics, capture conversion and the
//! rules the forwarding paths apply.

pub mod anomaly;
pub mod capture;
pub mod forward;
pub mod tls;

use vstd::prelude::*;
use crate::text::concat2;

verus! {

/// Identity used in the `source` field of events the proxy emits.
pub const CRATE_NAME: &'static str = "max-proxy";

#[verifier::external_type_specification]
#[verifier::external_body]
pub struct ExIoError(std::io::Error);

/// Calls the `Display` of `std::io::Error`. Nothing is claimed of the text.
#[verifier::external_body]
fn io_error_text(e: &std::io::Error) -> (s: String)
{
    format!("{}", e)
}

/// Proxy-layer errors.
#[derive(Debug)]
pub enum ProxyError {
    Io(std::io::Error),
    InvalidRequest(String),
    Upstream(String),
    Body(String),
    Tls(String),
    Internal(String),
}

impl ProxyError {
    /// Human-readable message: a prefix per kind, then the detail.
    pub fn message(&self) -> (s: String)
        ensures
            match self {
                ProxyError::Io(_) => s@.subrange(0, 10) == "io error: "@,
                ProxyError::InvalidRequest(d) => s@ == "invalid request: "@ + d@,
                ProxyError::Upstream(d) => s@ == "upstream error: "@ + d@,
                ProxyError::Body(d) => s@ == "body error: "@ + d@,
                ProxyError::Tls(d) => s@ == "tls error: "@ + d@,
                ProxyError::Internal(d) => s@ == "internal error: "@ + d@,
            },
    {
        match self {
            ProxyError::Io(e) => {
                let detail = io_error_text(e);
                let s = concat2("io error: ", detail.as_str());
                proof {
                    reveal_strlit("io error: ");
                    assert(s@.subrange(0, 10) =~= "io error: "@);
                }
                s
            },
            ProxyError::InvalidRequest(d) => concat2("invalid request: ", d.as_str()),
            ProxyError::Upstream(d) => concat2("upstream error: ", d.as_str()),
            ProxyError::Body(d) => concat2("body error: ", d.as_str()),
            ProxyError::Tls(d) => concat2("tls error: ", d.as_str()),
            ProxyError::Internal(d) => concat2("internal error: ", d.as_str()),
        }
    }
}

} // verus!
