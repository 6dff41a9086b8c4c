//! Capture history and analyst findings.

use vstd::prelude::*;
use crate::ids::{Timestamp, CaptureId, FindingId, is_random_uuid, now};
use crate::request::{HttpRequest, HttpResponse};

verus! {

/// One intercepted exchange kept for history / replay.
#[derive(Debug)]
pub struct CaptureRecord {
    pub id: CaptureId,
    /// Creation time, microseconds since the Unix epoch (UTC).
    pub created_at: Timestamp,
    pub request: HttpRequest,
    pub response: Option<HttpResponse>,
    pub anomaly_signal: Option<String>,
}

impl CaptureRecord {
    /// A record with a fresh id, stamped now.
    pub fn new(request: HttpRequest, response: Option<HttpResponse>, anomaly_signal: Option<String>) -> (r: Self)
        ensures
            r.request == request,
            r.response == response,
            r.anomaly_signal == anomaly_signal,
            is_random_uuid(r.id.0),
    {
        CaptureRecord { id: CaptureId::new(), created_at: now(), request, response, anomaly_signal }
    }
}

/// Lifecycle of a finding in the operator queue.
#[derive(Debug, Clone, Copy, PartialEq, Eq, Structural)]
pub enum FindingStatus {
    Pending,
    Approved,
    Rejected,
}

/// Operator-console finding (analyst-gated; never auto-executed).
#[derive(Debug, Clone, PartialEq, Eq)]
pub struct Finding {
    pub id: FindingId,
    /// Creation time, microseconds since the Unix epoch (UTC).
    pub created_at: Timestamp,
    pub target: String,
    pub rationale: String,
    pub status: FindingStatus,
    pub note: Option<String>,
}

impl Finding {
    /// A new finding awaiting the analyst's decision.
    pub fn pending(target: String, rationale: String) -> (f: Self)
        ensures
            f.target == target,
            f.rationale == rationale,
            f.status == FindingStatus::Pending,
            f.note is None,
            is_random_uuid(f.id.0),
    {
        Finding { id: FindingId::new(), created_at: now(), target, rationale, status: FindingStatus::Pending, note: None }
    }
}

} // verus!
