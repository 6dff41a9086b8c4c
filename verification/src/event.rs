//! Events broadcast by the orchestrator.

use vstd::prelude::*;
use crate::binary::BinaryInfo;
use crate::ids::{Timestamp, EventId, SessionId, is_random_uuid, now};
use crate::request::{HttpRequest, HttpResponse};

verus! {

/// Severity hint for UI highlighting and alert routing (ordered from
/// `Info` up to `Critical`).
#[derive(Debug, Clone, Copy, PartialEq, Eq, PartialOrd, Ord, Structural)]
pub enum EventSeverity {
    Info,
    Low,
    Medium,
    High,
    Critical,
}

/// Rank of a severity in its order, `Info` lowest.
pub open spec fn severity_rank(s: EventSeverity) -> int {
    match s {
        EventSeverity::Info => 0,
        EventSeverity::Low => 1,
        EventSeverity::Medium => 2,
        EventSeverity::High => 3,
        EventSeverity::Critical => 4,
    }
}

impl EventSeverity {
    /// Rank of the severity, `Info` = 0 up to `Critical` = 4.
    pub fn rank(&self) -> (r: u8)
        ensures
            r == severity_rank(*self),
    {
        match self {
            EventSeverity::Info => 0,
            EventSeverity::Low => 1,
            EventSeverity::Medium => 2,
            EventSeverity::High => 3,
            EventSeverity::Critical => 4,
        }
    }

    /// Whether `self` is at least as severe as `other`.
    pub fn at_least(&self, other: &EventSeverity) -> (r: bool)
        ensures
            r == (severity_rank(*self) >= severity_rank(*other)),
    {
        self.rank() >= other.rank()
    }
}

/// Payload kinds carried by an [`Event`].
#[derive(Debug, Clone)]
pub enum EventKind {
    /// Raw proxy capture before enrichment.
    ProxyCapture { request: HttpRequest, response: Option<HttpResponse> },
    /// Anomalous response flagged by the proxy (e.g. a database error string).
    Anomaly { request: HttpRequest, response: HttpResponse, signal: String },
    /// Binary analysis result.
    BinaryAnalysis { info: BinaryInfo },
    /// Validation / PoC candidate: requires analyst sign-off before execution.
    ValidationCandidate { target: String, rationale: String, finding_id: u128 },
    /// Analyst approved or rejected a validation candidate.
    ValidationDecision { finding_id: u128, approved: bool, note: Option<String> },
    /// Free-form collaboration annotation from a session participant.
    Annotation { author: String, text: String },
}

/// The severity an event of this kind carries: anomalies and approved
/// validation decisions are high, validation candidates medium, the rest
/// informational.
pub open spec fn severity_for(kind: EventKind) -> EventSeverity {
    match kind {
        EventKind::Anomaly { .. } => EventSeverity::High,
        EventKind::ValidationCandidate { .. } => EventSeverity::Medium,
        EventKind::ValidationDecision { approved, .. } => if approved { EventSeverity::High } else { EventSeverity::Info },
        EventKind::BinaryAnalysis { .. } => EventSeverity::Info,
        EventKind::ProxyCapture { .. } => EventSeverity::Info,
        EventKind::Annotation { .. } => EventSeverity::Info,
    }
}

/// Anomalies and approved validation decisions are high, validation
/// candidates medium, and captures, annotations, binary analyses and rejected
/// decisions informational; severities rank from informational (0) up to
/// critical (4).
pub proof fn law_event_severity(kind: EventKind, s: EventSeverity)
    ensures
        kind is Anomaly ==> severity_for(kind) == EventSeverity::High,
        kind is ValidationCandidate ==> severity_for(kind) == EventSeverity::Medium,
        kind matches EventKind::ValidationDecision { approved, .. } ==> severity_for(kind)
            == (if approved { EventSeverity::High } else { EventSeverity::Info }),
        kind is ProxyCapture || kind is Annotation || kind is BinaryAnalysis ==> severity_for(kind) == EventSeverity::Info,
        s == EventSeverity::Info ==> severity_rank(s) == 0,
        s == EventSeverity::Low ==> severity_rank(s) == 1,
        s == EventSeverity::Medium ==> severity_rank(s) == 2,
        s == EventSeverity::High ==> severity_rank(s) == 3,
        s == EventSeverity::Critical ==> severity_rank(s) == 4,
{
}

/// The severity of an event kind.
pub fn severity_of(kind: &EventKind) -> (s: EventSeverity)
    ensures
        s == severity_for(*kind),
{
    match kind {
        EventKind::Anomaly { .. } => EventSeverity::High,
        EventKind::ValidationCandidate { .. } => EventSeverity::Medium,
        EventKind::ValidationDecision { approved, .. } => if *approved { EventSeverity::High } else { EventSeverity::Info },
        EventKind::BinaryAnalysis { .. } => EventSeverity::Info,
        EventKind::ProxyCapture { .. } => EventSeverity::Info,
        EventKind::Annotation { .. } => EventSeverity::Info,
    }
}

/// Enriched event fanned out to subscribers.
#[derive(Debug, Clone)]
pub struct Event {
    pub id: EventId,
    pub session_id: SessionId,
    pub severity: EventSeverity,
    /// Creation time, microseconds since the Unix epoch (UTC).
    pub created_at: Timestamp,
    pub source: String,
    pub kind: EventKind,
}

impl Event {
    /// Enriches a payload: a fresh random id, the current time, and the
    /// severity its kind carries.
    pub fn new(session_id: SessionId, source: String, kind: EventKind) -> (e: Self)
        ensures
            e.session_id == session_id,
            e.source == source,
            e.kind == kind,
            e.severity == severity_for(kind),
            is_random_uuid(e.id.0),
    {
        let severity = severity_of(&kind);
        Event { id: EventId::new(), session_id, severity, created_at: now(), source, kind }
    }
}

/// Envelope emitted by producers before orchestration.
#[derive(Debug, Clone)]
pub struct RawEvent {
    pub session_id: SessionId,
    pub source: String,
    pub kind: EventKind,
}

impl RawEvent {
    /// Promotes the envelope to an enriched [`Event`].
    pub fn into_event(self) -> (e: Event)
        ensures
            e.session_id == self.session_id,
            e.source == self.source,
            e.kind == self.kind,
            e.severity == severity_for(self.kind),
            is_random_uuid(e.id.0),
    {
        Event::new(self.session_id, self.source, self.kind)
    }
}

} // verus!
