use maxwell::event::{Event, EventKind, EventSeverity, RawEvent};
use maxwell::ids::{EventId, SessionId};
use maxwell::request::{Headers, HttpMethod, HttpRequest, HttpResponse, method_from_name};
use maxwell::finding::{Finding, FindingStatus};
use maxwell::error::Error;
use maxwell::{PLATFORM_NAME, PLATFORM_VERSION};

fn request(url: &str) -> HttpRequest {
    HttpRequest { method: HttpMethod::Get, url: url.to_string(), headers: Headers::new(), body: Vec::new() }
}

fn response(status: u16, body: &[u8]) -> HttpResponse {
    HttpResponse { status, headers: Headers::new(), body: body.to_vec() }
}

#[test]
fn platform_identity() {
    assert_eq!(PLATFORM_NAME, "Maxwell");
}

#[test]
fn platform_version_is_semver() {
    assert_eq!(PLATFORM_VERSION, "0.1.0");
    assert_eq!(PLATFORM_VERSION.split('.').count(), 3);
}

#[test]
fn raw_event_promotes_to_event() {
    let session = SessionId::new();
    let raw = RawEvent {
        session_id: session,
        source: "max-proxy".into(),
        kind: EventKind::Anomaly {
            request: request("https://authorized-target.example/api"),
            response: response(500, b"SQLSTATE[HY000]"),
            signal: "database_error_string".into(),
        },
    };

    let event: Event = raw.into_event();
    assert_eq!(event.session_id, session);
    assert_eq!(event.source, "max-proxy");
    assert!(matches!(event.kind, EventKind::Anomaly { .. }));
}

#[test]
fn validation_candidate_is_gated() {
    let event = Event::new(
        SessionId::new(),
        "max-exploit".to_string(),
        EventKind::ValidationCandidate {
            target: "https://authorized-target.example/api".into(),
            rationale: "error-based SQLi indicator in response body".into(),
            finding_id: uuid::Uuid::new_v4().as_u128(),
        },
    );
    assert!(matches!(event.kind, EventKind::ValidationCandidate { .. }));
}

#[test]
fn severity_follows_kind() {
    let s = SessionId::new();
    let anomaly = Event::new(s, "p".into(), EventKind::Anomaly {
        request: request("http://a/"),
        response: response(200, b""),
        signal: "x".into(),
    });
    assert_eq!(anomaly.severity, EventSeverity::High);
    let candidate = Event::new(s, "p".into(), EventKind::ValidationCandidate { target: "t".into(), rationale: "r".into(), finding_id: 7 });
    assert_eq!(candidate.severity, EventSeverity::Medium);
    let approved = Event::new(s, "p".into(), EventKind::ValidationDecision { finding_id: 7, approved: true, note: None });
    assert_eq!(approved.severity, EventSeverity::High);
    let rejected = Event::new(s, "p".into(), EventKind::ValidationDecision { finding_id: 7, approved: false, note: None });
    assert_eq!(rejected.severity, EventSeverity::Info);
    let note = Event::new(s, "p".into(), EventKind::Annotation { author: "a".into(), text: "t".into() });
    assert_eq!(note.severity, EventSeverity::Info);
    let capture = Event::new(s, "p".into(), EventKind::ProxyCapture { request: request("http://a/"), response: None });
    assert_eq!(capture.severity, EventSeverity::Info);
}

#[test]
fn severity_order() {
    assert!(EventSeverity::Info < EventSeverity::Low);
    assert!(EventSeverity::Low < EventSeverity::Medium);
    assert!(EventSeverity::Medium < EventSeverity::High);
    assert!(EventSeverity::High < EventSeverity::Critical);
    assert_eq!(EventSeverity::Critical.rank(), 4);
    assert!(EventSeverity::High.at_least(&EventSeverity::Medium));
    assert!(!EventSeverity::Low.at_least(&EventSeverity::Medium));
}

#[test]
fn ids_are_random_v4_and_print_hyphenated() {
    let id = EventId::new();
    assert_eq!((id.0 >> 76) & 0xf, 4);
    assert_eq!((id.0 >> 62) & 0x3, 2);
    let fixed = EventId(0x0123_4567_89ab_cdef_0011_2233_4455_6677);
    assert_eq!(fixed.to_text(), "01234567-89ab-cdef-0011-223344556677");
    assert_ne!(SessionId::new(), SessionId::new());
}

#[test]
fn method_names_map_back() {
    for m in [HttpMethod::Get, HttpMethod::Post, HttpMethod::Put, HttpMethod::Patch, HttpMethod::Delete,
        HttpMethod::Head, HttpMethod::Options, HttpMethod::Trace, HttpMethod::Connect] {
        assert_eq!(method_from_name(m.as_str()), m);
    }
    assert_eq!(method_from_name("QUERY"), HttpMethod::Get);
    assert_eq!(method_from_name("get"), HttpMethod::Get);
    assert_eq!(HttpMethod::Delete.as_str(), "DELETE");
}

#[test]
fn headers_replace_and_keep_order() {
    let mut h = Headers::new();
    h.insert("accept".into(), "a".into());
    h.insert("host".into(), "x".into());
    h.insert("accept".into(), "b".into());
    assert_eq!(h.len(), 2);
    assert_eq!(h.get("accept").map(|s| s.as_str()), Some("b"));
    assert_eq!(h.get("host").map(|s| s.as_str()), Some("x"));
    assert!(h.get("Accept").is_none());
    let names: Vec<&str> = h.as_pairs().iter().map(|p| p.0.as_str()).collect();
    assert_eq!(names, vec!["accept", "host"]);
    let copy = h.clone();
    assert_eq!(copy.as_pairs(), h.as_pairs());
}

#[test]
fn error_messages() {
    assert_eq!(Error::NotFound("x".into()).message(), "not found: x");
    assert_eq!(Error::InvalidArgument("y".into()).message(), "invalid argument: y");
    assert_eq!(Error::PermissionDenied("z".into()).message(), "permission denied: z");
    assert_eq!(Error::Serialization("s".into()).message(), "serialization error: s");
    assert_eq!(Error::Internal("i".into()).message(), "internal error: i");
}

#[test]
fn pending_finding() {
    let f = Finding::pending("https://t.example".to_string(), "why".to_string());
    assert_eq!(f.status, FindingStatus::Pending);
    assert!(f.note.is_none());
    assert_eq!(f.target, "https://t.example");
    assert_eq!(f.rationale, "why");
}
