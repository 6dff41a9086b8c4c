use maxwell::console::{log_event, LogLevel};
use maxwell::control::ProxyState;
use maxwell::event::{Event, EventKind};
use maxwell::ids::{EventId, SessionId};
use maxwell::request::{Headers, HttpMethod, HttpRequest, HttpResponse};

#[test]
fn start_is_refused_while_running() {
    let mut st = ProxyState::new();
    assert!(st.check_can_start().is_ok());
    st.record_started("sid".into(), "127.0.0.1:8888".into(), "/ca.pem".into(), true);
    assert_eq!(st.check_can_start().unwrap_err(), "proxy already running");
    let status = st.status("1.2.3");
    assert!(status.running);
    assert_eq!(status.platform, "Maxwell");
    assert_eq!(status.version, "1.2.3");
    assert_eq!(status.listen.as_deref(), Some("127.0.0.1:8888"));
    st.record_stopped();
    assert!(st.check_can_start().is_ok());
    let after = st.status("1.2.3");
    assert!(!after.running);
    assert_eq!(after.session_id.as_deref(), Some("sid"));
    assert!(after.mitm);
    st.record_stopped();
    let again = st.status("1.2.3");
    assert!(!again.running);
    assert_eq!(again.session_id.as_deref(), Some("sid"));
    assert_eq!(again.listen.as_deref(), Some("127.0.0.1:8888"));
    assert_eq!(again.ca_path.as_deref(), Some("/ca.pem"));
    assert!(again.mitm);
}

#[test]
fn feed_lines() {
    let mut e = Event::new(SessionId::new(), "max-proxy".into(), EventKind::ProxyCapture {
        request: HttpRequest { method: HttpMethod::Post, url: "http://t/".into(), headers: Headers::new(), body: Vec::new() },
        response: Some(HttpResponse { status: 502, headers: Headers::new(), body: Vec::new() }),
    });
    e.id = EventId(0);
    let line = log_event(&e);
    assert_eq!(line.level, LogLevel::Info);
    assert_eq!(line.message, "capture");
    let fields: Vec<(&str, &str)> = line.fields.iter().map(|f| (f.0.as_str(), f.1.as_str())).collect();
    assert_eq!(fields, vec![("id", "00000000-0000-0000-0000-000000000000"), ("method", "POST"), ("url", "http://t/"), ("status", "502")]);

    let d = Event::new(SessionId::new(), "o".into(), EventKind::ValidationDecision { finding_id: 1, approved: true, note: Some("lab".into()) });
    let line = log_event(&d);
    assert_eq!(line.message, "validation decision");
    assert_eq!(line.fields[1].1, "00000000-0000-0000-0000-000000000001");
    assert_eq!(line.fields[2].1, "true");
    assert_eq!(line.fields.len(), 3);
    assert_eq!(line.debug_fields, vec![("note".to_string(), Some("lab".to_string()))]);
    let none = Event::new(SessionId::new(), "o".into(), EventKind::ValidationDecision { finding_id: 1, approved: false, note: None });
    assert_eq!(log_event(&none).debug_fields, vec![("note".to_string(), None)]);

    let c = Event::new(SessionId::new(), "o".into(), EventKind::ValidationCandidate { target: "t".into(), rationale: "r".into(), finding_id: 1 });
    assert_eq!(log_event(&c).level, LogLevel::Warn);
}
