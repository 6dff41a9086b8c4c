use maxwell::error::Error;
use maxwell::event::{EventKind, RawEvent};
use maxwell::ids::SessionId;
use maxwell::orchestrator::{open_lead_session, Orchestrator};
use maxwell::request::{Headers, HttpMethod, HttpRequest, HttpResponse};
use maxwell::session::SessionRole;

#[test]
fn session_broadcasts_anomaly_to_subscribers() {
    let mut orch = Orchestrator::new();
    let session = orch.create_session().unwrap();
    let mut rx = session.bus().subscribe();

    session.join(&mut orch, "alice".to_string(), SessionRole::Analyst).unwrap();

    let raw = RawEvent {
        session_id: session.id,
        source: "max-proxy".into(),
        kind: EventKind::Anomaly {
            request: HttpRequest {
                method: HttpMethod::Get,
                url: "https://authorized-target.example/api".into(),
                headers: Headers::new(),
                body: Vec::new(),
            },
            response: HttpResponse { status: 500, headers: Headers::new(), body: b"SQLSTATE[HY000]".to_vec() },
            signal: "database_error_string".into(),
        },
    };

    let published = session.ingest(raw).unwrap();
    let received = rx.try_recv().unwrap();

    assert_eq!(published.id.0, received.id.0);
    assert!(matches!(received.kind, EventKind::Anomaly { .. }));
}

#[test]
fn observer_cannot_approve_validation() {
    let mut orch = Orchestrator::new();
    let session = orch.create_session().unwrap();
    session.join(&mut orch, "viewer".to_string(), SessionRole::Observer).unwrap();

    let err = session.decide_validation(&orch, "viewer", uuid::Uuid::new_v4().as_u128(), true, None).unwrap_err();

    assert!(matches!(err, Error::PermissionDenied(_)));
}

#[test]
fn lead_can_approve_validation() {
    let mut orch = Orchestrator::new();
    let session = orch.create_session().unwrap();
    let mut rx = session.bus().subscribe();

    session.join(&mut orch, "lead".to_string(), SessionRole::Lead).unwrap();
    let finding = uuid::Uuid::new_v4().as_u128();

    session.decide_validation(&orch, "lead", finding, true, Some("scoped lab only".into())).unwrap();

    let event = rx.try_recv().unwrap();
    match event.kind {
        EventKind::ValidationDecision { finding_id, approved, .. } => {
            assert_eq!(finding_id, finding);
            assert!(approved);
        }
        other => panic!("unexpected kind: {other:?}"),
    }
}

#[test]
fn annotation_requires_membership() {
    let mut orch = Orchestrator::new();
    let session = orch.create_session().unwrap();

    let err = session.annotate(&orch, "ghost".to_string(), "hello".to_string()).unwrap_err();
    assert!(matches!(err, Error::NotFound(_)));
    assert_eq!(err.message(), "not found: participant 'ghost' not in session");
}

#[test]
fn ingest_rescopes_to_session() {
    let mut orch = Orchestrator::new();
    let session = orch.create_session().unwrap();
    let other = SessionId::new();
    let e = session
        .ingest(RawEvent { session_id: other, source: "x".into(), kind: EventKind::Annotation { author: "a".into(), text: "b".into() } })
        .unwrap();
    assert_eq!(e.session_id, session.id);
    assert_eq!(e.source, "x");
}

#[test]
fn rejoin_replaces_role_and_keeps_order() {
    let mut orch = Orchestrator::new();
    let session = orch.create_session().unwrap();
    session.join(&mut orch, "bob".to_string(), SessionRole::Lead).unwrap();
    session.join(&mut orch, "carol".to_string(), SessionRole::Analyst).unwrap();
    session.join(&mut orch, "bob".to_string(), SessionRole::Observer).unwrap();
    let ps = session.participants(&orch).unwrap();
    assert_eq!(ps.len(), 2);
    assert_eq!(ps[0].name, "bob");
    assert_eq!(ps[0].role, SessionRole::Observer);
    assert_eq!(ps[1].name, "carol");
    let err = session.decide_validation(&orch, "bob", 1, false, None).unwrap_err();
    assert_eq!(err.message(), "permission denied: observers cannot issue validation decisions");
    let ok = session.decide_validation(&orch, "carol", 1, false, None).unwrap();
    assert_eq!(ok.source, "max-orchestrator");
    let unknown = session.decide_validation(&orch, "dave", 1, true, None).unwrap_err();
    assert!(matches!(unknown, Error::NotFound(_)));
}

#[test]
fn annotation_by_member_is_published() {
    let mut orch = Orchestrator::new();
    let session = orch.create_session().unwrap();
    let mut rx = session.bus().subscribe();
    session.join(&mut orch, "erin".to_string(), SessionRole::Observer).unwrap();
    let e = session.annotate(&orch, "erin".to_string(), "looks odd".to_string()).unwrap();
    let got = rx.try_recv().unwrap();
    assert_eq!(e.id, got.id);
    match got.kind {
        EventKind::Annotation { author, text } => {
            assert_eq!(author, "erin");
            assert_eq!(text, "looks odd");
        }
        other => panic!("unexpected kind: {other:?}"),
    }
}

#[test]
fn sessions_are_registered_and_found() {
    let mut orch = Orchestrator::new();
    assert_eq!(orch.session_count().unwrap(), 0);
    let a = orch.create_session().unwrap();
    let b = orch.create_session().unwrap();
    assert_eq!(orch.session_count().unwrap(), 2);
    assert_eq!(orch.get_session(a.id).unwrap().id, a.id);
    assert_eq!(orch.get_session(b.id).unwrap().id, b.id);
    let missing = SessionId(0x0123_4567_89ab_cdef_0011_2233_4455_6677);
    let err = orch.get_session(missing).unwrap_err();
    assert_eq!(err.message(), "not found: session 01234567-89ab-cdef-0011-223344556677");
}

#[test]
fn publishing_without_subscribers_still_succeeds() {
    let bus = maxwell::bus::EventBus::new(4);
    let e = bus
        .publish_raw(RawEvent { session_id: SessionId::new(), source: "s".into(), kind: EventKind::Annotation { author: "a".into(), text: "t".into() } })
        .unwrap();
    assert_eq!(e.source, "s");
    assert_eq!(bus.receiver_count(), 0);
    let _rx = bus.subscribe();
    assert_eq!(bus.receiver_count(), 1);
}

#[test]
fn lookup_shares_roster_and_bus() {
    let mut orch = Orchestrator::new();
    let session = orch.create_session().unwrap();
    session.join(&mut orch, "amy".to_string(), SessionRole::Analyst).unwrap();
    let found = orch.get_session(session.id).unwrap();
    assert_eq!(found.id, session.id);
    let ps = found.participants(&orch).unwrap();
    assert_eq!(ps.len(), 1);
    assert_eq!(ps[0].name, "amy");
    found.join(&mut orch, "ben".to_string(), SessionRole::Observer).unwrap();
    assert_eq!(session.participants(&orch).unwrap().len(), 2);
    let mut rx = session.bus().subscribe();
    let e = found.annotate(&orch, "ben".to_string(), "seen".to_string()).unwrap();
    assert_eq!(rx.try_recv().unwrap().id, e.id);
    let twin = session.clone();
    assert_eq!(twin.id, session.id);
    assert_eq!(twin.bus().receiver_count(), 1);
}

#[test]
fn join_on_unregistered_session_is_refused() {
    let mut orch = Orchestrator::new();
    let mut other = Orchestrator::new();
    let session = other.create_session().unwrap();
    let err = session.join(&mut orch, "amy".to_string(), SessionRole::Lead).unwrap_err();
    assert!(matches!(err, Error::NotFound(_)));
    assert!(session.participants(&orch).is_err());
    assert_eq!(orch.session_count().unwrap(), 0);
    assert_eq!(other.session_count().unwrap(), 1);
    assert_eq!(session.participants(&other).unwrap().len(), 0);
}

#[test]
fn proxy_run_session_has_its_lead() {
    let mut orch = Orchestrator::new();
    let session = open_lead_session(&mut orch, "local".to_string()).unwrap();
    assert_eq!(orch.session_count().unwrap(), 1);
    let ps = session.participants(&orch).unwrap();
    assert_eq!(ps.len(), 1);
    assert_eq!(ps[0].name, "local");
    assert_eq!(ps[0].role, SessionRole::Lead);
    assert!(session.decide_validation(&orch, "local", 7, true, None).is_ok());
}
