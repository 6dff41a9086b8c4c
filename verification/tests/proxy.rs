use maxwell::event::EventKind;
use maxwell::orchestrator::Orchestrator;
use maxwell::proxy::anomaly::{detect_anomaly, detect_anomaly_in_text};
use maxwell::proxy::capture::{build_request, build_response, header_value_text, parse_method, Capture};
use maxwell::proxy::forward::{client_keeps, connect_port, forward_keeps, is_https_url, origin_keeps, origin_url, replay_headers, replay_keeps, absolute_url};
use maxwell::proxy::tls::{
    ca_source, ca_spec, finish_ca, generate_ca, leaf_chain, leaf_spec, load_ca, mint_leaf, pem_to_der, CaSource, HostCache,
};
use maxwell::proxy::ProxyError;
use maxwell::request::{Headers, HttpMethod, HttpRequest, HttpResponse};
use maxwell::session::SessionRole;

#[test]
fn detects_sqlstate() {
    let hit = detect_anomaly(b"error: SQLSTATE[HY000] General error").unwrap();
    assert_eq!(hit.signal, "database_error_string");
    assert!(hit.excerpt.contains("SQLSTATE"));
}

#[test]
fn clean_body_is_none() {
    assert!(detect_anomaly(b"{\"ok\":true}").is_none());
}

#[test]
fn excerpt_runs_48_bytes_past_the_match() {
    let body = format!("xx SQLSTATE[{}", "a".repeat(100));
    let hit = detect_anomaly(body.as_bytes()).unwrap();
    assert_eq!(hit.excerpt, format!("SQLSTATE[{}", "a".repeat(48)));
}

#[test]
fn excerpt_is_clipped_to_the_text() {
    let hit = detect_anomaly(b"boom: ORA-00942 table").unwrap();
    assert_eq!(hit.signal, "database_error_string");
    assert_eq!(hit.excerpt, "ORA-00942 table");
}

#[test]
fn excerpt_is_cut_to_80_characters() {
    let body = format!("Traceback (most recent call last){}", "b".repeat(60));
    let hit = detect_anomaly(body.as_bytes()).unwrap();
    assert_eq!(hit.signal, "stack_trace");
    assert_eq!(hit.excerpt.chars().count(), 80);
    assert!(hit.excerpt.starts_with("Traceback (most recent call last)"));
}

#[test]
fn table_order_beats_text_order() {
    let hit = detect_anomaly(b"phpinfo() then later mysql_fetch failed").unwrap();
    assert_eq!(hit.signal, "database_error_string");
    assert!(hit.excerpt.starts_with("mysql_fetch"));
    let debug = detect_anomaly(b"ASP.NET is configured to show verbose errors").unwrap();
    assert_eq!(debug.signal, "debug_disclosure");
}

#[test]
fn excerpt_keeps_multibyte_characters_whole() {
    let body = "PostgreSQL said: caf\u{e9} ol\u{e9}".as_bytes();
    let hit = detect_anomaly(body).unwrap();
    assert_eq!(hit.excerpt, "PostgreSQL said: caf\u{e9} ol\u{e9}");
}

#[test]
fn excerpt_is_cut_back_to_a_character_boundary() {
    // The byte window ends inside the two bytes of the final character.
    let body = [b"ORA-".as_slice(), &[b'a'; 47], &[0xC3, 0xA9]].concat();
    let hit = detect_anomaly(&body).unwrap();
    assert_eq!(hit.signal, "database_error_string");
    assert_eq!(hit.excerpt, format!("ORA-{}", "a".repeat(47)));
    assert!(String::from_utf8_lossy(&body).starts_with(&hit.excerpt));
    let text = format!("SQLSTATE[{}\u{e9}", "a".repeat(47));
    assert_eq!(detect_anomaly_in_text(&text).unwrap().excerpt, format!("SQLSTATE[{}", "a".repeat(47)));
    let fits = format!("SQLSTATE[{}\u{e9}", "a".repeat(46));
    assert_eq!(detect_anomaly_in_text(&fits).unwrap().excerpt, fits);
}

#[test]
fn capture_whose_window_would_split_a_character_still_flags_it() {
    let mut orch = Orchestrator::new();
    let session = orch.create_session().unwrap();
    let body = format!("SQLSTATE[{}\u{e9}", "a".repeat(47)).into_bytes();
    let capture = Capture {
        request: get("http://authorized-target.example/"),
        response: HttpResponse { status: 500, headers: Headers::new(), body },
    };
    let events = capture.emit(&session).unwrap();
    assert_eq!(events.len(), 2);
    assert!(matches!(events[1].kind, EventKind::Anomaly { .. }));
}

#[test]
fn invalid_utf8_is_read_lossily() {
    let mut body = vec![0xff, 0xfe];
    body.extend_from_slice(b" SQL syntax error");
    let hit = detect_anomaly(&body).unwrap();
    assert_eq!(hit.excerpt, "SQL syntax error");
}

fn get(url: &str) -> HttpRequest {
    HttpRequest { method: HttpMethod::Get, url: url.into(), headers: Headers::new(), body: Vec::new() }
}

#[test]
fn capture_emits_proxy_and_anomaly_events() {
    let mut orch = Orchestrator::new();
    let session = orch.create_session().unwrap();
    session.join(&mut orch, "analyst".to_string(), SessionRole::Analyst).unwrap();
    let mut rx = session.bus().subscribe();

    let capture = Capture {
        request: get("http://authorized-target.example/login"),
        response: HttpResponse { status: 500, headers: Headers::new(), body: b"SQLSTATE[HY000] dial error".to_vec() },
    };

    let events = capture.emit(&session).unwrap();
    assert_eq!(events.len(), 2);

    let first = rx.try_recv().unwrap();
    let second = rx.try_recv().unwrap();

    assert!(matches!(first.kind, EventKind::ProxyCapture { .. }));
    assert!(matches!(second.kind, EventKind::Anomaly { .. }));
}

#[test]
fn clean_capture_emits_one_event() {
    let mut orch = Orchestrator::new();
    let session = orch.create_session().unwrap();
    let capture = Capture {
        request: get("http://authorized-target.example/"),
        response: HttpResponse { status: 200, headers: Headers::new(), body: b"hello".to_vec() },
    };
    let events = capture.emit(&session).unwrap();
    assert_eq!(events.len(), 1);
    assert_eq!(events[0].source, "max-proxy");
    assert_eq!(events[0].session_id, session.id);
    match &events[0].kind {
        EventKind::ProxyCapture { request, response } => {
            assert_eq!(request.url, "http://authorized-target.example/");
            assert_eq!(response.as_ref().unwrap().status, 200);
        }
        other => panic!("unexpected kind: {other:?}"),
    }
    assert_eq!(maxwell::proxy::capture::response_only(capture).status, 200);
}

#[test]
fn http_pieces_convert() {
    let mut map = http::HeaderMap::new();
    map.insert("x-a", http::HeaderValue::from_static("one"));
    map.append("x-a", http::HeaderValue::from_static("two"));
    map.insert("x-bin", http::HeaderValue::from_bytes(&[0x66, 0x80]).unwrap());
    map.insert("x-tab", http::HeaderValue::from_bytes(b"a\tb").unwrap());
    let req = build_request(http::Method::PATCH.as_str(), "http://t/".into(), &map, b"body".to_vec());
    assert_eq!(req.method, HttpMethod::Patch);
    assert_eq!(req.url, "http://t/");
    assert_eq!(req.body, b"body".to_vec());
    assert_eq!(req.headers.get("x-a").map(|s| s.as_str()), Some("two"));
    assert!(req.headers.get("x-bin").is_none());
    assert_eq!(req.headers.get("x-tab").map(|s| s.as_str()), Some("a\tb"));
    let resp = build_response(404, &map, Vec::new());
    assert_eq!(resp.status, 404);
    assert_eq!(resp.headers.len(), 2);
    assert_eq!(parse_method(http::Method::from_bytes(b"QUERY").unwrap().as_str()), HttpMethod::Get);
    assert_eq!(parse_method(http::Method::CONNECT.as_str()), HttpMethod::Connect);
    assert_eq!(header_value_text(&b"ok 1".to_vec()), Some("ok 1".to_string()));
    assert_eq!(header_value_text(&vec![0x7f]), None);
}

#[test]
fn replay_drops_hop_fields() {
    let mut req = get("https://t.example/a");
    req.headers.insert("Host".into(), "t.example".into());
    req.headers.insert("accept".into(), "*/*".into());
    req.headers.insert("Content-Length".into(), "0".into());
    req.headers.insert("transfer-encoding".into(), "chunked".into());
    req.headers.insert("PROXY-CONNECTION".into(), "keep-alive".into());
    req.headers.insert("x-token".into(), "t".into());
    let kept = replay_headers(&req);
    let names: Vec<&str> = kept.iter().map(|p| p.0.as_str()).collect();
    assert_eq!(names, vec!["accept", "x-token"]);
    assert!(replay_keeps("accept"));
    assert!(!replay_keeps("HOST"));
    assert!(is_https_url("https://t.example/a"));
    assert!(!is_https_url("http://t.example/a"));
    assert!(!is_https_url("https:/"));
}

#[test]
fn forwarding_rules() {
    assert!(!forward_keeps("host"));
    assert!(forward_keeps("Host"));
    assert!(!forward_keeps("Proxy-Connection"));
    assert!(forward_keeps("accept"));
    assert!(!origin_keeps("connection"));
    assert!(!origin_keeps("content-length"));
    assert!(!origin_keeps("transfer-encoding"));
    assert!(!origin_keeps("host"));
    assert!(!origin_keeps("proxy-connection"));
    assert!(origin_keeps("cookie"));
    assert!(!client_keeps("transfer-encoding"));
    assert!(!client_keeps("content-length"));
    assert!(client_keeps("set-cookie"));
    assert_eq!(connect_port(None), 443);
    assert_eq!(connect_port(Some(8443)), 8443);
}

#[test]
fn origin_urls() {
    assert_eq!(origin_url("t.example", 443, "/a?b=1"), "https://t.example/a?b=1");
    assert_eq!(origin_url("t.example", 8443, "/"), "https://t.example:8443/");
    assert_eq!(origin_url("h", 0, "/"), "https://h:0/");
    assert_eq!(origin_url("h", 65535, "/x"), "https://h:65535/x");
}

#[test]
fn absolute_form_is_required() {
    let abs: http::Uri = "http://t.example/a".parse().unwrap();
    assert_eq!(absolute_url(abs.scheme().is_some(), abs.authority().is_some(), abs.to_string()).unwrap(), "http://t.example/a");
    let origin_form: http::Uri = "/a".parse().unwrap();
    match absolute_url(origin_form.scheme().is_some(), origin_form.authority().is_some(), origin_form.to_string()) {
        Err(ProxyError::InvalidRequest(m)) => assert_eq!(m, "absolute-form URI required (use as HTTP proxy, not reverse origin)"),
        other => panic!("unexpected: {other:?}"),
    }
}

#[test]
fn absolute_url_needs_scheme_and_authority() {
    assert_eq!(absolute_url(true, true, "http://t.example/".to_string()).unwrap(), "http://t.example/");
    for (scheme, authority) in [(true, false), (false, true), (false, false)] {
        match absolute_url(scheme, authority, "x".to_string()) {
            Err(ProxyError::InvalidRequest(m)) => assert!(m.starts_with("absolute-form URI required")),
            other => panic!("unexpected: {other:?}"),
        }
    }
}

#[test]
fn unterminated_pem_is_a_parse_error() {
    match pem_to_der("-----BEGIN CERTIFICATE-----\nAQID\n") {
        Err(ProxyError::Tls(m)) => assert!(m.starts_with("parse pem: "), "{m}"),
        other => panic!("unexpected: {other:?}"),
    }
}

#[test]
fn pem_first_certificate() {
    let pem = "-----BEGIN CERTIFICATE-----\nAQID\n-----END CERTIFICATE-----\n-----BEGIN CERTIFICATE-----\nBAUG\n-----END CERTIFICATE-----\n";
    assert_eq!(pem_to_der(pem).unwrap(), vec![1, 2, 3]);
    match pem_to_der("no pem here") {
        Err(ProxyError::Tls(m)) => assert_eq!(m, "no certificate in pem"),
        other => panic!("unexpected: {other:?}"),
    }
}

#[test]
fn host_cache_reuses_entries() {
    let mut cache: HostCache<std::sync::Arc<u32>> = HostCache::new();
    assert!(cache.get("a.example").is_none());
    let v = std::sync::Arc::new(7);
    cache.insert("a.example".into(), v.clone());
    let got = cache.get("a.example").unwrap().clone();
    assert!(std::sync::Arc::ptr_eq(&got, &v));
    cache.insert("b.example".into(), std::sync::Arc::new(8));
    assert_eq!(**cache.get("a.example").unwrap(), 7);
    assert_eq!(**cache.get("b.example").unwrap(), 8);
    cache.insert("a.example".into(), std::sync::Arc::new(9));
    assert_eq!(**cache.get("a.example").unwrap(), 9);
}

#[test]
fn proxy_error_messages() {
    assert_eq!(ProxyError::Upstream("x".into()).message(), "upstream error: x");
    assert_eq!(ProxyError::Tls("t".into()).message(), "tls error: t");
    let io = ProxyError::Io(std::io::Error::new(std::io::ErrorKind::Other, "disk"));
    assert_eq!(io.message(), "io error: disk");
}

#[test]
fn ca_is_loaded_only_when_both_files_exist() {
    assert_eq!(ca_source(true, true), CaSource::Load);
    assert_eq!(ca_source(true, false), CaSource::Create);
    assert_eq!(ca_source(false, true), CaSource::Create);
    assert_eq!(ca_source(false, false), CaSource::Create);
}

#[test]
fn ca_material_loads_from_pem() {
    let key = rcgen::KeyPair::generate().unwrap();
    let mut params = rcgen::CertificateParams::new(Vec::<String>::new()).unwrap();
    params.is_ca = rcgen::IsCa::Ca(rcgen::BasicConstraints::Unconstrained);
    params.distinguished_name.push(rcgen::DnType::CommonName, "Test CA");
    let cert = params.self_signed(&key).unwrap();
    let material = load_ca(&cert.pem(), &key.serialize_pem()).unwrap();
    assert_eq!(material.cert_der, cert.der().to_vec());
    assert_eq!(material.cert_pem, cert.pem());
    match load_ca(&cert.pem(), "not a key") {
        Err(ProxyError::Tls(m)) => assert!(m.starts_with("parse ca key: "), "{m}"),
        _ => panic!("a bad key must be refused"),
    }
    match load_ca("not a cert", &key.serialize_pem()) {
        Err(ProxyError::Tls(m)) => assert!(m.starts_with("parse ca cert: "), "{m}"),
        _ => panic!("a bad certificate must be refused"),
    }
}

#[test]
fn flagged_text_stays_flagged_in_context() {
    assert!(detect_anomaly(b"ORA-00942").is_some());
    assert!(detect_anomaly(b"<html>prefix ORA-00942 suffix</html>").is_some());
}

#[test]
fn leaf_and_ca_specs() {
    let l = leaf_spec("api.example");
    assert_eq!(l.common_name, "api.example");
    assert_eq!(l.dns_names, vec!["api.example".to_string()]);
    assert!(l.server_auth && l.digital_signature);
    let c = ca_spec();
    assert_eq!(c.organization, "Maxwell");
    assert_eq!(c.common_name, "Maxwell Local CA");
    assert!(c.unconstrained_ca && c.key_cert_sign && c.crl_sign);
}

#[test]
fn generated_ca_loads_and_mints_leaves() {
    let _ = rustls::crypto::ring::default_provider().install_default();
    let g = generate_ca().unwrap();
    let (cert_pem, key_pem) = (g.cert_pem.clone(), g.key_pem.clone());
    assert_eq!(g.certificate.der(), &pem_to_der(&cert_pem).unwrap());
    let ca = load_ca(&cert_pem, &key_pem).unwrap();
    assert_eq!(ca.cert_pem, cert_pem);
    assert_eq!(ca.cert_der, pem_to_der(&cert_pem).unwrap());
    let chain = leaf_chain(vec![9, 8, 7], &ca);
    assert_eq!(chain.len(), 2);
    assert_eq!(chain[0], vec![9, 8, 7]);
    assert_eq!(chain[1], ca.cert_der);
    let leaf = mint_leaf(&ca, "api.example").unwrap();
    assert_eq!(leaf.chain.len(), 2);
    assert_eq!(leaf.chain[1], ca.cert_der);
    assert_ne!(leaf.chain[0], ca.cert_der);
    assert_eq!(&leaf.chain[0], leaf.leaf.der());
    let parsed_leaf =
        rcgen::CertificateParams::from_ca_cert_der(&rustls::pki_types::CertificateDer::from(leaf.chain[0].clone())).unwrap();
    let cn = parsed_leaf.distinguished_name.get(&rcgen::DnType::CommonName).unwrap();
    assert_eq!(cn, &rcgen::DnValue::Utf8String("api.example".to_string()));
    assert_eq!(parsed_leaf.subject_alt_names.len(), 1);
    assert!(parsed_leaf.extended_key_usages.contains(&rcgen::ExtendedKeyUsagePurpose::ServerAuth));
    assert!(parsed_leaf.key_usages.contains(&rcgen::KeyUsagePurpose::DigitalSignature));
    let parsed = rcgen::CertificateParams::from_ca_cert_pem(&cert_pem).unwrap();
    assert!(matches!(parsed.is_ca, rcgen::IsCa::Ca(_)));
}

#[test]
fn non_ascii_host_is_refused() {
    let _ = rustls::crypto::ring::default_provider().install_default();
    let g = generate_ca().unwrap();
    let (cert_pem, key_pem) = (g.cert_pem.clone(), g.key_pem.clone());
    assert_eq!(g.certificate.der(), &pem_to_der(&cert_pem).unwrap());
    let ca = load_ca(&cert_pem, &key_pem).unwrap();
    match mint_leaf(&ca, "caf\u{e9}.example") {
        Err(ProxyError::Tls(m)) => assert!(m.starts_with("leaf params: "), "{m}"),
        _ => panic!("a non-ASCII host must be refused"),
    }
}

#[test]
fn finishing_the_ca_reports_the_issuer_error() {
    let key = rcgen::KeyPair::generate().unwrap();
    match finish_ca("whatever", Err("boom".to_string()), key) {
        Err(ProxyError::Tls(m)) => assert_eq!(m, "rebuild issuer: boom"),
        _ => panic!("an issuer error must be reported"),
    }
    let key = rcgen::KeyPair::generate().unwrap();
    let cert = rcgen::CertificateParams::new(Vec::<String>::new()).unwrap().self_signed(&key).unwrap();
    match finish_ca("no pem here", Ok(cert), key) {
        Err(ProxyError::Tls(m)) => assert_eq!(m, "no certificate in pem"),
        _ => panic!("a text without a certificate must be refused"),
    }
}


#[test]
fn excerpt_of_valid_utf8_body_is_a_prefix_of_its_text() {
    let b = [b"ORA-".as_slice(), &[b'a'; 47], &[0xC3, 0xA9]].concat();
    let h = detect_anomaly(&b).unwrap();
    assert_eq!(h.signal, "database_error_string");
    assert!(h.excerpt.starts_with("ORA-"));
    assert!(String::from_utf8_lossy(&b).starts_with(&h.excerpt));
}

#[test]
fn ascii_context_keeps_a_body_flagged() {
    let body = b"ORA-00942";
    assert!(detect_anomaly(body).is_some());
    let wrapped = [b"<p>".as_slice(), body, b"</p>"].concat();
    assert!(detect_anomaly(&wrapped).is_some());
}
