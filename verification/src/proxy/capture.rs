//! Conversion of intercepted exchanges into workbench contracts and events.

use vstd::prelude::*;
use crate::error::Error;
use crate::event::{Event, EventKind, RawEvent};
use crate::orchestrator::SessionHandle;
use crate::proxy::anomaly::{detect_anomaly, body_anomaly};
use crate::proxy::CRATE_NAME;
use crate::request::{Headers, HttpMethod, HttpRequest, HttpResponse, method_from_name, method_for_name};
use crate::text::push_char;

verus! {

#[verifier::external_type_specification]
#[verifier::external_body]
#[verifier::reject_recursive_types(T)]
pub struct ExHttpHeaderMap<T>(http::HeaderMap<T>);

/// Declared because `HeaderMap` holds `HeaderValue`s by default.
#[verifier::external_type_specification]
#[verifier::external_body]
pub struct ExHttpHeaderValue(http::HeaderValue);

/// The fields of an `http::HeaderMap` in its iteration order, one entry per
/// value, each as (name, value bytes).
pub uninterp spec fn header_entries(h: http::HeaderMap) -> Seq<(Seq<char>, Seq<u8>)>;

/// Calls `HeaderMap::iter`, handing each field out as `HeaderName::as_str`
/// and `HeaderValue::as_bytes`. The fields are named by [`header_entries`];
/// http documents the order as arbitrary but fixed for a given map.
#[verifier::external_body]
fn header_pairs(h: &http::HeaderMap) -> (v: Vec<(String, Vec<u8>)>)
    ensures
        v@.map_values(|p: (String, Vec<u8>)| (p.0@, p.1@)) == header_entries(*h),
{
    h.iter().map(|(n, v)| (n.as_str().to_string(), v.as_bytes().to_vec())).collect()
}

/// A byte `HeaderValue::to_str` accepts: visible ASCII or a tab.
pub open spec fn is_visible_ascii(b: u8) -> bool {
    (32 <= b && b < 127) || b == 9
}

/// The text of a header value, as `HeaderValue::to_str` yields it: present
/// only when every byte is visible ASCII (or a tab).
pub open spec fn header_text(bytes: Seq<u8>) -> Option<Seq<char>> {
    if forall|i: int| 0 <= i < bytes.len() ==> is_visible_ascii(#[trigger] bytes[i]) {
        Some(bytes.map_values(|b: u8| b as char))
    } else {
        None
    }
}

/// The text of a header value when it is visible ASCII.
pub fn header_value_text(bytes: &Vec<u8>) -> (r: Option<String>)
    ensures
        match r {
            Some(s) => header_text(bytes@) == Some(s@),
            None => header_text(bytes@) is None,
        },
{
    let mut s = String::new();
    let mut i: usize = 0;
    while i < bytes.len()
        invariant
            i <= bytes@.len(),
            forall|j: int| 0 <= j < i ==> is_visible_ascii(#[trigger] bytes@[j]),
            s@ == bytes@.subrange(0, i as int).map_values(|b: u8| b as char),
        decreases bytes@.len() - i,
    {
        let b = bytes[i];
        if !((32 <= b && b < 127) || b == 9) {
            return None;
        }
        push_char(&mut s, b as char);
        proof {
            assert(s@ =~= bytes@.subrange(0, i + 1).map_values(|b: u8| b as char));
        }
        i = i + 1;
    }
    assert(bytes@.subrange(0, bytes@.len() as int) =~= bytes@);
    Some(s)
}

/// The header map built from fields in order: fields whose value is not
/// visible ASCII are skipped, and a later value for a name replaces an
/// earlier one.
pub open spec fn text_headers(entries: Seq<(Seq<char>, Seq<u8>)>) -> Map<Seq<char>, Seq<char>>
    decreases entries.len(),
{
    if entries.len() == 0 {
        Map::empty()
    } else {
        let prev = text_headers(entries.drop_last());
        match header_text(entries.last().1) {
            Some(t) => prev.insert(entries.last().0, t),
            None => prev,
        }
    }
}

/// Text header fields from an `http::HeaderMap`.
pub fn header_map_to_headers(h: &http::HeaderMap) -> (r: Headers)
    ensures
        r.wf(),
        r@ == text_headers(header_entries(*h)),
{
    let pairs = header_pairs(h);
    let ghost entries = pairs@.map_values(|p: (String, Vec<u8>)| (p.0@, p.1@));
    let mut out = Headers::new();
    let mut i: usize = 0;
    while i < pairs.len()
        invariant
            i <= pairs@.len(),
            entries == pairs@.map_values(|p: (String, Vec<u8>)| (p.0@, p.1@)),
            out.wf(),
            out@ == text_headers(entries.subrange(0, i as int)),
        decreases pairs@.len() - i,
    {
        let name = &pairs[i].0;
        let value = &pairs[i].1;
        proof {
            assert(entries.subrange(0, i + 1).drop_last() =~= entries.subrange(0, i as int));
            assert(entries.subrange(0, i + 1).last() == entries[i as int]);
        }
        match header_value_text(value) {
            Some(text) => {
                out.insert(name.clone(), text);
            },
            None => {},
        }
        i = i + 1;
    }
    assert(entries.subrange(0, pairs@.len() as int) =~= entries);
    out
}

/// Maps an HTTP method token (as `http::Method::as_str` gives it) into
/// [`HttpMethod`]; tokens other than the nine known ones become `Get`.
pub fn parse_method(method: &str) -> (m: HttpMethod)
    ensures
        m == method_for_name(method@),
{
    method_from_name(method)
}

/// Builds a workbench [`HttpRequest`] from the pieces of an `http` request:
/// the method's token, the target URL, the header map and the body.
pub fn build_request(method: &str, url: String, headers: &http::HeaderMap, body: Vec<u8>) -> (r: HttpRequest)
    ensures
        r.wf(),
        r.method == method_for_name(method@),
        r.url == url,
        r.body == body,
        r.headers@ == text_headers(header_entries(*headers)),
{
    HttpRequest { method: parse_method(method), url, headers: header_map_to_headers(headers), body }
}

/// Builds a workbench [`HttpResponse`] from status, headers and body.
pub fn build_response(status: u16, headers: &http::HeaderMap, body: Vec<u8>) -> (r: HttpResponse)
    ensures
        r.wf(),
        r.status == status,
        r.body == body,
        r.headers@ == text_headers(header_entries(*headers)),
{
    HttpResponse { status, headers: header_map_to_headers(headers), body }
}

/// One intercepted request/response pair ready for session ingest.
#[derive(Debug)]
pub struct Capture {
    pub request: HttpRequest,
    pub response: HttpResponse,
}

impl Clone for Capture {
    fn clone(&self) -> (c: Self)
        ensures
            c.request@ == self.request@,
            c.response@ == self.response@,
    {
        Capture { request: self.request.clone(), response: self.response.clone() }
    }
}

/// The events a capture emits into the session `session_id`: a proxy-capture
/// event for the exchange, then, when the response body trips a heuristic,
/// an anomaly event naming the signal.
pub open spec fn emits(c: Capture, session_id: crate::ids::SessionId, v: Seq<Event>) -> bool {
    &&& v.len() == if body_anomaly(c.response.body@) is Some { 2int } else { 1int }
    &&& v[0].session_id == session_id
    &&& v[0].source@ == CRATE_NAME@
    &&& v[0].kind matches EventKind::ProxyCapture { request, response }
    &&& request@ == c.request@
    &&& response matches Some(rs)
    &&& rs@ == c.response@
    &&& body_anomaly(c.response.body@) matches Some(hit) ==> {
        &&& v[1].session_id == session_id
        &&& v[1].source@ == CRATE_NAME@
        &&& v[1].kind matches EventKind::Anomaly { request, response, signal }
        &&& request@ == c.request@
        &&& response@ == c.response@
        &&& signal@ == hit.0
    }
}

impl Capture {
    /// Emits a proxy-capture event, then an anomaly event when the response
    /// body trips a heuristic; returns the events in that order.
    pub fn emit(&self, session: &SessionHandle) -> (r: Result<Vec<Event>, Error>)
        ensures
            r matches Ok(v) && emits(*self, session.session_id(), v@),
    {
        let mut out: Vec<Event> = Vec::new();
        let first = session.ingest(RawEvent {
            session_id: session.id(),
            source: String::from_str(CRATE_NAME),
            kind: EventKind::ProxyCapture { request: self.request.clone(), response: Some(self.response.clone()) },
        })?;
        out.push(first);
        match detect_anomaly(self.response.body.as_slice()) {
            Some(hit) => {
                let second = session.ingest(RawEvent {
                    session_id: session.id(),
                    source: String::from_str(CRATE_NAME),
                    kind: EventKind::Anomaly {
                        request: self.request.clone(),
                        response: self.response.clone(),
                        signal: hit.signal,
                    },
                })?;
                out.push(second);
            },
            None => {},
        }
        Ok(out)
    }

}

/// The response half of a capture (for callers that replay a request and
/// only want its answer).
pub fn response_only(capture: Capture) -> (r: HttpResponse)
    ensures
        r == capture.response,
{
    capture.response
}

} // verus!
