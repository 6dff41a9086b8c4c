//! Rules the forwarding paths apply: which header fields travel upstream or
//! back to the client, and how target URLs are formed.

use vstd::prelude::*;
use vstd::utf8::*;
use vstd::string::StringSliceAdditionalSpecFns;
use crate::proxy::ProxyError;
use crate::request::{HttpRequest, Headers};
use crate::text::{str_equal, str_eq_ignore_ascii_case, eq_ignore_ascii_case, decimal, u16_text};

verus! {

broadcast use vstd::utf8::group_utf8_lib;

/// The name equals `lit` ignoring ASCII case (compared byte by byte).
pub open spec fn named_ci(name: Seq<char>, lit: Seq<char>) -> bool {
    eq_ignore_ascii_case(encode_utf8(name), encode_utf8(lit))
}

/// Fields a replayed request does not carry over: the client recomputes
/// `host`, `content-length` and `transfer-encoding`, and `proxy-connection`
/// is meant for the proxy (names compared ignoring ASCII case).
pub open spec fn replay_drops(name: Seq<char>) -> bool {
    named_ci(name, "host"@) || named_ci(name, "content-length"@) || named_ci(name, "transfer-encoding"@)
        || named_ci(name, "proxy-connection"@)
}

fn is_named_ci(name: &str, lit: &str) -> (r: bool)
    ensures
        r == named_ci(name@, lit@),
{
    str_eq_ignore_ascii_case(name, lit)
}

/// Whether a replayed request carries the field `name`.
pub fn replay_keeps(name: &str) -> (r: bool)
    ensures
        r == !replay_drops(name@),
{
    !(is_named_ci(name, "host") || is_named_ci(name, "content-length") || is_named_ci(name, "transfer-encoding")
        || is_named_ci(name, "proxy-connection"))
}

/// The (name, value) texts of the entries a replay keeps, in order.
pub open spec fn replay_entries(entries: Seq<(String, String)>) -> Seq<(Seq<char>, Seq<char>)>
    decreases entries.len(),
{
    if entries.len() == 0 {
        Seq::empty()
    } else {
        let prev = replay_entries(entries.drop_last());
        if replay_drops(entries.last().0@) { prev } else { prev.push((entries.last().0@, entries.last().1@)) }
    }
}

/// The header fields a replay of `request` sends, in the request's order.
pub fn replay_headers(request: &HttpRequest) -> (r: Vec<(String, String)>)
    ensures
        r@.map_values(|p: (String, String)| (p.0@, p.1@)) == replay_entries(request.headers.entries()),
{
    let pairs = request.headers.as_pairs();
    let mut out: Vec<(String, String)> = Vec::new();
    let mut i: usize = 0;
    while i < pairs.len()
        invariant
            i <= pairs@.len(),
            pairs@ == request.headers.entries(),
            out@.map_values(|p: (String, String)| (p.0@, p.1@)) == replay_entries(pairs@.subrange(0, i as int)),
        decreases pairs@.len() - i,
    {
        let ghost before = out@;
        proof {
            assert(pairs@.subrange(0, i + 1).drop_last() =~= pairs@.subrange(0, i as int));
            assert(pairs@.subrange(0, i + 1).last() == pairs@[i as int]);
        }
        if replay_keeps(pairs[i].0.as_str()) {
            out.push((pairs[i].0.clone(), pairs[i].1.clone()));
            proof {
                assert(out@.map_values(|p: (String, String)| (p.0@, p.1@)) =~= before.map_values(|p: (String, String)| (p.0@, p.1@)).push((pairs@[i as int].0@, pairs@[i as int].1@)));
            }
        }
        i = i + 1;
    }
    assert(pairs@.subrange(0, pairs@.len() as int) =~= pairs@);
    out
}

/// The URL names an HTTPS target (its bytes start with `https://`).
pub open spec fn is_https(url: Seq<char>) -> bool {
    encode_utf8(url).len() >= encode_utf8("https://"@).len()
        && encode_utf8(url).subrange(0, encode_utf8("https://"@).len() as int) == encode_utf8("https://"@)
}

/// Whether a URL starts with `https://`.
pub fn is_https_url(url: &str) -> (r: bool)
    ensures
        r == is_https(url@),
{
    let u = url.as_bytes();
    let p = "https://".as_bytes();
    if u.len() < p.len() {
        return false;
    }
    let mut i: usize = 0;
    while i < p.len()
        invariant
            u@ == encode_utf8(url@),
            p@ == encode_utf8("https://"@),
            p@.len() <= u@.len(),
            i <= p@.len(),
            forall|j: int| 0 <= j < i ==> u@[j] == p@[j],
        decreases p@.len() - i,
    {
        if u[i] != p[i] {
            assert(u@.subrange(0, p@.len() as int)[i as int] != p@[i as int]);
            return false;
        }
        i = i + 1;
    }
    assert(u@.subrange(0, p@.len() as int) =~= p@);
    true
}

/// Fields a forwarded plain-HTTP request does not carry: `host` (the client
/// sets it from the target) and `proxy-connection` (any ASCII case).
pub open spec fn forward_drops(name: Seq<char>) -> bool {
    name == "host"@ || named_ci(name, "proxy-connection"@)
}

/// Whether a forwarded plain-HTTP request carries the field `name`.
pub fn forward_keeps(name: &str) -> (r: bool)
    ensures
        r == !forward_drops(name@),
{
    !(str_equal(name, "host") || is_named_ci(name, "proxy-connection"))
}

/// Fields a request forwarded to an HTTPS origin does not carry: hop and
/// framing fields the client recomputes, and `proxy-connection` (any ASCII case).
pub open spec fn origin_drops(name: Seq<char>) -> bool {
    name == "host"@ || name == "connection"@ || name == "transfer-encoding"@ || name == "content-length"@
        || named_ci(name, "proxy-connection"@)
}

/// Whether a request forwarded to an HTTPS origin carries the field `name`.
pub fn origin_keeps(name: &str) -> (r: bool)
    ensures
        r == !origin_drops(name@),
{
    !(str_equal(name, "host") || str_equal(name, "connection") || str_equal(name, "transfer-encoding")
        || str_equal(name, "content-length") || is_named_ci(name, "proxy-connection"))
}

/// Fields of an intercepted HTTPS response not passed back to the client:
/// the framing ones, which the client side recomputes.
pub open spec fn client_drops(name: Seq<char>) -> bool {
    name == "transfer-encoding"@ || name == "content-length"@
}

/// Whether the field `name` of an intercepted HTTPS response is passed back.
pub fn client_keeps(name: &str) -> (r: bool)
    ensures
        r == !client_drops(name@),
{
    !(str_equal(name, "transfer-encoding") || str_equal(name, "content-length"))
}

/// The origin URL an intercepted HTTPS request is sent to: the default
/// port 443 is left implicit, any other port is written out.
pub open spec fn origin_url_text(host: Seq<char>, port: u16, path: Seq<char>) -> Seq<char> {
    if port == 443 {
        "https://"@ + host + path
    } else {
        "https://"@ + host + ":"@ + decimal(port as nat) + path
    }
}

/// Builds the origin URL of an intercepted HTTPS request.
pub fn origin_url(host: &str, port: u16, path: &str) -> (s: String)
    ensures
        s@ == origin_url_text(host@, port, path@),
{
    let mut s = String::from_str("https://");
    s.append(host);
    if port != 443 {
        s.append(":");
        let p = u16_text(port);
        s.append(p.as_str());
    }
    s.append(path);
    s
}

/// Text of the error for a request that is not in absolute form.
pub open spec fn not_absolute_text() -> Seq<char> {
    "absolute-form URI required (use as HTTP proxy, not reverse origin)"@
}

/// The target of a proxied request from what its URI holds (as
/// `Uri::scheme`, `Uri::authority` and the `Uri`'s text give it): the text
/// when the URI has both a scheme and an authority (absolute form), else an
/// error.
pub fn absolute_url(has_scheme: bool, has_authority: bool, text: String) -> (r: Result<String, ProxyError>)
    ensures
        has_scheme && has_authority ==> r == Ok::<String, ProxyError>(text),
        !(has_scheme && has_authority) ==> (r matches Err(ProxyError::InvalidRequest(m)) && m@ == not_absolute_text()),
{
    if has_scheme && has_authority {
        return Ok(text);
    }
    Err(ProxyError::InvalidRequest(String::from_str("absolute-form URI required (use as HTTP proxy, not reverse origin)")))
}

/// The port of a CONNECT target: the one given, else 443.
pub fn connect_port(port: Option<u16>) -> (p: u16)
    ensures
        p == match port { Some(p) => p, None => 443u16 },
{
    match port {
        Some(p) => p,
        None => 443,
    }
}

/// ASCII letters folded to lower case, other bytes unchanged.
pub open spec fn folded(b: u8) -> u8 {
    if 0x41 <= b <= 0x5a { (b + 0x20) as u8 } else { b }
}

/// Two names agree byte by byte once ASCII letters are folded to lower case.
pub open spec fn same_ignoring_case(a: Seq<char>, b: Seq<char>) -> bool {
    let x = encode_utf8(a);
    let y = encode_utf8(b);
    x.len() == y.len() && forall|i: int| 0 <= i < x.len() ==> folded(#[trigger] x[i]) == folded(y[i])
}

proof fn lemma_named_ci(name: Seq<char>, lit: Seq<char>)
    ensures
        named_ci(name, lit) == same_ignoring_case(name, lit),
{
    let x = encode_utf8(name);
    let y = encode_utf8(lit);
    assert forall|i: int| 0 <= i < x.len() implies crate::text::ascii_lower(#[trigger] x[i]) == folded(x[i]) by {}
    assert forall|i: int| 0 <= i < y.len() implies crate::text::ascii_lower(#[trigger] y[i]) == folded(y[i]) by {}
}

/// A request forwarded to a plain-HTTP origin carries every field but `host`
/// and `proxy-connection` (the latter in any ASCII case).
pub proof fn law_forward_fields(name: Seq<char>)
    ensures
        forward_drops(name) <==> (name == "host"@ || same_ignoring_case(name, "proxy-connection"@)),
{
    lemma_named_ci(name, "proxy-connection"@);
}

/// A request forwarded to an HTTPS origin carries every field but `host`,
/// `connection`, `transfer-encoding`, `content-length` and `proxy-connection`
/// (the last in any ASCII case).
pub proof fn law_origin_fields(name: Seq<char>)
    ensures
        origin_drops(name) <==> (name == "host"@ || name == "connection"@ || name == "transfer-encoding"@
            || name == "content-length"@ || same_ignoring_case(name, "proxy-connection"@)),
{
    lemma_named_ci(name, "proxy-connection"@);
}

/// An intercepted HTTPS response passes every field back to the client but
/// `transfer-encoding` and `content-length`.
pub proof fn law_client_fields(name: Seq<char>)
    ensures
        client_drops(name) <==> (name == "transfer-encoding"@ || name == "content-length"@),
{
}

/// A replayed request carries every field but `host`, `content-length`,
/// `transfer-encoding` and `proxy-connection`, each in any ASCII case.
pub proof fn law_replay_fields(name: Seq<char>)
    ensures
        replay_drops(name) <==> (same_ignoring_case(name, "host"@) || same_ignoring_case(name, "content-length"@)
            || same_ignoring_case(name, "transfer-encoding"@) || same_ignoring_case(name, "proxy-connection"@)),
{
    lemma_named_ci(name, "host"@);
    lemma_named_ci(name, "content-length"@);
    lemma_named_ci(name, "transfer-encoding"@);
    lemma_named_ci(name, "proxy-connection"@);
}

/// An origin URL is `https://`, the host, the port after a colon unless it
/// is the default 443, then the path.
pub proof fn law_origin_url(host: Seq<char>, port: u16, path: Seq<char>)
    ensures
        port == 443 ==> origin_url_text(host, port, path) == "https://"@ + host + path,
        port != 443 ==> origin_url_text(host, port, path) == "https://"@ + host + ":"@ + decimal(port as nat) + path,
{
}

} // verus!
