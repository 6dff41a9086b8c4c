//! The local CA for authorized HTTPS interception: reading certificate PEM,
//! loading and generating the CA, minting the leaf each intercepted host is
//! served with, and caching per-host server configurations.

use vstd::prelude::*;
use crate::assoc::{assoc_map, distinct_keys, lemma_assoc_lookup, lemma_assoc_update, lemma_assoc_push};
use crate::proxy::ProxyError;
use crate::text::{concat2, str_equal};

verus! {

/// File name of the CA certificate inside the CA directory.
pub const CA_CERT_FILE: &'static str = "ca.pem";

/// File name of the CA private key inside the CA directory.
pub const CA_KEY_FILE: &'static str = "ca.key.pem";

/// What `rustls_pemfile::certs` reads from a PEM text: the DER bytes of its
/// certificates in order, or none when it reports an error.
pub uninterp spec fn pem_read(pem: Seq<char>) -> Option<Seq<Seq<u8>>>;

/// Calls `rustls_pemfile::certs` over the text and collects the certificates
/// as DER bytes; an I/O or format error comes back as its message. What it
/// reads, and whether it fails, is named by [`pem_read`].
#[verifier::external_body]
fn read_pem_certificates(pem: &str) -> (r: Result<Vec<Vec<u8>>, String>)
    ensures
        r is Ok <==> pem_read(pem@) is Some,
        r matches Ok(v) ==> v@.map_values(|d: Vec<u8>| d@) == pem_read(pem@)->0,
{
    let mut cursor = std::io::Cursor::new(pem.as_bytes());
    rustls_pemfile::certs(&mut cursor).map(|c| c.map(|d| d.to_vec())).collect::<Result<Vec<_>, _>>().map_err(|e| e.to_string())
}

/// Text of the error for a PEM text that could not be read.
pub open spec fn pem_error_text(detail: Seq<char>) -> Seq<char> {
    "parse pem: "@ + detail
}

/// Text of the error for a PEM text without a certificate.
pub open spec fn no_certificate_text() -> Seq<char> {
    "no certificate in pem"@
}

/// DER bytes of the first certificate of a PEM text.
pub fn pem_to_der(pem: &str) -> (r: Result<Vec<u8>, ProxyError>)
    ensures
        match pem_read(pem@) {
            None => r matches Err(ProxyError::Tls(m)) && exists|d: Seq<char>| m@ == #[trigger] pem_error_text(d),
            Some(certs) => if certs.len() == 0 {
                r matches Err(ProxyError::Tls(m)) && m@ == no_certificate_text()
            } else {
                r matches Ok(d) && d@ == certs[0]
            },
        },
{
    match read_pem_certificates(pem) {
        Err(detail) => {
            let msg = concat2("parse pem: ", detail.as_str());
            proof { assert(msg@ == pem_error_text(detail@)); }
            Err(ProxyError::Tls(msg))
        },
        Ok(mut certs) => {
            let ghost all = certs@.map_values(|d: Vec<u8>| d@);
            if certs.len() == 0 {
                let msg = String::from_str("no certificate in pem");
                proof { reveal_strlit("no certificate in pem"); }
                Err(ProxyError::Tls(msg))
            } else {
                let first = certs.swap_remove(0);
                proof {
                    assert(all[0] == first@);
                }
                Ok(first)
            }
        },
    }
}

/// Where the local CA's material comes from.
#[derive(Debug, Clone, Copy, PartialEq, Eq, Structural)]
pub enum CaSource {
    /// Both files are present: read them.
    Load,
    /// A file is missing: generate a new CA and write it.
    Create,
}

/// An existing CA is loaded only when both its certificate and its key are
/// on disk; otherwise a new one is created.
pub fn ca_source(cert_exists: bool, key_exists: bool) -> (s: CaSource)
    ensures
        s == (if cert_exists && key_exists { CaSource::Load } else { CaSource::Create }),
{
    if cert_exists && key_exists { CaSource::Load } else { CaSource::Create }
}

#[verifier::external_type_specification]
#[verifier::external_body]
pub struct ExRcgenKeyPair(rcgen::KeyPair);

#[verifier::external_type_specification]
#[verifier::external_body]
pub struct ExRcgenCertificateParams(rcgen::CertificateParams);

#[verifier::external_type_specification]
#[verifier::external_body]
pub struct ExRcgenCertificate(rcgen::Certificate);

/// Whether `rcgen::KeyPair::from_pem` accepts a PEM text.
pub uninterp spec fn rcgen_key_accepts(pem: Seq<char>) -> bool;

/// Calls `rcgen::KeyPair::from_pem`; an error comes back as its message.
/// Whether it succeeds is named by [`rcgen_key_accepts`]; the key pair is
/// opaque here.
#[verifier::external_body]
fn key_from_pem(pem: &str) -> (r: Result<rcgen::KeyPair, String>)
    ensures
        r is Ok <==> rcgen_key_accepts(pem@),
{
    rcgen::KeyPair::from_pem(pem).map_err(|e| e.to_string())
}

/// Whether `rcgen::CertificateParams::from_ca_cert_pem` accepts a PEM text.
pub uninterp spec fn rcgen_ca_accepts(pem: Seq<char>) -> bool;

/// Calls `rcgen::CertificateParams::from_ca_cert_pem`; an error comes back as
/// its message. Whether it succeeds is named by [`rcgen_ca_accepts`]; what the
/// parameters read from the certificate hold is not modelled (the model is
/// left unsaid).
#[verifier::external_body]
fn ca_params_from_pem(pem: &str) -> (r: Result<CertParams, String>)
    ensures
        r is Ok <==> rcgen_ca_accepts(pem@),
{
    let params = rcgen::CertificateParams::from_ca_cert_pem(pem).map_err(|e| e.to_string())?;
    Ok(CertParams { params, model: Ghost(arbitrary()) })
}

/// The local CA as loaded: its certificate (PEM and DER), the issuer rcgen
/// signs leaf certificates with, and its key pair.
pub struct CaMaterial {
    pub cert_pem: String,
    pub cert_der: Vec<u8>,
    pub issuer: rcgen::Certificate,
    pub key_pair: rcgen::KeyPair,
}

/// Text of a CA error: `what` then the outside message.
pub open spec fn ca_error_text(what: Seq<char>, detail: Seq<char>) -> Seq<char> {
    what + detail
}

/// What [`finish_ca`] makes of a certificate PEM text, the outcome of
/// rebuilding the issuer and the CA key pair: the issuer's error, else the
/// error of reading the certificate's DER bytes, else the CA material.
pub open spec fn ca_finished(
    cert_pem: Seq<char>,
    issuer: Result<rcgen::Certificate, String>,
    key_pair: rcgen::KeyPair,
    r: Result<CaMaterial, ProxyError>,
) -> bool {
    match issuer {
        Err(d) => r matches Err(ProxyError::Tls(m)) && m@ == ca_error_text("rebuild issuer: "@, d@),
        Ok(c) => match pem_read(cert_pem) {
            None => r matches Err(ProxyError::Tls(m)) && exists|d: Seq<char>| m@ == #[trigger] pem_error_text(d),
            Some(certs) => if certs.len() == 0 {
                r matches Err(ProxyError::Tls(m)) && m@ == no_certificate_text()
            } else {
                r matches Ok(mat) && mat.cert_der@ == certs[0] && mat.cert_pem@ == cert_pem && mat.issuer == c
                    && mat.key_pair == key_pair
            },
        },
    }
}

/// The last steps of loading the CA, once its issuer has been rebuilt: an
/// issuer error becomes a TLS error, else the certificate's DER bytes are read
/// and the material assembled.
pub fn finish_ca(cert_pem: &str, issuer: Result<rcgen::Certificate, String>, key_pair: rcgen::KeyPair) -> (r: Result<CaMaterial, ProxyError>)
    ensures
        ca_finished(cert_pem@, issuer, key_pair, r),
        r is Ok <==> (issuer is Ok && (pem_read(cert_pem@) matches Some(c) && c.len() > 0)),
        issuer matches Err(d) ==> (r matches Err(ProxyError::Tls(m)) && m@ == ca_error_text("rebuild issuer: "@, d@)),
        r matches Err(e) ==> e matches ProxyError::Tls(_),
{
    match issuer {
        Err(detail) => {
            let msg = concat2("rebuild issuer: ", detail.as_str());
            Err(ProxyError::Tls(msg))
        },
        Ok(issuer) => {
            let cert_der = pem_to_der(cert_pem)?;
            Ok(CaMaterial { cert_pem: String::from_str(cert_pem), cert_der, issuer, key_pair })
        },
    }
}

/// The error texts of two CA loading steps differ whatever outside messages
/// follow them.
proof fn lemma_ca_steps_differ(d1: Seq<char>, d2: Seq<char>)
    ensures
        ca_error_text("parse ca key: "@, d1) != ca_error_text("parse ca cert: "@, d2),
        ca_error_text("parse ca key: "@, d1) != ca_error_text("rebuild issuer: "@, d2),
        ca_error_text("parse ca key: "@, d1) != pem_error_text(d2),
        ca_error_text("parse ca key: "@, d1) != no_certificate_text(),
        ca_error_text("parse ca cert: "@, d1) != ca_error_text("rebuild issuer: "@, d2),
        ca_error_text("parse ca cert: "@, d1) != pem_error_text(d2),
        ca_error_text("parse ca cert: "@, d1) != no_certificate_text(),
{
    reveal_strlit("parse ca key: ");
    reveal_strlit("parse ca cert: ");
    reveal_strlit("rebuild issuer: ");
    reveal_strlit("parse pem: ");
    reveal_strlit("no certificate in pem");
    assert(ca_error_text("parse ca key: "@, d1)[9] == 'k');
    assert(ca_error_text("parse ca cert: "@, d2)[9] == 'c');
    assert(ca_error_text("parse ca key: "@, d1)[0] == 'p');
    assert(ca_error_text("rebuild issuer: "@, d2)[0] == 'r');
    assert(ca_error_text("parse ca key: "@, d1)[6] == 'c');
    assert(pem_error_text(d2)[6] == 'p');
    assert(no_certificate_text()[0] == 'n');
    assert(ca_error_text("parse ca cert: "@, d1)[0] == 'p');
    assert(ca_error_text("parse ca cert: "@, d1)[6] == 'c');
}

/// Whether `m` is the error of the step `what`: its text followed by an
/// outside message.
pub open spec fn step_failed(m: Seq<char>, what: Seq<char>) -> bool {
    exists|d: Seq<char>| m == #[trigger] ca_error_text(what, d)
}

/// Loads the local CA from its certificate and key PEM texts: parses the key,
/// then the certificate's parameters, rebuilds the issuer by self-signing
/// them with the key, and finishes with [`finish_ca`]. Each failure is a TLS
/// error naming its step.
pub fn load_ca(cert_pem: &str, key_pem: &str) -> (r: Result<CaMaterial, ProxyError>)
    ensures
        !rcgen_key_accepts(key_pem@) <==> (r matches Err(ProxyError::Tls(m)) && step_failed(m@, "parse ca key: "@)),
        rcgen_key_accepts(key_pem@) && !rcgen_ca_accepts(cert_pem@)
            <==> (r matches Err(ProxyError::Tls(m)) && step_failed(m@, "parse ca cert: "@)),
        rcgen_key_accepts(key_pem@) && rcgen_ca_accepts(cert_pem@)
            ==> exists|issuer: Result<rcgen::Certificate, String>, key_pair: rcgen::KeyPair|
                #[trigger] ca_finished(cert_pem@, issuer, key_pair, r),
        r matches Ok(m) ==> pem_read(cert_pem@) matches Some(c) && c.len() > 0 && m.cert_der@ == c[0] && m.cert_pem@ == cert_pem@,
        r matches Err(e) ==> e matches ProxyError::Tls(_),
{
    let key_pair = match key_from_pem(key_pem) {
        Ok(k) => k,
        Err(detail) => {
            let msg = concat2("parse ca key: ", detail.as_str());
            proof {
                assert(msg@ == ca_error_text("parse ca key: "@, detail@));
                assert(step_failed(msg@, "parse ca key: "@));
                assert forall|d: Seq<char>| msg@ != #[trigger] ca_error_text("parse ca cert: "@, d) by {
                    lemma_ca_steps_differ(detail@, d);
                }
            }
            return Err(ProxyError::Tls(msg));
        },
    };
    let params = match ca_params_from_pem(cert_pem) {
        Ok(p) => p,
        Err(detail) => {
            let msg = concat2("parse ca cert: ", detail.as_str());
            proof {
                assert(msg@ == ca_error_text("parse ca cert: "@, detail@));
                assert(step_failed(msg@, "parse ca cert: "@));
                assert forall|d: Seq<char>| msg@ != #[trigger] ca_error_text("parse ca key: "@, d) by {
                    lemma_ca_steps_differ(d, detail@);
                }
            }
            return Err(ProxyError::Tls(msg));
        },
    };
    let issuer = match self_sign(params, &key_pair) {
        Ok(c) => Ok(c.into_certificate()),
        Err(d) => Err(d),
    };
    let ghost issuer_v = issuer;
    let ghost key_v = key_pair;
    let r = finish_ca(cert_pem, issuer, key_pair);
    proof {
        assert(ca_finished(cert_pem@, issuer_v, key_v, r));
        if let Err(ProxyError::Tls(ref m)) = r {
            assert forall|d: Seq<char>|
                #![trigger ca_error_text("parse ca key: "@, d)]
                #![trigger ca_error_text("parse ca cert: "@, d)]
                m@ != ca_error_text("parse ca key: "@, d) && m@ != ca_error_text("parse ca cert: "@, d) by {
                match issuer_v {
                    Err(d2) => { lemma_ca_steps_differ(d, d2@); },
                    Ok(_) => {
                        match pem_read(cert_pem@) {
                            None => {
                                let d2 = choose|d2: Seq<char>| m@ == #[trigger] pem_error_text(d2);
                                lemma_ca_steps_differ(d, d2);
                            },
                            Some(_) => { lemma_ca_steps_differ(d, d); },
                        }
                    },
                }
            }
            assert(!step_failed(m@, "parse ca key: "@));
            assert(!step_failed(m@, "parse ca cert: "@));
        }
    }
    r
}

/// Organisation named in the local CA's subject.
pub const CA_ORGANIZATION: &'static str = "Maxwell";

/// Common name of the local CA.
pub const CA_COMMON_NAME: &'static str = "Maxwell Local CA";

/// Whether every character of a text is ASCII.
pub open spec fn is_ascii_text(s: Seq<char>) -> bool {
    forall|i: int| 0 <= i < s.len() ==> (s[i] as u32) < 128
}

/// A subject attribute the library sets.
#[derive(Debug, Clone, Copy, PartialEq, Eq, Structural)]
pub enum NameKind {
    CommonName,
    OrganizationName,
}

/// A key usage the library asks for.
#[derive(Debug, Clone, Copy, PartialEq, Eq, Structural)]
pub enum KeyUsage {
    DigitalSignature,
    KeyCertSign,
    CrlSign,
}

/// What the leaf certificate presented for one intercepted host says.
pub struct LeafSpec {
    /// Subject common name.
    pub common_name: String,
    /// DNS subject alternative names.
    pub dns_names: Vec<String>,
    /// Extended key usage: TLS server authentication.
    pub server_auth: bool,
    /// Key usage: digital signature.
    pub digital_signature: bool,
}

/// What the local CA's own certificate says.
pub struct CaSpec {
    /// Subject organisation.
    pub organization: String,
    /// Subject common name.
    pub common_name: String,
    /// A CA with no path length constraint.
    pub unconstrained_ca: bool,
    /// Key usage: signing certificates.
    pub key_cert_sign: bool,
    /// Key usage: signing revocation lists.
    pub crl_sign: bool,
}

/// A leaf for `host` names the host as its common name and as its one DNS
/// name, and serves TLS with a signing key.
pub fn leaf_spec(host: &str) -> (s: LeafSpec)
    ensures
        s.common_name@ == host@,
        s.dns_names@.len() == 1,
        s.dns_names@[0]@ == host@,
        s.server_auth,
        s.digital_signature,
{
    LeafSpec {
        common_name: String::from_str(host),
        dns_names: vec![String::from_str(host)],
        server_auth: true,
        digital_signature: true,
    }
}

/// The local CA: organisation "Maxwell", common name "Maxwell Local CA", an
/// unconstrained CA that signs certificates and revocation lists.
pub fn ca_spec() -> (s: CaSpec)
    ensures
        s.organization@ == CA_ORGANIZATION@,
        s.common_name@ == CA_COMMON_NAME@,
        s.unconstrained_ca,
        s.key_cert_sign,
        s.crl_sign,
{
    CaSpec {
        organization: String::from_str(CA_ORGANIZATION),
        common_name: String::from_str(CA_COMMON_NAME),
        unconstrained_ca: true,
        key_cert_sign: true,
        crl_sign: true,
    }
}

/// The chain a leaf is served with: the leaf, then the CA certificate.
pub fn leaf_chain(leaf_der: Vec<u8>, ca: &CaMaterial) -> (c: Vec<Vec<u8>>)
    ensures
        c@.len() == 2,
        c@[0]@ == leaf_der@,
        c@[1]@ == ca.cert_der@,
{
    let ca_der = copy_bytes(&ca.cert_der);
    let mut c: Vec<Vec<u8>> = Vec::new();
    c.push(leaf_der);
    c.push(ca_der);
    c
}

fn copy_bytes(v: &Vec<u8>) -> (r: Vec<u8>)
    ensures
        r@ == v@,
{
    let mut r: Vec<u8> = Vec::new();
    let mut i: usize = 0;
    while i < v.len()
        invariant
            i <= v@.len(),
            r@ == v@.subrange(0, i as int),
        decreases v@.len() - i,
    {
        r.push(v[i]);
        proof { assert(r@ =~= v@.subrange(0, i + 1)); }
        i = i + 1;
    }
    assert(r@ =~= v@);
    r
}

fn copy_chain(c: &Vec<Vec<u8>>) -> (r: Vec<Vec<u8>>)
    ensures
        r@.len() == c@.len(),
        forall|i: int| 0 <= i < c@.len() ==> #[trigger] r@[i]@ == c@[i]@,
{
    let mut r: Vec<Vec<u8>> = Vec::new();
    let mut i: usize = 0;
    while i < c.len()
        invariant
            i <= c@.len(),
            r@.len() == i,
            forall|j: int| 0 <= j < i ==> #[trigger] r@[j]@ == c@[j]@,
        decreases c@.len() - i,
    {
        r.push(copy_bytes(&c[i]));
        i = i + 1;
    }
    r
}

#[verifier::external_type_specification]
#[verifier::external_body]
pub struct ExRustlsServerConfig(rustls::ServerConfig);

/// An extended key usage the library asks for.
#[derive(Debug, Clone, Copy, PartialEq, Eq, Structural)]
pub enum ExtendedUsage {
    ServerAuth,
}

/// The plain values of certificate parameters that the library reads or sets:
/// the subject attributes in order, the DNS subject alternative names, the key
/// usages, the extended key usages, and whether it is an unconstrained CA.
pub struct ParamsModel {
    pub subject: Seq<(NameKind, Seq<char>)>,
    pub dns_names: Seq<Seq<char>>,
    pub key_usages: Seq<KeyUsage>,
    pub extended_usages: Seq<ExtendedUsage>,
    pub unconstrained_ca: bool,
}

/// `DistinguishedName::push`: an attribute of a kind already present takes the
/// new text in its place; a new kind is appended.
pub open spec fn subject_with(s: Seq<(NameKind, Seq<char>)>, kind: NameKind, value: Seq<char>) -> Seq<(NameKind, Seq<char>)> {
    if exists|i: int| 0 <= i < s.len() && #[trigger] s[i].0 == kind {
        s.update(choose|i: int| 0 <= i < s.len() && #[trigger] s[i].0 == kind, (kind, value))
    } else {
        s.push((kind, value))
    }
}

/// What a leaf for `host` is signed with (see [`leaf_spec`]): common name
/// `host`, the one DNS name `host`, digital signature, server authentication.
pub open spec fn leaf_params(host: Seq<char>) -> ParamsModel {
    ParamsModel {
        subject: seq![(NameKind::CommonName, host)],
        dns_names: seq![host],
        key_usages: seq![KeyUsage::DigitalSignature],
        extended_usages: seq![ExtendedUsage::ServerAuth],
        unconstrained_ca: false,
    }
}

/// What the local CA's certificate is signed with (see [`ca_spec`]).
pub open spec fn ca_params() -> ParamsModel {
    ParamsModel {
        subject: seq![(NameKind::OrganizationName, CA_ORGANIZATION@), (NameKind::CommonName, CA_COMMON_NAME@)],
        dns_names: Seq::empty(),
        key_usages: seq![KeyUsage::KeyCertSign, KeyUsage::CrlSign],
        extended_usages: Seq::empty(),
        unconstrained_ca: true,
    }
}

/// A leaf names its host as its only subject attribute (the common name) and
/// as its one DNS name, is signed for digital signatures and TLS server
/// authentication, and is no CA; the local CA is named organisation "Maxwell",
/// common name "Maxwell Local CA", has no DNS name, signs certificates and
/// revocation lists, and is a CA without path length constraint.
pub proof fn law_certificate_contents(host: Seq<char>)
    ensures
        leaf_params(host).subject == seq![(NameKind::CommonName, host)],
        leaf_params(host).dns_names == seq![host],
        leaf_params(host).key_usages == seq![KeyUsage::DigitalSignature],
        leaf_params(host).extended_usages == seq![ExtendedUsage::ServerAuth],
        !leaf_params(host).unconstrained_ca,
        ca_params().subject == seq![(NameKind::OrganizationName, "Maxwell"@), (NameKind::CommonName, "Maxwell Local CA"@)],
        ca_params().dns_names.len() == 0,
        ca_params().key_usages == seq![KeyUsage::KeyCertSign, KeyUsage::CrlSign],
        ca_params().extended_usages.len() == 0,
        ca_params().unconstrained_ca,
{
}

/// rcgen certificate parameters with the model of what the library set in
/// them; only the trusted setters below change either.
pub struct CertParams {
    params: rcgen::CertificateParams,
    model: Ghost<ParamsModel>,
}

impl CertParams {
    /// What the parameters hold, as far as the library reads or sets them.
    pub closed spec fn model(&self) -> ParamsModel {
        self.model@
    }
}

/// A freshly generated key pair with its PKCS#8 DER bytes.
pub struct GeneratedKey {
    key_pair: rcgen::KeyPair,
    der: Vec<u8>,
}

impl GeneratedKey {
    /// The key pair.
    pub closed spec fn key(&self) -> rcgen::KeyPair {
        self.key_pair
    }

    /// Its PKCS#8 DER bytes.
    pub closed spec fn der_bytes(&self) -> Seq<u8> {
        self.der@
    }
}

/// A certificate rcgen signed, with its DER bytes and what it was made from:
/// the parameters' model, the subject's key pair and the issuer (none when
/// self-signed).
pub struct SignedCert {
    cert: rcgen::Certificate,
    der: Vec<u8>,
    params: Ghost<ParamsModel>,
    subject_key: Ghost<rcgen::KeyPair>,
    issuer: Ghost<Option<(rcgen::Certificate, rcgen::KeyPair)>>,
}

impl SignedCert {
    /// The model of the parameters it was signed from.
    pub closed spec fn params(&self) -> ParamsModel {
        self.params@
    }

    /// The key pair whose public key it certifies.
    pub closed spec fn subject_key(&self) -> rcgen::KeyPair {
        self.subject_key@
    }

    /// The issuing certificate and the key that signed it; none when
    /// self-signed.
    pub closed spec fn issuer(&self) -> Option<(rcgen::Certificate, rcgen::KeyPair)> {
        self.issuer@
    }

    /// Its DER bytes.
    pub closed spec fn der_bytes(&self) -> Seq<u8> {
        self.der@
    }

    /// Its DER bytes.
    pub fn der(&self) -> (d: &Vec<u8>)
        ensures
            d@ == self.der_bytes(),
    {
        &self.der
    }

    /// The rcgen certificate.
    pub fn into_certificate(self) -> (c: rcgen::Certificate) {
        self.cert
    }
}

/// Calls `rcgen::CertificateParams::new` with the given subject alternative
/// names; an error comes back as its message. rcgen's source takes each name
/// as an IP address when std parses it as one and else as a DNS name, which
/// fails exactly for a name that is not ASCII; std parses only the textual
/// IPv4 and IPv6 notations, which are ASCII. So the call succeeds exactly
/// when every name is ASCII. The parameters are rcgen's defaults: the subject
/// holds only the common name "rcgen self signed cert", no key usages, no CA;
/// with no names there are no alternative names.
#[verifier::external_body]
fn params_new(names: Vec<String>) -> (r: Result<CertParams, String>)
    ensures
        r is Ok <==> forall|i: int| 0 <= i < names@.len() ==> is_ascii_text(#[trigger] names@[i]@),
        r matches Ok(p) ==> {
            &&& p.model().subject == seq![(NameKind::CommonName, "rcgen self signed cert"@)]
            &&& p.model().key_usages == Seq::<KeyUsage>::empty()
            &&& p.model().extended_usages == Seq::<ExtendedUsage>::empty()
            &&& !p.model().unconstrained_ca
            &&& names@.len() == 0 ==> p.model().dns_names == Seq::<Seq<char>>::empty()
        },
{
    let dns = Ghost(names@.map_values(|n: String| n@));
    let params = rcgen::CertificateParams::new(names).map_err(|e| e.to_string())?;
    Ok(CertParams { params, model: Ghost(ParamsModel {
        subject: seq![(NameKind::CommonName, "rcgen self signed cert"@)],
        dns_names: dns@,
        key_usages: Seq::empty(),
        extended_usages: Seq::empty(),
        unconstrained_ca: false,
    }) })
}

/// Replaces the parameters' subject with `rcgen::DistinguishedName::new()`,
/// an empty one.
#[verifier::external_body]
fn subject_clear(p: &mut CertParams)
    ensures
        final(p).model() == (ParamsModel { subject: Seq::empty(), ..old(p).model() }),
{
    p.params.distinguished_name = rcgen::DistinguishedName::new();
    p.model = Ghost(ParamsModel { subject: Seq::empty(), ..p.model@ });
}

/// Calls `DistinguishedName::push` on the parameters' subject with the rcgen
/// attribute type of `kind` and the text, which inserts or updates it.
#[verifier::external_body]
fn subject_push(p: &mut CertParams, kind: NameKind, value: &str)
    ensures
        final(p).model() == (ParamsModel { subject: subject_with(old(p).model().subject, kind, value@), ..old(p).model() }),
{
    let ty = match kind {
        NameKind::CommonName => rcgen::DnType::CommonName,
        NameKind::OrganizationName => rcgen::DnType::OrganizationName,
    };
    p.params.distinguished_name.push(ty, value);
    p.model = Ghost(ParamsModel { subject: subject_with(p.model@.subject, kind, value@), ..p.model@ });
}

/// Empties the parameters' subject alternative names.
#[verifier::external_body]
fn clear_alt_names(p: &mut CertParams)
    ensures
        final(p).model() == (ParamsModel { dns_names: Seq::empty(), ..old(p).model() }),
{
    p.params.subject_alt_names.clear();
    p.model = Ghost(ParamsModel { dns_names: Seq::empty(), ..p.model@ });
}

/// Calls `rcgen::Ia5String::try_from` and appends the text as
/// `SanType::DnsName` to the parameters' alternative names; an error comes
/// back as its message. rcgen's source refuses exactly the texts that are not
/// ASCII, and then nothing changes.
#[verifier::external_body]
fn push_dns_name(p: &mut CertParams, name: &str) -> (r: Result<(), String>)
    ensures
        r is Ok <==> is_ascii_text(name@),
        r is Ok ==> final(p).model() == (ParamsModel { dns_names: old(p).model().dns_names.push(name@), ..old(p).model() }),
        r is Err ==> final(p).model() == old(p).model(),
{
    let dns = rcgen::Ia5String::try_from(name).map_err(|e| e.to_string())?;
    p.params.subject_alt_names.push(rcgen::SanType::DnsName(dns));
    p.model = Ghost(ParamsModel { dns_names: p.model@.dns_names.push(name@), ..p.model@ });
    Ok(())
}

/// Pushes `ExtendedKeyUsagePurpose::ServerAuth` onto the parameters.
#[verifier::external_body]
fn add_server_auth(p: &mut CertParams)
    ensures
        final(p).model() == (ParamsModel {
            extended_usages: old(p).model().extended_usages.push(ExtendedUsage::ServerAuth),
            ..old(p).model()
        }),
{
    p.params.extended_key_usages.push(rcgen::ExtendedKeyUsagePurpose::ServerAuth);
    p.model = Ghost(ParamsModel { extended_usages: p.model@.extended_usages.push(ExtendedUsage::ServerAuth), ..p.model@ });
}

/// Pushes the rcgen `KeyUsagePurpose` of `usage` onto the parameters.
#[verifier::external_body]
fn add_key_usage(p: &mut CertParams, usage: KeyUsage)
    ensures
        final(p).model() == (ParamsModel { key_usages: old(p).model().key_usages.push(usage), ..old(p).model() }),
{
    let purpose = match usage {
        KeyUsage::DigitalSignature => rcgen::KeyUsagePurpose::DigitalSignature,
        KeyUsage::KeyCertSign => rcgen::KeyUsagePurpose::KeyCertSign,
        KeyUsage::CrlSign => rcgen::KeyUsagePurpose::CrlSign,
    };
    p.params.key_usages.push(purpose);
    p.model = Ghost(ParamsModel { key_usages: p.model@.key_usages.push(usage), ..p.model@ });
}

/// Marks the parameters as those of a CA without path length constraint
/// (`IsCa::Ca(BasicConstraints::Unconstrained)`).
#[verifier::external_body]
fn mark_unconstrained_ca(p: &mut CertParams)
    ensures
        final(p).model() == (ParamsModel { unconstrained_ca: true, ..old(p).model() }),
{
    p.params.is_ca = rcgen::IsCa::Ca(rcgen::BasicConstraints::Unconstrained);
    p.model = Ghost(ParamsModel { unconstrained_ca: true, ..p.model@ });
}

/// Calls `rcgen::KeyPair::generate`, a new random key pair, and keeps its
/// `serialize_der` bytes beside it; an error comes back as its message.
/// Nothing is claimed of the outcome, which is random.
#[verifier::external_body]
fn generate_key() -> (r: Result<GeneratedKey, String>)
{
    let key_pair = rcgen::KeyPair::generate().map_err(|e| e.to_string())?;
    Ok(GeneratedKey { der: key_pair.serialize_der(), key_pair })
}

/// Calls `CertificateParams::signed_by`: a certificate for `key`'s public key
/// issued by `issuer` and signed with `issuer_key`, kept with its `der()`
/// bytes; an error comes back as its message. Whether signing succeeds is not
/// claimed (the signature is randomised); a certificate it makes is made from
/// these parameters, this key and this issuer.
#[verifier::external_body]
fn sign_by(params: CertParams, key: &GeneratedKey, issuer: &rcgen::Certificate, issuer_key: &rcgen::KeyPair) -> (r: Result<SignedCert, String>)
    ensures
        r matches Ok(c) ==> c.params() == params.model() && c.subject_key() == key.key()
            && c.issuer() == Some((*issuer, *issuer_key)),
{
    let model = Ghost(params.model@);
    let cert = params.params.signed_by(&key.key_pair, issuer, issuer_key).map_err(|e| e.to_string())?;
    Ok(SignedCert { der: cert.der().to_vec(), cert, params: model, subject_key: Ghost(key.key_pair),
        issuer: Ghost(Some((*issuer, *issuer_key))) })
}

/// Calls `CertificateParams::self_signed` with the key pair, keeping the
/// certificate's `der()` bytes; an error comes back as its message. Whether
/// signing succeeds is not claimed; a certificate it makes is made from these
/// parameters and signed by this key for itself.
#[verifier::external_body]
fn self_sign(params: CertParams, key: &rcgen::KeyPair) -> (r: Result<SignedCert, String>)
    ensures
        r matches Ok(c) ==> c.params() == params.model() && c.subject_key() == *key && c.issuer() is None,
{
    let model = Ghost(params.model@);
    let cert = params.params.self_signed(key).map_err(|e| e.to_string())?;
    Ok(SignedCert { der: cert.der().to_vec(), cert, params: model, subject_key: Ghost(*key), issuer: Ghost(None) })
}

/// What `Certificate::pem` gives for a certificate whose DER bytes are `der`
/// (rcgen's source PEM-encodes exactly those bytes as a "CERTIFICATE").
pub uninterp spec fn rcgen_cert_pem(der: Seq<u8>) -> Seq<char>;

/// Calls `Certificate::pem`; named by [`rcgen_cert_pem`] of the certificate's
/// DER bytes.
#[verifier::external_body]
fn certificate_pem(c: &SignedCert) -> (p: String)
    ensures
        p@ == rcgen_cert_pem(c.der_bytes()),
{
    c.cert.pem()
}

/// What `KeyPair::serialize_pem` gives for a key pair whose PKCS#8 DER bytes
/// are `der` (rcgen's source PEM-encodes exactly `serialize_der()` as a
/// "PRIVATE KEY").
pub uninterp spec fn rcgen_key_pem(der: Seq<u8>) -> Seq<char>;

/// Calls `KeyPair::serialize_pem`; named by [`rcgen_key_pem`] of the key's DER
/// bytes. rcgen panics there only for a remote key pair, and a generated key
/// pair is never remote.
#[verifier::external_body]
fn key_pem(k: &GeneratedKey) -> (p: String)
    ensures
        p@ == rcgen_key_pem(k.der_bytes()),
{
    k.key_pair.serialize_pem()
}

/// Calls `rustls::ServerConfig::builder().with_no_client_auth()
/// .with_single_cert` with the certificate chain (DER, leaf first) and the
/// PKCS#8 private key; an error comes back as its message. rustls panics in
/// `builder` only when no crypto provider can be resolved, and with this
/// crate's rustls features (ring alone) one always is. Nothing is claimed of
/// the configuration, which is opaque here.
#[verifier::external_body]
fn single_cert_config(chain: Vec<Vec<u8>>, key_der: Vec<u8>) -> (r: Result<rustls::ServerConfig, String>)
{
    let certs = chain.into_iter().map(rustls::pki_types::CertificateDer::from).collect();
    let key = rustls::pki_types::PrivateKeyDer::Pkcs8(rustls::pki_types::PrivatePkcs8KeyDer::from(key_der));
    rustls::ServerConfig::builder().with_no_client_auth().with_single_cert(certs, key).map_err(|e| e.to_string())
}

/// A TLS error naming a step, then the outside message.
fn step_error(what: &str, detail: String) -> (e: ProxyError)
    ensures
        e matches ProxyError::Tls(m) && m@ == ca_error_text(what@, detail@),
{
    ProxyError::Tls(concat2(what, detail.as_str()))
}

/// A freshly minted leaf: the server configuration presenting it, the chain
/// (DER) it presents, and the signed leaf.
pub struct LeafMaterial {
    pub config: rustls::ServerConfig,
    pub chain: Vec<Vec<u8>>,
    pub leaf: SignedCert,
}

/// The parameters of the leaf [`leaf_spec`] describes for `host`.
fn leaf_certificate_params(host: &str) -> (r: Result<CertParams, ProxyError>)
    ensures
        r matches Ok(p) ==> p.model() == leaf_params(host@),
        r is Err <==> !is_ascii_text(host@),
        r matches Err(e) ==> (e matches ProxyError::Tls(m) && step_failed(m@, "leaf params: "@)),
{
    let spec = leaf_spec(host);
    let mut names: Vec<String> = Vec::new();
    names.push(String::from_str(host));
    let ghost nv = names@;
    let mut params = match params_new(names) {
        Ok(p) => {
            proof { assert(is_ascii_text(nv[0]@)); }
            p
        },
        Err(d) => {
            let e = step_error("leaf params: ", d);
            proof { assert(e matches ProxyError::Tls(m) && step_failed(m@, "leaf params: "@)); }
            return Err(e);
        },
    };
    subject_clear(&mut params);
    subject_push(&mut params, NameKind::CommonName, spec.common_name.as_str());
    clear_alt_names(&mut params);
    let mut i: usize = 0;
    while i < spec.dns_names.len()
        invariant
            i <= spec.dns_names@.len(),
            spec.dns_names@.len() == 1,
            spec.dns_names@[0]@ == host@,
            is_ascii_text(host@),
            params.model().subject == seq![(NameKind::CommonName, host@)],
            params.model().dns_names == spec.dns_names@.subrange(0, i as int).map_values(|n: String| n@),
            params.model().key_usages == Seq::<KeyUsage>::empty(),
            params.model().extended_usages == Seq::<ExtendedUsage>::empty(),
            !params.model().unconstrained_ca,
        decreases spec.dns_names@.len() - i,
    {
        match push_dns_name(&mut params, spec.dns_names[i].as_str()) {
            Ok(()) => {},
            Err(_) => {
                proof { assert(false); }
            },
        }
        proof {
            assert(spec.dns_names@.subrange(0, i + 1).map_values(|n: String| n@)
                =~= spec.dns_names@.subrange(0, i as int).map_values(|n: String| n@).push(spec.dns_names@[i as int]@));
        }
        i = i + 1;
    }
    if spec.server_auth {
        add_server_auth(&mut params);
    }
    if spec.digital_signature {
        add_key_usage(&mut params, KeyUsage::DigitalSignature);
    }
    proof {
        assert(spec.dns_names@.subrange(0, 1).map_values(|n: String| n@) =~= seq![host@]);
        assert(params.model().key_usages =~= seq![KeyUsage::DigitalSignature]);
        assert(params.model().extended_usages =~= seq![ExtendedUsage::ServerAuth]);
    }
    Ok(params)
}

/// Mints the leaf certificate for `host`, as [`leaf_spec`] describes it,
/// signed by the local CA, and the server configuration presenting it with
/// the chain of [`leaf_chain`]. Each failure is a TLS error naming its step:
/// a host that is not ASCII fails at the parameters; for an ASCII host only
/// the random key, the signature and the configuration can fail.
pub fn mint_leaf(ca: &CaMaterial, host: &str) -> (r: Result<LeafMaterial, ProxyError>)
    ensures
        r matches Ok(l) ==> {
            &&& l.chain@.len() == 2
            &&& l.chain@[0]@ == l.leaf.der_bytes()
            &&& l.chain@[1]@ == ca.cert_der@
            &&& l.leaf.params() == leaf_params(host@)
            &&& l.leaf.issuer() == Some((ca.issuer, ca.key_pair))
        },
        !is_ascii_text(host@) ==> (r matches Err(ProxyError::Tls(m)) && step_failed(m@, "leaf params: "@)),
        is_ascii_text(host@) ==> (r is Ok || (r matches Err(ProxyError::Tls(m)) && (step_failed(m@, "leaf key: "@)
            || step_failed(m@, "sign leaf: "@) || step_failed(m@, "server config: "@)))),
        r matches Err(e) ==> e matches ProxyError::Tls(_),
{
    let params = leaf_certificate_params(host)?;
    let leaf_key = match generate_key() {
        Ok(k) => k,
        Err(d) => {
            let e = step_error("leaf key: ", d);
            proof { assert(e matches ProxyError::Tls(m) && step_failed(m@, "leaf key: "@)); }
            return Err(e);
        },
    };
    let leaf = match sign_by(params, &leaf_key, &ca.issuer, &ca.key_pair) {
        Ok(c) => c,
        Err(d) => {
            let e = step_error("sign leaf: ", d);
            proof { assert(e matches ProxyError::Tls(m) && step_failed(m@, "sign leaf: "@)); }
            return Err(e);
        },
    };
    let chain = leaf_chain(copy_bytes(leaf.der()), ca);
    let presented = copy_chain(&chain);
    match single_cert_config(presented, copy_bytes(&leaf_key.der)) {
        Ok(config) => Ok(LeafMaterial { config, chain, leaf }),
        Err(d) => {
            let e = step_error("server config: ", d);
            proof { assert(e matches ProxyError::Tls(m) && step_failed(m@, "server config: "@)); }
            Err(e)
        },
    }
}

/// A newly generated local CA: the PEM texts of its certificate and key, the
/// signed certificate and the key pair.
pub struct GeneratedCa {
    pub cert_pem: String,
    pub key_pem: String,
    pub certificate: SignedCert,
    pub key: GeneratedKey,
}

/// Generates a new local CA, as [`ca_spec`] describes it, self-signed with a
/// new random key: its certificate and key, and their PEM texts. Each failure
/// is a TLS error naming its step; only the random key and the signature can
/// fail.
pub fn generate_ca() -> (r: Result<GeneratedCa, ProxyError>)
    ensures
        r matches Ok(g) ==> {
            &&& g.certificate.params() == ca_params()
            &&& g.certificate.issuer() is None
            &&& g.certificate.subject_key() == g.key.key()
            &&& g.cert_pem@ == rcgen_cert_pem(g.certificate.der_bytes())
            &&& g.key_pem@ == rcgen_key_pem(g.key.der_bytes())
        },
        r matches Err(e) ==> e matches ProxyError::Tls(m) && (step_failed(m@, "ca key: "@)
            || step_failed(m@, "self-sign ca: "@)),
{
    let spec = ca_spec();
    let key = match generate_key() {
        Ok(k) => k,
        Err(d) => {
            let e = step_error("ca key: ", d);
            proof { assert(e matches ProxyError::Tls(m) && step_failed(m@, "ca key: "@)); }
            return Err(e);
        },
    };
    let mut params = match params_new(Vec::new()) {
        Ok(p) => p,
        Err(d) => return Err(step_error("ca params: ", d)),
    };
    if spec.unconstrained_ca {
        mark_unconstrained_ca(&mut params);
    }
    subject_clear(&mut params);
    subject_push(&mut params, NameKind::OrganizationName, spec.organization.as_str());
    subject_push(&mut params, NameKind::CommonName, spec.common_name.as_str());
    if spec.key_cert_sign {
        add_key_usage(&mut params, KeyUsage::KeyCertSign);
    }
    if spec.crl_sign {
        add_key_usage(&mut params, KeyUsage::CrlSign);
    }
    proof {
        let s1 = seq![(NameKind::OrganizationName, CA_ORGANIZATION@)];
        assert(subject_with(Seq::empty(), NameKind::OrganizationName, CA_ORGANIZATION@) == s1);
        assert(!(exists|i: int| 0 <= i < s1.len() && #[trigger] s1[i].0 == NameKind::CommonName));
        assert(params.model().subject =~= ca_params().subject);
        assert(params.model().key_usages =~= ca_params().key_usages);
    }
    match self_sign(params, &key.key_pair) {
        Ok(certificate) => {
            let cert_pem = certificate_pem(&certificate);
            let key_pem = key_pem(&key);
            Ok(GeneratedCa { cert_pem, key_pem, certificate, key })
        },
        Err(d) => {
            let e = step_error("self-sign ca: ", d);
            proof { assert(e matches ProxyError::Tls(m) && step_failed(m@, "self-sign ca: "@)); }
            Err(e)
        },
    }
}

/// Per-host values minted once and reused (the leaf server configuration of
/// each intercepted host).
pub struct HostCache<V> {
    entries: Vec<(String, V)>,
}

/// (host text, value) entries of a cache's storage.
pub open spec fn cache_entries<V>(s: Seq<(String, V)>) -> Seq<(Seq<char>, V)> {
    s.map_values(|e: (String, V)| (e.0@, e.1))
}

impl<V> View for HostCache<V> {
    type V = Map<Seq<char>, V>;

    closed spec fn view(&self) -> Map<Seq<char>, V> {
        assoc_map(cache_entries(self.entries@))
    }
}

impl<V> HostCache<V> {
    /// Internal consistency: each host once.
    pub closed spec fn wf(&self) -> bool {
        distinct_keys(cache_entries(self.entries@))
    }

    /// Nothing cached.
    pub fn new() -> (c: Self)
        ensures
            c.wf(),
            c@ == Map::<Seq<char>, V>::empty(),
    {
        HostCache { entries: Vec::new() }
    }

    fn position(&self, host: &str) -> (r: Option<usize>)
        requires
            self.wf(),
        ensures
            match r {
                Some(i) => i < self.entries@.len() && self.entries@[i as int].0@ == host@,
                None => forall|i: int| 0 <= i < self.entries@.len() ==> #[trigger] self.entries@[i].0@ != host@,
            },
    {
        let mut i: usize = 0;
        while i < self.entries.len()
            invariant
                i <= self.entries@.len(),
                forall|j: int| 0 <= j < i ==> #[trigger] self.entries@[j].0@ != host@,
            decreases self.entries@.len() - i,
        {
            if str_equal(self.entries[i].0.as_str(), host) {
                return Some(i);
            }
            i = i + 1;
        }
        None
    }

    /// The value cached for `host`.
    pub fn get(&self, host: &str) -> (r: Option<&V>)
        requires
            self.wf(),
        ensures
            match r {
                Some(v) => self@.contains_key(host@) && self@[host@] == *v,
                None => !self@.contains_key(host@),
            },
    {
        let ghost s = cache_entries(self.entries@);
        proof { lemma_assoc_lookup(s); }
        match self.position(host) {
            Some(i) => {
                proof { assert(s[i as int] == (self.entries@[i as int].0@, self.entries@[i as int].1)); }
                Some(&self.entries[i].1)
            },
            None => {
                proof {
                    if assoc_map(s).contains_key(host@) {
                        let j = choose|j: int| 0 <= j < s.len() && #[trigger] s[j].0 == host@;
                        assert(self.entries@[j].0@ == host@);
                    }
                }
                None
            },
        }
    }

    /// Caches `value` for `host`, replacing an earlier one.
    pub fn insert(&mut self, host: String, value: V)
        requires
            old(self).wf(),
        ensures
            final(self).wf(),
            final(self)@ == old(self)@.insert(host@, value),
    {
        let ghost before = self.entries@;
        match self.position(host.as_str()) {
            Some(i) => {
                let ghost e = (host@, value);
                self.entries.set(i, (host, value));
                proof {
                    assert(cache_entries(self.entries@) =~= cache_entries(before).update(i as int, e));
                    lemma_assoc_update(cache_entries(before), i as int, e);
                }
            },
            None => {
                let ghost e = (host@, value);
                self.entries.push((host, value));
                proof {
                    assert(cache_entries(self.entries@) =~= cache_entries(before).push(e));
                    lemma_assoc_push(cache_entries(before), e);
                }
            },
        }
    }
}

/// A cached value is handed back unchanged until the host is cached again.
pub proof fn law_cache_returns_last_insert<V>(m: Map<Seq<char>, V>, host: Seq<char>, v: V, other: Seq<char>)
    ensures
        m.insert(host, v)[host] == v,
        other != host ==> m.insert(host, v).contains_key(other) == m.contains_key(other),
        other != host && m.contains_key(other) ==> m.insert(host, v)[other] == m[other],
{
}

} // verus!
