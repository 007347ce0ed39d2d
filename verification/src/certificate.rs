//! The parsed certificate record: validity window, subject and issuer
//! attributes, and typed subject alternate names. The DER parsing itself is
//! delegated to the `x509-parser` crate behind trusted wrappers; everything
//! assembled from the extracted values is verified, in particular the
//! rendering of IP addresses and the dropping of alternate names equal to
//! the subject common name.

use vstd::prelude::*;

use x509_parser::extensions::GeneralName::{DNSName, DirectoryName, IPAddress, RFC822Name, URI};
use x509_parser::prelude::{FromDer, TbsCertificate, X509Certificate};

use crate::ip::{ipv4_text, ipv6_text, spec_ipv4_text, spec_ipv6_text};

verus! {

/// A validity window, normalized so that `begin <= end`, as seconds of
/// Unix time.
#[derive(Clone, Copy, Debug, PartialEq, Eq, Structural)]
pub struct CertificateValidity {
    begin: i64,
    end: i64,
}

impl CertificateValidity {
    /// The start of the window, in seconds of Unix time.
    pub closed spec fn spec_begin(&self) -> i64 {
        self.begin
    }

    /// The end of the window, in seconds of Unix time.
    pub closed spec fn spec_end(&self) -> i64 {
        self.end
    }

    /// The window whose bounds are the two instants, in order: the smaller
    /// becomes `begin`, the larger `end`, so the width is their distance.
    pub fn from_timestamps(begin: i64, end: i64) -> (v: CertificateValidity)
        ensures
            v.spec_begin() == if begin <= end { begin } else { end },
            v.spec_end() == if begin <= end { end } else { begin },
            v.spec_begin() <= v.spec_end(),
            v.spec_end() - v.spec_begin() == if begin <= end { end - begin } else { begin - end },
    {
        if begin <= end {
            CertificateValidity { begin, end }
        } else {
            CertificateValidity { begin: end, end: begin }
        }
    }

    /// Whether `now` lies strictly inside the window.
    pub fn is_valid_at(&self, now: i64) -> (r: bool)
        ensures
            r == (self.spec_begin() < now && now < self.spec_end()),
    {
        self.begin < now && now < self.end
    }

    /// Whether the current time lies strictly inside the window. A window
    /// that contains any instant strictly is wider than a point.
    pub fn is_within_valid_time(&self) -> (r: bool)
        ensures
            r ==> self.spec_begin() + 1 < self.spec_end(),
    {
        let now = now_unix();
        self.is_valid_at(now)
    }

    /// The start of the window, in seconds of Unix time.
    pub fn timestamp_begin(&self) -> (r: i64)
        ensures
            r == self.spec_begin(),
    {
        self.begin
    }

    /// The end of the window, in seconds of Unix time.
    pub fn timestamp_end(&self) -> (r: i64)
        ensures
            r == self.spec_end(),
    {
        self.end
    }
}

/// Relies on chrono's `Utc::now` for the current time, at second resolution;
/// nothing is assumed about the value it returns.
#[verifier::external_body]
fn now_unix() -> i64 {
    chrono::Utc::now().timestamp()
}

/// A typed subject alternate name. IP addresses are carried in their
/// canonical textual form.
#[derive(Clone, Debug, PartialEq, Eq)]
pub enum CertificateAlternateName {
    /// A directory name.
    Directory(String),
    /// A DNS host name.
    Hostname(String),
    /// An IP address, rendered as text.
    Address(String),
    /// An e-mail address.
    Email(String),
    /// A uniform resource identifier.
    Uri(String),
}

/// The ghost shape of an alternate name: its kind and its text.
pub enum AltNameView {
    Directory(Seq<char>),
    Hostname(Seq<char>),
    Address(Seq<char>),
    Email(Seq<char>),
    Uri(Seq<char>),
}

/// The ghost value of an alternate name.
pub open spec fn alt_view(a: CertificateAlternateName) -> AltNameView {
    match a {
        CertificateAlternateName::Directory(s) => AltNameView::Directory(s@),
        CertificateAlternateName::Hostname(s) => AltNameView::Hostname(s@),
        CertificateAlternateName::Address(s) => AltNameView::Address(s@),
        CertificateAlternateName::Email(s) => AltNameView::Email(s@),
        CertificateAlternateName::Uri(s) => AltNameView::Uri(s@),
    }
}

/// The text of a ghost alternate name, regardless of its kind.
pub open spec fn alt_view_text(a: AltNameView) -> Seq<char> {
    match a {
        AltNameView::Directory(s) => s,
        AltNameView::Hostname(s) => s,
        AltNameView::Address(s) => s,
        AltNameView::Email(s) => s,
        AltNameView::Uri(s) => s,
    }
}

impl CertificateAlternateName {
    /// The text of the name, regardless of its kind.
    pub closed spec fn spec_text(&self) -> Seq<char> {
        alt_view_text(alt_view(*self))
    }

    /// The text of the name as a fresh string.
    pub fn to_string(&self) -> (r: String)
        ensures
            r@ == self.spec_text(),
    {
        match self {
            CertificateAlternateName::Directory(s) => s.clone(),
            CertificateAlternateName::Hostname(s) => s.clone(),
            CertificateAlternateName::Address(s) => s.clone(),
            CertificateAlternateName::Email(s) => s.clone(),
            CertificateAlternateName::Uri(s) => s.clone(),
        }
    }

    /// The text of the name, borrowed.
    pub fn as_str(&self) -> (r: &str)
        ensures
            r@ == self.spec_text(),
    {
        match self {
            CertificateAlternateName::Directory(s) => s.as_str(),
            CertificateAlternateName::Hostname(s) => s.as_str(),
            CertificateAlternateName::Address(s) => s.as_str(),
            CertificateAlternateName::Email(s) => s.as_str(),
            CertificateAlternateName::Uri(s) => s.as_str(),
        }
    }
}

/// A general name as extracted from a certificate, before rendering:
/// text for the textual kinds, raw octets for IP addresses, and a marker
/// for every kind the record does not carry.
pub enum RawGeneralName {
    Directory(String),
    Hostname(String),
    Email(String),
    Uri(String),
    Ip(Vec<u8>),
    Unsupported,
}

/// The ghost shape of an extracted general name.
pub enum GeneralNameView {
    Directory(Seq<char>),
    Hostname(Seq<char>),
    Email(Seq<char>),
    Uri(Seq<char>),
    Ip(Seq<u8>),
    Unsupported,
}

/// The ghost value of an extracted general name.
pub open spec fn raw_view(r: RawGeneralName) -> GeneralNameView {
    match r {
        RawGeneralName::Directory(s) => GeneralNameView::Directory(s@),
        RawGeneralName::Hostname(s) => GeneralNameView::Hostname(s@),
        RawGeneralName::Email(s) => GeneralNameView::Email(s@),
        RawGeneralName::Uri(s) => GeneralNameView::Uri(s@),
        RawGeneralName::Ip(b) => GeneralNameView::Ip(b@),
        RawGeneralName::Unsupported => GeneralNameView::Unsupported,
    }
}

/// How one extracted name appears in the record: textual kinds keep their
/// text, IP addresses of 4 or 16 octets are rendered, everything else is
/// dropped.
pub open spec fn spec_convert_name(n: GeneralNameView) -> Option<AltNameView> {
    match n {
        GeneralNameView::Directory(s) => Some(AltNameView::Directory(s)),
        GeneralNameView::Hostname(s) => Some(AltNameView::Hostname(s)),
        GeneralNameView::Email(s) => Some(AltNameView::Email(s)),
        GeneralNameView::Uri(s) => Some(AltNameView::Uri(s)),
        GeneralNameView::Ip(b) => if b.len() == 4 {
            Some(AltNameView::Address(spec_ipv4_text(b)))
        } else if b.len() == 16 {
            Some(AltNameView::Address(spec_ipv6_text(b)))
        } else {
            None
        },
        GeneralNameView::Unsupported => None,
    }
}

/// The alternate names kept for a record: each extracted name converted by
/// `spec_convert_name`, in order, dropping every name whose text equals the
/// subject common name.
pub open spec fn spec_alternates(names: Seq<GeneralNameView>, cn: Option<Seq<char>>) -> Seq<
    AltNameView,
>
    decreases names.len(),
{
    if names.len() == 0 {
        Seq::empty()
    } else {
        let init = spec_alternates(names.drop_last(), cn);
        match spec_convert_name(names.last()) {
            Some(a) => if cn matches Some(t) && alt_view_text(a) == t {
                init
            } else {
                init.push(a)
            },
            None => init,
        }
    }
}

/// No kept alternate name has the subject common name as its text.
pub proof fn lemma_alternates_drop_common_name(
    names: Seq<GeneralNameView>,
    cn: Seq<char>,
)
    ensures
        forall|i: int|
            0 <= i < spec_alternates(names, Some(cn)).len() ==> alt_view_text(
                #[trigger] spec_alternates(names, Some(cn))[i],
            ) != cn,
    decreases names.len(),
{
    if names.len() > 0 {
        lemma_alternates_drop_common_name(names.drop_last(), cn);
        let init = spec_alternates(names.drop_last(), Some(cn));
        let whole = spec_alternates(names, Some(cn));
        match spec_convert_name(names.last()) {
            Some(a) => {
                if alt_view_text(a) != cn {
                    assert(whole == init.push(a));
                    assert forall|i: int| 0 <= i < whole.len() implies alt_view_text(
                        whole[i],
                    ) != cn by {
                        if i < init.len() {
                            assert(whole[i] == init[i]);
                        } else {
                            assert(whole[i] == a);
                        }
                    }
                }
            }
            None => {}
        }
    }
}

/// A parsed certificate: the attributes this library reads, the normalized
/// validity window, and the exact DER bytes the parser consumed.
#[derive(Clone, Debug)]
pub struct Certificate {
    pub(crate) issuer: Option<String>,
    pub(crate) authority: bool,
    pub(crate) organization: Option<String>,
    pub(crate) subject_name: Option<String>,
    pub(crate) subject_alternate: Vec<CertificateAlternateName>,
    pub(crate) validity: CertificateValidity,
    pub(crate) encoded: Vec<u8>,
}

/// The ghost value of an optional string.
pub open spec fn opt_text(o: Option<String>) -> Option<Seq<char>> {
    match o {
        Some(s) => Some(s@),
        None => None,
    }
}

impl Certificate {
    /// The first Organization attribute of the issuer, when one is present.
    pub closed spec fn spec_issuer(&self) -> Option<Seq<char>> {
        opt_text(self.issuer)
    }

    /// The basicConstraints CA flag.
    pub closed spec fn spec_authority(&self) -> bool {
        self.authority
    }

    /// The first Organization attribute of the subject.
    pub closed spec fn spec_organization(&self) -> Option<Seq<char>> {
        opt_text(self.organization)
    }

    /// The first CommonName attribute of the subject.
    pub closed spec fn spec_subject_name(&self) -> Option<Seq<char>> {
        opt_text(self.subject_name)
    }

    /// The kept alternate names, in order.
    pub closed spec fn spec_alternate(&self) -> Seq<CertificateAlternateName> {
        self.subject_alternate@
    }

    /// The validity window.
    pub closed spec fn spec_validity(&self) -> CertificateValidity {
        self.validity
    }

    /// The DER bytes the parser consumed.
    pub closed spec fn spec_encoded(&self) -> Seq<u8> {
        self.encoded@
    }

    /// The issuer organization, borrowed.
    pub fn issuer(&self) -> (r: Option<&str>)
        ensures
            r is Some <==> self.spec_issuer() is Some,
            r is Some ==> r.unwrap()@ == self.spec_issuer().unwrap(),
    {
        match &self.issuer {
            Some(s) => Some(s.as_str()),
            None => None,
        }
    }

    /// Whether the certificate is a certificate authority.
    pub fn authority(&self) -> (r: bool)
        ensures
            r == self.spec_authority(),
    {
        self.authority
    }

    /// The subject organization, borrowed.
    pub fn organization(&self) -> (r: Option<&str>)
        ensures
            r is Some <==> self.spec_organization() is Some,
            r is Some ==> r.unwrap()@ == self.spec_organization().unwrap(),
    {
        match &self.organization {
            Some(s) => Some(s.as_str()),
            None => None,
        }
    }

    /// The subject common name, borrowed.
    pub fn subject_name(&self) -> (r: Option<&str>)
        ensures
            r is Some <==> self.spec_subject_name() is Some,
            r is Some ==> r.unwrap()@ == self.spec_subject_name().unwrap(),
    {
        match &self.subject_name {
            Some(s) => Some(s.as_str()),
            None => None,
        }
    }

    /// The kept alternate names, in order.
    pub fn subject_alternate(&self) -> (r: &[CertificateAlternateName])
        ensures
            r@ == self.spec_alternate(),
    {
        self.subject_alternate.as_slice()
    }

    /// The validity window.
    pub fn validity(&self) -> (r: CertificateValidity)
        ensures
            r == self.spec_validity(),
    {
        self.validity
    }

    /// The DER bytes the parser consumed, borrowed.
    pub fn encoded(&self) -> (r: &[u8])
        ensures
            r@ == self.spec_encoded(),
    {
        self.encoded.as_slice()
    }
}

/// How many input bytes the DER certificate parser consumes, when the bytes
/// parse as a certificate or as a bare TBSCertificate.
pub uninterp spec fn der_consumed_of(data: Seq<u8>) -> Option<usize>;

/// The basicConstraints CA flag the DER parser reads from the bytes.
pub uninterp spec fn der_is_ca_of(data: Seq<u8>) -> bool;

/// The first string-valued Organization attribute of the issuer.
pub uninterp spec fn der_issuer_org_of(data: Seq<u8>) -> Option<Seq<char>>;

/// The first string-valued Organization attribute of the subject.
pub uninterp spec fn der_subject_org_of(data: Seq<u8>) -> Option<Seq<char>>;

/// The first string-valued CommonName attribute of the subject.
pub uninterp spec fn der_subject_cn_of(data: Seq<u8>) -> Option<Seq<char>>;

/// How many subjectAltName entries the certificate carries.
pub uninterp spec fn der_name_count_of(data: Seq<u8>) -> usize;

/// The subjectAltName entry at an index, as extracted.
pub uninterp spec fn der_name_at_of(data: Seq<u8>, i: int) -> GeneralNameView;

/// The notBefore instant, in seconds of Unix time; zero when the bytes do
/// not parse.
pub uninterp spec fn der_not_before_of(data: Seq<u8>) -> i64;

/// The notAfter instant, in seconds of Unix time; zero when the bytes do
/// not parse.
pub uninterp spec fn der_not_after_of(data: Seq<u8>) -> i64;

/// The subjectAltName entries of a certificate, in order.
pub open spec fn spec_san_seq(data: Seq<u8>) -> Seq<GeneralNameView> {
    Seq::new(der_name_count_of(data) as nat, |i: int| der_name_at_of(data, i))
}

/// Relies on x509-parser's `X509Certificate::from_der`, falling back to
/// `TbsCertificate::from_der`: how many input bytes the accepted parse
/// consumes, which is at most the input length.
#[verifier::external_body]
fn der_consumed(data: &[u8]) -> (r: Option<usize>)
    ensures
        r == der_consumed_of(data@),
        r is Some ==> r.unwrap() <= data@.len(),
{
    match X509Certificate::from_der(data) {
        Ok((rem, _)) => Some(data.len() - rem.len()),
        Err(_) => match TbsCertificate::from_der(data) {
            Ok((rem, _)) => Some(data.len() - rem.len()),
            Err(_) => None,
        },
    }
}

/// Relies on x509-parser's `TbsCertificate::is_ca` (basicConstraints with
/// `CA:true`), after the same parse fallback; false when nothing parses.
#[verifier::external_body]
fn der_is_ca(data: &[u8]) -> (r: bool)
    ensures
        r == der_is_ca_of(data@),
{
    let tbs = match X509Certificate::from_der(data) {
        Ok((_, c)) => c.tbs_certificate,
        Err(_) => match TbsCertificate::from_der(data) {
            Ok((_, t)) => t,
            Err(_) => return false,
        },
    };
    tbs.is_ca()
}

/// Relies on x509-parser's `X509Name::iter_organization` over the issuer:
/// the first attribute with a string value, after the same parse fallback.
#[verifier::external_body]
fn der_issuer_organization(data: &[u8]) -> (r: Option<String>)
    ensures
        (r is Some) == (der_issuer_org_of(data@) is Some),
        r is Some ==> r.unwrap()@ == der_issuer_org_of(data@).unwrap(),
{
    let tbs = match X509Certificate::from_der(data) {
        Ok((_, c)) => c.tbs_certificate,
        Err(_) => match TbsCertificate::from_der(data) {
            Ok((_, t)) => t,
            Err(_) => return None,
        },
    };
    let first = tbs.issuer().iter_organization().filter_map(|a| a.as_str().ok()).next().map(|s| s.to_owned());
    first
}

/// Relies on x509-parser's `X509Name::iter_organization` over the subject:
/// the first attribute with a string value, after the same parse fallback.
#[verifier::external_body]
fn der_subject_organization(data: &[u8]) -> (r: Option<String>)
    ensures
        (r is Some) == (der_subject_org_of(data@) is Some),
        r is Some ==> r.unwrap()@ == der_subject_org_of(data@).unwrap(),
{
    let tbs = match X509Certificate::from_der(data) {
        Ok((_, c)) => c.tbs_certificate,
        Err(_) => match TbsCertificate::from_der(data) {
            Ok((_, t)) => t,
            Err(_) => return None,
        },
    };
    let first = tbs.subject().iter_organization().filter_map(|a| a.as_str().ok()).next().map(|s| s.to_owned());
    first
}

/// Relies on x509-parser's `X509Name::iter_common_name` over the subject:
/// the first attribute with a string value, after the same parse fallback.
#[verifier::external_body]
fn der_subject_common_name(data: &[u8]) -> (r: Option<String>)
    ensures
        (r is Some) == (der_subject_cn_of(data@) is Some),
        r is Some ==> r.unwrap()@ == der_subject_cn_of(data@).unwrap(),
{
    let tbs = match X509Certificate::from_der(data) {
        Ok((_, c)) => c.tbs_certificate,
        Err(_) => match TbsCertificate::from_der(data) {
            Ok((_, t)) => t,
            Err(_) => return None,
        },
    };
    let first = tbs.subject().iter_common_name().filter_map(|a| a.as_str().ok()).next().map(|s| s.to_owned());
    first
}

/// Relies on x509-parser's `TbsCertificate::subject_alternative_name`: how
/// many general names the extension carries; zero without the extension or
/// without a parse.
#[verifier::external_body]
fn der_name_count(data: &[u8]) -> (r: usize)
    ensures
        r == der_name_count_of(data@),
{
    let tbs = match X509Certificate::from_der(data) {
        Ok((_, c)) => c.tbs_certificate,
        Err(_) => match TbsCertificate::from_der(data) {
            Ok((_, t)) => t,
            Err(_) => return 0,
        },
    };
    match tbs.subject_alternative_name() {
        Ok(Some(e)) => e.value.general_names.len(),
        _ => 0,
    }
}

/// Relies on x509-parser's `GeneralName`: the subjectAltName entry at an
/// index, moved field by field; directory names through their `Display`
/// form, IP addresses as raw octets, every other kind as unsupported.
#[verifier::external_body]
fn der_name_at(data: &[u8], i: usize) -> (r: RawGeneralName)
    ensures
        raw_view(r) == der_name_at_of(data@, i as int),
{
    let tbs = X509Certificate::from_der(data).map(|r| r.1.tbs_certificate).or(
        TbsCertificate::from_der(data).map(|r| r.1),
    ).ok();
    let san = tbs.as_ref().and_then(|t| t.subject_alternative_name().ok().flatten());
    match san.and_then(|e| e.value.general_names.get(i)) {
        Some(DirectoryName(n)) => RawGeneralName::Directory(n.to_string()),
        Some(DNSName(n)) => RawGeneralName::Hostname(n.to_string()),
        Some(RFC822Name(n)) => RawGeneralName::Email(n.to_string()),
        Some(URI(n)) => RawGeneralName::Uri(n.to_string()),
        Some(IPAddress(b)) => RawGeneralName::Ip(b.to_vec()),
        _ => RawGeneralName::Unsupported,
    }
}

/// Relies on x509-parser's `ASN1Time::timestamp` over `validity.not_before`,
/// after the same parse fallback; zero when nothing parses.
#[verifier::external_body]
fn der_not_before(data: &[u8]) -> (r: i64)
    ensures
        r == der_not_before_of(data@),
{
    let tbs = match X509Certificate::from_der(data) {
        Ok((_, c)) => c.tbs_certificate,
        Err(_) => match TbsCertificate::from_der(data) {
            Ok((_, t)) => t,
            Err(_) => return 0,
        },
    };
    tbs.validity.not_before.timestamp()
}

/// Relies on x509-parser's `ASN1Time::timestamp` over `validity.not_after`,
/// after the same parse fallback; zero when nothing parses.
#[verifier::external_body]
fn der_not_after(data: &[u8]) -> (r: i64)
    ensures
        r == der_not_after_of(data@),
{
    let tbs = match X509Certificate::from_der(data) {
        Ok((_, c)) => c.tbs_certificate,
        Err(_) => match TbsCertificate::from_der(data) {
            Ok((_, t)) => t,
            Err(_) => return 0,
        },
    };
    tbs.validity.not_after.timestamp()
}

/// Everything `parse_certificate` promises of a record built from the
/// bytes: each attribute is the one the DER parser extracts, the alternate
/// names are converted and filtered as `spec_alternates` says, the validity
/// window is normalized, and `encoded` is exactly the consumed prefix.
pub open spec fn cert_matches(c: Certificate, data: Seq<u8>) -> bool {
    &&& der_consumed_of(data) is Some
    &&& c.spec_authority() == der_is_ca_of(data)
    &&& c.spec_issuer() == der_issuer_org_of(data)
    &&& c.spec_organization() == der_subject_org_of(data)
    &&& c.spec_subject_name() == der_subject_cn_of(data)
    &&& c.spec_alternate().map_values(|a: CertificateAlternateName| alt_view(a))
        == spec_alternates(spec_san_seq(data), der_subject_cn_of(data))
    &&& c.spec_validity().spec_begin() == if der_not_before_of(data) <= der_not_after_of(data) {
        der_not_before_of(data)
    } else {
        der_not_after_of(data)
    }
    &&& c.spec_validity().spec_end() == if der_not_before_of(data) <= der_not_after_of(data) {
        der_not_after_of(data)
    } else {
        der_not_before_of(data)
    }
    &&& c.spec_encoded() == data.take(der_consumed_of(data).unwrap() as int)
}

/// No alternate name of a parsed certificate has the subject common name as
/// its text: whenever the subject carries a common name, every alternate
/// name byte-equal to it was dropped.
pub proof fn lemma_certificate_drops_common_name(c: Certificate, data: Seq<u8>)
    requires
        cert_matches(c, data),
        der_subject_cn_of(data) is Some,
    ensures
        forall|i: int|
            0 <= i < c.spec_alternate().len() ==> (#[trigger] c.spec_alternate()[i]).spec_text()
                != der_subject_cn_of(data).unwrap(),
{
    let cn = der_subject_cn_of(data).unwrap();
    lemma_alternates_drop_common_name(spec_san_seq(data), cn);
    let mapped = c.spec_alternate().map_values(|a: CertificateAlternateName| alt_view(a));
    assert forall|i: int|
        0 <= i < c.spec_alternate().len() implies (#[trigger] c.spec_alternate()[i]).spec_text()
        != cn by {
        assert(mapped[i] == alt_view(c.spec_alternate()[i]));
        assert(alt_view_text(mapped[i]) != cn);
    }
}

/// Appends the name to the kept list unless its text equals the subject
/// common name.
fn push_unless_common(
    kept: &mut Vec<CertificateAlternateName>,
    name: CertificateAlternateName,
    cn: &Option<String>,
)
    ensures
        final(kept)@ == if opt_text(*cn) matches Some(t) && alt_view_text(alt_view(name)) == t {
            old(kept)@
        } else {
            old(kept)@.push(name)
        },
{
    match cn {
        Some(t) => {
            if name.to_string() == *t {
            } else {
                kept.push(name);
            }
        }
        None => {
            kept.push(name);
        }
    }
}

/// Parses one DER certificate (or bare TBSCertificate): the record assembled
/// from what the parser extracts, or nothing when the bytes do not parse.
pub fn parse_certificate(data: &[u8]) -> (r: Option<Certificate>)
    ensures
        (r is Some) <==> der_consumed_of(data@) is Some,
        r is Some ==> cert_matches(r.unwrap(), data@),
{
    let consumed = match der_consumed(data) {
        Some(n) => n,
        None => {
            return None;
        }
    };
    let authority = der_is_ca(data);
    let issuer = der_issuer_organization(data);
    let organization = der_subject_organization(data);
    let subject_name = der_subject_common_name(data);

    let count = der_name_count(data);
    let mut kept: Vec<CertificateAlternateName> = Vec::new();
    let ghost cn = der_subject_cn_of(data@);
    let ghost san = spec_san_seq(data@);
    assert(opt_text(subject_name) == cn);
    for i in 0..count
        invariant
            opt_text(subject_name) == cn,
            san == spec_san_seq(data@),
            count == der_name_count_of(data@),
            san.len() == count as int,
            kept@.map_values(|a: CertificateAlternateName| alt_view(a)) == spec_alternates(
                san.take(i as int),
                cn,
            ),
    {
        let raw = der_name_at(data, i);
        proof {
            assert(san.take(i + 1).drop_last() =~= san.take(i as int));
            assert(san.take(i + 1).last() == san[i as int]);
            assert(san[i as int] == raw_view(raw));
        }
        let ghost before = kept@;
        match raw {
            RawGeneralName::Directory(s) => {
                push_unless_common(&mut kept, CertificateAlternateName::Directory(s), &subject_name);
            }
            RawGeneralName::Hostname(s) => {
                push_unless_common(&mut kept, CertificateAlternateName::Hostname(s), &subject_name);
            }
            RawGeneralName::Email(s) => {
                push_unless_common(&mut kept, CertificateAlternateName::Email(s), &subject_name);
            }
            RawGeneralName::Uri(s) => {
                push_unless_common(&mut kept, CertificateAlternateName::Uri(s), &subject_name);
            }
            RawGeneralName::Ip(bytes) => {
                if bytes.len() == 4 {
                    let text = ipv4_text(&bytes);
                    push_unless_common(
                        &mut kept,
                        CertificateAlternateName::Address(text),
                        &subject_name,
                    );
                } else if bytes.len() == 16 {
                    let text = ipv6_text(&bytes);
                    push_unless_common(
                        &mut kept,
                        CertificateAlternateName::Address(text),
                        &subject_name,
                    );
                }
            }
            RawGeneralName::Unsupported => {}
        }
        proof {
            lemma_map_values_push(before, kept@);
            assert(kept@.map_values(|a: CertificateAlternateName| alt_view(a)) =~= spec_alternates(
                san.take(i + 1),
                cn,
            ));
        }
    }
    assert(san.take(count as int) =~= san);

    let not_before = der_not_before(data);
    let not_after = der_not_after(data);
    let validity = CertificateValidity::from_timestamps(not_before, not_after);
    let encoded = vstd::slice::slice_to_vec(vstd::slice::slice_subrange(data, 0, consumed));
    assert(encoded@ =~= data@.take(consumed as int));

    Some(
        Certificate {
            issuer,
            authority,
            organization,
            subject_name,
            subject_alternate: kept,
            validity,
            encoded,
        },
    )
}

/// Mapping a ghost view over a list that grew by at most one element keeps
/// the images of the untouched prefix.
proof fn lemma_map_values_push(
    before: Seq<CertificateAlternateName>,
    after: Seq<CertificateAlternateName>,
)
    requires
        after == before || after == before.push(after.last()),
    ensures
        after == before ==> after.map_values(|a: CertificateAlternateName| alt_view(a))
            == before.map_values(|a: CertificateAlternateName| alt_view(a)),
        after != before ==> after.map_values(|a: CertificateAlternateName| alt_view(a))
            == before.map_values(|a: CertificateAlternateName| alt_view(a)).push(
            alt_view(after.last()),
        ),
{
    if after != before {
        assert(after.map_values(|a: CertificateAlternateName| alt_view(a)) =~= before.map_values(
            |a: CertificateAlternateName| alt_view(a),
        ).push(alt_view(after.last())));
    }
}

} // verus!
