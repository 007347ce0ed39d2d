//! Certificate parsing, validity normalization, alternate-name handling,
//! and IP rendering, on hand-rolled DER certificates.

use certain::certificate::{parse_certificate, CertificateAlternateName, CertificateValidity};
use certain::ip::{ipv4_text, ipv6_text};

fn tlv(tag: u8, content: &[u8]) -> Vec<u8> {
    let mut out = vec![tag];
    let len = content.len();
    if len < 128 {
        out.push(len as u8);
    } else if len < 256 {
        out.push(0x81);
        out.push(len as u8);
    } else {
        out.push(0x82);
        out.push((len >> 8) as u8);
        out.push((len & 0xff) as u8);
    }
    out.extend_from_slice(content);
    out
}

fn der_name(attrs: &[(&[u8], &str)]) -> Vec<u8> {
    let mut rdns = Vec::new();
    for (oid, value) in attrs {
        let atv = tlv(
            0x30,
            &[tlv(0x06, oid), tlv(0x0c, value.as_bytes())].concat(),
        );
        rdns.extend_from_slice(&tlv(0x31, &atv));
    }
    tlv(0x30, &rdns)
}

fn basic_constraints_ca() -> Vec<u8> {
    tlv(
        0x30,
        &[
            tlv(0x06, &[0x55, 0x1d, 0x13]),
            tlv(0x04, &tlv(0x30, &tlv(0x01, &[0xff]))),
        ]
        .concat(),
    )
}

fn san_extension(names: &[Vec<u8>]) -> Vec<u8> {
    let inner = tlv(0x30, &names.concat());
    tlv(
        0x30,
        &[tlv(0x06, &[0x55, 0x1d, 0x11]), tlv(0x04, &inner)].concat(),
    )
}

fn dns_name(name: &str) -> Vec<u8> {
    tlv(0x82, name.as_bytes())
}

fn email_name(name: &str) -> Vec<u8> {
    tlv(0x81, name.as_bytes())
}

fn uri_name(name: &str) -> Vec<u8> {
    tlv(0x86, name.as_bytes())
}

fn ip_name(octets: &[u8]) -> Vec<u8> {
    tlv(0x87, octets)
}

fn der_tbs(issuer_org: &str, subject_cn: &str, subject_org: &str, extensions: &[u8]) -> Vec<u8> {
    let oid_cn: &[u8] = &[0x55, 0x04, 0x03];
    let oid_o: &[u8] = &[0x55, 0x04, 0x0a];
    let version = tlv(0xa0, &tlv(0x02, &[2]));
    let serial = tlv(0x02, &[0x01]);
    let sig_alg = tlv(
        0x30,
        &[
            tlv(0x06, &[0x2a, 0x86, 0x48, 0x86, 0xf7, 0x0d, 0x01, 0x01, 0x0b]),
            tlv(0x05, &[]),
        ]
        .concat(),
    );
    let issuer = der_name(&[(oid_o, issuer_org)]);
    let validity = tlv(
        0x30,
        &[
            tlv(0x17, b"240101000000Z"),
            tlv(0x17, b"260101000000Z"),
        ]
        .concat(),
    );
    let subject = der_name(&[(oid_cn, subject_cn), (oid_o, subject_org)]);
    let spki = tlv(
        0x30,
        &[
            tlv(
                0x30,
                &[
                    tlv(0x06, &[0x2a, 0x86, 0x48, 0x86, 0xf7, 0x0d, 0x01, 0x01, 0x01]),
                    tlv(0x05, &[]),
                ]
                .concat(),
            ),
            tlv(0x03, &[0x00, 0x01, 0x02, 0x03]),
        ]
        .concat(),
    );
    let mut body = Vec::new();
    body.extend_from_slice(&version);
    body.extend_from_slice(&serial);
    body.extend_from_slice(&sig_alg);
    body.extend_from_slice(&issuer);
    body.extend_from_slice(&validity);
    body.extend_from_slice(&subject);
    body.extend_from_slice(&spki);
    if !extensions.is_empty() {
        body.extend_from_slice(&tlv(0xa3, &tlv(0x30, extensions)));
    }
    tlv(0x30, &body)
}

#[test]
fn validity_is_normalized() {
    let v = CertificateValidity::from_timestamps(5, 3);
    assert_eq!(v.timestamp_begin(), 3);
    assert_eq!(v.timestamp_end(), 5);

    let v = CertificateValidity::from_timestamps(3, 5);
    assert_eq!(v.timestamp_begin(), 3);
    assert_eq!(v.timestamp_end(), 5);

    let v = CertificateValidity::from_timestamps(-10, 7);
    assert_eq!(v.timestamp_begin(), -10);
    assert_eq!(v.timestamp_end(), 7);
    assert_eq!(v.timestamp_end() - v.timestamp_begin(), 17);

    let v = CertificateValidity::from_timestamps(4, 4);
    assert_eq!(v.timestamp_begin(), 4);
    assert_eq!(v.timestamp_end(), 4);
}

#[test]
fn validity_window_is_strict() {
    let v = CertificateValidity::from_timestamps(10, 20);
    assert!(v.is_valid_at(15));
    assert!(!v.is_valid_at(10));
    assert!(!v.is_valid_at(20));
    assert!(!v.is_valid_at(9));
    assert!(!v.is_valid_at(21));
}

#[test]
fn parsed_fields_match_the_certificate() {
    let tbs = der_tbs("Example Issuer", "host.example", "Example Subject", &basic_constraints_ca());
    let cert = parse_certificate(&tbs).unwrap();
    assert_eq!(cert.issuer(), Some("Example Issuer"));
    assert_eq!(cert.organization(), Some("Example Subject"));
    assert_eq!(cert.subject_name(), Some("host.example"));
    assert!(cert.authority());
    assert_eq!(cert.encoded(), tbs.as_slice());
    let v = cert.validity();
    assert_eq!(v.timestamp_begin(), 1_704_067_200);
    assert_eq!(v.timestamp_end(), 1_767_225_600);
}

#[test]
fn missing_extension_means_no_authority() {
    let tbs = der_tbs("Example Issuer", "plain.example", "Example Subject", &[]);
    let cert = parse_certificate(&tbs).unwrap();
    assert!(!cert.authority());
    assert_eq!(cert.subject_alternate().len(), 0);
}

#[test]
fn alternate_names_are_typed_and_ordered() {
    let san = san_extension(&[
        dns_name("a.example"),
        email_name("mail@example"),
        uri_name("https://example"),
        ip_name(&[192, 0, 2, 7]),
    ]);
    let tbs = der_tbs("Issuer", "cn.example", "Org", &san);
    let cert = parse_certificate(&tbs).unwrap();
    let names = cert.subject_alternate();
    assert_eq!(names.len(), 4);
    assert!(matches!(names[0], CertificateAlternateName::Hostname(_)));
    assert_eq!(names[0].as_str(), "a.example");
    assert!(matches!(names[1], CertificateAlternateName::Email(_)));
    assert_eq!(names[1].to_string(), "mail@example");
    assert!(matches!(names[2], CertificateAlternateName::Uri(_)));
    assert_eq!(names[2].as_str(), "https://example");
    assert!(matches!(names[3], CertificateAlternateName::Address(_)));
    assert_eq!(names[3].as_str(), "192.0.2.7");
}

#[test]
fn alternate_name_equal_to_common_name_is_dropped() {
    let san = san_extension(&[dns_name("cn.example"), dns_name("other.example")]);
    let tbs = der_tbs("Issuer", "cn.example", "Org", &san);
    let cert = parse_certificate(&tbs).unwrap();
    let names = cert.subject_alternate();
    assert_eq!(names.len(), 1);
    assert_eq!(names[0].as_str(), "other.example");
    for name in names {
        assert_ne!(name.as_str(), "cn.example");
    }
}

#[test]
fn ip_of_unexpected_length_is_dropped() {
    let san = san_extension(&[ip_name(&[1, 2, 3, 4, 5]), dns_name("kept.example")]);
    let tbs = der_tbs("Issuer", "cn.example", "Org", &san);
    let cert = parse_certificate(&tbs).unwrap();
    let names = cert.subject_alternate();
    assert_eq!(names.len(), 1);
    assert_eq!(names[0].as_str(), "kept.example");
}

#[test]
fn ipv6_alternate_name_is_compressed() {
    let mut sixteen = vec![0x20, 0x01, 0x0d, 0xb8];
    sixteen.extend_from_slice(&[0; 11]);
    sixteen.push(1);
    let san = san_extension(&[ip_name(&sixteen)]);
    let tbs = der_tbs("Issuer", "cn.example", "Org", &san);
    let cert = parse_certificate(&tbs).unwrap();
    let names = cert.subject_alternate();
    assert_eq!(names.len(), 1);
    assert_eq!(names[0].as_str(), "2001:db8::1");
}

#[test]
fn unparseable_bytes_are_rejected() {
    assert!(parse_certificate(&[0x01, 0x02, 0x03]).is_none());
    assert!(parse_certificate(&[]).is_none());
}

#[test]
fn ipv4_text_is_dotted_quad() {
    assert_eq!(ipv4_text(&vec![0, 0, 0, 0]), "0.0.0.0");
    assert_eq!(ipv4_text(&vec![127, 0, 0, 1]), "127.0.0.1");
    assert_eq!(ipv4_text(&vec![255, 255, 255, 255]), "255.255.255.255");
}

#[test]
fn ipv6_text_compresses_zero_runs() {
    assert_eq!(ipv6_text(&vec![0; 16]), "::");
    let mut loopback = vec![0; 16];
    loopback[15] = 1;
    assert_eq!(ipv6_text(&loopback), "::1");
    let mut leading = vec![0; 16];
    leading[0] = 0x20;
    leading[1] = 0x01;
    leading[2] = 0x0d;
    leading[3] = 0xb8;
    leading[15] = 1;
    assert_eq!(ipv6_text(&leading), "2001:db8::1");
}

#[test]
fn ipv6_text_keeps_single_zero_group() {
    let bytes = vec![
        0x00, 0x01, 0x00, 0x00, 0x00, 0x03, 0x00, 0x04, 0x00, 0x05, 0x00, 0x06, 0x00, 0x07, 0x00,
        0x08,
    ];
    assert_eq!(ipv6_text(&bytes), "1:0:3:4:5:6:7:8");
}

#[test]
fn ipv6_text_prefers_leftmost_longest_run() {
    let bytes = vec![
        0x00, 0x01, 0x00, 0x00, 0x00, 0x00, 0x00, 0x01, 0x00, 0x00, 0x00, 0x00, 0x00, 0x01, 0x00,
        0x01,
    ];
    assert_eq!(ipv6_text(&bytes), "1::1:0:0:1:1");
}

#[test]
fn ipv6_text_renders_v4_mapped_tail() {
    let mut bytes = vec![0; 16];
    bytes[10] = 0xff;
    bytes[11] = 0xff;
    bytes[12] = 192;
    bytes[13] = 0;
    bytes[14] = 2;
    bytes[15] = 1;
    assert_eq!(ipv6_text(&bytes), "::ffff:192.0.2.1");
}

#[test]
fn ipv6_text_no_compression_when_no_zeros() {
    let bytes = vec![
        0x00, 0x01, 0x00, 0x02, 0x00, 0x03, 0x00, 0x04, 0x00, 0x05, 0x00, 0x06, 0x00, 0x07, 0xab,
        0xcd,
    ];
    assert_eq!(ipv6_text(&bytes), "1:2:3:4:5:6:7:abcd");
}
