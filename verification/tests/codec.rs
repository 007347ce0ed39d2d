//! Round trips and fault cases of the wire codec, on synthetic leaves built
//! around hand-rolled DER certificates.

use certain::codec::{encode_chain, encode_leaf, parse_log_entry, Entry};
use certain::error::LogError;

fn tlv(tag: u8, content: &[u8]) -> Vec<u8> {
    let mut out = vec![tag];
    let len = content.len();
    if len < 128 {
        out.push(len as u8);
    } else if len < 256 {
        out.push(0x81);
        out.push(len as u8);
    } else {
        out.push(0x82);
        out.push((len >> 8) as u8);
        out.push((len & 0xff) as u8);
    }
    out.extend_from_slice(content);
    out
}

fn der_name(attrs: &[(&[u8], &str)]) -> Vec<u8> {
    let mut rdns = Vec::new();
    for (oid, value) in attrs {
        let atv = tlv(
            0x30,
            &[tlv(0x06, oid), tlv(0x0c, value.as_bytes())].concat(),
        );
        rdns.extend_from_slice(&tlv(0x31, &atv));
    }
    tlv(0x30, &rdns)
}

fn der_tbs(issuer_org: &str, subject_cn: &str, subject_org: &str, extensions: &[u8]) -> Vec<u8> {
    let oid_cn: &[u8] = &[0x55, 0x04, 0x03];
    let oid_o: &[u8] = &[0x55, 0x04, 0x0a];
    let version = tlv(0xa0, &tlv(0x02, &[2]));
    let serial = tlv(0x02, &[0x01]);
    let sig_alg = tlv(
        0x30,
        &[
            tlv(0x06, &[0x2a, 0x86, 0x48, 0x86, 0xf7, 0x0d, 0x01, 0x01, 0x0b]),
            tlv(0x05, &[]),
        ]
        .concat(),
    );
    let issuer = der_name(&[(oid_o, issuer_org)]);
    let validity = tlv(
        0x30,
        &[
            tlv(0x17, b"240101000000Z"),
            tlv(0x17, b"260101000000Z"),
        ]
        .concat(),
    );
    let subject = der_name(&[(oid_cn, subject_cn), (oid_o, subject_org)]);
    let spki = tlv(
        0x30,
        &[
            tlv(
                0x30,
                &[
                    tlv(0x06, &[0x2a, 0x86, 0x48, 0x86, 0xf7, 0x0d, 0x01, 0x01, 0x01]),
                    tlv(0x05, &[]),
                ]
                .concat(),
            ),
            tlv(0x03, &[0x00, 0x01, 0x02, 0x03]),
        ]
        .concat(),
    );
    let mut body = Vec::new();
    body.extend_from_slice(&version);
    body.extend_from_slice(&serial);
    body.extend_from_slice(&sig_alg);
    body.extend_from_slice(&issuer);
    body.extend_from_slice(&validity);
    body.extend_from_slice(&subject);
    body.extend_from_slice(&spki);
    if !extensions.is_empty() {
        body.extend_from_slice(&tlv(0xa3, &tlv(0x30, extensions)));
    }
    tlv(0x30, &body)
}

fn simple_tbs(subject_cn: &str) -> Vec<u8> {
    der_tbs("Issuer Org", subject_cn, "Subject Org", &[])
}

#[test]
fn round_trip_signed_leaf() {
    let cert = simple_tbs("leaf.example");
    let parent = simple_tbs("parent.example");
    let root = simple_tbs("root.example");
    let hash = [0u8; 32];
    let leaf = encode_leaf(1_700_000_000_123, false, &hash, &cert);
    let chain = vec![parent.clone(), root.clone()];
    let extra = encode_chain(false, &[], &chain);

    let entry = parse_log_entry(&leaf, &extra).unwrap();
    assert!(matches!(entry, Entry::Signed { .. }));
    assert_eq!(entry.timestamp(), 1_700_000_000);
    assert_eq!(entry.certificate().encoded(), cert.as_slice());
    assert_eq!(entry.chain().len(), 2);
    assert_eq!(entry.chain()[0].encoded(), parent.as_slice());
    assert_eq!(entry.chain()[1].encoded(), root.as_slice());
}

#[test]
fn round_trip_precert_leaf() {
    let cert = simple_tbs("precert.example");
    let parent = simple_tbs("parent.example");
    let root = simple_tbs("root.example");
    let hash = [0xabu8; 32];
    let precert = simple_tbs("tbs-blob.example");
    let leaf = encode_leaf(1_600_000_000_000, true, &hash, &cert);
    let chain = vec![parent, root];
    let extra = encode_chain(true, &precert, &chain);

    let entry = parse_log_entry(&leaf, &extra).unwrap();
    assert!(matches!(entry, Entry::Pending { .. }));
    assert!(entry.is_pending());
    assert_eq!(entry.timestamp(), 1_600_000_000);
    assert_eq!(entry.certificate().encoded(), cert.as_slice());
    assert_eq!(entry.chain().len(), 2);
}

#[test]
fn empty_chain_round_trips() {
    let cert = simple_tbs("nochain.example");
    let leaf = encode_leaf(42_000, false, &[0u8; 32], &cert);
    let extra = encode_chain(false, &[], &vec![]);
    let entry = parse_log_entry(&leaf, &extra).unwrap();
    assert_eq!(entry.timestamp(), 42);
    assert_eq!(entry.chain().len(), 0);
}

#[test]
fn unsupported_version_aborts() {
    let cert = simple_tbs("v1.example");
    let mut leaf = encode_leaf(1000, false, &[0u8; 32], &cert);
    leaf[0] = 1;
    let extra = encode_chain(false, &[], &vec![]);
    let err = parse_log_entry(&leaf, &extra).unwrap_err();
    assert_eq!(err, LogError::UnsupportedVersion(1));
}

#[test]
fn unsupported_leaf_type_aborts() {
    let cert = simple_tbs("leaftype.example");
    let mut leaf = encode_leaf(1000, false, &[0u8; 32], &cert);
    leaf[1] = 7;
    let extra = encode_chain(false, &[], &vec![]);
    let err = parse_log_entry(&leaf, &extra).unwrap_err();
    assert_eq!(err, LogError::UnsupportedLeaf(7));
}

#[test]
fn unsupported_entry_type_aborts() {
    let cert = simple_tbs("entrytype.example");
    let mut leaf = encode_leaf(1000, false, &[0u8; 32], &cert);
    leaf[11] = 9;
    let extra = encode_chain(false, &[], &vec![]);
    let err = parse_log_entry(&leaf, &extra).unwrap_err();
    assert_eq!(err, LogError::UnsupportedEntry(9));
}

#[test]
fn truncated_header_is_buffer_read() {
    let err = parse_log_entry(&[0, 0, 1, 2, 3], &[]).unwrap_err();
    assert!(matches!(err, LogError::BufferRead(_)));
}

#[test]
fn truncated_certificate_is_buffer_read() {
    let cert = simple_tbs("short.example");
    let leaf = encode_leaf(1000, false, &[0u8; 32], &cert);
    let cut = &leaf[..leaf.len() - 5];
    let extra = encode_chain(false, &[], &vec![]);
    let err = parse_log_entry(cut, &extra).unwrap_err();
    assert!(matches!(err, LogError::BufferRead(_)));
}

#[test]
fn truncated_chain_is_buffer_read() {
    let cert = simple_tbs("chaincut.example");
    let parent = simple_tbs("parent.example");
    let leaf = encode_leaf(1000, false, &[0u8; 32], &cert);
    let extra = encode_chain(false, &[], &vec![parent]);
    let cut = &extra[..extra.len() - 3];
    let err = parse_log_entry(&leaf, cut).unwrap_err();
    assert!(matches!(err, LogError::BufferRead(_)));
}

#[test]
fn garbage_certificate_is_parse_error() {
    let bogus = vec![0xde, 0xad, 0xbe, 0xef, 0x01, 0x02];
    let leaf = encode_leaf(1000, false, &[0u8; 32], &bogus);
    let extra = encode_chain(false, &[], &vec![]);
    let err = parse_log_entry(&leaf, &extra).unwrap_err();
    assert!(matches!(err, LogError::Parse(_)));
}

#[test]
fn garbage_chain_certificate_is_parse_error() {
    let cert = simple_tbs("goodleaf.example");
    let leaf = encode_leaf(1000, false, &[0u8; 32], &cert);
    let extra = encode_chain(false, &[], &vec![vec![0xff, 0xfe, 0xfd]]);
    let err = parse_log_entry(&leaf, &extra).unwrap_err();
    assert!(matches!(err, LogError::Parse(_)));
}

#[test]
fn trailing_bytes_after_leaf_are_ignored() {
    let cert = simple_tbs("trailing.example");
    let mut leaf = encode_leaf(5_000, false, &[0u8; 32], &cert);
    leaf.extend_from_slice(&[0x00, 0x00]);
    let extra = encode_chain(false, &[], &vec![]);
    let entry = parse_log_entry(&leaf, &extra).unwrap();
    assert_eq!(entry.timestamp(), 5);
    assert_eq!(entry.certificate().encoded(), cert.as_slice());
}

#[test]
fn full_certificate_wrapper_parses_too() {
    let tbs = der_tbs("Issuer Org", "wrapped.example", "Subject Org", &[]);
    let sig_alg = tlv(
        0x30,
        &[
            tlv(0x06, &[0x2a, 0x86, 0x48, 0x86, 0xf7, 0x0d, 0x01, 0x01, 0x0b]),
            tlv(0x05, &[]),
        ]
        .concat(),
    );
    let full = tlv(
        0x30,
        &[tbs.clone(), sig_alg, tlv(0x03, &[0x00, 0xaa, 0xbb])].concat(),
    );
    let leaf = encode_leaf(9_000, false, &[0u8; 32], &full);
    let extra = encode_chain(false, &[], &vec![]);
    let entry = parse_log_entry(&leaf, &extra).unwrap();
    assert_eq!(entry.certificate().encoded(), full.as_slice());
    assert_eq!(entry.certificate().subject_name(), Some("wrapped.example"));
}
