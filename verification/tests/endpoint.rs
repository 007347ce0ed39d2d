//! Request URL building, Retry-After parsing, status classification, and
//! JSON envelope decoding.

use certain::codec::{encode_chain, encode_leaf};
use certain::endpoint::{
    entries_request_url, interpret_log_entries, interpret_log_size, parse_u64, read_log_entries,
    retry_after_millis, size_request_url, Response,
};
use certain::error::{LogError, ResponseError, StreamError};

fn tlv(tag: u8, content: &[u8]) -> Vec<u8> {
    let mut out = vec![tag];
    let len = content.len();
    if len < 128 {
        out.push(len as u8);
    } else if len < 256 {
        out.push(0x81);
        out.push(len as u8);
    } else {
        out.push(0x82);
        out.push((len >> 8) as u8);
        out.push((len & 0xff) as u8);
    }
    out.extend_from_slice(content);
    out
}

fn der_name(attrs: &[(&[u8], &str)]) -> Vec<u8> {
    let mut rdns = Vec::new();
    for (oid, value) in attrs {
        let atv = tlv(
            0x30,
            &[tlv(0x06, oid), tlv(0x0c, value.as_bytes())].concat(),
        );
        rdns.extend_from_slice(&tlv(0x31, &atv));
    }
    tlv(0x30, &rdns)
}

fn simple_tbs(subject_cn: &str) -> Vec<u8> {
    let oid_cn: &[u8] = &[0x55, 0x04, 0x03];
    let oid_o: &[u8] = &[0x55, 0x04, 0x0a];
    let version = tlv(0xa0, &tlv(0x02, &[2]));
    let serial = tlv(0x02, &[0x01]);
    let sig_alg = tlv(
        0x30,
        &[
            tlv(0x06, &[0x2a, 0x86, 0x48, 0x86, 0xf7, 0x0d, 0x01, 0x01, 0x0b]),
            tlv(0x05, &[]),
        ]
        .concat(),
    );
    let issuer = der_name(&[(oid_o, "Issuer Org")]);
    let validity = tlv(
        0x30,
        &[
            tlv(0x17, b"240101000000Z"),
            tlv(0x17, b"260101000000Z"),
        ]
        .concat(),
    );
    let subject = der_name(&[(oid_cn, subject_cn), (oid_o, "Subject Org")]);
    let spki = tlv(
        0x30,
        &[
            tlv(
                0x30,
                &[
                    tlv(0x06, &[0x2a, 0x86, 0x48, 0x86, 0xf7, 0x0d, 0x01, 0x01, 0x01]),
                    tlv(0x05, &[]),
                ]
                .concat(),
            ),
            tlv(0x03, &[0x00, 0x01, 0x02, 0x03]),
        ]
        .concat(),
    );
    let mut body = Vec::new();
    body.extend_from_slice(&version);
    body.extend_from_slice(&serial);
    body.extend_from_slice(&sig_alg);
    body.extend_from_slice(&issuer);
    body.extend_from_slice(&validity);
    body.extend_from_slice(&subject);
    body.extend_from_slice(&spki);
    tlv(0x30, &body)
}

fn entries_body(entries: &[(Vec<u8>, Vec<u8>)]) -> String {
    let mut items = Vec::new();
    for (leaf, extra) in entries {
        items.push(format!(
            "{{\"leaf_input\":\"{}\",\"extra_data\":\"{}\"}}",
            base64::encode(leaf),
            base64::encode(extra)
        ));
    }
    format!("{{\"entries\":[{}]}}", items.join(","))
}

#[test]
fn parse_u64_accepts_digit_strings_only() {
    assert_eq!(parse_u64("2"), Some(2));
    assert_eq!(parse_u64("0"), Some(0));
    assert_eq!(parse_u64("007"), Some(7));
    assert_eq!(parse_u64("18446744073709551615"), Some(u64::MAX));
    assert_eq!(parse_u64("18446744073709551616"), None);
    assert_eq!(parse_u64(""), None);
    assert_eq!(parse_u64("+2"), None);
    assert_eq!(parse_u64("12a"), None);
    assert_eq!(parse_u64("-1"), None);
}

#[test]
fn retry_after_seconds_become_milliseconds() {
    assert_eq!(retry_after_millis(Some("2"), 0), Some(2000));
    assert_eq!(retry_after_millis(Some("0"), 0), Some(0));
    assert_eq!(retry_after_millis(None, 0), None);
    assert_eq!(retry_after_millis(Some("soon"), 0), None);
}

#[test]
fn retry_after_date_is_distance_from_now() {
    let date = "Tue, 1 Jul 2003 10:52:37 +0200";
    let instant = 1057049557;
    assert_eq!(
        retry_after_millis(Some(date), instant - 2),
        Some(2000)
    );
    assert_eq!(retry_after_millis(Some(date), instant + 100), Some(0));
}

#[test]
fn request_urls_append_the_ct_paths() {
    let url = size_request_url("https://log.example/argon").unwrap();
    assert_eq!(url, "https://log.example/argon/ct/v1/get-sth");
    let url = size_request_url("https://log.example/argon/").unwrap();
    assert_eq!(url, "https://log.example/argon/ct/v1/get-sth");
    let url = entries_request_url("https://log.example/argon", 100, 50).unwrap();
    assert_eq!(
        url,
        "https://log.example/argon/ct/v1/get-entries?start=100&end=150"
    );
}

#[test]
fn bad_base_url_is_endpoint_error() {
    let err = size_request_url("not a url").unwrap_err();
    assert!(matches!(err, StreamError::Endpoint(_)));
    let err = entries_request_url("mailto:a@example", 0, 1).unwrap_err();
    assert!(matches!(err, StreamError::Endpoint(_)));
}

#[test]
fn size_200_reads_tree_size() {
    let r = interpret_log_size(200, None, 0, "{\"tree_size\":100}").unwrap();
    assert!(matches!(r, Response::Data(100)));
    let r = interpret_log_size(
        200,
        None,
        0,
        "{\"tree_size\":7,\"timestamp\":123,\"sha256_root_hash\":\"x\"}",
    )
    .unwrap();
    assert!(matches!(r, Response::Data(7)));
}

#[test]
fn size_200_with_bad_body_is_log_error() {
    let err = interpret_log_size(200, None, 0, "not json").unwrap_err();
    assert!(matches!(err, StreamError::Log(LogError::Parse(_))));
    let err = interpret_log_size(200, None, 0, "{\"other\":1}").unwrap_err();
    assert!(matches!(err, StreamError::Log(LogError::Parse(_))));
}

#[test]
fn status_429_is_rate_limited() {
    let r = interpret_log_size(429, Some("2"), 0, "").unwrap();
    assert!(matches!(r, Response::Limited(Some(2000))));
    let r = interpret_log_size(429, None, 0, "").unwrap();
    assert!(matches!(r, Response::Limited(None)));
}

#[test]
fn status_400_is_unhandled() {
    let r = interpret_log_size(400, None, 0, "").unwrap();
    assert!(matches!(r, Response::Unhandled(400)));
    let r = interpret_log_entries(400, None, 0, "").unwrap();
    assert!(matches!(r, Response::Unhandled(400)));
}

#[test]
fn client_statuses_are_terminal() {
    let err = interpret_log_size(404, None, 0, "").unwrap_err();
    assert_eq!(err, StreamError::Response(ResponseError::Client(404)));
    let err = interpret_log_entries(451, None, 0, "").unwrap_err();
    assert_eq!(err, StreamError::Response(ResponseError::Client(451)));
}

#[test]
fn server_500_is_terminal() {
    let err = interpret_log_size(500, None, 0, "").unwrap_err();
    assert_eq!(err, StreamError::Response(ResponseError::Server(500)));
    let err = interpret_log_entries(503, None, 0, "").unwrap_err();
    assert_eq!(err, StreamError::Response(ResponseError::Server(503)));
}

#[test]
fn other_statuses_are_unhandled() {
    let r = interpret_log_size(302, None, 0, "").unwrap();
    assert!(matches!(r, Response::Unhandled(302)));
    let r = interpret_log_size(204, None, 0, "").unwrap();
    assert!(matches!(r, Response::Unhandled(204)));
}

#[test]
fn entries_body_round_trips() {
    let cert = simple_tbs("one.example");
    let leaf = encode_leaf(2_000_000, false, &[0u8; 32], &cert);
    let extra = encode_chain(false, &[], &vec![]);
    let body = entries_body(&[(leaf.clone(), extra.clone()), (leaf, extra)]);
    let entries = read_log_entries(&body).unwrap();
    assert_eq!(entries.len(), 2);
    assert_eq!(entries[0].timestamp(), 2_000);
    assert_eq!(entries[0].certificate().encoded(), cert.as_slice());
}

#[test]
fn empty_entries_list_is_ok_and_empty() {
    let entries = read_log_entries("{\"entries\":[]}").unwrap();
    assert_eq!(entries.len(), 0);
}

#[test]
fn malformed_envelope_is_parse_error() {
    assert!(matches!(
        read_log_entries("not json"),
        Err(LogError::Parse(_))
    ));
    assert!(matches!(
        read_log_entries("{\"entries\":7}"),
        Err(LogError::Parse(_))
    ));
}

#[test]
fn malformed_base64_is_parse_error() {
    let body = "{\"entries\":[{\"leaf_input\":\"!!!\",\"extra_data\":\"\"}]}";
    assert!(matches!(read_log_entries(body), Err(LogError::Parse(_))));
}

#[test]
fn bad_leaf_version_surfaces_through_entries() {
    let cert = simple_tbs("v1.example");
    let mut leaf = encode_leaf(1000, false, &[0u8; 32], &cert);
    leaf[0] = 1;
    let extra = encode_chain(false, &[], &vec![]);
    let body = entries_body(&[(leaf, extra)]);
    let err = read_log_entries(&body).unwrap_err();
    assert_eq!(err, LogError::UnsupportedVersion(1));

    let body2 = entries_body(&[(
        encode_leaf(1000, false, &[0u8; 32], &simple_tbs("ok.example")),
        encode_chain(false, &[], &vec![]),
    )]);
    let combined = interpret_log_entries(200, None, 0, &body2).unwrap();
    assert!(matches!(combined, Response::Data(_)));
}

#[test]
fn entries_200_with_bad_entry_is_log_error() {
    let cert = simple_tbs("bad.example");
    let mut leaf = encode_leaf(1000, false, &[0u8; 32], &cert);
    leaf[0] = 3;
    let extra = encode_chain(false, &[], &vec![]);
    let body = entries_body(&[(leaf, extra)]);
    let err = interpret_log_entries(200, None, 0, &body).unwrap_err();
    assert_eq!(err, StreamError::Log(LogError::UnsupportedVersion(3)));
}
