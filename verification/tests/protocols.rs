use lib::dns::dns_build_query;
use lib::dns::dns_parse_response;
use lib::dns::DnsReply;
use lib::http::date_to_epoch;
use lib::http::is_leap;
use lib::http::parse_http_date;
use lib::http::parse_status;
use lib::http::HttpParser;
use lib::net::checksum16_be;
use lib::url::parse_url;
use lib::utf8::utf8_safe_prefix_len;
use lib::json::json_extract_string;
use lib::json::json_extract_u64;

#[test]
fn status_line_is_read() {
    let line = b"HTTP/1.1 200 OK\r\n";
    assert_eq!(parse_status(line, line.len()), 200);
    let bad = b"HTTX/1.1 200 OK\r\n";
    assert_eq!(parse_status(bad, bad.len()), 0);
}

#[test]
fn http_date_of_rfc_example() {
    assert_eq!(parse_http_date(b"Sun, 06 Nov 1994 08:49:37 GMT"), Some(784111777));
    assert_eq!(date_to_epoch(1970, 1, 1, 0, 0, 0), Some(0));
    assert!(is_leap(2000));
    assert!(!is_leap(1900));
    assert!(is_leap(2024));
}

#[test]
fn chunked_body_is_decoded() {
    let mut p = HttpParser::new();
    let data = b"HTTP/1.1 200 OK\r\nTransfer-Encoding: chunked\r\n\r\n4\r\nWiki\r\n0\r\n\r\n";
    let out = p.http_feed(data);
    assert_eq!(out.status, Some(200));
    let body: Vec<u8> = out.body.concat();
    assert_eq!(body, b"Wiki".to_vec());
    assert!(p.response_complete());
}

#[test]
fn dns_query_bytes() {
    let q = dns_build_query(b"example.com", 0x1234, 512);
    let mut want = vec![0x12, 0x34, 0x01, 0x00, 0, 1, 0, 0, 0, 0, 0, 0, 7];
    want.extend_from_slice(b"example");
    want.push(3);
    want.extend_from_slice(b"com");
    want.extend_from_slice(&[0, 0, 1, 0, 1]);
    assert_eq!(q, want);
    assert!(dns_build_query(b"bad..name", 1, 512).is_empty());
    assert!(dns_build_query(b"example.com", 1, 20).is_empty());
}

#[test]
fn dns_answer_gives_address() {
    let mut r = dns_build_query(b"a.io", 7, 512);
    r[2] = 0x81;
    r[3] = 0x80;
    r[7] = 1;
    r.extend_from_slice(&[0xc0, 0x0c, 0, 1, 0, 1, 0, 0, 0, 60, 0, 4, 93, 184, 216, 34]);
    let n = r.len();
    match dns_parse_response(&r, n, 7) {
        DnsReply::Address(ip) => assert_eq!(ip, [93, 184, 216, 34]),
        _ => panic!("expected an address"),
    }
}

#[test]
fn internet_checksum_example() {
    let hdr = [0x45u8, 0x00, 0x00, 0x73, 0x00, 0x00, 0x40, 0x00, 0x40, 0x11, 0x00, 0x00, 0xc0, 0xa8, 0x00, 0x01, 0xc0, 0xa8, 0x00, 0xc7];
    assert_eq!(checksum16_be(&hdr), 0xb861);
}

#[test]
fn url_parts() {
    let u = b"https://example.com/path?q=1";
    let p = parse_url(u, u.len()).expect("parses");
    assert!(p.https);
    assert_eq!(&u[p.domain_start..p.domain_start + p.domain_len], b"example.com");
    assert_eq!(&u[p.path_start..p.path_start + p.path_len], b"/path?q=1");
    let plain = b"neverssl.com";
    let q = parse_url(plain, plain.len()).expect("parses");
    assert!(!q.https);
    assert_eq!(q.path_len, 0);
    assert!(parse_url(b"hello", 5).is_none());
}

#[test]
fn utf8_prefix_stops_at_boundary() {
    let s = "h\u{e9}llo".as_bytes();
    assert_eq!(utf8_safe_prefix_len(s, 2), 1);
    assert_eq!(utf8_safe_prefix_len(s, 3), 3);
}

#[test]
fn json_string_and_number() {
    let j = b"{\"a\":\"x\\ny\",\"n\":42}";
    assert_eq!(json_extract_string(j, j.len(), b"a", 64), Some(b"x\ny".to_vec()));
    assert_eq!(json_extract_u64(j, j.len(), b"n"), Some(42));
    assert_eq!(json_extract_string(j, j.len(), b"missing", 64), None);
}
