use ipgeo::geo::GeoRecord;
use ipgeo::handler::finish_lookup;
use ipgeo::handler::handle_request;
use ipgeo::handler::HttpReply;
use ipgeo::handler::RequestOutcome;
use ipgeo::ip::format_ip;
use ipgeo::ip::is_loopback;
use ipgeo::ip::parse_ip;
use ipgeo::ip::IpAddress;

fn expect_invalid(raw: &str) {
    match handle_request(raw) {
        RequestOutcome::Invalid(rep) => {
            assert_eq!(rep.status, 400);
            assert_eq!(&rep.body[..], br#"{"error":"invalid ip"}"#);
        }
        _ => panic!("expected an invalid-address reply for {:?}", raw),
    }
}

fn expect_done_body(raw: &str, expected: &str) {
    match handle_request(raw) {
        RequestOutcome::Done(rep) => {
            assert_eq!(rep.status, 200);
            assert_eq!(&rep.body[..], expected.as_bytes());
        }
        _ => panic!("expected a complete reply for {:?}", raw),
    }
}

fn expect_needs_lookup(raw: &str) -> (IpAddress, Vec<u8>) {
    match handle_request(raw) {
        RequestOutcome::NeedsLookup(ip, echo) => {
            assert_eq!(echo, raw.as_bytes().to_vec());
            (ip, echo)
        }
        _ => panic!("expected {:?} to need a lookup", raw),
    }
}

#[test]
fn invalid_texts_get_the_fixed_error_reply() {
    expect_invalid("not-an-ip");
    expect_invalid("999.999.1.1");
    expect_invalid("");
    expect_invalid("1.2.3");
    expect_invalid("1.2.3.4.5");
    expect_invalid("01.2.3.4");
    expect_invalid("1.2.3.004");
    expect_invalid("256.1.1.1");
    expect_invalid("1.2.3.4 ");
    expect_invalid(" 1.2.3.4");
    expect_invalid("1..2.3");
    expect_invalid("1.2.3.");
    expect_invalid(".1.2.3.4");
    expect_invalid("abc");
    expect_invalid("12345::");
    expect_invalid("1:2:3:4:5:6:7:8:9");
    expect_invalid("1:2:3:4:5:6:7");
    expect_invalid("1::2::3");
    expect_invalid(":::");
    expect_invalid(":1::2");
    expect_invalid("1:::2");
    expect_invalid("1.2.3.4::");
    expect_invalid("::1.2.3.4.5");
    expect_invalid("1:2:3:4:5:6:7:1.2.3.4");
    expect_invalid("g::1");
    expect_invalid("127.0.0.1/8");
    expect_invalid("1:2");
}

#[test]
fn loopback_v4_is_answered_without_a_lookup() {
    expect_done_body(
        "127.0.0.1",
        r#"{"ip":"127.0.0.1","country_code":"","country_name":"","time_zone":"","latitude":"","longitude":""}"#,
    );
    expect_done_body(
        "127.255.0.7",
        r#"{"ip":"127.255.0.7","country_code":"","country_name":"","time_zone":"","latitude":"","longitude":""}"#,
    );
}

#[test]
fn loopback_v6_is_answered_without_a_lookup() {
    expect_done_body(
        "::1",
        r#"{"ip":"::1","country_code":"","country_name":"","time_zone":"","latitude":"","longitude":""}"#,
    );
    expect_done_body(
        "0:0:0:0:0:0:0:1",
        r#"{"ip":"0:0:0:0:0:0:0:1","country_code":"","country_name":"","time_zone":"","latitude":"","longitude":""}"#,
    );
}

#[test]
fn a_lookup_miss_renders_all_fields_empty() {
    let (_ip, echo) = expect_needs_lookup("8.8.8.8");
    let rep = finish_lookup(&echo, None);
    assert_eq!(rep.status, 200);
    assert_eq!(
        &rep.body[..],
        br#"{"ip":"8.8.8.8","country_code":"","country_name":"","time_zone":"","latitude":"","longitude":""}"#,
    );
}

#[test]
fn a_sparse_record_renders_like_a_miss() {
    let (_ip, echo) = expect_needs_lookup("203.0.113.9");
    let rec = GeoRecord {
        country_code: None,
        country_name: None,
        time_zone: None,
        latitude: None,
        longitude: None,
    };
    let with_record = finish_lookup(&echo, Some(&rec));
    let without = finish_lookup(&echo, None);
    assert_eq!(&with_record.body[..], &without.body[..]);
}

#[test]
fn a_full_record_renders_every_field_in_order() {
    let (_ip, echo) = expect_needs_lookup("89.160.20.128");
    let rec = GeoRecord {
        country_code: Some(b"US".to_vec()),
        country_name: Some(b"United States".to_vec()),
        time_zone: Some(b"America/Los_Angeles".to_vec()),
        latitude: Some(37.751f64.to_string().into_bytes()),
        longitude: Some((-97.822f64).to_string().into_bytes()),
    };
    let rep = finish_lookup(&echo, Some(&rec));
    assert_eq!(rep.status, 200);
    assert_eq!(
        &rep.body[..],
        br#"{"ip":"89.160.20.128","country_code":"US","country_name":"United States","time_zone":"America/Los_Angeles","latitude":"37.751","longitude":"-97.822"}"#,
    );
}

#[test]
fn identical_requests_render_byte_identical_bodies() {
    let rec = GeoRecord {
        country_code: Some(b"SE".to_vec()),
        country_name: Some(b"Sweden".to_vec()),
        time_zone: Some(b"Europe/Stockholm".to_vec()),
        latitude: Some(b"58.4167".to_vec()),
        longitude: Some(b"15.6167".to_vec()),
    };
    let first: HttpReply = finish_lookup(&expect_needs_lookup("89.160.20.128").1, Some(&rec));
    let second: HttpReply = finish_lookup(&expect_needs_lookup("89.160.20.128").1, Some(&rec));
    assert_eq!(&first.body[..], &second.body[..]);
    let e1 = handle_request("nope");
    let e2 = handle_request("nope");
    match (e1, e2) {
        (RequestOutcome::Invalid(a), RequestOutcome::Invalid(b)) => {
            assert_eq!(&a.body[..], &b.body[..]);
        }
        _ => panic!("expected two invalid replies"),
    }
}

#[test]
fn interleaved_requests_do_not_share_buffers() {
    let (_ip_a, echo_a) = expect_needs_lookup("8.8.8.8");
    let (_ip_b, echo_b) = expect_needs_lookup("9.9.9.9");
    let rec_b = GeoRecord {
        country_code: Some(b"CH".to_vec()),
        country_name: Some(b"Switzerland".to_vec()),
        time_zone: None,
        latitude: None,
        longitude: None,
    };
    let rep_b = finish_lookup(&echo_b, Some(&rec_b));
    let rep_a = finish_lookup(&echo_a, None);
    assert_eq!(
        &rep_a.body[..],
        br#"{"ip":"8.8.8.8","country_code":"","country_name":"","time_zone":"","latitude":"","longitude":""}"#,
    );
    assert_eq!(
        &rep_b.body[..],
        br#"{"ip":"9.9.9.9","country_code":"CH","country_name":"Switzerland","time_zone":"","latitude":"","longitude":""}"#,
    );
}

#[test]
fn parsing_accepts_the_ipv4_and_ipv6_grammars() {
    assert_eq!(
        parse_ip("1.2.3.4"),
        Some(IpAddress::V4 { o1: 1, o2: 2, o3: 3, o4: 4 })
    );
    assert_eq!(
        parse_ip("0.0.0.0"),
        Some(IpAddress::V4 { o1: 0, o2: 0, o3: 0, o4: 0 })
    );
    assert_eq!(
        parse_ip("255.255.255.255"),
        Some(IpAddress::V4 { o1: 255, o2: 255, o3: 255, o4: 255 })
    );
    assert_eq!(
        parse_ip("1:2:3:4:5:6:7:8"),
        Some(IpAddress::V6 { g0: 1, g1: 2, g2: 3, g3: 4, g4: 5, g5: 6, g6: 7, g7: 8 })
    );
    assert_eq!(
        parse_ip("::"),
        Some(IpAddress::V6 { g0: 0, g1: 0, g2: 0, g3: 0, g4: 0, g5: 0, g6: 0, g7: 0 })
    );
    assert_eq!(
        parse_ip("1::"),
        Some(IpAddress::V6 { g0: 1, g1: 0, g2: 0, g3: 0, g4: 0, g5: 0, g6: 0, g7: 0 })
    );
    assert_eq!(
        parse_ip("1:2:3:4:5:6:7::"),
        Some(IpAddress::V6 { g0: 1, g1: 2, g2: 3, g3: 4, g4: 5, g5: 6, g6: 7, g7: 0 })
    );
    assert_eq!(
        parse_ip("2001:db8::ABCD"),
        Some(IpAddress::V6 {
            g0: 0x2001,
            g1: 0xdb8,
            g2: 0,
            g3: 0,
            g4: 0,
            g5: 0,
            g6: 0,
            g7: 0xabcd,
        })
    );
    assert_eq!(
        parse_ip("::ffff:192.168.0.1"),
        Some(IpAddress::V6 {
            g0: 0,
            g1: 0,
            g2: 0,
            g3: 0,
            g4: 0,
            g5: 0xffff,
            g6: 0xc0a8,
            g7: 0x0001,
        })
    );
    assert_eq!(
        parse_ip("1:2:3:4:5:6:77.77.88.88"),
        Some(IpAddress::V6 {
            g0: 1,
            g1: 2,
            g2: 3,
            g3: 4,
            g4: 5,
            g5: 6,
            g6: 77 * 256 + 77,
            g7: 88 * 256 + 88,
        })
    );
    assert_eq!(
        parse_ip("0:0:0:0:0:0:0:0"),
        Some(IpAddress::V6 { g0: 0, g1: 0, g2: 0, g3: 0, g4: 0, g5: 0, g6: 0, g7: 0 })
    );
    assert_eq!(parse_ip("::g"), None);
    assert_eq!(parse_ip("255.255.255.256"), None);
    assert_eq!(parse_ip("1:2:3:4:5:6:7:8:"), None);
}

#[test]
fn formatting_compresses_the_leftmost_longest_zero_run() {
    let check = |raw: &str, canonical: &str| {
        let ip = parse_ip(raw).expect("the text must parse");
        assert_eq!(format_ip(&ip), canonical.as_bytes().to_vec());
    };
    check("1.2.3.4", "1.2.3.4");
    check("0:0:0:0:0:0:0:0", "::");
    check("255.0.0.255", "255.0.0.255");
    check("1:2:3:4:5:6:7:8", "1:2:3:4:5:6:7:8");
    check("::", "::");
    check("::1", "::1");
    check("1::", "1::");
    check("2001:0db8:0000:0000:0000:0000:0000:0001", "2001:db8::1");
    check("1:0:0:2:0:0:0:3", "1:0:0:2::3");
    check("0:0:1:0:0:1:0:0", "::1:0:0:1:0:0");
    check("1:0:2:0:3:0:4:0", "1:0:2:0:3:0:4:0");
    check("1:2:3:4:5:6:0:0", "1:2:3:4:5:6::");
    check("::2", "::2");
    check("::0.0.0.2", "::2");
    check("::1234:5678", "::1234:5678");
    check("::ffff:0:0", "::ffff:0.0.0.0");
    check("ABCD:EF01:2345:6789:abcd:ef01:2345:6789", "abcd:ef01:2345:6789:abcd:ef01:2345:6789");
}

#[test]
fn an_ipv4_mapped_address_keeps_its_dotted_tail() {
    let ip = parse_ip("::ffff:192.168.0.1").expect("the text must parse");
    assert_eq!(format_ip(&ip), b"::ffff:192.168.0.1".to_vec());
    let (_ip, echo) = expect_needs_lookup("::ffff:192.168.0.1");
    let rep = finish_lookup(&echo, None);
    assert_eq!(
        &rep.body[..],
        br#"{"ip":"::ffff:192.168.0.1","country_code":"","country_name":"","time_zone":"","latitude":"","longitude":""}"#,
    );
}

#[test]
fn the_loopback_rule_covers_the_whole_v4_block_and_only_v6_one() {
    assert!(is_loopback(&parse_ip("127.0.0.1").unwrap()));
    assert!(is_loopback(&parse_ip("127.200.13.99").unwrap()));
    assert!(!is_loopback(&parse_ip("126.255.255.255").unwrap()));
    assert!(!is_loopback(&parse_ip("128.0.0.1").unwrap()));
    assert!(is_loopback(&parse_ip("::1").unwrap()));
    assert!(!is_loopback(&parse_ip("::2").unwrap()));
    assert!(!is_loopback(&parse_ip("1::1").unwrap()));
    assert!(!is_loopback(&parse_ip("::ffff:127.0.0.1").unwrap()));
}
