//! Tests of the generation algorithms, the namespaces, node selection, and
//! a cross-check against an independent implementation.

use su_uuid::{uuid1, uuid3, uuid4, uuid5, UuidError, Variant};

#[test]
fn uuid5_dns_python_org_golden() {
    let dns = su_uuid::namespace_dns();
    let u = uuid5(&dns, "python.org");
    assert_eq!(u.hyphenated(), "886313e1-3b8a-5372-9b90-0c9aee199e5d");
}

#[test]
fn uuid5_deterministic_across_calls() {
    let a = uuid5(&su_uuid::namespace_dns(), "python.org");
    let b = uuid5(&su_uuid::namespace_dns(), "python.org");
    assert_eq!(a, b);
    let c = uuid5(&su_uuid::namespace_dns(), "python.com");
    assert_ne!(a, c);
}

#[test]
fn uuid3_dns_python_org_golden() {
    let dns = su_uuid::namespace_dns();
    let u = uuid3(&dns, "python.org");
    assert_eq!(u.hyphenated(), "6fa459ea-ee8a-3ca4-894e-db77e160355e");
    assert_eq!(u.version(), Some(3));
    assert_eq!(u.variant(), "RFC4122");
}

#[test]
fn uuid4_variant_and_version() {
    for _ in 0..8 {
        let u = uuid4();
        assert_eq!(u.variant(), "RFC4122");
        assert!(matches!(u.variant_kind(), Variant::RFC4122));
        assert_eq!(u.version(), Some(4));
    }
}

#[test]
fn uuid4_distinct() {
    let a = uuid4();
    let b = uuid4();
    assert_ne!(a, b);
}

#[test]
fn uuid1_respects_arguments() {
    let u = uuid1(Some(0x123456789abc), Some(0x1234)).unwrap();
    assert_eq!(u.version(), Some(1));
    assert_eq!(u.variant(), "RFC4122");
    assert_eq!(u.node(), 0x123456789abc);
    assert_eq!(u.clock_seq(), 0x1234);
    // the clock reads after the Unix epoch, so the timestamp lies strictly
    // beyond the offset between the Gregorian reform and the epoch
    assert!(u.time() > su_uuid::generate::GREGORIAN_OFFSET_100NS as u128);
}

#[test]
fn uuid1_range_errors() {
    assert_eq!(
        uuid1(Some(1 << 48), None).unwrap_err(),
        UuidError::RangeError
    );
    assert_eq!(
        uuid1(None, Some(0x4000)).unwrap_err(),
        UuidError::RangeError
    );
}

#[test]
fn uuid1_default_node_has_multicast_bit() {
    let u = uuid1(None, Some(0)).unwrap();
    assert_eq!((u.node() >> 40) & 1, 1);
}

#[test]
fn namespaces_known_values() {
    assert_eq!(
        su_uuid::namespace_dns().hyphenated(),
        "6ba7b810-9dad-11d1-80b4-00c04fd430c8"
    );
    assert_eq!(
        su_uuid::namespace_url().hyphenated(),
        "6ba7b811-9dad-11d1-80b4-00c04fd430c8"
    );
    assert_eq!(
        su_uuid::namespace_oid().hyphenated(),
        "6ba7b812-9dad-11d1-80b4-00c04fd430c8"
    );
    assert_eq!(
        su_uuid::namespace_x500().hyphenated(),
        "6ba7b814-9dad-11d1-80b4-00c04fd430c8"
    );
}

#[test]
fn parse_mac_good_and_bad() {
    assert_eq!(
        su_uuid::node::parse_mac("01:23:45:67:89:ab"),
        Some(0x0123456789ab)
    );
    assert_eq!(
        su_uuid::node::parse_mac("FF:ff:00:11:22:33"),
        Some(0xffff00112233)
    );
    assert_eq!(su_uuid::node::parse_mac("00:00:00:00:00:00"), Some(0));
    assert_eq!(su_uuid::node::parse_mac("01:23:45:67:89"), None);
    assert_eq!(su_uuid::node::parse_mac("01:23:45:67:89:zz"), None);
    assert_eq!(su_uuid::node::parse_mac("0123456789abcdef0"), None);
    assert_eq!(su_uuid::node::parse_mac(""), None);
}

#[test]
fn select_node_behavior() {
    let addrs = vec![
        String::from("00:00:00:00:00:00"),
        String::from("not an address"),
        String::from("01:02:03:04:05:06"),
        String::from("0a:0b:0c:0d:0e:0f"),
    ];
    assert_eq!(su_uuid::node::select_node(&addrs), Some(0x010203040506));
    let none: Vec<String> = vec![String::from("00:00:00:00:00:00")];
    assert_eq!(su_uuid::node::select_node(&none), None);
    assert_eq!(su_uuid::node::select_node(&Vec::new()), None);
}

#[test]
fn getnode_from_fallback_multicast() {
    let usable = vec![String::from("01:02:03:04:05:06")];
    assert_eq!(su_uuid::generate::getnode_from(&usable), 0x010203040506);
    let empty: Vec<String> = Vec::new();
    let fallback = su_uuid::generate::getnode_from(&empty);
    assert!(fallback < (1 << 48));
    assert_eq!((fallback >> 40) & 1, 1);
}

#[test]
fn next_clock_seq_wraps() {
    assert_eq!(su_uuid::generate::next_clock_seq(0), 1);
    assert_eq!(su_uuid::generate::next_clock_seq(0x3ffe), 0x3fff);
    assert_eq!(su_uuid::generate::next_clock_seq(0x3fff), 0);
}

#[test]
fn gregorian_timestamp_values() {
    assert_eq!(
        su_uuid::generate::gregorian_timestamp_100ns(0, 0),
        0x01b21dd213814000
    );
    assert_eq!(
        su_uuid::generate::gregorian_timestamp_100ns(1, 150),
        0x01b21dd213814000 + 10_000_000 + 1
    );
}

#[test]
fn underscore_functions_return_none() {
    assert_eq!(su_uuid::generate::_load_system_functions(), None);
    assert_eq!(su_uuid::generate::_generate_time_safe(), None);
}

#[test]
fn cross_check_name_based_against_uuid_crate() {
    let ours3 = uuid3(&su_uuid::namespace_dns(), "rust-lang.org");
    let theirs3 = uuid::Uuid::new_v3(&uuid::Uuid::NAMESPACE_DNS, "rust-lang.org".as_bytes());
    assert_eq!(ours3.hyphenated(), theirs3.hyphenated().to_string());
    let ours5 = uuid5(&su_uuid::namespace_url(), "https://example.com/a");
    let theirs5 = uuid::Uuid::new_v5(&uuid::Uuid::NAMESPACE_URL, "https://example.com/a".as_bytes());
    assert_eq!(ours5.hyphenated(), theirs5.hyphenated().to_string());
}

#[test]
fn cross_check_parse_against_uuid_crate() {
    let u = uuid4();
    let parsed = uuid::Uuid::parse_str(&u.hyphenated()).unwrap();
    assert_eq!(parsed.as_u128(), u.int_val());
    assert_eq!(parsed.as_bytes().to_vec(), u.bytes());
}
