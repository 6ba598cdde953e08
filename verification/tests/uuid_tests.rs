//! Tests of construction, formatting, field decomposition, classification,
//! ordering and hashing.

use su_uuid::{UuidError, UuidInput, Variant, UUID};

fn hex_to_bytes(s: &str) -> Vec<u8> {
    let chars: Vec<char> = s.chars().collect();
    let mut out = Vec::new();
    let mut i = 0;
    while i < chars.len() {
        let hi = chars[i].to_digit(16).unwrap() as u8;
        let lo = chars[i + 1].to_digit(16).unwrap() as u8;
        out.push(hi * 16 + lo);
        i += 2;
    }
    out
}

fn sample() -> UUID {
    UUID::new(
        Some("12345678-1234-5678-1234-567812345678"),
        None,
        None,
        None,
        None,
        None,
    )
    .unwrap()
}

#[test]
fn hex_getter_known_vector() {
    assert_eq!(sample().hex(), "12345678123456781234567812345678");
}

#[test]
fn bytes_equals_hex_construction() {
    let by_bytes = UUID::new(
        None,
        Some(hex_to_bytes("12345678123456781234567812345678")),
        None,
        None,
        None,
        None,
    )
    .unwrap();
    assert_eq!(by_bytes, sample());
}

#[test]
fn decorated_forms_equal() {
    let braced = UUID::new(
        Some("{12345678-1234-5678-1234-567812345678}"),
        None,
        None,
        None,
        None,
        None,
    )
    .unwrap();
    let urn = UUID::new(
        Some("urn:uuid:12345678-1234-5678-1234-567812345678"),
        None,
        None,
        None,
        None,
        None,
    )
    .unwrap();
    let bare = UUID::new(
        Some("12345678123456781234567812345678"),
        None,
        None,
        None,
        None,
        None,
    )
    .unwrap();
    assert_eq!(braced, urn);
    assert_eq!(urn, bare);
    assert_eq!(braced, sample());
}

#[test]
fn int_zero_hex() {
    let zero = UUID::new(None, None, None, None, Some(0), None).unwrap();
    assert_eq!(zero.hex(), "0".repeat(32));
}

#[test]
fn fields_node_out_of_range() {
    let r = UUID::new(None, None, None, Some((0, 0, 0, 0, 0, 1 << 48)), None, None);
    assert_eq!(r.unwrap_err(), UuidError::RangeError);
}

#[test]
fn arity_both_and_none() {
    let both = UUID::new(
        Some("12345678123456781234567812345678"),
        Some(hex_to_bytes("12345678123456781234567812345678")),
        None,
        None,
        None,
        None,
    );
    assert_eq!(both.unwrap_err(), UuidError::ArityError);
    let none = UUID::new(None, None, None, None, None, None);
    assert_eq!(none.unwrap_err(), UuidError::ArityError);
}

#[test]
fn round_trip_all_forms() {
    let u = sample();
    let via_hex = UUID::new(Some(&u.hex()), None, None, None, None, None).unwrap();
    assert_eq!(via_hex, u);
    let via_hyph = UUID::new(Some(&u.hyphenated()), None, None, None, None, None).unwrap();
    assert_eq!(via_hyph, u);
    let via_urn = UUID::new(Some(&u.urn()), None, None, None, None, None).unwrap();
    assert_eq!(via_urn, u);
    let via_bytes = UUID::new(None, Some(u.bytes()), None, None, None, None).unwrap();
    assert_eq!(via_bytes, u);
    let via_le = UUID::new(None, None, Some(u.bytes_le()), None, None, None).unwrap();
    assert_eq!(via_le, u);
    let via_fields = UUID::new(None, None, None, Some(u.fields()), None, None).unwrap();
    assert_eq!(via_fields, u);
    let via_int = UUID::new(None, None, None, None, Some(u.int_val()), None).unwrap();
    assert_eq!(via_int, u);
}

#[test]
fn getters_known_vector() {
    let u = sample();
    assert_eq!(u.time_low(), 0x12345678);
    assert_eq!(u.time_mid(), 0x1234);
    assert_eq!(u.time_hi_version(), 0x5678);
    assert_eq!(u.clock_seq_hi_variant(), 0x12);
    assert_eq!(u.clock_seq_low(), 0x34);
    assert_eq!(u.node(), 0x567812345678);
    assert_eq!(u.clock_seq(), 0x1234);
    assert_eq!(u.int_val(), 0x12345678123456781234567812345678u128);
    assert_eq!(u.time(), 0x0678123412345678u128);
    assert_eq!(
        u.fields(),
        (0x12345678, 0x1234, 0x5678, 0x12, 0x34, 0x567812345678)
    );
}

#[test]
fn bytes_le_known_vector() {
    let u = sample();
    assert_eq!(
        u.bytes_le(),
        vec![
            0x78, 0x56, 0x34, 0x12, 0x34, 0x12, 0x78, 0x56, 0x12, 0x34, 0x56, 0x78, 0x12, 0x34,
            0x56, 0x78
        ]
    );
    let back = UUID::from_bytes_le(&u.bytes_le()).unwrap();
    assert_eq!(back, u);
}

#[test]
fn hyphenated_and_urn_strings() {
    let u = sample();
    assert_eq!(u.hyphenated(), "12345678-1234-5678-1234-567812345678");
    assert_eq!(u.urn(), "urn:uuid:12345678-1234-5678-1234-567812345678");
}

#[test]
fn clean_uuid_string_behavior() {
    assert_eq!(
        su_uuid::text::clean_uuid_string("urn:uuid:12345678-1234-5678-1234-567812345678"),
        "12345678123456781234567812345678"
    );
    assert_eq!(
        su_uuid::text::clean_uuid_string("{12345678-1234-5678-1234-567812345678}"),
        "12345678123456781234567812345678"
    );
    assert_eq!(su_uuid::text::clean_uuid_string("a-b-c"), "abc");
}

#[test]
fn version_hint_validation() {
    let hex = "12345678-1234-5678-1234-567812345678";
    for v in 1..=5u8 {
        assert!(UUID::new(Some(hex), None, None, None, None, Some(v)).is_ok());
    }
    let low = UUID::new(Some(hex), None, None, None, None, Some(0));
    assert_eq!(low.unwrap_err(), UuidError::RangeError);
    let high = UUID::new(Some(hex), None, None, None, None, Some(6));
    assert_eq!(high.unwrap_err(), UuidError::RangeError);
    // the hint validates its own range only; it never alters the value
    let hinted = UUID::new(Some(hex), None, None, None, None, Some(4)).unwrap();
    assert_eq!(hinted, sample());
}

#[test]
fn format_error_cases() {
    let short = UUID::new(Some("1234"), None, None, None, None, None);
    assert_eq!(short.unwrap_err(), UuidError::FormatError);
    let nonhex = UUID::new(
        Some("g2345678123456781234567812345678"),
        None,
        None,
        None,
        None,
        None,
    );
    assert_eq!(nonhex.unwrap_err(), UuidError::FormatError);
    let bad_bytes = UUID::new(None, Some(vec![1, 2, 3]), None, None, None, None);
    assert_eq!(bad_bytes.unwrap_err(), UuidError::FormatError);
    let bad_le = UUID::new(None, None, Some(vec![0; 17]), None, None, None);
    assert_eq!(bad_le.unwrap_err(), UuidError::FormatError);
}

#[test]
fn ordering_consistent() {
    let a = UUID::from_u128(1);
    let b = UUID::from_u128(2);
    let c = UUID::from_u128(0x80000000000000000000000000000000);
    assert!(a < b);
    assert!(b < c);
    assert!(a < c);
    assert!(a <= a);
    assert!(c > b);
    assert!(c >= c);
    // the order goes by the bytes: 0x02... > 0x01...
    let x = UUID::from_bytes(&vec![
        1, 0xff, 0xff, 0xff, 0xff, 0xff, 0xff, 0xff, 0xff, 0xff, 0xff, 0xff, 0xff, 0xff, 0xff,
        0xff,
    ])
    .unwrap();
    let y = UUID::from_bytes(&vec![2, 0, 0, 0, 0, 0, 0, 0, 0, 0, 0, 0, 0, 0, 0, 0]).unwrap();
    assert!(x < y);
}

#[test]
fn hash_consistency() {
    let a = sample();
    let b = UUID::new(None, None, None, None, Some(a.int_val()), None).unwrap();
    assert_eq!(a, b);
    assert_eq!(a.hash(), b.hash());
    let c = UUID::from_u128(a.int_val() + 1);
    assert_ne!(a, c);
}

#[test]
fn eq_and_ne() {
    let a = UUID::from_u128(7);
    let b = UUID::from_u128(7);
    let c = UUID::from_u128(8);
    assert_eq!(a, b);
    assert_ne!(a, c);
    assert!(a == b);
    assert!(a != c);
}

#[test]
fn safe_uuid_codes() {
    let s = su_uuid::SafeUUID {};
    assert_eq!(s.safe(), 0);
    assert_eq!(s.not_safe(), -1);
    assert_eq!(s.unknown(), None);
    assert_eq!(sample().is_safe(), 0);
}

#[test]
fn variant_classification() {
    let with_byte8 = |b8: u8| {
        let mut bytes = vec![0u8; 16];
        bytes[8] = b8;
        UUID::from_bytes(&bytes).unwrap()
    };
    assert_eq!(with_byte8(0x12).variant(), "reserved for NCS compatibility");
    assert_eq!(with_byte8(0x7f).variant(), "reserved for NCS compatibility");
    assert_eq!(with_byte8(0x80).variant(), "RFC4122");
    assert_eq!(with_byte8(0xbf).variant(), "RFC4122");
    assert_eq!(
        with_byte8(0xc0).variant(),
        "reserved for Microsoft compatibility"
    );
    assert_eq!(
        with_byte8(0xdf).variant(),
        "reserved for Microsoft compatibility"
    );
    assert_eq!(with_byte8(0xe0).variant(), "reserved for future definition");
    assert_eq!(with_byte8(0xff).variant(), "reserved for future definition");
    assert!(matches!(with_byte8(0x80).variant_kind(), Variant::RFC4122));
    assert!(matches!(with_byte8(0x00).variant_kind(), Variant::NCS));
}

#[test]
fn version_reported_only_for_rfc4122() {
    // NCS variant: the version nibble carries no meaning
    assert_eq!(sample().version(), None);
    // RFC 4122 variant with version nibble 4
    let mut bytes = vec![0u8; 16];
    bytes[6] = 0x4f;
    bytes[8] = 0x80;
    let u = UUID::from_bytes(&bytes).unwrap();
    assert_eq!(u.version(), Some(4));
}

#[test]
fn from_input_variants() {
    let u = sample();
    let hex_in = UuidInput::Hex(String::from("12345678-1234-5678-1234-567812345678"));
    assert_eq!(UUID::from_input(&hex_in).unwrap(), u);
    let bytes_in = UuidInput::Bytes(u.bytes());
    assert_eq!(UUID::from_input(&bytes_in).unwrap(), u);
    let le_in = UuidInput::BytesLe(u.bytes_le());
    assert_eq!(UUID::from_input(&le_in).unwrap(), u);
    let fields_in = UuidInput::Fields(u.fields());
    assert_eq!(UUID::from_input(&fields_in).unwrap(), u);
    let int_in = UuidInput::Int(u.int_val());
    assert_eq!(UUID::from_input(&int_in).unwrap(), u);
    let bad = UuidInput::Fields((0, 0, 0, 0, 0, 1 << 48));
    assert_eq!(UUID::from_input(&bad).unwrap_err(), UuidError::RangeError);
}

#[test]
fn clone_preserves() {
    let u = sample();
    let v = u.clone();
    assert_eq!(u, v);
    assert_eq!(v.hex(), "12345678123456781234567812345678");
}

#[test]
fn repr_string() {
    assert_eq!(sample().repr(), "UUID('12345678-1234-5678-1234-567812345678')");
}

#[test]
fn empty_and_extreme_inputs() {
    let empty = UUID::new(Some(""), None, None, None, None, None);
    assert_eq!(empty.unwrap_err(), UuidError::FormatError);
    let max = UUID::new(None, None, None, None, Some(u128::MAX), None).unwrap();
    assert_eq!(max.hex(), "f".repeat(32));
    assert_eq!(max.int_val(), u128::MAX);
    let back = UUID::new(Some(&max.hex()), None, None, None, None, None).unwrap();
    assert_eq!(back, max);
    let empty_bytes = UUID::new(None, Some(Vec::new()), None, None, None, None);
    assert_eq!(empty_bytes.unwrap_err(), UuidError::FormatError);
}

#[test]
fn uppercase_hex_accepted_lowercase_emitted() {
    let u = UUID::new(
        Some("ABCDEF00-1234-5678-9ABC-DEF012345678"),
        None,
        None,
        None,
        None,
        None,
    )
    .unwrap();
    assert_eq!(u.hex(), "abcdef00123456789abcdef012345678");
}
