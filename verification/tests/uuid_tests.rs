use uuid_value::{is_valid, parse_str, Uuid, UuidError, Variant};

const DNS_TEXT: &str = "6ba7b810-9dad-11d1-80b4-00c04fd430c8";

fn sample_bytes() -> Vec<u8> {
    vec![
        0x6b, 0xa7, 0xb8, 0x10, 0x9d, 0xad, 0x11, 0xd1, 0x80, 0xb4, 0x00, 0xc0, 0x4f, 0xd4, 0x30,
        0xc8,
    ]
}

#[test]
fn parse_format_round_trip() {
    let u = parse_str(DNS_TEXT).unwrap();
    assert_eq!(u.hyphenated(), DNS_TEXT);
    let again = parse_str(&u.hyphenated()).unwrap();
    assert!(again == u);
}

#[test]
fn parse_format_round_trip_random() {
    for _ in 0..50 {
        let u = Uuid::new_v4();
        let text = u.hyphenated();
        let back = parse_str(&text).unwrap();
        assert!(back == u);
    }
}

#[test]
fn bytes_round_trip() {
    let b = sample_bytes();
    let u = Uuid::from_bytes(&b).unwrap();
    assert_eq!(u.bytes(), b);
    let v = Uuid::from_bytes(&u.bytes()).unwrap();
    assert!(v == u);
}

#[test]
fn integer_round_trip() {
    for x in [
        0u128,
        1,
        0x6ba7b8109dad11d180b400c04fd430c8,
        u128::MAX,
        0x000102030405060708090a0b0c0d0e0f,
    ] {
        let u = Uuid::from_u128(x);
        assert_eq!(u.as_u128(), x);
        let v = Uuid::from_u128(u.as_u128());
        assert!(v == u);
    }
}

#[test]
fn u64_pair_round_trip() {
    let u = Uuid::from_u64_pair(0x6ba7b8109dad11d1, 0x80b400c04fd430c8);
    assert_eq!(u.as_u64_pair(), (0x6ba7b8109dad11d1, 0x80b400c04fd430c8));
    assert_eq!(u.hyphenated(), DNS_TEXT);
    assert_eq!(u.as_u128(), 0x6ba7b8109dad11d180b400c04fd430c8u128);
}

#[test]
fn from_bytes_length_invariant() {
    for len in 0..32usize {
        let input = vec![0xABu8; len];
        let r = Uuid::from_bytes(&input);
        if len == 16 {
            assert!(r.is_ok());
        } else {
            match r {
                Err(UuidError::MalformedBytes { len: got }) => assert_eq!(got, len),
                _ => panic!("length {} must be rejected with the length received", len),
            }
        }
    }
}

#[test]
fn ordering_total_and_matches_integer_order() {
    let samples = [
        Uuid::nil(),
        Uuid::from_u128(1),
        Uuid::from_u128(0x100000000000000000),
        Uuid::namespace_dns(),
        Uuid::namespace_url(),
        Uuid::max(),
    ];
    for a in &samples {
        for b in &samples {
            let lt = a.lt(b);
            let eq = a == b;
            let gt = a.gt(b);
            // exactly one of the three holds
            assert_eq!(
                [lt, eq, gt].iter().filter(|&&x| x).count(),
                1,
                "trichotomy violated"
            );
            // the order is the unsigned big-endian integer order
            assert_eq!(lt, a.as_u128() < b.as_u128());
            assert_eq!(eq, a.as_u128() == b.as_u128());
            assert_eq!(gt, a.as_u128() > b.as_u128());
            assert_eq!(a.le(b), !gt);
            assert_eq!(a.ge(b), !lt);
        }
    }
}

#[test]
fn hash_consistent_with_equality() {
    let a = parse_str(DNS_TEXT).unwrap();
    let b = Uuid::from_bytes(&sample_bytes()).unwrap();
    assert!(a == b);
    assert_eq!(a.hash64(), b.hash64());
    // equal inputs always give the same hash within the run
    assert_eq!(Uuid::nil().hash64(), Uuid::nil().hash64());
}

#[test]
fn nil_max_identity() {
    assert!(Uuid::nil().is_nil());
    assert!(!Uuid::nil().is_max());
    assert!(Uuid::max().is_max());
    assert!(!Uuid::max().is_nil());
    assert_eq!(Uuid::nil().as_u128(), 0);
    assert_eq!(Uuid::max().as_u128(), u128::MAX);
    // a generated value carries version 4 in byte 6, so it is neither
    let g = Uuid::new_v4();
    assert!(!g.is_nil());
    assert!(!g.is_max());
    // only the literal all-zero value reports nil
    let almost = Uuid::from_u128(1);
    assert!(!almost.is_nil());
}

#[test]
fn variant_boundary_patterns() {
    let cases = [
        (0x00u8, Variant::Ncs),
        (0x80u8, Variant::Rfc4122),
        (0xC0u8, Variant::Microsoft),
        (0xE0u8, Variant::Future),
    ];
    for (byte8, expected) in cases {
        let mut b = vec![0u8; 16];
        b[8] = byte8;
        let u = Uuid::from_bytes(&b).unwrap();
        assert_eq!(u.variant(), expected);
    }
    assert_eq!(Variant::Ncs.name(), "NCS");
    assert_eq!(Variant::Rfc4122.name(), "RFC4122");
    assert_eq!(Variant::Microsoft.name(), "Microsoft");
    assert_eq!(Variant::Future.name(), "Future");
}

#[test]
fn version_extraction() {
    let mut b = vec![0u8; 16];
    b[6] = 0x40;
    assert_eq!(Uuid::from_bytes(&b).unwrap().version(), Some(4));
    b[6] = 0x10;
    assert_eq!(Uuid::from_bytes(&b).unwrap().version(), Some(1));
    b[6] = 0x00;
    assert_eq!(Uuid::from_bytes(&b).unwrap().version(), None);
    b[6] = 0x90;
    assert_eq!(Uuid::from_bytes(&b).unwrap().version(), None);
    assert_eq!(Uuid::nil().version(), None);
}

#[test]
fn v4_generation_invariants() {
    let mut seen: Vec<u128> = Vec::new();
    for _ in 0..1000 {
        let u = Uuid::new_v4();
        assert_eq!(u.version(), Some(4));
        assert_eq!(u.variant(), Variant::Rfc4122);
        seen.push(u.as_u128());
    }
    seen.sort_unstable();
    for w in seen.windows(2) {
        assert_ne!(w[0], w[1], "generated values must be pairwise distinct");
    }
}

#[test]
fn v4_entropy_is_used() {
    // two draws agreeing on all 122 free bits is vanishingly unlikely,
    // and would mean the random source is not consulted at all
    let a = Uuid::new_v4();
    let b = Uuid::new_v4();
    assert!(a != b);
}

#[test]
fn from_random_bytes_forces_fields_only() {
    let entropy = vec![0u8; 16];
    let u = Uuid::from_random_bytes(&entropy);
    let b = u.bytes();
    assert_eq!(b[6], 0x40);
    assert_eq!(b[8], 0x80);
    for (i, &x) in b.iter().enumerate() {
        if i != 6 && i != 8 {
            assert_eq!(x, 0);
        }
    }
    let entropy = vec![0xFFu8; 16];
    let u = Uuid::from_random_bytes(&entropy);
    let b = u.bytes();
    assert_eq!(b[6], 0x4F);
    assert_eq!(b[8], 0xBF);
}

#[test]
fn namespace_constants() {
    assert_eq!(
        Uuid::namespace_dns().hyphenated(),
        "6ba7b810-9dad-11d1-80b4-00c04fd430c8"
    );
    assert_eq!(
        Uuid::namespace_url().hyphenated(),
        "6ba7b811-9dad-11d1-80b4-00c04fd430c8"
    );
    assert_eq!(
        Uuid::namespace_oid().hyphenated(),
        "6ba7b812-9dad-11d1-80b4-00c04fd430c8"
    );
    assert_eq!(
        Uuid::namespace_x500().hyphenated(),
        "6ba7b814-9dad-11d1-80b4-00c04fd430c8"
    );
}

#[test]
fn is_valid_text() {
    assert!(!is_valid("not-a-uuid"));
    assert!(is_valid("6ba7b810-9dad-11d1-80b4-00c04fd430c8"));
    assert!(is_valid("6BA7B810-9DAD-11D1-80B4-00C04FD430C8"));
    assert!(is_valid("6ba7b8109dad11d180b400c04fd430c8"));
    assert!(is_valid("{6ba7b810-9dad-11d1-80b4-00c04fd430c8}"));
    assert!(!is_valid(""));
    assert!(!is_valid("6ba7b810-9dad-11d1-80b4-00c04fd430c"));
    assert!(!is_valid("6ba7b810-9dad-11d1-80b4-00c04fd430c8x"));
    assert!(!is_valid("6ba7b810x9dad-11d1-80b4-00c04fd430c8"));
    assert!(!is_valid("6ba7b810-9dad-11d1-80b4-00c04fd430g8"));
    assert!(!is_valid("{6ba7b810-9dad-11d1-80b4-00c04fd430c8)"));
    assert!(!is_valid("urn:uuid:6ba7b810-9dad-11d1-80b4-00c04fd430c8"));
}

#[test]
fn parse_accepts_extensions_with_same_value() {
    let canonical = parse_str("6ba7b810-9dad-11d1-80b4-00c04fd430c8").unwrap();
    let upper = parse_str("6BA7B810-9DAD-11D1-80B4-00C04FD430C8").unwrap();
    let simple = parse_str("6ba7b8109dad11d180b400c04fd430c8").unwrap();
    let braced = parse_str("{6ba7b810-9dad-11d1-80b4-00c04fd430c8}").unwrap();
    assert!(upper == canonical);
    assert!(simple == canonical);
    assert!(braced == canonical);
}

#[test]
fn parse_errors_are_malformed_text() {
    match parse_str("nope") {
        Err(UuidError::MalformedText) => {}
        _ => panic!("malformed text must be rejected as such"),
    }
    assert_eq!(
        UuidError::MalformedText.description(),
        "invalid UUID text"
    );
    assert_eq!(
        (UuidError::MalformedBytes { len: 3 }).description(),
        "UUID must be exactly 16 bytes"
    );
}

#[test]
fn repr_names_the_type() {
    assert_eq!(
        Uuid::namespace_dns().repr(),
        "UUID('6ba7b810-9dad-11d1-80b4-00c04fd430c8')"
    );
}

#[test]
fn byte_accessors() {
    let u = Uuid::from_bytes(&sample_bytes()).unwrap();
    for i in 0..16 {
        assert_eq!(u.byte_at(i), sample_bytes()[i]);
    }
    let copy = u.clone();
    assert!(copy == u);
}

#[test]
fn formatter_emits_lowercase_canonical_only() {
    let u = parse_str("6BA7B810-9DAD-11D1-80B4-00C04FD430C8").unwrap();
    let text = u.hyphenated();
    assert_eq!(text.len(), 36);
    assert_eq!(text, "6ba7b810-9dad-11d1-80b4-00c04fd430c8");
    for (i, c) in text.chars().enumerate() {
        if i == 8 || i == 13 || i == 18 || i == 23 {
            assert_eq!(c, '-');
        } else {
            assert!(c.is_ascii_hexdigit() && !c.is_ascii_uppercase());
        }
    }
}
