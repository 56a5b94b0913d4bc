use fisic::guid::Guid;

#[test]
fn nil_guid_is_nil() {
    let g = Guid::nil();
    assert!(g.is_nil());
    assert_eq!(g.to_bytes_canonical(), [0u8; 16]);
    assert_eq!(g.to_string_canonical(), "00000000-0000-0000-0000-000000000000".to_string());
}

#[test]
fn new_v4_sets_version_and_variant_bits() {
    let g = Guid::new_v4();
    let b = g.to_bytes_canonical();
    assert_eq!(b[6] & 0xf0, 0x40);
    assert_eq!(b[8] & 0xc0, 0x80);
    assert!(!g.is_nil());
}

#[test]
fn two_random_guids_differ() {
    let a = Guid::new_v4();
    let b = Guid::new_v4();
    assert!(!a.same_as(&b));
}

#[test]
fn parse_canonical_form() {
    let g = Guid::parse("12345678-1234-5678-1234-567812345678").unwrap();
    assert_eq!(
        g.to_bytes_canonical(),
        [0x12, 0x34, 0x56, 0x78, 0x12, 0x34, 0x56, 0x78, 0x12, 0x34, 0x56, 0x78, 0x12, 0x34,
            0x56, 0x78]
    );
}

#[test]
fn parse_accepts_both_cases() {
    let upper = Guid::parse("C12A7328-F81F-11D2-BA4B-00A0C93EC93B").unwrap();
    let lower = Guid::parse("c12a7328-f81f-11d2-ba4b-00a0c93ec93b").unwrap();
    assert!(upper.same_as(&lower));
}

#[test]
fn parse_rejects_malformed_strings() {
    assert!(Guid::parse("").is_none());
    assert!(Guid::parse("12345678-1234-5678-1234-56781234567").is_none());
    assert!(Guid::parse("12345678-1234-5678-1234-5678123456789").is_none());
    assert!(Guid::parse("12345678x1234-5678-1234-567812345678").is_none());
    assert!(Guid::parse("1234567g-1234-5678-1234-567812345678").is_none());
}

#[test]
fn to_string_round_trips_through_parse() {
    let g = Guid::new_v4();
    let s = g.to_string_canonical();
    let h = Guid::parse(s.as_str()).unwrap();
    assert!(g.same_as(&h));
}

#[test]
fn mixed_endian_byte_pattern() {
    let g = Guid::parse("12345678-1234-5678-1234-567812345678").unwrap();
    assert_eq!(
        g.to_bytes_me(),
        [0x78, 0x56, 0x34, 0x12, 0x34, 0x12, 0x78, 0x56, 0x12, 0x34, 0x56, 0x78, 0x12, 0x34,
            0x56, 0x78]
    );
}

#[test]
fn mixed_endian_round_trip() {
    let g = Guid::new_v4();
    let me = g.to_bytes_me();
    let back = Guid::from_bytes_me(&me);
    assert!(g.same_as(&back));
}

#[test]
fn mixed_endian_agrees_with_nuuid() {
    let g = Guid::parse("C12A7328-F81F-11D2-BA4B-00A0C93EC93B").unwrap();
    let u = nuuid::Uuid::parse("C12A7328-F81F-11D2-BA4B-00A0C93EC93B").unwrap();
    assert_eq!(g.to_bytes_me(), u.to_bytes_me());
    assert_eq!(g.to_bytes_canonical(), u.to_bytes());
}
