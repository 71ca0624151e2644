use deviceid::DevDeviceId;
use deviceid::Error;

#[test]
fn test_expected_format() {
    let uuid = uuid::Uuid::new_v4();
    let id = DevDeviceId::from_bits(uuid.as_u128());
    let formatted = id.render();
    let mut buf = vec![0u8; uuid::fmt::Hyphenated::LENGTH];
    let hyphenated = uuid::fmt::Hyphenated::from_uuid(uuid);
    hyphenated.encode_lower(&mut buf);
    let expected = String::from_utf8(buf).expect("Failed to convert to String");
    assert_eq!(formatted, expected);
}

#[test]
fn render_known_value() {
    let id = DevDeviceId::from_bits(0x00112233445566778899aabbccddeeffu128);
    assert_eq!(id.render(), "00112233-4455-6677-8899-aabbccddeeff");
    assert_eq!(id.render_bytes(), b"00112233-4455-6677-8899-aabbccddeeff".to_vec());
}

#[test]
fn render_extreme_values() {
    assert_eq!(DevDeviceId::from_bits(0).render(), "00000000-0000-0000-0000-000000000000");
    assert_eq!(
        DevDeviceId::from_bits(u128::MAX).render(),
        "ffffffff-ffff-ffff-ffff-ffffffffffff"
    );
}

#[test]
fn parse_known_value() {
    let id = DevDeviceId::parse("a1a2a3a4-b1b2-c1c2-d1d2-d3d4d5d6d7d8").unwrap();
    assert_eq!(id.bits, 0xa1a2a3a4b1b2c1c2d1d2d3d4d5d6d7d8u128);
}

#[test]
fn parse_accepts_uppercase() {
    let id = DevDeviceId::parse("A1A2A3A4-B1B2-C1C2-D1D2-D3D4D5D6D7D8").unwrap();
    assert_eq!(id.render(), "a1a2a3a4-b1b2-c1c2-d1d2-d3d4d5d6d7d8");
}

#[test]
fn parse_render_round_trip() {
    let id = DevDeviceId::generate();
    let back = DevDeviceId::parse(&id.render()).unwrap();
    assert_eq!(back, id);
    let back_bytes = DevDeviceId::parse_bytes(&id.render_bytes()).unwrap();
    assert_eq!(back_bytes, id);
}

#[test]
fn parse_rejects_malformed() {
    let cases = [
        "not-a-uuid",
        "",
        "a1a2a3a4b1b2c1c2d1d2d3d4d5d6d7d8",
        "{a1a2a3a4-b1b2-c1c2-d1d2-d3d4d5d6d7d8}",
        "urn:uuid:a1a2a3a4-b1b2-c1c2-d1d2-d3d4d5d6d7d8",
        "a1a2a3a4-b1b2-c1c2-d1d2-d3d4d5d6d7dg",
        "a1a2a3a4-b1b2-c1c2-d1d2-d3d4d5d6d7d",
        "a1a2a3a4-b1b2-c1c2-d1d2-d3d4d5d6d7d8 ",
        "a1a2a3a4+b1b2-c1c2-d1d2-d3d4d5d6d7d8",
    ];
    for text in cases {
        assert!(
            matches!(DevDeviceId::parse(text), Err(Error::BadUuidFormat(_))),
            "{} should be rejected",
            text
        );
    }
}

#[test]
fn generate_sets_version_and_variant() {
    let mut i = 0;
    while i < 8 {
        let id = DevDeviceId::generate();
        let text = id.render();
        let bytes = text.as_bytes();
        assert_eq!(bytes[14], b'4');
        assert!(matches!(bytes[19], b'8' | b'9' | b'a' | b'b'));
        i += 1;
    }
}
