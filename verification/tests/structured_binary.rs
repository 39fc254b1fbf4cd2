use rustmetaverse::binary::{parse_binary, BinaryError, binary_error_text};
use rustmetaverse::osd::{OsdMap, OSD};
use rustmetaverse::uuid::UUID;

#[test]
fn roundtrip_binary_scalars() {
    let values = vec![
        OSD::Undef,
        OSD::Boolean(true),
        OSD::Boolean(false),
        OSD::Integer(42),
        OSD::Integer(-1),
        OSD::Integer(0),
        OSD::Real(42.195f64.to_bits()),
        OSD::Real(0.0f64.to_bits()),
        OSD::String("hello".to_string()),
        OSD::String("".to_string()),
        OSD::String("üñïçödé".to_string()),
        OSD::Binary(vec![0xDE, 0xAD, 0xBE, 0xEF]),
        OSD::Binary(vec![]),
        OSD::Uri("https://example.com".to_string()),
    ];
    for v in values {
        let bytes = v.to_binary();
        let parsed = OSD::from_binary(&bytes).unwrap();
        assert_eq!(v, parsed, "roundtrip failed for {:?}", v);
    }
}

#[test]
fn roundtrip_binary_uuid() {
    let v = OSD::UUID(UUID::parse("12345678-1234-1234-1234-123456789abc").unwrap());
    let bytes = v.to_binary();
    let parsed = OSD::from_binary(&bytes).unwrap();
    assert_eq!(v, parsed);
}

#[test]
fn roundtrip_binary_array() {
    let v = OSD::Array(vec![
        OSD::Integer(1),
        OSD::String("two".to_string()),
        OSD::Boolean(true),
    ]);
    let bytes = v.to_binary();
    let parsed = OSD::from_binary(&bytes).unwrap();
    assert_eq!(v, parsed);
}

#[test]
fn roundtrip_binary_map() {
    let mut m = OsdMap::new();
    m.insert("name".to_string(), OSD::String("test".to_string()));
    m.insert("count".to_string(), OSD::Integer(7));
    m.insert("active".to_string(), OSD::Boolean(true));
    let v = OSD::Dict(m);
    let bytes = v.to_binary();
    let parsed = OSD::from_binary(&bytes).unwrap();
    assert_eq!(v, parsed);
}

#[test]
fn roundtrip_binary_nested() {
    let mut inner = OsdMap::new();
    inner.insert("x".to_string(), OSD::Integer(10));
    inner.insert("y".to_string(), OSD::Real(2.5f64.to_bits()));
    let v = OSD::Array(vec![
        OSD::Dict(inner),
        OSD::Array(vec![OSD::Integer(1), OSD::Integer(2)]),
        OSD::String("done".to_string()),
    ]);
    let bytes = v.to_binary();
    let parsed = OSD::from_binary(&bytes).unwrap();
    assert_eq!(v, parsed);
}

#[test]
fn parse_binary_without_header() {
    let data = [b'i', 0, 0, 0, 42];
    let result = parse_binary(&data).unwrap();
    assert_eq!(result, OSD::Integer(42));
}

#[test]
fn binary_integer_is_big_endian_after_header() {
    let bytes = OSD::Integer(0x01020304).to_binary();
    assert_eq!(&bytes[..16], b"<?llsd/binary?>\n");
    assert_eq!(&bytes[16..], &[b'i', 1, 2, 3, 4]);
}

#[test]
fn binary_date_is_little_endian_seconds() {
    let date = rustmetaverse::osd::LlsdDate::from_timestamp(1_000_000_000, 0).unwrap();
    let bytes = OSD::Date(date).to_binary();
    assert_eq!(bytes[16], b'd');
    let secs = f64::from_le_bytes(bytes[17..25].try_into().unwrap());
    assert_eq!(secs, 1_000_000_000.0);
    let parsed = OSD::from_binary(&bytes).unwrap();
    assert_eq!(parsed, OSD::Date(date));
}

#[test]
fn binary_date_with_fraction_truncates_to_the_second() {
    let date = rustmetaverse::osd::LlsdDate::from_timestamp(1_700_000_000, 750_000_000).unwrap();
    let parsed = OSD::from_binary(&OSD::Date(date).to_binary()).unwrap();
    let whole = rustmetaverse::osd::LlsdDate::from_timestamp(1_700_000_000, 0).unwrap();
    assert_eq!(parsed, OSD::Date(whole));
}

#[test]
fn binary_map_repeated_key_keeps_first_place_and_last_value() {
    let data = [
        b'{', 0, 0, 0, 2, b'k', 0, 0, 0, 1, b'a', b'i', 0, 0, 0, 1, b'k', 0, 0, 0, 1, b'a', b'i', 0, 0, 0, 2,
        b'}',
    ];
    let parsed = parse_binary(&data).unwrap();
    let mut expected = OsdMap::new();
    expected.insert("a".to_string(), OSD::Integer(2));
    assert_eq!(parsed, OSD::Dict(expected));
}

#[test]
fn binary_errors_name_the_problem() {
    assert_eq!(parse_binary(&[]).unwrap_err(), "Unexpected end of binary LLSD");
    assert_eq!(parse_binary(&[b'i', 0]).unwrap_err(), "Unexpected end of binary LLSD: needed 4 bytes");
    assert_eq!(parse_binary(&[b'z']).unwrap_err(), "Invalid binary LLSD tag: 0x7a");
    assert_eq!(parse_binary(&[b's', 0, 0, 0, 1, 0xff]).unwrap_err(), "Invalid UTF-8 in LLSD string");
    assert_eq!(parse_binary(&[b'[', 0, 0, 0, 0, b'x']).unwrap_err(), "Invalid array close token in binary LLSD");
    assert_eq!(parse_binary(&[b'{', 0, 0, 0, 0, b'x']).unwrap_err(), "Invalid map close token in binary LLSD");
    assert_eq!(parse_binary(&[b'{', 0, 0, 0, 1, b'q']).unwrap_err(), "Invalid map key tag: 0x71");
    assert_eq!(binary_error_text(BinaryError::Needed(16)), "Unexpected end of binary LLSD: needed 16 bytes");
}

#[test]
fn binary_round_trip_of_far_dates() {
    for secs in [253_402_300_799i64, -62_135_596_800, 100_000_000_000] {
        let date = rustmetaverse::osd::LlsdDate::from_timestamp(secs, 0).unwrap();
        let parsed = OSD::from_binary(&OSD::Date(date).to_binary()).unwrap();
        assert_eq!(parsed, OSD::Date(date));
    }
}
