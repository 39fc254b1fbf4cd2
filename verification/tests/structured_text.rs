use rustmetaverse::login::{
    login_request_body, login_response_problem, parse_xml_rpc_events, parse_xml_rpc_response, LoginParams,
};
use rustmetaverse::notation::{format_notation, hex_to_bytes, parse_notation, write_escaped_string};
use rustmetaverse::osd::{LlsdDate, OsdMap, OSD};
use rustmetaverse::uuid::UUID;
use rustmetaverse::xml::{parse_xml, parse_xml_events, XmlToken};

fn real_text(bits: u64) -> String {
    f64::from_bits(bits).to_string()
}

fn real_value(text: &str) -> Option<u64> {
    text.parse::<f64>().ok().map(|v| v.to_bits())
}

#[test]
fn roundtrip_notation_scalars() {
    let values = vec![
        OSD::Undef,
        OSD::Boolean(true),
        OSD::Boolean(false),
        OSD::Integer(42),
        OSD::Integer(-1),
        OSD::Real(42.195f64.to_bits()),
        OSD::String("hello".to_string()),
        OSD::String("say \"hi\"".to_string()),
        OSD::Binary(vec![0xDE, 0xAD, 0xBE, 0xEF]),
    ];
    for v in values {
        let notation = format_notation(&v, &real_text);
        let parsed = parse_notation(&notation, &real_value).unwrap();
        assert_eq!(v, parsed, "roundtrip failed for {:?}", v);
    }
}

#[test]
fn roundtrip_notation_array() {
    let v = OSD::Array(vec![
        OSD::Integer(1),
        OSD::String("two".to_string()),
        OSD::Boolean(true),
    ]);
    let notation = format_notation(&v, &real_text);
    let parsed = parse_notation(&notation, &real_value).unwrap();
    assert_eq!(v, parsed);
}

#[test]
fn roundtrip_notation_map() {
    let mut m = OsdMap::new();
    m.insert("name".to_string(), OSD::String("test".to_string()));
    m.insert("count".to_string(), OSD::Integer(7));
    let v = OSD::Dict(m);
    let notation = format_notation(&v, &real_text);
    let parsed = parse_notation(&notation, &real_value).unwrap();
    assert_eq!(v, parsed);
}

#[test]
fn parse_notation_bare_bool() {
    assert_eq!(parse_notation("!", &real_value).unwrap(), OSD::Undef);
    assert_eq!(parse_notation("true", &real_value).unwrap(), OSD::Boolean(true));
    assert_eq!(parse_notation("false", &real_value).unwrap(), OSD::Boolean(false));
}

#[test]
fn parse_notation_with_header() {
    let data = "<?llsd/notation?>\ni42";
    assert_eq!(parse_notation(data, &real_value).unwrap(), OSD::Integer(42));
}

#[test]
fn parse_notation_header_directly_before_the_value() {
    assert_eq!(parse_notation("<?llsd/notation?>i42", &real_value).unwrap(), OSD::Integer(42));
    assert_eq!(parse_notation("  <?llsd/notation?>  \n [1]", &real_value).unwrap(), OSD::Array(vec![OSD::Boolean(true)]));
}

#[test]
fn parse_notation_header_alone_is_an_error() {
    assert_eq!(parse_notation("<?llsd/notation?>", &real_value).unwrap_err(), "Unexpected end of notation LLSD");
    assert_eq!(parse_notation("<?llsd/notation?>é", &real_value).unwrap_err(), "Invalid notation token: 'é'");
}

#[test]
fn notation_writes_each_kind() {
    assert_eq!(format_notation(&OSD::Integer(-7), &real_text), "<?llsd/notation?>\ni-7");
    assert_eq!(format_notation(&OSD::Binary(vec![0xab, 0x01]), &real_text), "<?llsd/notation?>\nb4\"ab01\"");
    assert_eq!(format_notation(&OSD::Real(f64::NAN.to_bits()), &real_text), "<?llsd/notation?>\nrNaN");
    assert_eq!(format_notation(&OSD::Real(f64::NEG_INFINITY.to_bits()), &real_text), "<?llsd/notation?>\nr-inf");
    assert_eq!(format_notation(&OSD::Uri("a\\b\n".to_string()), &real_text), "<?llsd/notation?>\nl\"a\\\\b\\n\"");
    let mut m = OsdMap::new();
    m.insert("it's".to_string(), OSD::Undef);
    m.insert("b".to_string(), OSD::Array(vec![]));
    assert_eq!(format_notation(&OSD::Dict(m), &real_text), "<?llsd/notation?>\n{'it\\'s':!,'b':[]}");
}

#[test]
fn notation_reads_uuid_date_and_special_reals() {
    let u = parse_notation("u\"12345678-1234-1234-1234-123456789abc\"", &real_value).unwrap();
    assert_eq!(u, OSD::UUID(UUID::parse("12345678-1234-1234-1234-123456789abc").unwrap()));
    let d = parse_notation("d\"2009-02-13T23:31:30Z\"", &real_value).unwrap();
    assert_eq!(d, OSD::Date(LlsdDate::from_timestamp(1234567890, 0).unwrap()));
    assert_eq!(parse_notation("rinf", &real_value).unwrap(), OSD::Real(f64::INFINITY.to_bits()));
    assert_eq!(parse_notation("s5'hello'", &real_value).unwrap(), OSD::String("hello".to_string()));
    assert_eq!(parse_notation("r-1.5", &real_value).unwrap(), OSD::Real((-1.5f64).to_bits()));
    assert_eq!(parse_notation("r-inf", &real_value).unwrap(), OSD::Real(f64::NEG_INFINITY.to_bits()));
    assert_eq!(parse_notation("r-x", &real_value).unwrap_err(), "Invalid real: ");
}

#[test]
fn notation_errors_name_the_problem() {
    assert_eq!(parse_notation("", &real_value).unwrap_err(), "Unexpected end of notation LLSD");
    assert_eq!(parse_notation("x", &real_value).unwrap_err(), "Invalid notation token: 'x'");
    assert_eq!(parse_notation("tru", &real_value).unwrap_err(), "Invalid boolean: tru");
    assert_eq!(parse_notation("i9999999999", &real_value).unwrap_err(), "Invalid integer: 9999999999");
    assert_eq!(parse_notation("[1 2]", &real_value).unwrap_err(), "Expected ',' or ']' in array, got '2'");
    assert_eq!(parse_notation("{'a' 1}", &real_value).unwrap_err(), "Expected ':' after map key");
    assert_eq!(parse_notation("\"abc", &real_value).unwrap_err(), "Unterminated delimited string");
}

#[test]
fn hex_to_bytes_reads_pairs() {
    assert_eq!(hex_to_bytes("00ff7F").unwrap(), vec![0x00, 0xff, 0x7f]);
    assert_eq!(hex_to_bytes("+f").unwrap(), vec![0x0f]);
    assert_eq!(hex_to_bytes("abc").unwrap_err(), "Hex string has odd length");
    assert_eq!(hex_to_bytes("zz").unwrap_err(), "Invalid hex byte: zz");
    // Two bytes that would split a character are no hex byte either.
    assert_eq!(hex_to_bytes("aéb").unwrap_err(), "Invalid hex byte: ");
    assert_eq!(hex_to_bytes("éab").unwrap_err(), "Invalid hex byte: é");
    assert_eq!(parse_notation("b2\"aéb\"", &real_value).unwrap_err(), "Invalid hex byte: ");
}

#[test]
fn xml_round_trip_of_a_map() {
    let mut m = OsdMap::new();
    m.insert("name".to_string(), OSD::String("a<b & 'c'".to_string()));
    m.insert("n".to_string(), OSD::Integer(-3));
    m.insert("bin".to_string(), OSD::Binary(vec![1, 2, 3]));
    m.insert("list".to_string(), OSD::Array(vec![OSD::Boolean(true), OSD::Undef]));
    let v = OSD::Dict(m);
    let xml = v.to_xml(&real_text);
    assert!(xml.contains("<string>a&lt;b &amp; &apos;c&apos;</string>"));
    assert!(xml.contains("<binary>AQID</binary>"));
    let parsed = parse_xml(&xml, &real_value).unwrap();
    assert_eq!(parsed, v);
}

#[test]
fn xml_scalars_use_trimmed_text_and_defaults() {
    assert_eq!(parse_xml("<llsd><integer> 12 </integer></llsd>", &real_value).unwrap(), OSD::Integer(12));
    assert_eq!(parse_xml("<llsd><integer></integer></llsd>", &real_value).unwrap(), OSD::Integer(0));
    assert_eq!(parse_xml("<llsd><real>2.5</real></llsd>", &real_value).unwrap(), OSD::Real(2.5f64.to_bits()));
    assert_eq!(parse_xml("<llsd><boolean>true</boolean></llsd>", &real_value).unwrap(), OSD::Boolean(true));
    assert_eq!(parse_xml("<llsd></llsd>", &real_value).unwrap(), OSD::Undef);
    assert_eq!(parse_xml("<x/>", &real_value).unwrap_err(), "No llsd tag found");
    assert_eq!(parse_xml("<llsd><foo/></llsd>", &real_value).unwrap_err(), "Unknown element: foo");
    assert_eq!(parse_xml("<llsd><map><integer>1</integer></map></llsd>", &real_value).unwrap_err(), "Value without key in map");
    assert_eq!(parse_xml("<llsd><integer>x</integer></llsd>", &real_value).unwrap_err(), "Invalid integer");
}

#[test]
fn login_body_has_members_in_order() {
    let mut p = LoginParams::default();
    p.first_name = "Ann".to_string();
    p.last_name = "O'Hara".to_string();
    p.password = "password".to_string();
    p.options = vec!["a&b".to_string()];
    let body = login_request_body(&p);
    assert!(body.starts_with("<?xml version=\"1.0\"?>\n<methodCall>\n<methodName>login_to_simulator</methodName>"));
    assert!(body.contains("<member><name>first</name><value><string>Ann</string></value></member>\n<member><name>last</name><value><string>O&apos;Hara</string></value></member>\n"));
    assert!(body.contains("<member><name>passwd</name><value><string>$1$5f4dcc3b5aa765d61d8327deb882cf99</string></value></member>"));
    assert!(body.contains("<member><name>agree_to_tos</name><value><boolean>1</boolean></value></member>"));
    assert!(body.contains("<member><name>last_exec_event</name><value><int>0</int></value></member>"));
    assert!(body.contains("<value><array><data>\n<value><string>a&amp;b</string></value>\n</data></array>"));
    assert!(body.ends_with("</struct>\n</value>\n</param>\n</params>\n</methodCall>"));
}

#[test]
fn login_params_default_values() {
    let p = LoginParams::default();
    assert_eq!(p.start, "last");
    assert_eq!(p.channel, "RustMetaverse");
    assert_eq!(p.options.len(), 19);
    assert_eq!(p.options[0], "inventory-root");
    assert!(p.agree_to_tos && p.read_critical);
}

#[test]
fn login_response_is_checked_before_reading() {
    assert_eq!(
        login_response_problem(false, "502 Bad Gateway", "text/html", "<html>"),
        Some("login endpoint returned HTTP 502 Bad Gateway (text/html), not XML-RPC".to_string())
    );
    assert_eq!(
        login_response_problem(true, "200 OK", "text/html", "<html>"),
        Some("login endpoint returned non-XML-RPC content (text/html)".to_string())
    );
    assert_eq!(login_response_problem(true, "200 OK", "text/xml", "  <?xml version=\"1.0\"?>"), None);
    assert_eq!(login_response_problem(true, "200 OK", "text/xml", "<methodResponse>"), None);
}

#[test]
fn xml_rpc_response_reads_the_first_struct() {
    let xml = "<?xml version=\"1.0\"?><methodResponse><params><param><value><struct>\
        <member><name>login</name><value><string>true</string></value></member>\
        <member><name>circuit_code</name><value><i4>123</i4></value></member>\
        <member><name>flag</name><value><boolean>1</boolean></value></member>\
        <member><name>plain</name><value>text</value></member>\
        <member><name>list</name><value><array><data><value><int>5</int></value></data></array></value></member>\
        </struct></value></param></params></methodResponse>";
    let r = parse_xml_rpc_response(xml).unwrap();
    let m = r.as_map().unwrap();
    assert_eq!(m.get("login"), Some(&OSD::String("true".to_string())));
    assert_eq!(m.get("circuit_code"), Some(&OSD::Integer(123)));
    assert_eq!(m.get("flag"), Some(&OSD::Boolean(true)));
    assert_eq!(m.get("plain"), Some(&OSD::String("text".to_string())));
    assert_eq!(m.get("list"), Some(&OSD::Array(vec![OSD::Integer(5)])));
    assert_eq!(parse_xml_rpc_response("<methodResponse/>").unwrap_err(), "No struct found in response");
}

#[test]
fn xml_events_read_as_the_llsd_value() {
    let ev = vec![
        XmlToken::Other,
        XmlToken::Start("llsd".to_string()),
        XmlToken::Start("integer".to_string()),
        XmlToken::Text("42".to_string()),
        XmlToken::End("integer".to_string()),
        XmlToken::End("llsd".to_string()),
    ];
    assert_eq!(parse_xml_events(&ev, &real_value).unwrap(), OSD::Integer(42));
    assert_eq!(parse_xml_events(&[].to_vec(), &real_value).unwrap_err(), "No llsd tag found");
}

#[test]
fn xml_rpc_events_read_the_first_struct() {
    let ev = vec![
        XmlToken::Start("methodResponse".to_string()),
        XmlToken::Start("struct".to_string()),
        XmlToken::End("struct".to_string()),
    ];
    assert!(matches!(parse_xml_rpc_events(&ev).unwrap(), OSD::Dict(_)));
    let none = vec![XmlToken::Start("methodResponse".to_string())];
    assert_eq!(parse_xml_rpc_events(&none).unwrap_err(), "No struct found in response");
}

#[test]
fn escaped_strings_read_back() {
    for d in ['"', '\''] {
        let s = "a'b\\c\"\n\t\r end";
        let mut buf = String::new();
        write_escaped_string(&mut buf, s, d);
        assert_eq!(parse_notation(&buf, &real_value).unwrap(), OSD::String(s.to_string()));
    }
}

#[test]
fn ascii_hex_reads_one_byte_per_pair() {
    assert_eq!(hex_to_bytes("0A1b").unwrap(), vec![0x0a, 0x1b]);
    assert_eq!(hex_to_bytes("").unwrap(), Vec::<u8>::new());
    assert!(hex_to_bytes("0g").is_err());
}

#[test]
fn notation_round_trip_of_negative_reals() {
    for x in [-1.5f64, -0.0, -123456.75, -1e-7] {
        let v = OSD::Real(x.to_bits());
        let text = format_notation(&v, &real_text);
        assert_eq!(parse_notation(&text, &real_value).unwrap(), v);
    }
}

#[test]
fn xml_round_trip_of_whitespace_text() {
    let mut m = OsdMap::new();
    m.insert("  ".to_string(), OSD::String(" \n\t ".to_string()));
    m.insert("u".to_string(), OSD::Uri("   ".to_string()));
    let v = OSD::Dict(m);
    let text = v.to_xml(&real_text);
    assert_eq!(parse_xml(&text, &real_value).unwrap(), v);
}
