use media_relay::urlencode::{encode_pairs, form_decode, form_encode};

#[test]
fn unreserved_bytes_pass_through() {
    let enc = form_encode(b"AZaz09*-._");
    assert_eq!(enc, b"AZaz09*-._".to_vec());
}

#[test]
fn space_becomes_plus_and_separators_escape() {
    let enc = form_encode(b"a&b=c d");
    assert_eq!(enc, b"a%26b%3Dc+d".to_vec());
}

#[test]
fn non_ascii_bytes_escape_uppercase() {
    // "ü" is C3 BC in UTF-8
    let enc = form_encode("ü".as_bytes());
    assert_eq!(enc, b"%C3%BC".to_vec());
}

#[test]
fn encoding_matches_reference_serializer() {
    let value = "https://example.com/a?x=1&y=2 ü=ok";
    let ours = form_encode(value.as_bytes());
    let reference: String = form_urlencoded::byte_serialize(value.as_bytes()).collect();
    assert_eq!(ours, reference.into_bytes());
}

#[test]
fn round_trip_through_reference_parser() {
    // embedded '&', '=' and a non-ASCII character must survive
    let pairs = vec![
        (b"url".to_vec(), "https://ex.com/p?a=1&b=2".as_bytes().to_vec()),
        (b"note".to_vec(), "ü =& end".as_bytes().to_vec()),
    ];
    let body = encode_pairs(&pairs);
    let parsed: Vec<(String, String)> = form_urlencoded::parse(&body)
        .map(|(k, v)| (k.into_owned(), v.into_owned()))
        .collect();
    assert_eq!(parsed.len(), 2);
    assert_eq!(parsed[0].0, "url");
    assert_eq!(parsed[0].1, "https://ex.com/p?a=1&b=2");
    assert_eq!(parsed[1].0, "note");
    assert_eq!(parsed[1].1, "ü =& end");
}

#[test]
fn empty_input_encodes_empty() {
    assert_eq!(form_encode(b""), Vec::<u8>::new());
}

#[test]
fn encode_then_decode_is_identity() {
    // embedded '&', '=' and a non-ASCII character must survive
    let original = "https://ex.com/p?a=1&b=2 ü=end".as_bytes();
    let encoded = form_encode(original);
    let decoded = form_decode(&encoded).expect("a generated encoding always decodes");
    assert_eq!(decoded, original.to_vec());
}

#[test]
fn lowercase_hex_decodes_too() {
    assert_eq!(form_decode(b"%c3%bc"), Some("ü".as_bytes().to_vec()));
}

#[test]
fn invalid_encodings_are_rejected() {
    assert_eq!(form_decode(b"%2"), None);
    assert_eq!(form_decode(b"%zz"), None);
    assert_eq!(form_decode(b"a\xffb"), None);
}
