use history_lookup::percent::{decode, decode_bytes, encode_bytes};

#[test]
fn decode_without_escapes_is_identity() {
    let s = "https://example.com/path?q=rust";
    assert_eq!(decode(s), s);
}

#[test]
fn decode_space_escape() {
    assert_eq!(decode("a%20b"), "a b");
}

#[test]
fn decode_multibyte_escape() {
    assert_eq!(decode("%E2%9C%93"), "\u{2713}");
}

#[test]
fn decode_invalid_hex_passes_through() {
    assert_eq!(decode("%ZZ"), "%ZZ");
}

#[test]
fn decode_truncated_escape_passes_through() {
    assert_eq!(decode("%2"), "%2");
    assert_eq!(decode("abc%"), "abc%");
}

#[test]
fn decode_lowercase_hex() {
    assert_eq!(decode("%2f%2F"), "//");
}

#[test]
fn decode_invalid_utf8_is_replaced() {
    assert_eq!(decode("%FF"), "\u{FFFD}");
}

#[test]
fn decode_twice_differs_from_once() {
    let once = decode("%2520");
    assert_eq!(once, "%20");
    assert_eq!(decode(&once), " ");
}

#[test]
fn decode_empty() {
    assert_eq!(decode(""), "");
}

#[test]
fn percent_without_escape_is_identity() {
    assert_eq!(decode("100% sure"), "100% sure");
    assert_eq!(decode("%G7"), "%G7");
}

#[test]
fn malformed_escape_amid_valid_ones() {
    assert_eq!(decode("%Z%20"), "%Z ");
    assert_eq!(decode("%2%35"), "%25");
}

#[test]
fn byte_roundtrip_all_bytes() {
    let mut all: Vec<u8> = Vec::new();
    let mut b: u16 = 0;
    while b <= 255 {
        all.push(b as u8);
        b += 1;
    }
    let encoded = encode_bytes(&all);
    assert_eq!(decode_bytes(&encoded), all);
}

#[test]
fn byte_roundtrip_utf8_text() {
    let original: Vec<u8> = "h\u{00E9}llo \u{2713} world".as_bytes().to_vec();
    let encoded = encode_bytes(&original);
    assert_eq!(decode_bytes(&encoded), original);
}

#[test]
fn decode_matches_conventional_decoder() {
    let cases = [
        "a%20b",
        "%E2%9C%93",
        "%ZZ",
        "%2",
        "plain",
        "%fF",
        "https://example.com/a%20b?x=%2F",
        "%FF%FE",
        "%%41",
    ];
    for case in cases {
        let expected = percent_encoding::percent_decode_str(case)
            .decode_utf8_lossy()
            .into_owned();
        assert_eq!(decode(case), expected, "{}", case);
    }
}

#[test]
fn decode_inverts_conventional_encoder() {
    let original = "https://example.com/a b/\u{2713}?q=1+2";
    let encoded = percent_encoding::utf8_percent_encode(
        original,
        percent_encoding::NON_ALPHANUMERIC,
    )
    .to_string();
    assert_eq!(decode(&encoded), original);
}
