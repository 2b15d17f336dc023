//! Base64, both ways.

use horriplayer::base64::{b64url_decode, base64_encode};

#[test]
fn base64_matches_known_vectors() {
    assert_eq!(base64_encode(b""), "");
    assert_eq!(base64_encode(b"f"), "Zg==");
    assert_eq!(base64_encode(b"fo"), "Zm8=");
    assert_eq!(base64_encode(b"foo"), "Zm9v");
    assert_eq!(base64_encode(b"foob"), "Zm9vYg==");
    assert_eq!(base64_encode(b"fooba"), "Zm9vYmE=");
    assert_eq!(base64_encode(b"foobar"), "Zm9vYmFy");
}

#[test]
fn base64_handles_binary_bytes() {
    assert_eq!(base64_encode(&[0xff, 0xd8, 0xff]), "/9j/");
}

#[test]
fn decodes_base64url_from_the_frontend() {
    // produced by the UI's btoa(...) encoder for the URL asserted below
    let encoded = "aHR0cDovLzE5Mi4xNjguMS4xMDo0NTMzL3Jlc3Qvc3RyZWFtP3U9YWRtaW4mdD1hYmMxMjMmcz14eSZ2PTEuMTYuMSZjPWhvcnJpcGxheWVyJmY9anNvbiZpZD10ci00Mn7EhcSZ";
    let decoded = String::from_utf8(b64url_decode(encoded).expect("decodes")).expect("utf-8");
    assert_eq!(
        decoded,
        "http://192.168.1.10:4533/rest/stream?u=admin&t=abc123&s=xy&v=1.16.1&c=horriplayer&f=json&id=tr-42~ąę"
    );
}

#[test]
fn rejects_garbage() {
    assert!(b64url_decode("not base64!!").is_none());
}

#[test]
fn decoding_undoes_encoding_for_every_byte_and_length() {
    let all: Vec<u8> = (0..=255).collect();
    for len in 0..all.len() {
        let data = &all[len..];
        assert_eq!(b64url_decode(&base64_encode(data)), Some(data.to_vec()));
    }
}

#[test]
fn both_alphabets_are_understood() {
    assert_eq!(b64url_decode("-_-_"), b64url_decode("+/+/"));
    assert_eq!(b64url_decode("-_-_"), Some(vec![0xfb, 0xff, 0xbf]));
}

#[test]
fn decoding_stops_at_padding_and_leaves_out_stray_bits() {
    assert_eq!(b64url_decode("Zg==ignored!!"), Some(vec![b'f']));
    assert_eq!(b64url_decode("Zh"), Some(vec![b'f']));
    assert_eq!(b64url_decode("Z"), Some(vec![]));
    assert_eq!(b64url_decode(""), Some(vec![]));
    assert_eq!(b64url_decode("="), Some(vec![]));
    assert_eq!(b64url_decode("Zg!="), None);
    assert_eq!(b64url_decode("Zą"), None);
}
