use tendermint::base64::{decode, encode, is_framed};
use tendermint::text::{same_text, string_of_ascii};
use tendermint::ErrorKind;

#[test]
fn encodes_the_test_vectors_of_the_codec() {
    assert_eq!(encode(b""), b"".to_vec());
    assert_eq!(encode(b"\0"), b"AA==".to_vec());
    assert_eq!(encode(b"***"), b"Kioq".to_vec());
    assert_eq!(encode(b"\x01\x02\x03\x04"), b"AQIDBA==".to_vec());
    assert_eq!(encode(b"\xAD\xAD\xAD\xAD\xAD"), b"ra2tra0=".to_vec());
    assert_eq!(encode(b"\xFF\xFF\xFF\xFF\xFF"), b"//////8=".to_vec());
}

#[test]
fn decodes_the_test_vectors_of_the_codec() {
    assert_eq!(decode(b""), Ok(b"".to_vec()));
    assert_eq!(decode(b"AA=="), Ok(b"\0".to_vec()));
    assert_eq!(decode(b"Kioq"), Ok(b"***".to_vec()));
    assert_eq!(decode(b"AQIDBA=="), Ok(b"\x01\x02\x03\x04".to_vec()));
    assert_eq!(decode(b"ra2tra0="), Ok(b"\xAD\xAD\xAD\xAD\xAD".to_vec()));
    assert_eq!(decode(b"//////8="), Ok(b"\xFF\xFF\xFF\xFF\xFF".to_vec()));
}

#[test]
fn decode_undoes_encode_at_every_length() {
    let data: Vec<u8> = (0u8..=200).collect();
    for len in 0..data.len() {
        let text = encode(&data[..len]);
        assert_eq!(text.len(), 4 * ((len + 2) / 3));
        assert!(is_framed(&text));
        assert!(text.iter().all(|b| b.is_ascii()));
        assert_eq!(decode(&text), Ok(data[..len].to_vec()));
    }
}

#[test]
fn decode_refuses_what_is_not_framed() {
    for text in [&b"="[..], b"==", b"====", b"AA=A", b"A=AA", b"AAAA=", b"AAAA====", b"AAAAA=A"] {
        assert!(!is_framed(text));
        assert_eq!(decode(text), Err(ErrorKind::InvalidEncoding));
    }
}

#[test]
fn decode_refuses_what_the_codec_refuses() {
    for text in [&b"A"[..], b"A===", b"AA*A", b"AAAA\n", b"AAAA ", b"AA==AAAA", b"\xff\xff\xff\xff"] {
        assert!(is_framed(text));
        assert_eq!(decode(text), Err(ErrorKind::InvalidEncoding));
    }
}

#[test]
fn framed_texts() {
    for text in [&b""[..], b"A", b"AA", b"AAA", b"AAAA", b"AA==", b"AAA=", b"A===", b"AAAAAA==", b"====A", b"AA==AAAA"] {
        assert!(is_framed(text));
    }
}

#[test]
fn unpadded_text_is_decoded() {
    assert_eq!(decode(b"AA"), Ok(b"\0".to_vec()));
    assert_eq!(decode(b"AQIDBA"), Ok(b"\x01\x02\x03\x04".to_vec()));
}

#[test]
fn text_of_ascii_bytes() {
    assert_eq!(string_of_ascii(b"Kioq+/=09"), "Kioq+/=09");
    assert_eq!(string_of_ascii(b""), "");
}

#[test]
fn texts_are_compared_whole() {
    assert!(same_text("", ""));
    assert!(same_text("abc", "abc"));
    assert!(!same_text("abc", "abd"));
    assert!(!same_text("abc", "ab"));
    assert!(!same_text("ab", "abc"));
    assert!(same_text("\u{e9}", "\u{e9}"));
    assert!(!same_text("\u{e9}", "e"));
}
