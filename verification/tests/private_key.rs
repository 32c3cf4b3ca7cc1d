use tendermint::private_key::{Ed25519Keypair, PrivateKey, ED25519_KEYPAIR_SIZE, ED25519_SCHEME};
use tendermint::public_key::PublicKey;
use tendermint::seed::Seed;
use tendermint::ErrorKind;

/// A keypair of RFC 8032: 32 bytes of secret key, then its public key
const RFC8032_KEYPAIR: [u8; 64] = [
    0x9d, 0x61, 0xb1, 0x9d, 0xef, 0xfd, 0x5a, 0x60, 0xba, 0x84, 0x4a, 0xf4, 0x92, 0xec, 0x2c, 0xc4,
    0x44, 0x49, 0xc5, 0x69, 0x7b, 0x32, 0x69, 0x19, 0x70, 0x3b, 0xac, 0x03, 0x1c, 0xae, 0x7f, 0x60,
    0xd7, 0x5a, 0x98, 0x01, 0x82, 0xb1, 0x0a, 0xb7, 0xd5, 0x4b, 0xfe, 0xd3, 0xc9, 0x64, 0x07, 0x3a,
    0x0e, 0xe1, 0x72, 0xf3, 0xda, 0xa6, 0x23, 0x25, 0xaf, 0x02, 0x1a, 0x68, 0xf7, 0x07, 0x51, 0x1a,
];

const RFC8032_BASE64: &str =
    "nWGxne/9WmC6hEr0kuwsxERJxWl7MmkZcDusAxyuf2DXWpgBgrEKt9VL/tPJZAc6DuFy89qmIyWvAhpo9wdRGg==";

fn counting_bytes() -> [u8; 64] {
    let mut bytes = [0u8; 64];
    for (i, b) in bytes.iter_mut().enumerate() {
        *b = i as u8;
    }
    bytes
}

fn zero_text() -> String {
    format!("{}==", "A".repeat(86))
}

#[test]
fn keypair_size_is_64() {
    assert_eq!(ED25519_KEYPAIR_SIZE, 64);
}

#[test]
fn base64_round_trip_of_any_buffer() {
    for seed in 0u8..=255 {
        let mut bytes = [0u8; 64];
        for (i, b) in bytes.iter_mut().enumerate() {
            *b = seed.wrapping_mul(31).wrapping_add((i as u8).wrapping_mul(7)) ^ seed;
        }
        let keypair = Ed25519Keypair::from_bytes(&bytes).unwrap();
        let text = keypair.to_base64();
        let back = Ed25519Keypair::from_base64(&text).unwrap();
        assert_eq!(back.to_base64(), text);
        assert_eq!(back.to_seed().as_secret_slice(), &bytes[..32]);
        assert_eq!(back.public_key().as_bytes(), &bytes[32..]);
    }
}

#[test]
fn encodes_known_keypair() {
    let keypair = Ed25519Keypair::from_bytes(&RFC8032_KEYPAIR).unwrap();
    assert_eq!(keypair.to_base64(), RFC8032_BASE64);
}

#[test]
fn decodes_known_keypair() {
    let keypair = Ed25519Keypair::from_base64(RFC8032_BASE64).unwrap();
    assert_eq!(keypair.to_seed().as_secret_slice(), &RFC8032_KEYPAIR[..32]);
    assert_eq!(keypair.public_key().as_bytes(), &RFC8032_KEYPAIR[32..]);
}

#[test]
fn encoded_text_differs_from_the_bytes() {
    let keypair = Ed25519Keypair::from_bytes(&[0u8; 64]).unwrap();
    let text = keypair.to_base64();
    assert_eq!(text.len(), 88);
    assert_eq!(text, zero_text());
    assert_ne!(text.as_bytes(), &[0u8; 64][..]);
}

#[test]
fn decoded_bytes_differ_from_the_text() {
    let keypair = Ed25519Keypair::from_base64(&zero_text()).unwrap();
    assert_eq!(keypair.to_seed().as_secret_slice(), &[0u8; 32][..]);
    assert_eq!(keypair.public_key().as_bytes(), &[0u8; 32][..]);
}

#[test]
fn public_key_is_the_last_32_bytes() {
    let keypair = Ed25519Keypair::from_bytes(&RFC8032_KEYPAIR).unwrap();
    let first = keypair.public_key();
    let second = keypair.public_key();
    assert_eq!(first.as_bytes(), second.as_bytes());
    assert_eq!(first.as_bytes(), &RFC8032_KEYPAIR[32..]);
}

#[test]
fn public_key_of_bytes_that_encode_no_point() {
    // Every y from 0 to 63 is tried: about half of them belong to no point of the curve.
    for y in 0u8..64 {
        let mut bytes = counting_bytes();
        for b in bytes[32..].iter_mut() {
            *b = 0;
        }
        bytes[32] = y;
        let keypair = Ed25519Keypair::from_bytes(&bytes).unwrap();
        assert_eq!(keypair.public_key().as_bytes(), &bytes[32..]);
        assert_eq!(keypair.public_key().as_bytes(), keypair.public_key().as_bytes());
    }
}

#[test]
fn seed_is_the_first_32_bytes() {
    let bytes = counting_bytes();
    let keypair = Ed25519Keypair::from_bytes(&bytes).unwrap();
    assert_eq!(keypair.to_seed().as_secret_slice(), &bytes[..32]);
    let seed = Seed::from(&keypair);
    assert_eq!(seed.as_secret_slice(), &bytes[..32]);
}

#[test]
fn seed_can_be_made_and_erased() {
    let mut seed = Seed::new([7u8; 32]);
    assert_eq!(seed.as_secret_slice(), &[7u8; 32][..]);
    seed.zeroize();
    assert_eq!(seed.as_secret_slice(), &[0u8; 32][..]);
}

#[test]
fn from_bytes_rejects_other_lengths() {
    for len in [0usize, 1, 32, 63, 65, 128] {
        let bytes = vec![1u8; len];
        assert_eq!(Ed25519Keypair::from_bytes(&bytes).err(), Some(ErrorKind::InvalidKeyLength));
    }
    assert!(Ed25519Keypair::from_bytes(&[1u8; 64]).is_ok());
}

#[test]
fn text_that_is_not_base64_is_invalid_encoding() {
    let bad = [
        "!!!!",
        "not base64 at all",
        "=",
        "====",
        "AA=A",
        "AAAA====",
        "AAA=====",
        "A",
        "\u{e9}\u{e9}\u{e9}\u{e9}",
    ];
    for text in bad {
        assert_eq!(Ed25519Keypair::from_base64(text).err(), Some(ErrorKind::InvalidEncoding));
    }
}

#[test]
fn valid_text_with_one_bad_symbol_is_invalid_encoding() {
    let mut text = String::from(RFC8032_BASE64);
    text.replace_range(10..11, "*");
    assert_eq!(Ed25519Keypair::from_base64(&text).err(), Some(ErrorKind::InvalidEncoding));
}

#[test]
fn trailing_whitespace_is_invalid_encoding() {
    let text = format!("{}\n", RFC8032_BASE64);
    assert_eq!(Ed25519Keypair::from_base64(&text).err(), Some(ErrorKind::InvalidEncoding));
}

#[test]
fn text_of_another_length_is_invalid_key_length() {
    // 32 bytes, a test vector of the codec
    let short = "QME/vQVMciqjwvIRc8Bp6kl9NSlrzCRl9vnQQQh716k=";
    assert_eq!(Ed25519Keypair::from_base64(short).err(), Some(ErrorKind::InvalidKeyLength));
    assert_eq!(Ed25519Keypair::from_base64("").err(), Some(ErrorKind::InvalidKeyLength));
    assert_eq!(Ed25519Keypair::from_base64("AA==").err(), Some(ErrorKind::InvalidKeyLength));
    // 63 and 65 bytes
    let text63 = "A".repeat(84);
    assert_eq!(Ed25519Keypair::from_base64(&text63).err(), Some(ErrorKind::InvalidKeyLength));
    let text65 = format!("{}=", "A".repeat(87));
    assert_eq!(Ed25519Keypair::from_base64(&text65).err(), Some(ErrorKind::InvalidKeyLength));
    let text66 = "A".repeat(88);
    assert_eq!(Ed25519Keypair::from_base64(&text66).err(), Some(ErrorKind::InvalidKeyLength));
}

#[test]
fn zeroize_overwrites_the_keypair() {
    let mut keypair = Ed25519Keypair::from_bytes(&RFC8032_KEYPAIR).unwrap();
    keypair.zeroize();
    assert_eq!(keypair.to_base64(), zero_text());
    assert_eq!(keypair.to_seed().as_secret_slice(), &[0u8; 32][..]);
    assert_eq!(keypair.public_key().as_bytes(), &[0u8; 32][..]);
}

#[test]
fn private_key_is_read_from_its_tagged_form() {
    let key = PrivateKey::from_tagged("tendermint/PrivKeyEd25519", RFC8032_BASE64).unwrap();
    assert_eq!(key.public_key().as_bytes(), &RFC8032_KEYPAIR[32..]);
    assert_eq!(key.scheme(), "tendermint/PrivKeyEd25519");
    assert_eq!(key.scheme(), ED25519_SCHEME);
    assert_eq!(key.to_base64(), RFC8032_BASE64);
}

#[test]
fn private_key_round_trips_through_its_tagged_form() {
    let key = PrivateKey::Ed25519(Ed25519Keypair::from_bytes(&counting_bytes()).unwrap());
    let back = PrivateKey::from_tagged(key.scheme(), &key.to_base64()).unwrap();
    assert_eq!(back.to_base64(), key.to_base64());
    assert_eq!(back.public_key().as_bytes(), &counting_bytes()[32..]);
}

#[test]
fn other_tag_is_unknown_scheme() {
    for tag in ["tendermint/PrivKeySecp256k1", "", "tendermint/PrivKeyEd25519 ", "tendermint/privkeyed25519"] {
        assert_eq!(PrivateKey::from_tagged(tag, RFC8032_BASE64).err(), Some(ErrorKind::UnknownScheme));
    }
    // The tag is looked at first
    assert_eq!(PrivateKey::from_tagged("other", "!!!!").err(), Some(ErrorKind::UnknownScheme));
}

#[test]
fn known_tag_with_bad_payload() {
    assert_eq!(
        PrivateKey::from_tagged(ED25519_SCHEME, "!!!!").err(),
        Some(ErrorKind::InvalidEncoding)
    );
    assert_eq!(
        PrivateKey::from_tagged(ED25519_SCHEME, "AAAA").err(),
        Some(ErrorKind::InvalidKeyLength)
    );
}

#[test]
fn private_key_lends_its_keypair() {
    let key = PrivateKey::Ed25519(Ed25519Keypair::from_bytes(&RFC8032_KEYPAIR).unwrap());
    let keypair = key.ed25519_keypair().unwrap();
    assert_eq!(keypair.to_base64(), RFC8032_BASE64);
    let PrivateKey::Ed25519(inner) = &key;
    assert!(std::ptr::eq(keypair, inner));
}

#[test]
fn public_key_from_raw_bytes() {
    let key = PublicKey::from_raw_ed25519(&RFC8032_KEYPAIR[32..]).unwrap();
    assert_eq!(key.as_bytes(), &RFC8032_KEYPAIR[32..]);
    assert!(PublicKey::from_raw_ed25519(&RFC8032_KEYPAIR[..31]).is_none());
    assert!(PublicKey::from_raw_ed25519(&RFC8032_KEYPAIR).is_none());
    assert!(PublicKey::from_raw_ed25519(&[]).is_none());
}

#[test]
fn library_agrees_with_the_signing_crates() {
    let keypair = Ed25519Keypair::from_bytes(&RFC8032_KEYPAIR).unwrap();
    let dalek = ed25519_dalek::Keypair::from_bytes(&RFC8032_KEYPAIR).unwrap();
    assert_eq!(keypair.public_key().as_bytes(), &dalek.public.to_bytes()[..]);
    let seed = signatory::ed25519::Seed::from_keypair(&RFC8032_KEYPAIR).unwrap();
    assert_eq!(keypair.to_seed().as_secret_slice(), seed.as_secret_slice());
}
