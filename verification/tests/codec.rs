//! The request envelope against reference implementations: decrypting a
//! produced pair recovers the payload, and the wrapped key always spans 256
//! hex characters.

use base64::Engine;

use m163_core::codec::{
    enc_sec_key, hex_encode, random_session_key, rsa_no_padding, session_key, static_session_key,
    weapi_encode, weapi_iv, weapi_key1,
};
use m163_core::pkcs7_padded_len;

fn aes_decrypt(key: &[u8], iv: &[u8], data: &[u8]) -> Vec<u8> {
    let dec = <cbc::Decryptor<aes::Aes128> as aes::cipher::KeyIvInit>::new_from_slices(key, iv)
        .unwrap();
    <cbc::Decryptor<aes::Aes128> as aes::cipher::BlockModeDecrypt>::decrypt_padded_vec::<
        aes::cipher::block_padding::Pkcs7,
    >(dec, data)
    .unwrap()
}

const MODULUS: &str = "00e0b509f6259df8642dbc35662901477df22677ec152b5ff68ace615bb7b725152b3ab17a876aea8a5aa76d2e417629ec4ee341f56135fccf695280104e0312ecbda92557c93870114af6c9d05c4f7f0c3685b7a46bee255932575cce10b424d813cfe4875d3e82047b97ddef52741d546b8e289dc6935b3ece0462db0a22b8e7";

/// Decrypting a produced (params, encSecKey) pair with the reference steps
/// recovers the exact original payload bytes, including on exact block
/// boundaries.
#[test]
fn envelope_round_trip() {
    let payloads: Vec<&[u8]> = vec![
        b"{}",
        b"0123456789abcdef",                 // exactly one block
        b"0123456789abcdef0123456789abcdef", // exactly two blocks
        b"{\"s\":\"hello world\",\"type\":\"1\"}",
        "{\"s\":\"\u{6d4b}\u{8bd5}\"}".as_bytes(), // multi-byte text
    ];
    let key2 = static_session_key();
    let key1 = weapi_key1();
    let iv = weapi_iv();
    for payload in payloads {
        let enc = weapi_encode(payload, key2.as_slice());
        // Outer layer: base64, then AES under the session key.
        let c2 = base64::prelude::BASE64_STANDARD
            .decode(enc.params.as_bytes())
            .unwrap();
        let b1 = aes_decrypt(key2.as_slice(), iv.as_slice(), &c2);
        // Inner layer: base64 text, then AES under the fixed key.
        let c1 = base64::prelude::BASE64_STANDARD.decode(&b1).unwrap();
        let pt = aes_decrypt(key1.as_slice(), iv.as_slice(), &c1);
        assert_eq!(pt.as_slice(), payload);
    }
}

/// The encSecKey field equals the textbook RSA of the reversed session key
/// under the fixed public key, recomputed independently.
#[test]
fn enc_sec_key_matches_reference() {
    let key2 = static_session_key();
    let enc = enc_sec_key(key2.as_slice());

    let mut rev = key2.clone();
    rev.reverse();
    let m = num_bigint::BigUint::from_bytes_be(&rev);
    let e = num_bigint::BigUint::from(0x10001u32);
    let n = <num_bigint::BigUint as num_traits::Num>::from_str_radix(MODULUS, 16).unwrap();
    let mut expected = format!("{:x}", m.modpow(&e, &n));
    while expected.len() < 256 {
        expected = format!("0{}", expected);
    }
    assert_eq!(enc, expected);
}

/// The hex length of the wrapped key is always 2*ceil(bits(n)/8), whatever
/// leading zero bytes the power happens to have.
#[test]
fn enc_sec_key_length_invariant() {
    for _ in 0..20 {
        let key2 = random_session_key();
        let enc = enc_sec_key(key2.as_slice());
        assert_eq!(enc.len(), 256);
    }
    // Every character of the wrapped key is a lowercase hex digit.
    let key2 = static_session_key();
    let enc = enc_sec_key(key2.as_slice());
    assert!(enc.chars().all(|c| c.is_ascii_digit() || ('a'..='f').contains(&c)));
    // A tiny modulus, arranged so the power needs left zero padding:
    // n = 0x11 = 17 has 5 bits, so ceil(5/8) = 1 byte, 2 hex digits;
    // 1^3 mod 17 = 1 renders as "1" and is padded to "01".
    let r = rsa_no_padding(&[1u8], "03", "11");
    assert_eq!(r, "01");
    // n = 0x0100 = 256 has 9 bits: 2 bytes, 4 hex digits.
    let r = rsa_no_padding(&[2u8], "02", "0100");
    assert_eq!(r, "0004");
}

/// A fresh session key differs between draws (16 random bytes), while the
/// compatibility key is the fixed observed one.
#[test]
fn session_key_modes() {
    let fixed = session_key(true);
    assert_eq!(fixed, vec![0x42u8; 16]);
    let a = session_key(false);
    let b = session_key(false);
    assert_eq!(a.len(), 16);
    assert_eq!(b.len(), 16);
    // Two 16-byte random draws colliding is astronomically unlikely.
    assert_ne!(a, b);
}

#[test]
fn hex_encoding() {
    assert_eq!(hex_encode(&[]), "");
    assert_eq!(hex_encode(&[0xde, 0xad, 0xbe, 0xef]), "deadbeef");
    assert_eq!(hex_encode(&[0x00, 0x01, 0x10]), "000110");
}

#[test]
fn pkcs7_lengths() {
    assert_eq!(pkcs7_padded_len(0, 16), 16);
    assert_eq!(pkcs7_padded_len(15, 16), 16);
    assert_eq!(pkcs7_padded_len(16, 16), 32);
    assert_eq!(pkcs7_padded_len(17, 16), 32);
}

/// The params field matches the reference pipeline run directly on the
/// outside crates.
#[test]
fn params_match_reference_pipeline() {
    let payload = b"{\"offset\":0,\"total\":true}";
    let key2 = static_session_key();
    let key1 = weapi_key1();
    let iv = weapi_iv();

    let enc1 = <cbc::Encryptor<aes::Aes128> as aes::cipher::KeyIvInit>::new_from_slices(
        key1.as_slice(),
        iv.as_slice(),
    )
    .unwrap();
    let c1 = <cbc::Encryptor<aes::Aes128> as aes::cipher::BlockModeEncrypt>::encrypt_padded_vec::<
        aes::cipher::block_padding::Pkcs7,
    >(enc1, payload);
    let b1 = base64::prelude::BASE64_STANDARD.encode(&c1);
    let enc2 = <cbc::Encryptor<aes::Aes128> as aes::cipher::KeyIvInit>::new_from_slices(
        key2.as_slice(),
        iv.as_slice(),
    )
    .unwrap();
    let c2 = <cbc::Encryptor<aes::Aes128> as aes::cipher::BlockModeEncrypt>::encrypt_padded_vec::<
        aes::cipher::block_padding::Pkcs7,
    >(enc2, b1.as_bytes());
    let expected = base64::prelude::BASE64_STANDARD.encode(&c2);

    let enc = weapi_encode(payload, key2.as_slice());
    assert_eq!(enc.params, expected);
}
