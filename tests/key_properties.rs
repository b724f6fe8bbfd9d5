use crypto_protocols::rsa::text::decimal;
use crypto_protocols::rsa::bignum::{Integer, Natural};
use crypto_protocols::rsa::domain::RSAType;
use crypto_protocols::rsa::error::RSAError;
use crypto_protocols::rsa::key::{RSAPrivateKey, PUBLIC_EXPONENT};
use crypto_protocols::rsa::util::modular_inverse;

const NO_ENCODER: Option<fn(Vec<u8>) -> String> = None;
const NO_DECODER: Option<fn(String) -> Result<Vec<u8>, RSAError>> = None;

fn small_key() -> RSAPrivateKey {
    RSAPrivateKey::from_primes(&Natural::from_u64(61), &Natural::from_u64(53)).unwrap()
}

fn signed(v: u64) -> Integer {
    Integer::from_natural(&Natural::from_u64(v))
}

fn int_value(x: &Integer) -> i64 {
    let mut v: i64 = if !x.bytes.is_empty() && x.bytes[0] >= 128 { -1 } else { 0 };
    for b in &x.bytes {
        v = (v << 8) | (*b as i64);
    }
    v
}

#[test]
fn modular_inverse_small_values() {
    assert_eq!(int_value(&modular_inverse(&signed(3), &signed(11))), 4);
    assert_eq!(int_value(&modular_inverse(&signed(17), &signed(3120))), 2753);
    assert_eq!(int_value(&modular_inverse(&signed(10), &signed(17))), 12);
}

#[test]
fn modular_inverse_of_public_exponent() {
    let d = int_value(&modular_inverse(&signed(PUBLIC_EXPONENT), &signed(3120)));
    assert_eq!(d, 2753);
    assert_eq!((d * PUBLIC_EXPONENT as i64) % 3120, 1);
}

#[test]
fn modular_inverse_edge_cases() {
    assert_eq!(int_value(&modular_inverse(&signed(5), &signed(1))), 1);
    assert_eq!(int_value(&modular_inverse(&signed(1), &signed(9))), 1);
    let minus_two = signed(0).sub(&signed(2));
    assert_eq!(int_value(&modular_inverse(&minus_two, &signed(9))), 4);
}

#[test]
fn small_key_encrypts_known_value() {
    let key = small_key();
    let ciphertext = key.to_public_key().encrypt("A", NO_ENCODER).unwrap();
    assert_eq!(ciphertext, "0ae6");
    let text = key.decrypt(ciphertext, NO_DECODER).unwrap();
    assert_eq!(text, "A");
}

#[test]
fn small_key_decrypts_upper_case_hex() {
    let key = small_key();
    assert_eq!(key.decrypt("0AE6".to_string(), NO_DECODER).unwrap(), "A");
}

#[test]
fn small_key_refuses_wide_message() {
    let key = small_key();
    let r = key.public_key().encrypt("AB", NO_ENCODER);
    match r {
        Err(RSAError::MessageSizeLimitExceeded(m)) => {
            assert_eq!(m, "Message bit size: 15 exceeds modulus bit size: 12");
        }
        _ => panic!("expected a size error"),
    }
}

#[test]
fn non_invertible_exponent_is_refused() {
    let r = RSAPrivateKey::from_primes(&Natural::from_u64(65538), &Natural::from_u64(2));
    assert!(matches!(r, Err(RSAError::PublicExponentNotInvertible(_))));
}

#[test]
fn bad_hex_is_refused() {
    let key = small_key();
    assert!(matches!(
        key.decrypt("zz".to_string(), NO_DECODER),
        Err(RSAError::ConvertCipherToHexFailed(_))
    ));
    assert!(matches!(
        key.decrypt("abc".to_string(), NO_DECODER),
        Err(RSAError::ConvertCipherToHexFailed(_))
    ));
}

#[test]
fn custom_decoder_error_is_passed_on() {
    let key = small_key();
    let decoder: Option<fn(String) -> Result<Vec<u8>, hex::FromHexError>> = Some(hex::decode);
    let r = key.decrypt("xy".to_string(), decoder);
    assert!(matches!(r, Err(RSAError::ConvertCipherToHexFailed(_))));
}

#[test]
fn encryption_is_deterministic() {
    let key = RSAPrivateKey::new(RSAType::RSA2048).unwrap();
    let public_key = key.public_key();
    let a = public_key.encrypt("same text", NO_ENCODER).unwrap();
    let b = public_key.encrypt("same text", NO_ENCODER).unwrap();
    assert_eq!(a, b);
    assert_ne!(a, "same text");
}

#[test]
fn custom_codec_matches_default() {
    let key = RSAPrivateKey::new(RSAType::RSA2048).unwrap();
    let public_key = key.to_public_key();
    let encoder: Option<fn(Vec<u8>) -> String> = Some(hex::encode);
    let custom = public_key.encrypt("codec", encoder).unwrap();
    let default = public_key.encrypt("codec", NO_ENCODER).unwrap();
    assert_eq!(custom, default);
    let decoder: Option<fn(String) -> Result<Vec<u8>, hex::FromHexError>> = Some(hex::decode);
    assert_eq!(key.decrypt(custom, decoder).unwrap(), "codec");
    assert_eq!(key.decrypt(default, NO_DECODER).unwrap(), "codec");
}

#[test]
fn capacity_boundary() {
    let key = RSAPrivateKey::new(RSAType::RSA2048).unwrap();
    let public_key = key.to_public_key();
    let under = "a".repeat(255);
    let ciphertext = public_key.encrypt(&under, NO_ENCODER).unwrap();
    assert_eq!(key.decrypt(ciphertext, NO_DECODER).unwrap(), under);
    let over = "a".repeat(257);
    assert!(matches!(
        public_key.encrypt(&over, NO_ENCODER),
        Err(RSAError::MessageSizeLimitExceeded(_))
    ));
}

#[test]
fn ciphertext_is_hex_of_modulus_size() {
    let key = RSAPrivateKey::new(RSAType::RSA2048).unwrap();
    let c = key.to_public_key().encrypt("x", NO_ENCODER).unwrap();
    assert!(c.len() % 2 == 0 && c.len() <= 512);
    assert!(c.chars().all(|ch| ch.is_ascii_hexdigit() && !ch.is_ascii_uppercase()));
}

#[test]
fn prime_sizes_of_presets() {
    assert_eq!(RSAType::RSA2048.prime_bits(), 1024);
    assert_eq!(RSAType::RSA4096.prime_bits(), 2048);
}

#[test]
fn natural_arithmetic() {
    let a = Natural::from_u64(300);
    let b = Natural::from_u64(7);
    assert_eq!(a.mul(&b).to_be_bytes(), vec![0x08, 0x34]);
    assert_eq!(a.sub(&b).to_be_bytes(), vec![0x01, 0x25]);
    assert_eq!(a.bits(), 9);
    assert_eq!(Natural::from_u64(0).bits(), 0);
    assert_eq!(a.gcd(&Natural::from_u64(18)).to_be_bytes(), vec![6]);
    assert_eq!(b.modpow(&Natural::from_u64(2), &Natural::from_u64(10)).to_be_bytes(), vec![9]);
    assert_eq!(Natural::from_be_bytes(&[1, 0]).bits(), 9);
}

#[test]
fn integer_arithmetic() {
    let a = signed(7);
    let b = signed(0).sub(&signed(3));
    assert_eq!(int_value(&a.mul(&b)), -21);
    assert_eq!(int_value(&a.add(&b)), 4);
    let (q, r) = b.sub(&a).div_rem(&signed(4));
    assert_eq!(int_value(&q), -2);
    assert_eq!(int_value(&r), -2);
    assert!(Natural::try_from_integer(&b).is_err());
    assert_eq!(Natural::try_from_integer(&a).unwrap().to_be_bytes(), vec![7]);
}

#[test]
fn error_message_is_kept() {
    let e = RSAError::ConvertCipherToHexFailed("bad".to_string());
    assert_eq!(e.message(), "bad");
}

#[test]
fn decode_error_messages() {
    let key = small_key();
    let odd = key.decrypt("abc".to_string(), NO_DECODER).unwrap_err();
    assert_eq!(
        odd.message(),
        "Failed to convert to ciphertext from hex for decoding: Odd number of digits"
    );
    let decoder: Option<fn(String) -> Result<Vec<u8>, hex::FromHexError>> = Some(hex::decode);
    let bad = key.decrypt("0g".to_string(), decoder).unwrap_err();
    assert_eq!(
        bad.message(),
        "Failed to convert to ciphertext from hex for decoding: Invalid character 'g' at position 1"
    );
}

#[test]
fn decimal_rendering() {
    assert_eq!(decimal(0), "0");
    assert_eq!(decimal(7), "7");
    assert_eq!(decimal(2048), "2048");
    assert_eq!(decimal(u64::MAX), "18446744073709551615");
}
