//! Laws that relate encryption and decryption.
use super::bignum::{
    be_digits, bit_len, lemma_be_digits_value, lemma_be_value_bound, lemma_bit_len_bound,
    lemma_digits_of_value,
};
use vstd::arithmetic::power2::{lemma_pow2_adds, lemma_pow2_strictly_increases, pow2};
use super::codec::{hex_of, lemma_hex_round_trip, unhex};
use super::error::RSAError;
use super::key::{message_value, RSAPrivateKey, RSAPublicKey};
use vstd::arithmetic::power::pow;
use vstd::prelude::*;
use vstd::utf8::{encode_utf8, encode_utf8_decode_utf8, encode_utf8_valid_utf8};

verus! {

/// The default decoder undoes the default encoder on the ciphertext of a
/// number, and the decrypted text is read from the digits of
/// `c^d mod n` where `c` is that ciphertext.
proof fn lemma_decode_cipher(key: RSAPrivateKey, m: nat)
    requires
        key.public().n() > 0,
    ensures
        ({
            let c = (pow(m as int, key.public().e()) % (key.public().n() as int)) as nat;
            let digits = key.public().cipher_digits(m);
            &&& unhex(hex_of(digits)) == digits
            &&& super::codec::is_hex_text(hex_of(digits))
            &&& key.plain_text(digits) == super::codec::lossy_text(
                be_digits((pow(c as int, key.d()) % (key.public().n() as int)) as nat),
            )
        }),
{
    let c = (pow(m as int, key.public().e()) % (key.public().n() as int)) as nat;
    lemma_hex_round_trip(be_digits(c));
    lemma_be_digits_value(c);
}

/// Decrypting the default ciphertext of a text gives the text back, where
/// the text's number is below the modulus, its UTF-8 bytes are not empty
/// and do not start with a zero byte, and `(m^e mod n)^d mod n == m` holds
/// of that number `m`. That identity is taken here as given: it rests on
/// the primality of the key's factors, which is not proved.
pub proof fn lemma_round_trip_given_exponent_identity<F: Fn(Vec<u8>) -> String, G: Fn(String) -> Result<Vec<u8>, E>, E>(
    key: RSAPrivateKey,
    plaintext: Seq<char>,
    ciphertext: String,
    r: Result<String, RSAError>,
) where RSAError: From<E>
    requires
        key.public().n() > 0,
        key.public().encrypt_ensures(plaintext, None::<F>, Ok(ciphertext)),
        key.decrypt_ensures(ciphertext, None::<G>, r),
        encode_utf8(plaintext).len() > 0,
        encode_utf8(plaintext)[0] != 0,
        message_value(plaintext) < key.public().n(),
        ({
            let m = message_value(plaintext) as int;
            let n = key.public().n() as int;
            pow(pow(m, key.public().e()) % n, key.d()) % n == m
        }),
    ensures
        r is Ok,
        r->Ok_0@ == plaintext,
{
    let m = message_value(plaintext);
    lemma_decode_cipher(key, m);
    lemma_digits_of_value(encode_utf8(plaintext));
    encode_utf8_valid_utf8(plaintext);
    encode_utf8_decode_utf8(plaintext);
}

/// A text of at most `(2 * bits - 2) / 8` UTF-8 bytes fits under the
/// product of two numbers of `bits` bits each, so encryption under a key
/// made of such primes accepts it.
pub proof fn lemma_short_text_fits(p: nat, q: nat, bits: nat, plaintext: Seq<char>)
    requires
        bits >= 1,
        bit_len(p) == bits,
        bit_len(q) == bits,
        8 * encode_utf8(plaintext).len() <= 2 * bits - 2,
    ensures
        message_value(plaintext) < p * q,
        bit_len(message_value(plaintext)) <= bit_len(p * q),
{
    let m = message_value(plaintext);
    let len8 = 8 * encode_utf8(plaintext).len();
    let h = (bits - 1) as nat;
    lemma_be_value_bound(encode_utf8(plaintext));
    if len8 < 2 * bits - 2 {
        lemma_pow2_strictly_increases(len8, h + h);
    }
    lemma_bit_len_bound(p, h);
    lemma_bit_len_bound(q, h);
    lemma_pow2_adds(h, h);
    let a = pow2(h);
    assert(p * q >= a * a) by (nonlinear_arith)
        requires
            p >= a,
            q >= a,
    ;
    let k = bit_len(p * q);
    lemma_bit_len_bound(p * q, k);
    lemma_bit_len_bound(m, k);
}

/// Encryption is a function of the text: two encryptions of one text under
/// one key succeed or fail together, and give the same ciphertext or the
/// same error.
pub proof fn lemma_encrypt_deterministic<F: Fn(Vec<u8>) -> String>(
    key: RSAPublicKey,
    plaintext: Seq<char>,
    r1: Result<String, RSAError>,
    r2: Result<String, RSAError>,
)
    requires
        key.encrypt_ensures(plaintext, None::<F>, r1),
        key.encrypt_ensures(plaintext, None::<F>, r2),
    ensures
        r1 is Ok <==> r2 is Ok,
        r1 is Ok ==> r1->Ok_0@ == r2->Ok_0@,
        r1 is Err ==> r1->Err_0 is MessageSizeLimitExceeded && r2->Err_0 is MessageSizeLimitExceeded
            && r1->Err_0.spec_message() == r2->Err_0.spec_message(),
{
}

/// An encoder and decoder that compute hexadecimal as the defaults do give
/// the same ciphertext and, where the decoder succeeds, the same decrypted
/// text as the defaults.
pub proof fn lemma_custom_codec<F: Fn(Vec<u8>) -> String, G: Fn(String) -> Result<Vec<u8>, E>, E>(
    key: RSAPrivateKey,
    plaintext: Seq<char>,
    encoding_func: F,
    decoding_func: G,
    custom_ciphertext: String,
    default_ciphertext: String,
    custom_result: Result<String, RSAError>,
    default_result: Result<String, RSAError>,
) where RSAError: From<E>
    requires
        key.public().n() > 0,
        forall|b: Vec<u8>, s: String| #[trigger] encoding_func.ensures((b,), s) ==> s@ == hex_of(
            b@,
        ),
        forall|s: String, res: Result<Vec<u8>, E>| #[trigger]
            decoding_func.ensures((s,), res) ==> (res is Ok ==> res->Ok_0@ == unhex(s@)),
        key.public().encrypt_ensures(plaintext, Some(encoding_func), Ok(custom_ciphertext)),
        key.public().encrypt_ensures(plaintext, None::<F>, Ok(default_ciphertext)),
        key.decrypt_ensures(custom_ciphertext, Some(decoding_func), custom_result),
        key.decrypt_ensures(default_ciphertext, None::<G>, default_result),
        custom_result is Ok,
    ensures
        custom_ciphertext@ == default_ciphertext@,
        default_result is Ok,
        custom_result->Ok_0@ == default_result->Ok_0@,
{
    let m = message_value(plaintext);
    lemma_decode_cipher(key, m);
    let b = choose|b: Vec<u8>|
        b@ == key.public().cipher_digits(m) && #[trigger] encoding_func.ensures(
            (b,),
            custom_ciphertext,
        );
    assert(custom_ciphertext@ == hex_of(b@));
    let d = choose|d: Vec<u8>| #[trigger]
        decoding_func.ensures((custom_ciphertext,), Ok(d)) && custom_result->Ok_0@ == key.plain_text(
            d@,
        );
    assert(d@ == unhex(custom_ciphertext@));
}

} // verus!
