//! RSA keys: generation, encryption and decryption.
use super::bignum::{be_digits, be_value, bit_len, Integer, Natural};
use super::codec::{
    hex_decode, hex_encode, hex_error_text, hex_of, is_hex_text, lossy_text, text_from_utf8_lossy, unhex,
};
use super::domain::RSAType;
use super::error::RSAError;
use super::text::{
    conversion_failure_message, hex_failure_message, hex_failure_text, prime_failure_message,
    size_limit_message, size_limit_text,
};
use super::util::{coprime, is_inverse, modular_inverse};
use vstd::arithmetic::div_mod::lemma_small_mod;
use vstd::arithmetic::power::pow;
use vstd::prelude::*;
use vstd::utf8::encode_utf8;

verus! {

/// The public exponent of every key.
pub const PUBLIC_EXPONENT: u64 = 65537;

/// The number that a text stands for: its UTF-8 bytes, big-endian.
pub open spec fn message_value(text: Seq<char>) -> nat {
    be_value(encode_utf8(text))
}

/// Relies on `glass_pumpkin::prime::from_rng` with the system's random
/// source: it refuses fewer than 128 bits, and otherwise returns an odd
/// number of exactly `bits` bits (a probable prime).
#[verifier::external_body]
fn random_prime(bits: usize) -> (r: Result<Natural, String>)
    ensures
        r is Ok <==> bits >= 128,
        r is Ok ==> bit_len(r->Ok_0@) == bits && r->Ok_0@ % 2 == 1,
{
    match glass_pumpkin::prime::from_rng(bits, &mut rand::rngs::OsRng) {
        Ok(p) => Ok(Natural { digits: p.to_bytes_be() }),
        Err(e) => Err(e.to_string()),
    }
}


proof fn lemma_bit_len_two(v: nat)
    requires
        bit_len(v) >= 2,
    ensures
        v >= 2,
{
    assert(v != 0);
    assert(bit_len(v / 2) >= 1);
    assert(v / 2 != 0);
}

/// The modulus and the public exponent.
#[derive(Debug)]
pub struct RSAPublicKey {
    modulus: Natural,
    public_exponent: Natural,
}

impl Clone for RSAPublicKey {
    fn clone(&self) -> (r: RSAPublicKey)
        ensures
            r.n() == self.n(),
            r.e() == self.e(),
    {
        proof {
            use_type_invariant(self);
        }
        RSAPublicKey { modulus: self.modulus.clone(), public_exponent: self.public_exponent.clone() }
    }
}

impl RSAPublicKey {
    /// The modulus.
    pub closed spec fn n(&self) -> nat {
        self.modulus@
    }

    /// The public exponent.
    pub closed spec fn e(&self) -> nat {
        self.public_exponent@
    }

    #[verifier::type_invariant]
    closed spec fn inv(&self) -> bool {
        self.modulus@ > 1
    }

    /// The digits of the ciphertext of the number `m`.
    pub open spec fn cipher_digits(&self, m: nat) -> Seq<u8> {
        be_digits((pow(m as int, self.e()) % (self.n() as int)) as nat)
    }

    /// What `encrypt` returns for `plaintext` with the optional encoder.
    pub open spec fn encrypt_ensures<F: Fn(Vec<u8>) -> String>(
        &self,
        plaintext: Seq<char>,
        encoding_func: Option<F>,
        r: Result<String, RSAError>,
    ) -> bool {
        let m = message_value(plaintext);
        &&& r is Err <==> bit_len(m) > bit_len(self.n())
        &&& r is Err ==> r->Err_0 is MessageSizeLimitExceeded && r->Err_0.spec_message()
            == size_limit_text(bit_len(m), bit_len(self.n()))
        &&& r is Ok ==> match encoding_func {
            None => r->Ok_0@ == hex_of(self.cipher_digits(m)),
            Some(f) => exists|b: Vec<u8>|
                b@ == self.cipher_digits(m) && #[trigger] f.ensures((b,), r->Ok_0),
        }
    }

    fn new(modulus: Natural, public_exponent: Natural) -> (r: RSAPublicKey)
        requires
            modulus@ > 1,
        ensures
            r.n() == modulus@,
            r.e() == public_exponent@,
    {
        RSAPublicKey { modulus, public_exponent }
    }

    /// Encrypts the UTF-8 bytes of `plaintext`, read as one big-endian
    /// number, and writes the ciphertext's bytes as text: in hexadecimal,
    /// or by `encoding_func` where one is given. A number with more bits
    /// than the modulus is refused.
    pub fn encrypt<F: Fn(Vec<u8>) -> String>(&self, plaintext: &str, encoding_func: Option<F>) -> (r:
        Result<String, RSAError>)
        requires
            encoding_func matches Some(f) ==> forall|b: Vec<u8>| #[trigger] f.requires((b,)),
        ensures
            self.encrypt_ensures(plaintext@, encoding_func, r),
    {
        proof {
            use_type_invariant(self);
        }
        let plaintext_number = Natural::from_be_bytes(plaintext.as_bytes());
        let message_bits = plaintext_number.bits();
        let modulus_bits = self.modulus.bits();
        if message_bits > modulus_bits {
            return Err(
                RSAError::MessageSizeLimitExceeded(size_limit_message(message_bits, modulus_bits)),
            );
        }
        let ciphertext_number = plaintext_number.modpow(&self.public_exponent, &self.modulus);
        let ciphertext_bytes = ciphertext_number.to_be_bytes();
        let ghost bytes_before = ciphertext_bytes;
        let ghost func = encoding_func;
        let ciphertext = match encoding_func {
            Some(encode_func) => {
                let c = encode_func(ciphertext_bytes);
                let ghost rr: Result<String, RSAError> = Ok(c);
                assert(func->0.ensures((bytes_before,), rr->Ok_0));
                c
            },
            None => hex_encode(&ciphertext_bytes),
        };
        Ok(ciphertext)
    }
}

/// A public key with its private exponent.
pub struct RSAPrivateKey {
    public_key: RSAPublicKey,
    private_exponent: Natural,
    primes: Ghost<(nat, nat)>,
}

impl Clone for RSAPrivateKey {
    fn clone(&self) -> (r: RSAPrivateKey)
        ensures
            r.public().n() == self.public().n(),
            r.public().e() == self.public().e(),
            r.d() == self.d(),
            r.first_prime() == self.first_prime(),
            r.second_prime() == self.second_prime(),
    {
        proof {
            use_type_invariant(self);
        }
        RSAPrivateKey {
            public_key: self.public_key.clone(),
            private_exponent: self.private_exponent.clone(),
            primes: self.primes,
        }
    }
}

/// `d` undoes the public exponent `e` modulo `t`.
pub open spec fn key_relation(e: nat, d: nat, t: nat) -> bool {
    ((e * d) as int) % (t as int) == 1int % (t as int)
}

impl RSAPrivateKey {
    /// The public half.
    pub closed spec fn public(&self) -> RSAPublicKey {
        self.public_key
    }

    /// The private exponent.
    pub closed spec fn d(&self) -> nat {
        self.private_exponent@
    }

    /// The primes the key was made from.
    pub closed spec fn first_prime(&self) -> nat {
        self.primes@.0
    }

    pub closed spec fn second_prime(&self) -> nat {
        self.primes@.1
    }

    /// Euler's totient of the modulus, `(p - 1)(q - 1)`.
    pub open spec fn totient(&self) -> nat {
        ((self.first_prime() - 1) * (self.second_prime() - 1)) as nat
    }

    #[verifier::type_invariant]
    closed spec fn inv(&self) -> bool {
        &&& self.primes@.0 >= 2
        &&& self.primes@.1 >= 2
        &&& self.public_key.modulus@ == self.primes@.0 * self.primes@.1
        &&& self.public_key.public_exponent@ == PUBLIC_EXPONENT
        &&& key_relation(PUBLIC_EXPONENT as nat, self.private_exponent@, self.totient())
    }

    /// The text that decryption recovers from the ciphertext bytes `c`.
    pub open spec fn plain_text(&self, c: Seq<u8>) -> Seq<char> {
        lossy_text(
            be_digits((pow(be_value(c) as int, self.d()) % (self.public().n() as int)) as nat),
        )
    }

    /// What `decrypt` returns for `ciphertext` with the optional decoder.
    pub open spec fn decrypt_ensures<F: Fn(String) -> Result<Vec<u8>, E>, E>(
        &self,
        ciphertext: String,
        decoding_func: Option<F>,
        r: Result<String, RSAError>,
    ) -> bool where RSAError: From<E> {
        match decoding_func {
            None => {
                &&& r is Ok <==> is_hex_text(ciphertext@)
                &&& r is Ok ==> r->Ok_0@ == self.plain_text(unhex(ciphertext@))
                &&& r is Err ==> r->Err_0 is ConvertCipherToHexFailed && r->Err_0.spec_message()
                    == hex_failure_text(hex_error_text(ciphertext@))
            },
            Some(f) => {
                &&& r is Ok ==> exists|b: Vec<u8>|
                    #[trigger] f.ensures((ciphertext,), Ok(b)) && r->Ok_0@ == self.plain_text(b@)
                &&& r is Err ==> exists|e: E|
                    #[trigger] f.ensures((ciphertext,), Err(e)) && call_ensures(
                        RSAError::from,
                        (e,),
                        r->Err_0,
                    )
            },
        }
    }

    /// Builds the key of two primes: modulus `p * q`, public exponent
    /// 65537, and its inverse modulo `(p - 1)(q - 1)` as private exponent.
    /// Fails where the public exponent has no such inverse.
    pub fn from_primes(first_prime: &Natural, second_prime: &Natural) -> (r: Result<
        RSAPrivateKey,
        RSAError,
    >)
        requires
            first_prime@ >= 2,
            second_prime@ >= 2,
        ensures
            r is Ok <==> coprime(
                PUBLIC_EXPONENT as int,
                ((first_prime@ - 1) * (second_prime@ - 1)) as int,
            ),
            r is Err ==> r->Err_0 is PublicExponentNotInvertible,
            r is Ok ==> {
                let k = r->Ok_0;
                let t = ((first_prime@ - 1) * (second_prime@ - 1)) as nat;
                &&& k.first_prime() == first_prime@
                &&& k.second_prime() == second_prime@
                &&& k.public().n() == first_prime@ * second_prime@
                &&& k.public().e() == PUBLIC_EXPONENT
                &&& t > 1 ==> is_inverse(PUBLIC_EXPONENT as int, t as int, k.d() as int)
                &&& t == 1 ==> k.d() == 1
                &&& key_relation(k.public().e(), k.d(), k.totient())
            },
    {
        let modulus = first_prime.mul(second_prime);
        let one = Natural::from_u64(1);
        let totient = first_prime.sub(&one).mul(&second_prime.sub(&one));
        let public_exponent = Natural::from_u64(PUBLIC_EXPONENT);
        let e = Integer::from_natural(&public_exponent);
        let t = Integer::from_natural(&totient);
        proof {
            assert(totient@ >= 1) by (nonlinear_arith)
                requires
                    totient@ == (first_prime@ - 1) * (second_prime@ - 1),
                    first_prime@ >= 2,
                    second_prime@ >= 2,
            ;
            assert(modulus@ > 1) by (nonlinear_arith)
                requires
                    modulus@ == first_prime@ * second_prime@,
                    first_prime@ >= 2,
                    second_prime@ >= 2,
            ;
        }
        let divisor = Integer::from_natural(&public_exponent.gcd(&totient));
        let one_int = Integer::one();
        if !matches!(divisor.compare(&one_int), std::cmp::Ordering::Equal) {
            return Err(
                RSAError::PublicExponentNotInvertible(
                    "the public exponent has no inverse modulo the totient".to_string(),
                ),
            );
        }
        let priv_exp = modular_inverse(&e, &t);
        let private_exponent = match Natural::try_from_integer(&priv_exp) {
            Ok(d) => d,
            Err(message) => {
                return Err(RSAError::ConvertBigUIntToBigIntFailed(conversion_failure_message(message.as_str())));
            },
        };
        proof {
            let tt = totient@ as int;
            let ed = (PUBLIC_EXPONENT as nat * private_exponent@) as int;
            if tt == 1 {
                assert(ed % 1 == 0);
                assert(1int % 1 == 0);
            } else {
                lemma_small_mod(1, tt as nat);
            }
            assert(key_relation(PUBLIC_EXPONENT as nat, private_exponent@, totient@));
        }
        Ok(
            RSAPrivateKey {
                public_key: RSAPublicKey::new(modulus, public_exponent),
                private_exponent,
                primes: Ghost((first_prime@, second_prime@)),
            },
        )
    }

    /// Generates a key of the given size from two fresh random primes.
    pub fn new(rsa_type: RSAType) -> (r: Result<RSAPrivateKey, RSAError>)
        ensures
            r is Err ==> r->Err_0 is PublicExponentNotInvertible,
            r is Ok ==> {
                let k = r->Ok_0;
                &&& bit_len(k.first_prime()) == rsa_type.spec_prime_bits()
                &&& bit_len(k.second_prime()) == rsa_type.spec_prime_bits()
                &&& k.public().n() == k.first_prime() * k.second_prime()
                &&& k.public().e() == PUBLIC_EXPONENT
                &&& key_relation(k.public().e(), k.d(), k.totient())
            },
    {
        let bits = rsa_type.prime_bits();
        let first_prime = match random_prime(bits) {
            Ok(p) => p,
            Err(message) => {
                return Err(RSAError::PrimeNumberGenerationFailed(prime_failure_message(message.as_str())));
            },
        };
        let second_prime = match random_prime(bits) {
            Ok(p) => p,
            Err(message) => {
                return Err(RSAError::PrimeNumberGenerationFailed(prime_failure_message(message.as_str())));
            },
        };
        proof {
            lemma_bit_len_two(first_prime@);
            lemma_bit_len_two(second_prime@);
        }
        let r = RSAPrivateKey::from_primes(&first_prime, &second_prime);
        r
    }

    /// The public half of the key.
    pub fn to_public_key(&self) -> (r: RSAPublicKey)
        ensures
            r.n() == self.public().n(),
            r.e() == self.public().e(),
    {
        self.public_key.clone()
    }

    /// The public half of the key.
    pub fn public_key(&self) -> (r: RSAPublicKey)
        ensures
            r.n() == self.public().n(),
            r.e() == self.public().e(),
    {
        self.public_key.clone()
    }

    /// Decodes `ciphertext` into bytes (hexadecimal, or by `decoding_func`
    /// where one is given), decrypts their big-endian number, and reads the
    /// result's bytes as UTF-8, replacing what is not valid.
    pub fn decrypt<F, E>(&self, ciphertext: String, decoding_func: Option<F>) -> (r: Result<
        String,
        RSAError,
    >) where F: Fn(String) -> Result<Vec<u8>, E>, RSAError: From<E>
        requires
            decoding_func matches Some(f) ==> f.requires((ciphertext,)),
        ensures
            self.decrypt_ensures(ciphertext, decoding_func, r),
    {
        proof {
            use_type_invariant(self);
            use_type_invariant(&self.public_key);
        }
        let ciphertext_bytes = match decoding_func {
            Some(decode_func) => match decode_func(ciphertext) {
                Ok(b) => b,
                Err(e) => {
                    return Err(RSAError::from(e));
                },
            },
            None => match hex_decode(&ciphertext) {
                Ok(b) => b,
                Err(detail) => {
                    return Err(RSAError::ConvertCipherToHexFailed(hex_failure_message(detail.as_str())));
                },
            },
        };
        let ciphertext_number = Natural::from_be_bytes(ciphertext_bytes.as_slice());
        let plaintext_number = ciphertext_number.modpow(
            &self.private_exponent,
            &self.public_key.modulus,
        );
        let plaintext_bytes = plaintext_number.to_be_bytes();
        let plaintext = text_from_utf8_lossy(&plaintext_bytes);
        Ok(plaintext)
    }
}

} // verus!
