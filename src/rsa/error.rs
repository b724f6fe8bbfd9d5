//! Failures of key generation, encryption and decryption.
use super::codec::hex_error_message;
use super::text::{hex_failure_message, hex_failure_text};
use vstd::prelude::*;

verus! {

/// What went wrong; each kind carries a message.
#[derive(Clone, Debug)]
pub enum RSAError {
    PrimeNumberGenerationFailed(String),
    ConvertBigUIntToBigIntFailed(String),
    ConvertCipherToHexFailed(String),
    MessageSizeLimitExceeded(String),
    PublicExponentNotInvertible(String),
}

impl RSAError {
    /// The message carried by the error.
    pub open spec fn spec_message(&self) -> Seq<char> {
        match self {
            RSAError::PrimeNumberGenerationFailed(m) => m@,
            RSAError::ConvertBigUIntToBigIntFailed(m) => m@,
            RSAError::ConvertCipherToHexFailed(m) => m@,
            RSAError::MessageSizeLimitExceeded(m) => m@,
            RSAError::PublicExponentNotInvertible(m) => m@,
        }
    }

    /// The message carried by the error.
    pub fn message(&self) -> (r: String)
        ensures
            r@ == self.spec_message(),
    {
        match self {
            RSAError::PrimeNumberGenerationFailed(m) => m.clone(),
            RSAError::ConvertBigUIntToBigIntFailed(m) => m.clone(),
            RSAError::ConvertCipherToHexFailed(m) => m.clone(),
            RSAError::MessageSizeLimitExceeded(m) => m.clone(),
            RSAError::PublicExponentNotInvertible(m) => m.clone(),
        }
    }
}

impl From<hex::FromHexError> for RSAError {
    fn from(err: hex::FromHexError) -> (r: RSAError)
        ensures
            r is ConvertCipherToHexFailed,
            exists|detail: Seq<char>| r.spec_message() == hex_failure_text(detail),
    {
        let detail = hex_error_message(&err);
        let message = hex_failure_message(detail.as_str());
        let r = RSAError::ConvertCipherToHexFailed(message);
        assert(r.spec_message() == hex_failure_text(detail@));
        r
    }
}

impl vstd::std_specs::convert::FromSpecImpl<hex::FromHexError> for RSAError {
    open spec fn obeys_from_spec() -> bool {
        false
    }

    open spec fn from_spec(v: hex::FromHexError) -> RSAError {
        vstd::pervasive::arbitrary()
    }
}

} // verus!
