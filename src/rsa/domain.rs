//! The supported key sizes.
use vstd::prelude::*;

verus! {

/// A preset strength, named by the size of the modulus it yields.
#[derive(Clone, Copy, Debug, PartialEq, Eq)]
pub enum RSAType {
    RSA2048,
    RSA4096,
}

impl RSAType {
    /// Bits of each of the two primes.
    pub open spec fn spec_prime_bits(self) -> nat {
        match self {
            RSAType::RSA2048 => 1024,
            RSAType::RSA4096 => 2048,
        }
    }

    /// Bits of each of the two primes.
    pub fn prime_bits(self) -> (r: usize)
        ensures
            r == self.spec_prime_bits(),
    {
        match self {
            RSAType::RSA2048 => 1024,
            RSAType::RSA4096 => 2048,
        }
    }
}

} // verus!
