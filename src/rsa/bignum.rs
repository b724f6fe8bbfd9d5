//! Arbitrary-precision numbers held as plain byte strings.
//!
//! `Natural` holds big-endian base-256 digits and `Integer` holds a
//! big-endian two's-complement encoding. All arithmetic is done by
//! `num_bigint`; each operation below converts its operands, makes one
//! call, and converts the result back.
use num_bigint::{BigInt, BigUint};
use super::util::gcd;
use vstd::arithmetic::power::pow;
use vstd::arithmetic::power2::{lemma2_to64, lemma_pow2_adds, lemma_pow2_pos, lemma_pow2_unfold, pow2};
use vstd::prelude::*;

verus! {

/// The number denoted by big-endian base-256 digits.
pub open spec fn be_value(d: Seq<u8>) -> nat
    decreases d.len(),
{
    if d.len() == 0 {
        0
    } else {
        be_value(d.drop_last()) * 256 + d.last() as nat
    }
}

/// The shortest big-endian digits of `v`; zero is the single digit `0`.
pub open spec fn be_digits(v: nat) -> Seq<u8>
    decreases v,
{
    if v < 256 {
        seq![v as u8]
    } else {
        be_digits(v / 256).push((v % 256) as u8)
    }
}

/// The number denoted by a big-endian two's-complement encoding.
pub open spec fn twos_value(d: Seq<u8>) -> int {
    if d.len() > 0 && d[0] >= 128 {
        be_value(d) - pow(256, d.len())
    } else {
        be_value(d) as int
    }
}

/// Number of significant bits of `v` (zero has none).
pub open spec fn bit_len(v: nat) -> nat
    decreases v,
{
    if v == 0 {
        0
    } else {
        1 + bit_len(v / 2)
    }
}

/// Truncated quotient, rounding toward zero.
pub open spec fn trunc_div(a: int, b: int) -> int {
    let q = (if a < 0 { -a } else { a }) / (if b < 0 { -b } else { b });
    if (a < 0) == (b < 0) {
        q
    } else {
        -q
    }
}

pub proof fn lemma_be_digits_value(v: nat)
    ensures
        be_value(be_digits(v)) == v,
        be_digits(v).len() >= 1,
    decreases v,
{
    let d = be_digits(v);
    if v < 256 {
        assert(d.drop_last() =~= Seq::<u8>::empty());
        assert(be_value(Seq::<u8>::empty()) == 0);
        assert(d.last() as nat == v);
    } else {
        lemma_be_digits_value(v / 256);
        assert(d.drop_last() =~= be_digits(v / 256));
        assert(d.last() as nat == v % 256);
        assert(be_value(d) == be_value(d.drop_last()) * 256 + d.last() as nat);
    }
}

/// A number has at most `k` bits exactly when it is below `2^k`.
pub proof fn lemma_bit_len_bound(v: nat, k: nat)
    ensures
        bit_len(v) <= k <==> v < pow2(k),
    decreases k,
{
    lemma_pow2_pos(k);
    if k == 0 {
        lemma2_to64();
        if v != 0 {
            assert(bit_len(v) == 1 + bit_len(v / 2));
        }
    } else {
        lemma_pow2_unfold(k);
        lemma_bit_len_bound(v / 2, (k - 1) as nat);
        if v != 0 {
            assert(bit_len(v) == 1 + bit_len(v / 2));
        }
    }
}

/// Big-endian digits stand for a number below `2^(8 * length)`.
pub proof fn lemma_be_value_bound(d: Seq<u8>)
    ensures
        be_value(d) < pow2(8 * d.len()),
    decreases d.len(),
{
    if d.len() == 0 {
        lemma2_to64();
    } else {
        let init = d.drop_last();
        lemma_be_value_bound(init);
        lemma2_to64();
        lemma_pow2_adds(8 * init.len(), 8);
        assert(8 * d.len() == 8 * init.len() + 8);
        let a = be_value(init);
        let b = pow2(8 * init.len());
        assert(a * 256 + (d.last() as nat) < b * 256) by (nonlinear_arith)
            requires
                a < b,
                d.last() < 256,
        ;
    }
}

/// Digits without a leading zero are the shortest digits of their value.
pub proof fn lemma_digits_of_value(d: Seq<u8>)
    requires
        d.len() >= 1,
        d[0] != 0,
    ensures
        be_digits(be_value(d)) == d,
        be_value(d) >= 1,
    decreases d.len(),
{
    let v = be_value(d);
    if d.len() == 1 {
        assert(d.drop_last() =~= Seq::<u8>::empty());
        assert(be_value(Seq::<u8>::empty()) == 0);
        assert(v == d[0]);
        assert(be_digits(v) =~= d);
    } else {
        let init = d.drop_last();
        assert(init[0] == d[0]);
        lemma_digits_of_value(init);
        assert(v == be_value(init) * 256 + d.last() as nat);
        assert(v / 256 == be_value(init));
        assert(v % 256 == d.last());
        assert(be_digits(v) =~= be_digits(be_value(init)).push(d.last()));
        assert(init.push(d.last()) =~= d);
    }
}

/// An unsigned arbitrary-precision number.
#[derive(Debug)]
pub struct Natural {
    pub digits: Vec<u8>,
}

impl View for Natural {
    type V = nat;

    open spec fn view(&self) -> nat {
        be_value(self.digits@)
    }
}

/// A signed arbitrary-precision number.
#[derive(Debug)]
pub struct Integer {
    pub bytes: Vec<u8>,
}

impl View for Integer {
    type V = int;

    open spec fn view(&self) -> int {
        twos_value(self.bytes@)
    }
}

impl Clone for Natural {
    fn clone(&self) -> (r: Natural)
        ensures
            r.digits@ == self.digits@,
    {
        Natural { digits: self.digits.clone() }
    }
}

impl Clone for Integer {
    fn clone(&self) -> (r: Integer)
        ensures
            r.bytes@ == self.bytes@,
    {
        Integer { bytes: self.bytes.clone() }
    }
}

impl Natural {
    /// The number whose big-endian digits are `digits`.
    pub fn from_be_bytes(digits: &[u8]) -> (r: Natural)
        ensures
            r.digits@ == digits@,
            r@ == be_value(digits@),
    {
        let mut v: Vec<u8> = Vec::new();
        let mut i: usize = 0;
        while i < digits.len()
            invariant
                i <= digits@.len(),
                v@ == digits@.subrange(0, i as int),
            decreases digits@.len() - i,
        {
            v.push(digits[i]);
            i = i + 1;
        }
        proof {
            assert(v@ =~= digits@);
        }
        Natural { digits: v }
    }

    /// The big-endian digits.
    pub fn to_be_bytes(&self) -> (r: Vec<u8>)
        ensures
            r@ == self.digits@,
    {
        self.digits.clone()
    }

    /// Relies on `From<u64> for BigUint` and `BigUint::to_bytes_be`: the
    /// value is kept.
    #[verifier::external_body]
    pub fn from_u64(v: u64) -> (r: Natural)
        ensures
            r@ == v,
    {
        Natural { digits: BigUint::from(v).to_bytes_be() }
    }

    /// Relies on `BigUint * BigUint`: the product.
    #[verifier::external_body]
    pub fn mul(&self, other: &Natural) -> (r: Natural)
        ensures
            r@ == self@ * other@,
    {
        let p = BigUint::from_bytes_be(&self.digits) * BigUint::from_bytes_be(&other.digits);
        Natural { digits: p.to_bytes_be() }
    }

    /// Relies on `BigUint - BigUint`, which panics below zero: the difference.
    #[verifier::external_body]
    pub fn sub(&self, other: &Natural) -> (r: Natural)
        requires
            self@ >= other@,
        ensures
            r@ == self@ - other@,
    {
        let d = BigUint::from_bytes_be(&self.digits) - BigUint::from_bytes_be(&other.digits);
        Natural { digits: d.to_bytes_be() }
    }

    /// Relies on `BigUint::modpow`, which panics on a zero modulus, and on
    /// `BigUint::to_bytes_be`, which gives the shortest digits.
    #[verifier::external_body]
    pub fn modpow(&self, exponent: &Natural, modulus: &Natural) -> (r: Natural)
        requires
            modulus@ > 0,
        ensures
            r.digits@ == be_digits((pow(self@ as int, exponent@) % (modulus@ as int)) as nat),
    {
        let b = BigUint::from_bytes_be(&self.digits);
        let e = BigUint::from_bytes_be(&exponent.digits);
        let m = BigUint::from_bytes_be(&modulus.digits);
        Natural { digits: b.modpow(&e, &m).to_bytes_be() }
    }

    /// Relies on `BigUint::bits`: the number of significant bits.
    #[verifier::external_body]
    pub fn bits(&self) -> (r: u64)
        ensures
            r == bit_len(self@),
    {
        BigUint::from_bytes_be(&self.digits).bits()
    }

    /// Relies on `num_integer::Integer::gcd` for `BigUint`: the greatest
    /// common divisor.
    #[verifier::external_body]
    pub fn gcd(&self, other: &Natural) -> (r: Natural)
        ensures
            r@ == gcd(self@, other@),
    {
        let g = num_integer::Integer::gcd(&BigUint::from_bytes_be(&self.digits), &BigUint::from_bytes_be(&other.digits));
        Natural { digits: g.to_bytes_be() }
    }

    /// Relies on `TryFrom<BigInt> for BigUint`, which fails exactly on a
    /// negative value.
    #[verifier::external_body]
    pub fn try_from_integer(x: &Integer) -> (r: Result<Natural, String>)
        ensures
            r is Ok <==> x@ >= 0,
            r is Ok ==> r->Ok_0@ == x@,
    {
        match BigUint::try_from(BigInt::from_signed_bytes_be(&x.bytes)) {
            Ok(u) => Ok(Natural { digits: u.to_bytes_be() }),
            Err(e) => Err(e.to_string()),
        }
    }
}

impl Integer {
    /// The integer zero.
    pub fn zero() -> (r: Integer)
        ensures
            r@ == 0,
    {
        let r = Integer { bytes: vec![0u8] };
        proof {
            assert(r.bytes@.drop_last() =~= Seq::<u8>::empty());
            assert(be_value(Seq::<u8>::empty()) == 0);
            assert(be_value(r.bytes@) == be_value(r.bytes@.drop_last()) * 256 + r.bytes@.last() as nat);
        }
        r
    }

    /// The integer one.
    pub fn one() -> (r: Integer)
        ensures
            r@ == 1,
    {
        let r = Integer { bytes: vec![1u8] };
        proof {
            assert(r.bytes@.drop_last() =~= Seq::<u8>::empty());
            assert(be_value(Seq::<u8>::empty()) == 0);
            assert(be_value(r.bytes@) == be_value(r.bytes@.drop_last()) * 256 + r.bytes@.last() as nat);
        }
        r
    }

    /// Relies on `From<BigUint> for BigInt` and
    /// `BigInt::to_signed_bytes_be`: the value is kept.
    #[verifier::external_body]
    pub fn from_natural(n: &Natural) -> (r: Integer)
        ensures
            r@ == n@,
    {
        Integer { bytes: BigInt::from(BigUint::from_bytes_be(&n.digits)).to_signed_bytes_be() }
    }

    /// Relies on `BigInt * BigInt`: the product.
    #[verifier::external_body]
    pub fn mul(&self, other: &Integer) -> (r: Integer)
        ensures
            r@ == self@ * other@,
    {
        let p = BigInt::from_signed_bytes_be(&self.bytes) * BigInt::from_signed_bytes_be(&other.bytes);
        Integer { bytes: p.to_signed_bytes_be() }
    }

    /// Relies on `BigInt - BigInt`: the difference.
    #[verifier::external_body]
    pub fn sub(&self, other: &Integer) -> (r: Integer)
        ensures
            r@ == self@ - other@,
    {
        let d = BigInt::from_signed_bytes_be(&self.bytes) - BigInt::from_signed_bytes_be(&other.bytes);
        Integer { bytes: d.to_signed_bytes_be() }
    }

    /// Relies on `BigInt + BigInt`: the sum.
    #[verifier::external_body]
    pub fn add(&self, other: &Integer) -> (r: Integer)
        ensures
            r@ == self@ + other@,
    {
        let s = BigInt::from_signed_bytes_be(&self.bytes) + BigInt::from_signed_bytes_be(&other.bytes);
        Integer { bytes: s.to_signed_bytes_be() }
    }

    /// Relies on `num_integer::Integer::div_rem` for `BigInt`, truncated
    /// division that panics on a zero divisor: quotient and remainder.
    #[verifier::external_body]
    pub fn div_rem(&self, other: &Integer) -> (r: (Integer, Integer))
        requires
            other@ != 0,
        ensures
            r.0@ == trunc_div(self@, other@),
            r.1@ == self@ - other@ * trunc_div(self@, other@),
    {
        let a = BigInt::from_signed_bytes_be(&self.bytes);
        let b = BigInt::from_signed_bytes_be(&other.bytes);
        let (q, m) = num_integer::Integer::div_rem(&a, &b);
        (Integer { bytes: q.to_signed_bytes_be() }, Integer { bytes: m.to_signed_bytes_be() })
    }

    /// Relies on `Ord::cmp` for `BigInt`: the order of the values.
    #[verifier::external_body]
    pub fn compare(&self, other: &Integer) -> (r: std::cmp::Ordering)
        ensures
            (r == std::cmp::Ordering::Less) <==> self@ < other@,
            (r == std::cmp::Ordering::Equal) <==> self@ == other@,
            (r == std::cmp::Ordering::Greater) <==> self@ > other@,
    {
        BigInt::from_signed_bytes_be(&self.bytes).cmp(&BigInt::from_signed_bytes_be(&other.bytes))
    }
}

} // verus!
