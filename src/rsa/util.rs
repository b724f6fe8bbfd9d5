//! Modular inverse by the extended Euclidean algorithm.
use super::bignum::{trunc_div, Integer};
use std::cmp::Ordering;
use vstd::arithmetic::div_mod::{lemma_fundamental_div_mod, lemma_fundamental_div_mod_converse};
use vstd::prelude::*;

verus! {

/// Greatest common divisor, by Euclid's recurrence.
pub open spec fn gcd(a: nat, b: nat) -> nat
    decreases b,
{
    if b == 0 {
        a
    } else {
        gcd(b, a % b)
    }
}

pub open spec fn abs(x: int) -> nat {
    if x < 0 {
        (-x) as nat
    } else {
        x as nat
    }
}

/// `a` and `m` share no factor but one.
pub open spec fn coprime(a: int, m: int) -> bool {
    gcd(abs(a), abs(m)) == 1
}

/// `x` is the inverse of `a` modulo `m`, taken in `[0, m)`.
pub open spec fn is_inverse(a: int, m: int, x: int) -> bool {
    0 <= x < m && (a * x) % m == 1
}

/// No multiple of a number above one equals one.
proof fn lemma_no_unit_multiple(s: int, n: int)
    requires
        n > 1,
    ensures
        s * n != 1,
{
    if s >= 1 {
        assert(s * n >= n) by (nonlinear_arith)
            requires
                s >= 1,
                n > 1,
        ;
    } else {
        assert(s * n <= 0) by (nonlinear_arith)
            requires
                s <= 0,
                n > 1,
        ;
    }
}

/// One step of the coefficient recurrence keeps the coefficients of
/// opposite signs and their weighted sum fixed.
proof fn lemma_coefficient_step(inv: int, x: int, q: int, num: int, modu: int, r: int, m: int)
    requires
        inv * x <= 0,
        q >= 0,
        num >= 1,
        modu >= 1,
        r >= 0,
        num == q * modu + r,
        abs(inv) * modu + abs(x) * num == m,
    ensures
        abs(x) * r + abs(inv - q * x) * modu == m,
        x * (inv - q * x) <= 0,
        abs(x) <= m,
{
    let ai = abs(inv) as int;
    let ax = abs(x) as int;
    if x >= 0 {
        assert(inv <= 0 || x == 0) by (nonlinear_arith)
            requires
                inv * x <= 0,
                x >= 0,
        ;
        assert(abs(inv - q * x) == ai + q * ax) by (nonlinear_arith)
            requires
                inv <= 0 || x == 0,
                x >= 0,
                q >= 0,
                ai == abs(inv),
                ax == x,
        ;
    } else {
        assert(inv >= 0) by (nonlinear_arith)
            requires
                inv * x <= 0,
                x < 0,
        ;
        assert(abs(inv - q * x) == ai + q * ax) by (nonlinear_arith)
            requires
                inv >= 0,
                x < 0,
                q >= 0,
                ai == inv,
                ax == -x,
        ;
    }
    assert(ax * r + (ai + q * ax) * modu == m) by (nonlinear_arith)
        requires
            num == q * modu + r,
            ai * modu + ax * num == m,
    ;
    assert(x * (inv - q * x) <= 0) by (nonlinear_arith)
        requires
            inv * x <= 0,
            q >= 0,
    ;
    assert(ax <= m) by (nonlinear_arith)
        requires
            ai >= 0,
            ax >= 0,
            modu >= 1,
            num >= 1,
            ai * modu + ax * num == m,
    ;
}

/// The extended Euclidean algorithm. A modulus of one gives one, and so
/// does a negative number.
fn euclid_inverse(number: &Integer, modulus: &Integer) -> (r: Integer)
    requires
        modulus@ >= 1,
        coprime(number@, modulus@),
    ensures
        modulus@ == 1 ==> r@ == 1,
        number@ < 0 ==> r@ == 1,
        modulus@ > 1 && number@ >= 0 ==> is_inverse(number@, modulus@, r@),
{
    let one = Integer::one();
    if matches!(modulus.compare(&one), Ordering::Equal) {
        return Integer::one();
    }
    let ghost a = number@;
    let ghost m = modulus@;
    proof {
        if a == 0 {
            let mn = m as nat;
            assert(0nat % mn == 0);
            assert(gcd(0, mn) == gcd(mn, 0nat % mn));
            assert(gcd(mn, 0) == mn);
        }
    }
    let mut num = number.clone();
    let mut modu = modulus.clone();
    let mut x = Integer::zero();
    let mut inv = Integer::one();
    let ghost mut k_inv: int = 0;
    let ghost mut k_x: int = -1;
    while matches!(num.compare(&one), Ordering::Greater)
        invariant
            a == number@,
            m == modulus@,
            m > 1,
            one@ == 1,
            inv@ * a - num@ == k_inv * m,
            x@ * a - modu@ == k_x * m,
            a < 0 ==> num@ == a && inv@ == 1,
            a >= 0 ==> {
                &&& num@ >= 1
                &&& modu@ >= 0
                &&& gcd(num@ as nat, modu@ as nat) == 1
                &&& abs(inv@) * modu@ + abs(x@) * num@ == m
                &&& inv@ * x@ <= 0
                &&& abs(inv@) <= m
            },
        decreases modu@,
    {
        proof {
            if modu@ == 0 {
                assert(gcd(num@ as nat, 0) == num@);
            }
        }
        let (quotient, remainder) = num.div_rem(&modu);
        let ghost q = quotient@;
        let ghost rem = remainder@;
        proof {
            lemma_fundamental_div_mod(num@, modu@);
            assert(q == num@ / modu@);
            assert(rem == num@ % modu@);
            assert(gcd(num@ as nat, modu@ as nat) == gcd(modu@ as nat, rem as nat));
            assert((inv@ - q * x@) * a - rem == (k_inv - q * k_x) * m) by (nonlinear_arith)
                requires
                    inv@ * a - num@ == k_inv * m,
                    x@ * a - modu@ == k_x * m,
                    rem == num@ - modu@ * q,
            ;
            lemma_coefficient_step(inv@, x@, q, num@, modu@, rem, m);
        }
        let product = quotient.mul(&x);
        inv = inv.sub(&product);
        num = remainder;
        std::mem::swap(&mut num, &mut modu);
        std::mem::swap(&mut x, &mut inv);
        proof {
            let k_next = k_inv - q * k_x;
            k_inv = k_x;
            k_x = k_next;
        }
    }
    proof {
        if a >= 0 {
            assert(num@ == 1);
            if inv@ == m || inv@ == -m {
                assert(m * (if inv@ == m { a } else { -a } - k_inv) == 1) by (nonlinear_arith)
                    requires
                        inv@ * a - 1 == k_inv * m,
                        inv@ == m || inv@ == -m,
                ;
                lemma_no_unit_multiple(if inv@ == m { a } else { -a } - k_inv, m);
            }
        }
    }
    let zero = Integer::zero();
    if matches!(inv.compare(&zero), Ordering::Less) {
        let ghost before = inv@;
        inv = inv.add(modulus);
        proof {
            assert(a * inv@ == (k_inv + a) * m + 1) by (nonlinear_arith)
                requires
                    before * a - 1 == k_inv * m,
                    inv@ == before + m,
            ;
            lemma_fundamental_div_mod_converse(a * inv@, m, k_inv + a, 1);
        }
    } else {
        proof {
            if a >= 0 {
                assert(a * inv@ == k_inv * m + 1) by (nonlinear_arith)
                    requires
                        inv@ * a - 1 == k_inv * m,
                ;
                lemma_fundamental_div_mod_converse(a * inv@, m, k_inv, 1);
            }
        }
    }
    inv
}

/// The inverse of `number` modulo `modulus`, in `[0, modulus)`, by the
/// extended Euclidean algorithm; a negative number is inverted through its
/// absolute value. A modulus of one gives one.
pub fn modular_inverse(number: &Integer, modulus: &Integer) -> (r: Integer)
    requires
        modulus@ >= 1,
        coprime(number@, modulus@),
    ensures
        modulus@ == 1 ==> r@ == 1,
        modulus@ > 1 ==> is_inverse(number@, modulus@, r@),
{
    let zero = Integer::zero();
    if !matches!(number.compare(&zero), Ordering::Less) {
        return euclid_inverse(number, modulus);
    }
    let one = Integer::one();
    if matches!(modulus.compare(&one), Ordering::Equal) {
        return Integer::one();
    }
    let magnitude = zero.sub(number);
    assert(abs(magnitude@) == abs(number@));
    let x = euclid_inverse(&magnitude, modulus);
    let r = modulus.sub(&x);
    proof {
        let a = number@;
        let m = modulus@;
        let xa = magnitude@ * x@;
        let k = xa / m;
        lemma_fundamental_div_mod(xa, m);
        assert(xa % m == 1);
        if x@ == 0 {
            assert(xa == 0);
        }
        assert(a * r@ == -(magnitude@) * m + xa) by (nonlinear_arith)
            requires
                a == -magnitude@,
                r@ == m - x@,
                xa == magnitude@ * x@,
        ;
        assert(a * r@ == (k - magnitude@) * m + 1) by (nonlinear_arith)
            requires
                a * r@ == -(magnitude@) * m + xa,
                xa == m * k + xa % m,
                xa % m == 1,
        ;
        lemma_fundamental_div_mod_converse(a * r@, m, k - magnitude@, 1);
    }
    r
}

} // verus!
