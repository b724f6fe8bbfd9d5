//! The messages that errors carry, built from their parts.
use vstd::prelude::*;
use vstd::string::StringExecFns;

verus! {

/// The decimal digit for `d < 10`.
pub open spec fn digit_char(d: nat) -> char {
    ((48 + d) as u8) as char
}

/// The decimal digits of `n`, most significant first.
pub open spec fn decimal_text(n: nat) -> Seq<char>
    decreases n,
{
    if n < 10 {
        seq![digit_char(n)]
    } else {
        decimal_text(n / 10) + seq![digit_char(n % 10)]
    }
}

/// The message of a message too wide for the modulus.
pub open spec fn size_limit_text(message_bits: nat, modulus_bits: nat) -> Seq<char> {
    "Message bit size: "@ + decimal_text(message_bits) + " exceeds modulus bit size: "@
        + decimal_text(modulus_bits)
}

/// The message of a ciphertext that does not decode.
pub open spec fn hex_failure_text(detail: Seq<char>) -> Seq<char> {
    "Failed to convert to ciphertext from hex for decoding: "@ + detail
}

/// The message of a failed prime draw.
pub open spec fn prime_failure_text(detail: Seq<char>) -> Seq<char> {
    "Failed to generate large prime number: "@ + detail
}

/// The message of a negative private exponent.
pub open spec fn conversion_failure_text(detail: Seq<char>) -> Seq<char> {
    "Failed to convert to BigUInt from BigInt: "@ + detail
}

fn digit_str(d: u64) -> (r: &'static str)
    requires
        d < 10,
    ensures
        r@ == seq![digit_char(d as nat)],
{
    let r = if d == 0 {
        proof { reveal_strlit("0"); }
        "0"
    } else if d == 1 {
        proof { reveal_strlit("1"); }
        "1"
    } else if d == 2 {
        proof { reveal_strlit("2"); }
        "2"
    } else if d == 3 {
        proof { reveal_strlit("3"); }
        "3"
    } else if d == 4 {
        proof { reveal_strlit("4"); }
        "4"
    } else if d == 5 {
        proof { reveal_strlit("5"); }
        "5"
    } else if d == 6 {
        proof { reveal_strlit("6"); }
        "6"
    } else if d == 7 {
        proof { reveal_strlit("7"); }
        "7"
    } else if d == 8 {
        proof { reveal_strlit("8"); }
        "8"
    } else {
        proof { reveal_strlit("9"); }
        "9"
    };
    proof {
        assert(r@ =~= seq![digit_char(d as nat)]);
    }
    r
}

/// The decimal digits of `n`.
pub fn decimal(n: u64) -> (r: String)
    ensures
        r@ == decimal_text(n as nat),
    decreases n,
{
    if n < 10 {
        String::from_str(digit_str(n))
    } else {
        let mut s = decimal(n / 10);
        s.append(digit_str(n % 10));
        s
    }
}

/// Two texts joined.
fn joined(first: &str, second: &str) -> (r: String)
    ensures
        r@ == first@ + second@,
{
    let mut s = String::from_str(first);
    s.append(second);
    s
}

/// The message of a message too wide for the modulus.
pub fn size_limit_message(message_bits: u64, modulus_bits: u64) -> (r: String)
    ensures
        r@ == size_limit_text(message_bits as nat, modulus_bits as nat),
{
    let a = decimal(message_bits);
    let b = decimal(modulus_bits);
    let s = joined("Message bit size: ", a.as_str());
    let s = joined(s.as_str(), " exceeds modulus bit size: ");
    let s = joined(s.as_str(), b.as_str());
    s
}

/// The message of a ciphertext that does not decode.
pub fn hex_failure_message(detail: &str) -> (r: String)
    ensures
        r@ == hex_failure_text(detail@),
{
    joined("Failed to convert to ciphertext from hex for decoding: ", detail)
}

/// The message of a failed prime draw.
pub fn prime_failure_message(detail: &str) -> (r: String)
    ensures
        r@ == prime_failure_text(detail@),
{
    joined("Failed to generate large prime number: ", detail)
}

/// The message of a negative private exponent.
pub fn conversion_failure_message(detail: &str) -> (r: String)
    ensures
        r@ == conversion_failure_text(detail@),
{
    joined("Failed to convert to BigUInt from BigInt: ", detail)
}

} // verus!
