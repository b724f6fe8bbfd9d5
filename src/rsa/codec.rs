//! Text forms of byte strings: hexadecimal in both directions, and the
//! lossy reading of bytes as UTF-8.
use vstd::prelude::*;
use vstd::utf8::{decode_utf8, valid_utf8};

verus! {

/// The lower-case hexadecimal digit for `n < 16`.
pub open spec fn hex_digit(n: u8) -> char {
    if n < 10 {
        ((48 + n) as u8) as char
    } else {
        ((87 + n) as u8) as char
    }
}

/// Two lower-case hexadecimal digits per byte, high half first.
pub open spec fn hex_of(b: Seq<u8>) -> Seq<char>
    decreases b.len(),
{
    if b.len() == 0 {
        Seq::empty()
    } else {
        hex_of(b.drop_last()) + seq![hex_digit(b.last() / 16), hex_digit(b.last() % 16)]
    }
}

/// A digit of either case.
pub open spec fn is_hex_char(c: char) -> bool {
    ('0' <= c && c <= '9') || ('a' <= c && c <= 'f') || ('A' <= c && c <= 'F')
}

pub open spec fn hex_char_value(c: char) -> nat {
    if '0' <= c && c <= '9' {
        (c as u32 - '0' as u32) as nat
    } else if 'a' <= c && c <= 'f' {
        (c as u32 - 'a' as u32 + 10) as nat
    } else {
        (c as u32 - 'A' as u32 + 10) as nat
    }
}

/// Text that decodes: an even number of hexadecimal digits.
pub open spec fn is_hex_text(s: Seq<char>) -> bool {
    s.len() % 2 == 0 && forall|i: int| 0 <= i < s.len() ==> is_hex_char(#[trigger] s[i])
}

/// The bytes that hexadecimal text stands for, one per pair of digits.
pub open spec fn unhex(s: Seq<char>) -> Seq<u8>
    decreases s.len(),
{
    if s.len() < 2 {
        Seq::empty()
    } else {
        unhex(s.subrange(0, s.len() - 2)).push(
            (16 * hex_char_value(s[s.len() - 2]) + hex_char_value(s[s.len() - 1])) as u8,
        )
    }
}

/// What `String::from_utf8_lossy` makes of a byte string.
pub uninterp spec fn utf8_lossy(b: Seq<u8>) -> Seq<char>;

/// The text of a byte string, read as UTF-8: valid UTF-8 is decoded, and
/// anything else is left to the lossy reading.
pub open spec fn lossy_text(b: Seq<u8>) -> Seq<char> {
    if valid_utf8(b) {
        decode_utf8(b)
    } else {
        utf8_lossy(b)
    }
}

proof fn lemma_hex_digit(n: u8)
    requires
        n < 16,
    ensures
        is_hex_char(hex_digit(n)),
        hex_char_value(hex_digit(n)) == n,
{
    let c = hex_digit(n);
    if n < 10 {
        assert(c as u32 == 48 + n);
    } else {
        assert(c as u32 == 87 + n);
    }
}

/// Hexadecimal text decodes back to the bytes it was made from.
pub proof fn lemma_hex_round_trip(b: Seq<u8>)
    ensures
        hex_of(b).len() == 2 * b.len(),
        is_hex_text(hex_of(b)),
        unhex(hex_of(b)) == b,
    decreases b.len(),
{
    if b.len() > 0 {
        let init = b.drop_last();
        let last = b.last();
        lemma_hex_round_trip(init);
        lemma_hex_digit(last / 16);
        lemma_hex_digit(last % 16);
        let s = hex_of(b);
        assert(s.subrange(0, s.len() - 2) =~= hex_of(init));
        assert(s[s.len() - 2] == hex_digit(last / 16));
        assert(s[s.len() - 1] == hex_digit(last % 16));
        assert(unhex(s) =~= b);
        assert forall|i: int| 0 <= i < s.len() implies is_hex_char(#[trigger] s[i]) by {
            if i < s.len() - 2 {
                assert(s[i] == hex_of(init)[i]);
            }
        }
    } else {
        assert(hex_of(b) =~= Seq::<char>::empty());
    }
}

/// Relies on `hex::encode`: two lower-case digits per byte.
#[verifier::external_body]
pub(crate) fn hex_encode(bytes: &Vec<u8>) -> (r: String)
    ensures
        r@ == hex_of(bytes@),
{
    hex::encode(bytes)
}

#[verifier::external_type_specification]
#[verifier::external_body]
pub struct ExFromHexError(hex::FromHexError);

/// The `Display` text of the error that `hex::decode` gives on a text.
pub uninterp spec fn hex_error_text(s: Seq<char>) -> Seq<char>;

/// Relies on `hex::decode`: it accepts exactly an even number of digits of
/// either case, and gives the byte of each pair; its error, shown with
/// `Display`, depends on the text alone.
#[verifier::external_body]
pub(crate) fn hex_decode(text: &String) -> (r: Result<Vec<u8>, String>)
    ensures
        r is Ok <==> is_hex_text(text@),
        r is Ok ==> r->Ok_0@ == unhex(text@),
        r is Err ==> r->Err_0@ == hex_error_text(text@),
{
    match hex::decode(text) {
        Ok(b) => Ok(b),
        Err(e) => Err(e.to_string()),
    }
}

/// Relies on the `Display` of `hex::FromHexError`.
#[verifier::external_body]
pub(crate) fn hex_error_message(e: &hex::FromHexError) -> String {
    e.to_string()
}

/// Relies on `String::from_utf8_lossy`, which keeps valid UTF-8 as it is.
#[verifier::external_body]
pub(crate) fn text_from_utf8_lossy(bytes: &Vec<u8>) -> (r: String)
    ensures
        valid_utf8(bytes@) ==> r@ == decode_utf8(bytes@),
        !valid_utf8(bytes@) ==> r@ == utf8_lossy(bytes@),
{
    String::from_utf8_lossy(bytes).into_owned()
}

} // verus!
