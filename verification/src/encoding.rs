//! Hexadecimal text: what counts as valid, what it decodes to and how bytes
//! are written out.

use vstd::prelude::*;

verus! {

/// Whether `c` is a hexadecimal digit, in either case.
pub open spec fn is_hex_digit(c: char) -> bool {
    ('0' <= c && c <= '9') || ('a' <= c && c <= 'f') || ('A' <= c && c <= 'F')
}

/// The value, from 0 to 15, of the hexadecimal digit `c`.
pub open spec fn hex_value(c: char) -> int
    recommends
        is_hex_digit(c),
{
    if '0' <= c && c <= '9' {
        c as int - '0' as int
    } else if 'a' <= c && c <= 'f' {
        c as int - 'a' as int + 10
    } else {
        c as int - 'A' as int + 10
    }
}

/// Whether `s` is hexadecimal text for whole bytes: an even number of
/// hexadecimal digits.
pub open spec fn is_hex(s: Seq<char>) -> bool {
    &&& s.len() % 2 == 0
    &&& forall|i: int| 0 <= i < s.len() ==> is_hex_digit(#[trigger] s[i])
}

/// The byte that two hexadecimal digits stand for.
pub open spec fn hex_byte(high: char, low: char) -> u8
    recommends
        is_hex_digit(high),
        is_hex_digit(low),
{
    (16 * hex_value(high) + hex_value(low)) as u8
}

/// The bytes that the hexadecimal text `s` stands for: each pair of digits is
/// one byte, high digit first.
pub open spec fn hex_decoded(s: Seq<char>) -> Seq<u8>
    recommends
        is_hex(s),
{
    Seq::new((s.len() / 2) as nat, |i: int| hex_byte(s[2 * i], s[2 * i + 1]))
}

/// The lowercase hexadecimal digits in ascending order.
pub open spec fn hex_alphabet() -> Seq<char> {
    seq!['0', '1', '2', '3', '4', '5', '6', '7', '8', '9', 'a', 'b', 'c', 'd', 'e', 'f']
}

/// The digits of [`hex_alphabet`] by their character codes: `0` to `9`, then
/// `a` to `f`.
pub proof fn lemma_hex_alphabet()
    ensures
        hex_alphabet().len() == 16,
        forall|k: int|
            0 <= k < 16 ==> (#[trigger] hex_alphabet()[k]) as int == if k < 10 {
                48 + k
            } else {
                87 + k
            },
{
}

/// The value of the digit at position `i` in the hexadecimal text of `bytes`:
/// the high half of a byte at an even position, the low half at an odd one.
pub open spec fn hex_digit_value(bytes: Seq<u8>, i: int) -> int {
    if i % 2 == 0 {
        bytes[i / 2] as int / 16
    } else {
        bytes[i / 2] as int % 16
    }
}

/// The lowercase hexadecimal text of `bytes`: two digits for each byte, high
/// digit first.
pub open spec fn hex_encoded(bytes: Seq<u8>) -> Seq<char> {
    Seq::new(2 * bytes.len(), |i: int| hex_alphabet()[hex_digit_value(bytes, i)])
}

/// The hexadecimal text of bytes is valid, and decodes to those bytes.
pub proof fn lemma_hex_round_trip(bytes: Seq<u8>)
    ensures
        is_hex(hex_encoded(bytes)),
        hex_decoded(hex_encoded(bytes)) == bytes,
{
    lemma_hex_alphabet();
    let text = hex_encoded(bytes);
    assert forall|i: int| 0 <= i < text.len() implies is_hex_digit(#[trigger] text[i])
        && hex_value(text[i]) == hex_digit_value(bytes, i) by {}
}

/// The error of `hex::decode`. Nothing is read from it.
#[verifier::external_type_specification]
#[verifier::external_body]
pub struct ExFromHexError(hex::FromHexError);

/// `hex::decode` on a string slice. It accepts exactly the texts with an even
/// number of hexadecimal digits, in either case, and returns the byte that
/// each pair of digits stands for.
#[verifier::external_body]
pub(crate) fn hex_decode(s: &str) -> (r: Result<Vec<u8>, hex::FromHexError>)
    ensures
        r is Ok <==> is_hex(s@),
        r matches Ok(bytes) ==> bytes@ == hex_decoded(s@),
{
    hex::decode(s)
}

/// `hex::encode` on a byte slice. It writes each byte as two lowercase
/// hexadecimal digits, high digit first.
#[verifier::external_body]
pub(crate) fn hex_encode(bytes: &[u8]) -> (r: String)
    ensures
        r@ == hex_encoded(bytes@),
{
    hex::encode(bytes)
}

} // verus!
