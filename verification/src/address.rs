//! Payout addresses, written as hexadecimal or as base58 text.

use vstd::prelude::*;
use crate::encoding::{hex_decode, hex_decoded, is_hex};
use crate::error::MinerError;

verus! {

/// Whether `c` is a digit of the base58 alphabet that Bitcoin uses: the digits
/// and letters without `0`, `O`, `I` and `l`.
pub open spec fn is_base58_digit(c: char) -> bool {
    ||| '1' <= c && c <= '9'
    ||| 'A' <= c && c <= 'Z' && c != 'I' && c != 'O'
    ||| 'a' <= c && c <= 'z' && c != 'l'
}

/// Whether `s` is base58 text.
pub open spec fn is_base58(s: Seq<char>) -> bool {
    forall|i: int| 0 <= i < s.len() ==> is_base58_digit(#[trigger] s[i])
}

/// The bytes that the base58 text `s` stands for.
pub uninterp spec fn base58_decoded(s: Seq<char>) -> Seq<u8>;

/// The error of `bs58` decoding. Nothing is read from it.
#[verifier::external_type_specification]
#[verifier::external_body]
pub struct ExBase58Error(bs58::decode::Error);

/// `bs58::decode(..).into_vec()` on a string slice, with the default
/// alphabet, which is Bitcoin's. It fails exactly on a text with a character
/// outside that alphabet; the vector it decodes into is always large enough.
#[verifier::external_body]
pub(crate) fn base58_decode(s: &str) -> (r: Result<Vec<u8>, bs58::decode::Error>)
    ensures
        r is Ok <==> is_base58(s@),
        r matches Ok(bytes) ==> bytes@ == base58_decoded(s@),
{
    bs58::decode(s).into_vec()
}

/// The bytes of the address `address`. Text that is valid hexadecimal is read
/// as hexadecimal; other text is read as base58; text that is neither is no
/// address.
pub open spec fn address_bytes(address: Seq<char>) -> Option<Seq<u8>> {
    if is_hex(address) {
        Some(hex_decoded(address))
    } else if is_base58(address) {
        Some(base58_decoded(address))
    } else {
        None
    }
}

/// Decodes a payout address, trying hexadecimal first and base58 second.
pub fn string_to_bytes(address: &str) -> (r: Result<Vec<u8>, MinerError>)
    ensures
        match r {
            Ok(bytes) => address_bytes(address@) == Some(bytes@),
            Err(e) => address_bytes(address@) is None && e == MinerError::InvalidAddressFormat,
        },
{
    match hex_decode(address) {
        Ok(bytes) => Ok(bytes),
        Err(_) => match base58_decode(address) {
            Ok(bytes) => Ok(bytes),
            Err(_) => Err(MinerError::InvalidAddressFormat),
        },
    }
}

} // verus!
