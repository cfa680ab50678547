//! What can be wrong with a block template.

use vstd::prelude::*;

verus! {

/// A template field that carries a 32-byte hash as hexadecimal text.
#[derive(Clone, Copy, Debug, PartialEq, Eq)]
pub enum HexField {
    PreviousHash,
    MerkleRoot,
}

/// Why a block template was refused.
#[derive(Clone, Copy, Debug, PartialEq, Eq)]
pub enum MinerError {
    /// The payout address is neither hexadecimal nor base58 text.
    InvalidAddressFormat,
    /// The named field is not the hexadecimal text of 32 bytes.
    InvalidHexField(HexField),
}

impl MinerError {
    /// The text of [`MinerError::message`].
    pub open spec fn message_text(self) -> Seq<char> {
        match self {
            MinerError::InvalidAddressFormat => "Invalid address format"@,
            MinerError::InvalidHexField(HexField::PreviousHash) => "Invalid previous_hash"@,
            MinerError::InvalidHexField(HexField::MerkleRoot) => "Invalid merkle_root"@,
        }
    }

    /// The error in words, for the host.
    pub fn message(&self) -> (r: String)
        ensures
            r@ == self.message_text(),
    {
        let text = match self {
            MinerError::InvalidAddressFormat => "Invalid address format",
            MinerError::InvalidHexField(HexField::PreviousHash) => "Invalid previous_hash",
            MinerError::InvalidHexField(HexField::MerkleRoot) => "Invalid merkle_root",
        };
        text.to_owned()
    }
}

} // verus!
