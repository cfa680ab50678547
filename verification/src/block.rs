//! The byte layout of a block.
//!
//! A block's content is, in this order: one byte `0x02` if and only if the
//! payout address has 33 bytes; the previous block's hash; the payout address;
//! the merkle root; the timestamp in 4 bytes; the tenfold difficulty in 2
//! bytes; the nonce in 4 bytes. Numbers are little-endian.

use vstd::prelude::*;
use crate::address::{address_bytes, string_to_bytes};
use crate::difficulty::Difficulty;
use crate::encoding::{hex_decode, hex_decoded, hex_encode, hex_encoded, is_hex};
use crate::error::{HexField, MinerError};

verus! {

/// The number of bytes in a hash.
pub const HASH_LEN: usize = 32;

/// The length of a payout address that is marked by a leading version byte.
pub const COMPRESSED_ADDRESS_LEN: usize = 33;

/// The version byte that marks a 33-byte payout address.
pub const COMPRESSED_VERSION: u8 = 2;

/// The two bytes of `x`, lowest first.
pub open spec fn le_bytes_u16(x: u16) -> Seq<u8> {
    seq![(x % 256) as u8, (x / 256) as u8]
}

/// The four bytes of `x`, lowest first.
pub open spec fn le_bytes_u32(x: u32) -> Seq<u8> {
    seq![
        (x % 256) as u8,
        (x / 256 % 256) as u8,
        (x / 65536 % 256) as u8,
        (x / 16777216) as u8,
    ]
}

/// What stands in front of the previous hash: the version byte for an address
/// of 33 bytes, nothing for any other.
pub open spec fn version_prefix(address: Seq<u8>) -> Seq<u8> {
    if address.len() == COMPRESSED_ADDRESS_LEN {
        seq![COMPRESSED_VERSION]
    } else {
        Seq::empty()
    }
}

/// A block's content without its nonce.
pub open spec fn block_prefix(
    previous_hash: Seq<u8>,
    address: Seq<u8>,
    merkle_root: Seq<u8>,
    timestamp: u32,
    scaled_difficulty: u16,
) -> Seq<u8> {
    version_prefix(address) + previous_hash + address + merkle_root + le_bytes_u32(timestamp)
        + le_bytes_u16(scaled_difficulty)
}

/// A block's content.
pub open spec fn block_content(
    previous_hash: Seq<u8>,
    address: Seq<u8>,
    merkle_root: Seq<u8>,
    timestamp: u32,
    scaled_difficulty: u16,
    nonce: u32,
) -> Seq<u8> {
    block_prefix(previous_hash, address, merkle_root, timestamp, scaled_difficulty) + le_bytes_u32(
        nonce,
    )
}

/// The number of bytes in the content of a block whose payout address has
/// `address_len` bytes: two hashes, the address, 4 bytes of timestamp, 2 of
/// difficulty and 4 of nonce, and the version byte where the address has 33
/// bytes.
pub open spec fn content_len(address_len: nat) -> nat {
    let version: nat = if address_len == COMPRESSED_ADDRESS_LEN {
        1
    } else {
        0
    };
    version + HASH_LEN as nat + address_len + HASH_LEN as nat + 4 + 2 + 4
}

/// The content of a block with two 32-byte hashes has `content_len` bytes.
pub proof fn lemma_block_content_len(
    previous_hash: Seq<u8>,
    address: Seq<u8>,
    merkle_root: Seq<u8>,
    timestamp: u32,
    scaled_difficulty: u16,
    nonce: u32,
)
    requires
        previous_hash.len() == HASH_LEN,
        merkle_root.len() == HASH_LEN,
    ensures
        block_content(
            previous_hash,
            address,
            merkle_root,
            timestamp,
            scaled_difficulty,
            nonce,
        ).len() == content_len(address.len()),
{
}

/// The content of a block with a 33-byte payout address begins with the
/// version byte `0x02`. With an address of any other length it has no such
/// byte in front: it begins with the previous hash.
pub proof fn lemma_version_byte(
    previous_hash: Seq<u8>,
    address: Seq<u8>,
    merkle_root: Seq<u8>,
    timestamp: u32,
    scaled_difficulty: u16,
    nonce: u32,
)
    ensures
        ({
            let content = block_content(
                previous_hash,
                address,
                merkle_root,
                timestamp,
                scaled_difficulty,
                nonce,
            );
            if address.len() == COMPRESSED_ADDRESS_LEN {
                content[0] == COMPRESSED_VERSION && previous_hash.is_prefix_of(content.skip(1))
            } else {
                previous_hash.is_prefix_of(content)
            }
        }),
{
}

/// Whether `s` is the hexadecimal text of a hash: 64 hexadecimal digits.
pub open spec fn is_hash_hex(s: Seq<char>) -> bool {
    is_hex(s) && s.len() == 2 * HASH_LEN
}

/// Appends `bytes` to `out`.
fn push_bytes(out: &mut Vec<u8>, bytes: &[u8])
    ensures
        final(out)@ == old(out)@ + bytes@,
{
    out.extend_from_slice(bytes);
}

/// Appends the two bytes of `x`, lowest first.
fn push_le_u16(out: &mut Vec<u8>, x: u16)
    ensures
        final(out)@ == old(out)@ + le_bytes_u16(x),
{
    out.push((x % 256) as u8);
    out.push((x / 256) as u8);
}

/// Appends the four bytes of `x`, lowest first.
fn push_le_u32(out: &mut Vec<u8>, x: u32)
    ensures
        final(out)@ == old(out)@ + le_bytes_u32(x),
{
    out.push((x % 256) as u8);
    out.push((x / 256 % 256) as u8);
    out.push((x / 65536 % 256) as u8);
    out.push((x / 16777216) as u8);
}

/// Lays out a block's content without its nonce.
pub fn encode_block_prefix(
    previous_hash: &[u8],
    address: &[u8],
    merkle_root: &[u8],
    timestamp: u32,
    scaled_difficulty: u16,
) -> (r: Vec<u8>)
    ensures
        r@ == block_prefix(previous_hash@, address@, merkle_root@, timestamp, scaled_difficulty),
{
    let mut out: Vec<u8> = Vec::new();
    if address.len() == COMPRESSED_ADDRESS_LEN {
        out.push(COMPRESSED_VERSION);
    }
    push_bytes(&mut out, previous_hash);
    push_bytes(&mut out, address);
    push_bytes(&mut out, merkle_root);
    push_le_u32(&mut out, timestamp);
    push_le_u16(&mut out, scaled_difficulty);
    out
}

/// The content of the block that `prefix` and `nonce` make: the prefix,
/// followed by the four bytes of the nonce.
pub fn with_nonce(prefix: &[u8], nonce: u32) -> (r: Vec<u8>)
    ensures
        r@ == prefix@ + le_bytes_u32(nonce),
{
    let mut out: Vec<u8> = Vec::new();
    push_bytes(&mut out, prefix);
    push_le_u32(&mut out, nonce);
    out
}

/// Lays out a block's content.
pub fn encode_block(
    previous_hash: &[u8],
    address: &[u8],
    merkle_root: &[u8],
    timestamp: u32,
    scaled_difficulty: u16,
    nonce: u32,
) -> (r: Vec<u8>)
    ensures
        r@ == block_content(
            previous_hash@,
            address@,
            merkle_root@,
            timestamp,
            scaled_difficulty,
            nonce,
        ),
{
    let mut out = encode_block_prefix(
        previous_hash,
        address,
        merkle_root,
        timestamp,
        scaled_difficulty,
    );
    push_le_u32(&mut out, nonce);
    out
}

/// What is wrong with a template, if anything. The address is looked at
/// first, then the previous hash, then the merkle root.
pub open spec fn template_error(
    previous_hash: Seq<char>,
    pool_address: Seq<char>,
    merkle_root: Seq<char>,
) -> Option<MinerError> {
    if address_bytes(pool_address) is None {
        Some(MinerError::InvalidAddressFormat)
    } else if !is_hash_hex(previous_hash) {
        Some(MinerError::InvalidHexField(HexField::PreviousHash))
    } else if !is_hash_hex(merkle_root) {
        Some(MinerError::InvalidHexField(HexField::MerkleRoot))
    } else {
        None
    }
}

/// The content, without a nonce, of the blocks made from a valid template.
pub open spec fn template_prefix(
    previous_hash: Seq<char>,
    pool_address: Seq<char>,
    merkle_root: Seq<char>,
    timestamp: u32,
    scaled_difficulty: u16,
) -> Seq<u8>
    recommends
        template_error(previous_hash, pool_address, merkle_root) is None,
{
    block_prefix(
        hex_decoded(previous_hash),
        address_bytes(pool_address).unwrap(),
        hex_decoded(merkle_root),
        timestamp,
        scaled_difficulty,
    )
}

/// The content of the block that a valid template and a nonce make: the
/// layout of the decoded fields.
pub open spec fn template_content(
    previous_hash: Seq<char>,
    pool_address: Seq<char>,
    merkle_root: Seq<char>,
    timestamp: u32,
    scaled_difficulty: u16,
    nonce: u32,
) -> Seq<u8>
    recommends
        template_error(previous_hash, pool_address, merkle_root) is None,
{
    block_content(
        hex_decoded(previous_hash),
        address_bytes(pool_address).unwrap(),
        hex_decoded(merkle_root),
        timestamp,
        scaled_difficulty,
        nonce,
    )
}

/// What [`build_block_content`] returns for a template and a nonce: the error
/// of the template if it has one, and else the content of the block as
/// lowercase hexadecimal text.
pub open spec fn block_content_text(
    previous_hash: Seq<char>,
    pool_address: Seq<char>,
    merkle_root: Seq<char>,
    timestamp: u32,
    scaled_difficulty: u16,
    nonce: u32,
) -> Result<Seq<char>, MinerError> {
    match template_error(previous_hash, pool_address, merkle_root) {
        Some(e) => Err(e),
        None => Ok(
            hex_encoded(
                template_content(
                    previous_hash,
                    pool_address,
                    merkle_root,
                    timestamp,
                    scaled_difficulty,
                    nonce,
                ),
            ),
        ),
    }
}

/// The content of a block made from a valid template is the template's prefix
/// followed by the nonce. It has `content_len` bytes, and its text two digits
/// for each of them.
pub proof fn lemma_template_content(
    previous_hash: Seq<char>,
    pool_address: Seq<char>,
    merkle_root: Seq<char>,
    timestamp: u32,
    scaled_difficulty: u16,
    nonce: u32,
)
    requires
        template_error(previous_hash, pool_address, merkle_root) is None,
    ensures
        ({
            let content = template_content(
                previous_hash,
                pool_address,
                merkle_root,
                timestamp,
                scaled_difficulty,
                nonce,
            );
            let address = address_bytes(pool_address).unwrap();
            &&& content == template_prefix(
                previous_hash,
                pool_address,
                merkle_root,
                timestamp,
                scaled_difficulty,
            ) + le_bytes_u32(nonce)
            &&& content.len() == content_len(address.len())
            &&& hex_encoded(content).len() == 2 * content_len(address.len())
        }),
{
    lemma_block_content_len(
        hex_decoded(previous_hash),
        address_bytes(pool_address).unwrap(),
        hex_decoded(merkle_root),
        timestamp,
        scaled_difficulty,
        nonce,
    );
}

/// Decodes a field that holds a hash: 64 hexadecimal digits.
pub fn decode_hash(text: &str) -> (r: Option<Vec<u8>>)
    ensures
        r is Some <==> is_hash_hex(text@),
        r matches Some(bytes) ==> bytes@ == hex_decoded(text@) && bytes@.len() == HASH_LEN,
{
    match hex_decode(text) {
        Ok(bytes) => if bytes.len() == HASH_LEN {
            Some(bytes)
        } else {
            None
        },
        Err(_) => None,
    }
}

/// Checks a template and lays out the content, without a nonce, of the blocks
/// made from it.
pub fn encode_template(
    previous_hash: &str,
    pool_address: &str,
    merkle_root: &str,
    timestamp: u32,
    difficulty: Difficulty,
) -> (r: Result<Vec<u8>, MinerError>)
    ensures
        match r {
            Ok(prefix) => {
                &&& template_error(previous_hash@, pool_address@, merkle_root@) is None
                &&& prefix@ == template_prefix(
                    previous_hash@,
                    pool_address@,
                    merkle_root@,
                    timestamp,
                    difficulty@.scaled,
                )
            },
            Err(e) => template_error(previous_hash@, pool_address@, merkle_root@) == Some(e),
        },
{
    let address = match string_to_bytes(pool_address) {
        Ok(bytes) => bytes,
        Err(e) => {
            return Err(e);
        },
    };
    let previous = match decode_hash(previous_hash) {
        Some(bytes) => bytes,
        None => {
            return Err(MinerError::InvalidHexField(HexField::PreviousHash));
        },
    };
    let merkle = match decode_hash(merkle_root) {
        Some(bytes) => bytes,
        None => {
            return Err(MinerError::InvalidHexField(HexField::MerkleRoot));
        },
    };
    Ok(
        encode_block_prefix(
            previous.as_slice(),
            address.as_slice(),
            merkle.as_slice(),
            timestamp,
            difficulty.scaled(),
        ),
    )
}

/// The content of the block that a template and a nonce make, as lowercase
/// hexadecimal text.
///
/// The result depends on the arguments alone: it is `block_content_text` of
/// them. The text of a block's content has two digits for each of its
/// `content_len` bytes.
pub fn build_block_content(
    previous_hash: &str,
    pool_address: &str,
    merkle_root: &str,
    timestamp: u32,
    difficulty: Difficulty,
    nonce: u32,
) -> (r: Result<String, MinerError>)
    ensures
        block_content_text(
            previous_hash@,
            pool_address@,
            merkle_root@,
            timestamp,
            difficulty@.scaled,
            nonce,
        ) == match r {
            Ok(text) => Ok::<Seq<char>, MinerError>(text@),
            Err(e) => Err::<Seq<char>, MinerError>(e),
        },
        r matches Ok(text) ==> text@.len() == 2 * content_len(
            address_bytes(pool_address@).unwrap().len(),
        ),
{
    match encode_template(previous_hash, pool_address, merkle_root, timestamp, difficulty) {
        Ok(prefix) => {
            proof {
                lemma_template_content(
                    previous_hash@,
                    pool_address@,
                    merkle_root@,
                    timestamp,
                    difficulty@.scaled,
                    nonce,
                );
            }
            let content = with_nonce(prefix.as_slice(), nonce);
            Ok(hex_encode(content.as_slice()))
        },
        Err(e) => Err(e),
    }
}

} // verus!
