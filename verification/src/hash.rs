//! Transaction ids and block hashes.

use vstd::arithmetic::power2::pow2;
use vstd::prelude::*;

verus! {

/// A transaction id: the 32 bytes of the hash as two big-endian halves.
///
/// The order of the pairs is the order of the hashes' bytes.
pub type Txid = (u128, u128);

/// A block hash: the 32 bytes of the hash as two big-endian halves.
#[derive(Clone, Copy, Debug, PartialEq, Eq, Structural, Hash)]
pub struct BlockHash {
    /// The first 16 bytes.
    pub hi: u128,
    /// The last 16 bytes.
    pub lo: u128,
}

/// The lower-case hexadecimal digit of `n`.
pub open spec fn hex_digit(n: int) -> char {
    if n < 10 {
        (n + '0' as int) as char
    } else {
        (n - 10 + 'a' as int) as char
    }
}

/// Byte `i` of a hash, counted from the last byte backwards.
pub open spec fn byte_from_end(hi: u128, lo: u128, i: int) -> int {
    if i < 16 {
        (lo as int / pow2((8 * i) as nat) as int) % 256
    } else {
        (hi as int / pow2((8 * (i - 16)) as nat) as int) % 256
    }
}

/// How a hash is shown: its bytes in reverse order, two hexadecimal digits each.
pub open spec fn reversed_hex(hi: u128, lo: u128) -> Seq<char> {
    Seq::new(
        64,
        |i: int|
            hex_digit(
                if i % 2 == 0 {
                    byte_from_end(hi, lo, i / 2) / 16
                } else {
                    byte_from_end(hi, lo, i / 2) % 16
                },
            ),
    )
}

/// Calls `bitcoin::Txid::all_zeros`: the id whose bytes are all zero.
#[verifier::external_body]
pub(crate) fn txid_all_zeros() -> (id: Txid)
    ensures
        id == (0u128, 0u128),
{
    let bytes: [u8; 32] = bitcoin::hashes::Hash::into_inner(
        <bitcoin::Txid as bitcoin::hashes::Hash>::all_zeros(),
    );
    (
        u128::from_be_bytes(bytes[..16].try_into().unwrap()),
        u128::from_be_bytes(bytes[16..].try_into().unwrap()),
    )
}

/// Calls `Display` of `bitcoin::Txid`: the bytes of the id in reverse order, in hexadecimal.
#[verifier::external_body]
pub(crate) fn txid_to_string(txid: Txid) -> (text: String)
    ensures
        text@ == reversed_hex(txid.0, txid.1),
{
    let mut bytes = [0u8; 32];
    bytes[..16].copy_from_slice(&txid.0.to_be_bytes());
    bytes[16..].copy_from_slice(&txid.1.to_be_bytes());
    let id: bitcoin::Txid = bitcoin::hashes::Hash::from_inner(bytes);
    id.to_string()
}

/// Calls `Display` of `bitcoin::BlockHash`: the bytes of the hash in reverse order, in
/// hexadecimal.
#[verifier::external_body]
pub(crate) fn block_hash_to_string(hash: BlockHash) -> (text: String)
    ensures
        text@ == reversed_hex(hash.hi, hash.lo),
{
    let mut bytes = [0u8; 32];
    bytes[..16].copy_from_slice(&hash.hi.to_be_bytes());
    bytes[16..].copy_from_slice(&hash.lo.to_be_bytes());
    let hash: bitcoin::BlockHash = bitcoin::hashes::Hash::from_inner(bytes);
    hash.to_string()
}

} // verus!
