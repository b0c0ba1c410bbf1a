//! Keyed BLAKE3 hashing of tree nodes and data blocks.

use vstd::prelude::*;
use crate::hexcode::{hex_chars, hex_encode};

verus! {

/// The BLAKE3 digest of `data`.
pub uninterp spec fn blake3_digest(data: Seq<u8>) -> Seq<u8>;

/// The keyed BLAKE3 digest of `data` under the 32-byte `key`.
pub uninterp spec fn blake3_keyed_digest(key: Seq<u8>, data: Seq<u8>) -> Seq<u8>;

/// `blake3::hash`: the 32-byte digest of `data`, named `blake3_digest`.
#[verifier::external_body]
fn hash_with_blake3(data: &[u8]) -> (h: [u8; 32])
    ensures
        h@ == blake3_digest(data@),
{
    *blake3::hash(data).as_bytes()
}

/// `blake3::keyed_hash`: the 32-byte keyed digest of `data`, named `blake3_keyed_digest`.
#[verifier::external_body]
fn keyed_hash_with_blake3(key: &[u8; 32], data: &[u8]) -> (h: [u8; 32])
    ensures
        h@ == blake3_keyed_digest(key@, data@),
{
    *blake3::keyed_hash(key, data).as_bytes()
}

/// The text `smt_node`, whose digest keys the hashing of tree nodes.
pub open spec fn node_key() -> Seq<u8> {
    seq![0x73u8, 0x6d, 0x74, 0x5f, 0x6e, 0x6f, 0x64, 0x65]
}

/// The text `smt_datablock`, whose digest keys the hashing of data blocks.
pub open spec fn datablock_key() -> Seq<u8> {
    seq![0x73u8, 0x6d, 0x74, 0x5f, 0x64, 0x61, 0x74, 0x61, 0x62, 0x6c, 0x6f, 0x63, 0x6b]
}

/// The hash of a tree node's bytes.
pub open spec fn node_digest(data: Seq<u8>) -> Seq<u8> {
    blake3_keyed_digest(blake3_digest(node_key()), data)
}

/// The hash of a data block's bytes.
pub open spec fn datablock_digest(data: Seq<u8>) -> Seq<u8> {
    blake3_keyed_digest(blake3_digest(datablock_key()), data)
}

/// The bytes of `smt_node`.
pub fn node_key_bytes() -> (k: [u8; 8])
    ensures
        k@ == node_key(),
{
    let k: [u8; 8] = [0x73, 0x6d, 0x74, 0x5f, 0x6e, 0x6f, 0x64, 0x65];
    assert(k@ =~= node_key());
    k
}

/// The bytes of `smt_datablock`.
pub fn datablock_key_bytes() -> (k: [u8; 13])
    ensures
        k@ == datablock_key(),
{
    let k: [u8; 13] = [0x73, 0x6d, 0x74, 0x5f, 0x64, 0x61, 0x74, 0x61, 0x62, 0x6c, 0x6f, 0x63, 0x6b];
    assert(k@ =~= datablock_key());
    k
}

/// The hash of a tree node: keyed BLAKE3 under the digest of `smt_node`.
pub fn node_hash(data: &[u8]) -> (h: [u8; 32])
    ensures
        h@ == node_digest(data@),
{
    let key_text = node_key_bytes();
    let key = hash_with_blake3(&key_text);
    keyed_hash_with_blake3(&key, data)
}

/// The hash of a data block: keyed BLAKE3 under the digest of `smt_datablock`.
pub fn datablock_hash(data: &[u8]) -> (h: [u8; 32])
    ensures
        h@ == datablock_digest(data@),
{
    let key_text = datablock_key_bytes();
    let key = hash_with_blake3(&key_text);
    keyed_hash_with_blake3(&key, data)
}

/// The hex text of the node hash of `data`.
pub fn blake3_differential(data: &[u8]) -> (s: String)
    ensures
        s@ == hex_chars(node_digest(data@)),
        s@.len() == 64,
{
    let h = node_hash(data);
    proof {
        crate::hexcode::lemma_hex_length(h@);
    }
    hex_encode(&h)
}

/// The leaves of a tree over data blocks: the data-block hash of each
/// block's bytes, in order.
pub fn as_leaves(datablocks: &Vec<Vec<u8>>) -> (leaves: Vec<[u8; 32]>)
    ensures
        leaves@.len() == datablocks@.len(),
        forall|i: int|
            0 <= i < datablocks@.len() ==> (#[trigger] leaves@[i])@ == datablock_digest(
                datablocks@[i]@,
            ),
{
    let mut leaves: Vec<[u8; 32]> = Vec::new();
    for i in 0..datablocks.len()
        invariant
            leaves@.len() == i,
            forall|j: int|
                0 <= j < i ==> (#[trigger] leaves@[j])@ == datablock_digest(datablocks@[j]@),
    {
        leaves.push(datablock_hash(datablocks[i].as_slice()));
    }
    leaves
}

} // verus!
