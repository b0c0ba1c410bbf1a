//! The Merkle tree over data-block leaves, with node hashes for its inner
//! nodes.

use vstd::prelude::*;
use crate::hashing::{node_digest, node_hash};

verus! {

/// The layer above `layer`: each pair of neighbours, from the left, becomes
/// the node hash of the left one followed by the right one; an unpaired last
/// node moves up unchanged.
pub open spec fn layer_above(layer: Seq<Seq<u8>>) -> Seq<Seq<u8>> {
    Seq::new(
        ((layer.len() + 1) / 2) as nat,
        |i: int|
            if 2 * i + 1 < layer.len() {
                node_digest(layer[2 * i] + layer[2 * i + 1])
            } else {
                layer[2 * i]
            },
    )
}

/// The root of the Merkle tree over `leaves` (at least one): the single node
/// left after moving up layer by layer.
pub open spec fn tree_root(leaves: Seq<Seq<u8>>) -> Seq<u8>
    decreases leaves.len(),
{
    if leaves.len() <= 1 {
        leaves[0]
    } else {
        tree_root(layer_above(leaves))
    }
}

/// The tree's hasher: the node hash of `hashing`.
#[derive(Clone, Copy)]
pub struct NodeHasher {}

impl rs_merkle::Hasher for NodeHasher {
    type Hash = [u8; 32];

    fn hash(data: &[u8]) -> [u8; 32] {
        node_hash(data)
    }
}

/// `rs_merkle::MerkleTree::from_leaves(..).root()`: no root for no leaves,
/// otherwise `tree_root` of the leaves. The crate builds each layer from the
/// one below by `Hasher::concat_and_hash` on neighbouring pairs from the left
/// (the node hash of the two joined, here `node_hash`; an unpaired node moves
/// up unchanged), for at least as many layers as halving takes to reach a
/// single node, and a single node moves up unchanged.
#[verifier::external_body]
pub(crate) fn tree_root_with_rs_merkle(leaves: &Vec<[u8; 32]>) -> (r: Option<[u8; 32]>)
    ensures
        r is None <==> leaves@.len() == 0,
        r matches Some(root) ==> root@ == tree_root(leaves@.map_values(|l: [u8; 32]| l@)),
{
    rs_merkle::MerkleTree::<NodeHasher>::from_leaves(leaves).root()
}

/// A tree of one leaf has that leaf as its root; of two, the node hash of
/// both; of three, the node hash of the first two's node hash and the third.
pub proof fn lemma_small_trees(a: Seq<u8>, b: Seq<u8>, c: Seq<u8>)
    ensures
        tree_root(seq![a]) == a,
        tree_root(seq![a, b]) == node_digest(a + b),
        tree_root(seq![a, b, c]) == node_digest(node_digest(a + b) + c),
{
    let ab = node_digest(a + b);
    let abc = node_digest(ab + c);
    let two = seq![a, b];
    assert(layer_above(two) =~= seq![ab]);
    assert(tree_root(seq![ab]) == ab);
    assert(tree_root(two) == tree_root(layer_above(two)));
    let three = seq![a, b, c];
    let up = seq![ab, c];
    assert(layer_above(three) =~= up);
    assert(layer_above(up) =~= seq![abc]);
    assert(tree_root(seq![abc]) == abc);
    assert(tree_root(up) == tree_root(layer_above(up)));
    assert(tree_root(three) == tree_root(layer_above(three)));
}

} // verus!
