use melcheck::ledger::{Header, NetId};
use melcheck::hashing::as_leaves;
use melcheck::merkle::NodeHasher;
use melcheck::payload::{
    big_hash, build_tree_differential, concatenate, extract_transactions_hash_differential,
    tree_leaf_count, tree_payload, zero_extend,
};
use rs_merkle::MerkleTree;

fn header_with_hash(hash: [u8; 32]) -> Header {
    Header {
        network: NetId::Mainnet,
        previous: [0; 32],
        height: 1,
        history_hash: [0; 32],
        coins_hash: [0; 32],
        transactions_hash: hash,
        fee_pool: 0,
        fee_multiplier: 0,
        dosc_speed: 0,
        pools_hash: [0; 32],
        stakes_hash: [0; 32],
    }
}

#[test]
fn zero_extension_adds_len_mod_64() {
    assert_eq!(zero_extend(&[1, 2, 3]), vec![1, 2, 3, 0, 0, 0]);
    assert_eq!(zero_extend(&[]), Vec::<u8>::new());
    assert_eq!(zero_extend(&[5u8; 64]).len(), 64);
    assert_eq!(zero_extend(&[5u8; 70]).len(), 76);
}

#[test]
fn transactions_hash_payload() {
    let h = header_with_hash([0xaa; 32]);
    let s = extract_transactions_hash_differential(&h, &[1, 2, 3]);
    let expected = format!(
        "{:0>64x}{}{:0>64x}{:0<64}",
        0x40,
        hex::encode([0xaa; 32]),
        3,
        "010203000000"
    );
    assert_eq!(s, expected);
}

#[test]
fn tree_payload_layout() {
    let blocks = vec![vec![1u8, 2], vec![]];
    let s = tree_payload(&blocks, "abcd");
    let expected = format!("{:0>64}{}{:0>64}{} {}", 2, "01020000", 0, "", "abcd");
    assert_eq!(s, expected);
}

#[test]
fn tree_payload_of_concatenation() {
    let a = vec![vec![9u8; 3]];
    let b = vec![vec![1u8], vec![2u8, 3]];
    let mut ab = a.clone();
    ab.extend(b.clone());
    let sa = tree_payload(&a, "");
    let sb = tree_payload(&b, "");
    let sab = tree_payload(&ab, "");
    assert_eq!(format!("{}{} ", &sa[..sa.len() - 1], &sb[..sb.len() - 1]), sab);
}

#[test]
fn tree_leaf_count_wraps_at_16() {
    assert_eq!(tree_leaf_count(5), 5);
    assert_eq!(tree_leaf_count(16), 0);
    assert_eq!(tree_leaf_count(35), 3);
}

#[test]
fn big_hash_payload() {
    let docs = [7u8, 8];
    let text = "07080000";
    let digest = *blake3::keyed_hash(blake3::hash(b"smt_datablock").as_bytes(), text.as_bytes()).as_bytes();
    let expected = format!("{:0>64x}{}{:0>64x}{}", 0x40, hex::encode(digest), text.len() / 2, text);
    assert_eq!(big_hash(&docs), expected);
}

#[test]
fn tree_payload_carries_the_merkle_root() {
    let blocks = vec![vec![1u8, 2, 3], vec![4u8], vec![], vec![5u8; 70]];
    let leaves = as_leaves(&blocks);
    let root = MerkleTree::<NodeHasher>::from_leaves(&leaves).root_hex().unwrap();
    let s = build_tree_differential(&blocks).unwrap();
    assert_eq!(s, tree_payload(&blocks, &root));
    assert!(s.ends_with(&format!(" {}", root)));
    assert_eq!(root.len(), 64);
}

#[test]
fn tree_of_one_block() {
    let blocks = vec![vec![9u8]];
    let s = build_tree_differential(&blocks).unwrap();
    let root = MerkleTree::<NodeHasher>::from_leaves(&as_leaves(&blocks)).root_hex().unwrap();
    assert_eq!(s, tree_payload(&blocks, &root));
}

#[test]
fn no_blocks_no_tree() {
    assert_eq!(build_tree_differential(&vec![]), None);
}

#[test]
fn concatenation_of_documents() {
    assert_eq!(concatenate(&vec![vec![1u8, 2], vec![], vec![3u8]]), vec![1, 2, 3]);
    assert_eq!(concatenate(&vec![]), Vec::<u8>::new());
}

fn join(a: &[u8; 32], b: &[u8; 32]) -> [u8; 32] {
    let mut v = a.to_vec();
    v.extend_from_slice(b);
    melcheck::hashing::node_hash(&v)
}

fn root_of(blocks: &Vec<Vec<u8>>) -> String {
    let s = build_tree_differential(blocks).unwrap();
    s[s.len() - 64..].to_string()
}

#[test]
fn merkle_roots_of_small_trees() {
    let blocks: Vec<Vec<u8>> = (0u8..5).map(|i| vec![i; (i as usize) + 1]).collect();
    let l = as_leaves(&blocks);
    assert_eq!(root_of(&blocks[..1].to_vec()), hex::encode(l[0]));
    assert_eq!(root_of(&blocks[..2].to_vec()), hex::encode(join(&l[0], &l[1])));
    assert_eq!(root_of(&blocks[..3].to_vec()), hex::encode(join(&join(&l[0], &l[1]), &l[2])));
    let five = join(&join(&join(&l[0], &l[1]), &join(&l[2], &l[3])), &l[4]);
    assert_eq!(root_of(&blocks), hex::encode(five));
}
