use melcheck::hashing::{as_leaves, blake3_differential, datablock_hash, node_hash};
use melcheck::signing::{ed25519_differential, key_and_signature};

fn keyed(key_text: &[u8], data: &[u8]) -> [u8; 32] {
    *blake3::keyed_hash(blake3::hash(key_text).as_bytes(), data).as_bytes()
}

#[test]
fn node_hash_is_keyed_by_smt_node() {
    assert_eq!(node_hash(b"abc"), keyed(b"smt_node", b"abc"));
    assert_ne!(node_hash(b"abc"), node_hash(b"abd"));
}

#[test]
fn datablock_hash_is_keyed_by_smt_datablock() {
    assert_eq!(datablock_hash(b"block"), keyed(b"smt_datablock", b"block"));
    assert_ne!(datablock_hash(b"block"), node_hash(b"block"));
}

#[test]
fn blake3_payload() {
    let data = [0u8, 1, 2, 3];
    assert_eq!(blake3_differential(&data), hex::encode(keyed(b"smt_node", &data)));
    assert_eq!(blake3_differential(&data).len(), 64);
}

#[test]
fn leaves_hash_each_block() {
    let blocks = vec![vec![1u8, 2], vec![], vec![3u8]];
    let leaves = as_leaves(&blocks);
    assert_eq!(leaves.len(), 3);
    for (leaf, block) in leaves.iter().zip(blocks.iter()) {
        assert_eq!(*leaf, keyed(b"smt_datablock", block));
    }
}

#[test]
fn zero_seed_has_no_key() {
    assert_eq!(key_and_signature(&[0u8; 32], &[0u8; 16], b"m"), None);
}

#[test]
fn key_and_signature_matches_the_crate() {
    let seed = [7u8; 32];
    let noise = [3u8; 16];
    let kp = ed25519_compact::KeyPair::from_seed(ed25519_compact::Seed::new(seed));
    let sig = kp.sk.sign(b"hello", Some(ed25519_compact::Noise::new(noise)));
    let expected = format!("{}{}", hex::encode(*kp.pk), hex::encode(*sig));
    assert_eq!(expected.len(), 192);
    assert_eq!(key_and_signature(&seed, &noise, b"hello"), Some(expected));
}

#[test]
fn random_signature_verifies() {
    let data = b"differential";
    let text = ed25519_differential(data).unwrap();
    assert_eq!(text.len(), 192);
    let bytes = hex::decode(&text).unwrap();
    let pk = ed25519_compact::PublicKey::from_slice(&bytes[..32]).unwrap();
    let sig = ed25519_compact::Signature::from_slice(&bytes[32..]).unwrap();
    assert!(pk.verify(data, &sig).is_ok());
}
