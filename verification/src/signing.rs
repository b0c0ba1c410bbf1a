//! Ed25519 keys and signatures from seeds and signing noise.

use vstd::prelude::*;
use crate::hexcode::{hex_chars, hex_encode, lemma_hex_concat, lemma_hex_length};

verus! {

/// The Ed25519 public key derived from the 32-byte `seed`.
pub uninterp spec fn ed25519_public_key(seed: Seq<u8>) -> Seq<u8>;

/// The 64-byte signature of `message` by the key pair derived from `seed`,
/// made with the 16 bytes of signing `noise`.
pub uninterp spec fn ed25519_signature(seed: Seq<u8>, message: Seq<u8>, noise: Seq<u8>) -> Seq<u8>;

/// Whether every byte of `s` is zero.
pub open spec fn all_zero(s: Seq<u8>) -> bool {
    forall|i: int| 0 <= i < s.len() ==> s[i] == 0
}

/// The hex text of the public key of `seed` followed by the hex text of the
/// signature of `message`.
pub open spec fn key_and_signature_text(seed: Seq<u8>, noise: Seq<u8>, message: Seq<u8>) -> Seq<char> {
    hex_chars(ed25519_public_key(seed)) + hex_chars(ed25519_signature(seed, message, noise))
}

/// `ed25519_compact::Seed::default`: 32 random bytes; nothing is promised of them.
#[verifier::external_body]
fn random_seed() -> (seed: [u8; 32]) {
    *ed25519_compact::Seed::default()
}

/// `ed25519_compact::Noise::generate`: 16 random bytes; nothing is promised of them.
#[verifier::external_body]
fn random_noise() -> (noise: [u8; 16]) {
    *ed25519_compact::Noise::generate()
}

/// `ed25519_compact::KeyPair::try_from_seed`, keeping the public key: the
/// crate refuses exactly the all-zero seed; otherwise the key is the one that
/// `ed25519_public_key` names.
#[verifier::external_body]
fn public_key_of_seed(seed: &[u8; 32]) -> (pk: Option<[u8; 32]>)
    ensures
        pk is None <==> all_zero(seed@),
        pk matches Some(k) ==> k@ == ed25519_public_key(seed@),
{
    match ed25519_compact::KeyPair::try_from_seed(ed25519_compact::Seed::new(*seed)) {
        Ok(kp) => Some(*kp.pk),
        Err(_) => None,
    }
}

/// `ed25519_compact::SecretKey::sign` with noise, on the key pair of `seed`
/// (`KeyPair::from_seed` panics on the all-zero seed, which `requires` leaves
/// out): the signature that `ed25519_signature` names.
#[verifier::external_body]
fn sign_with_seed(seed: &[u8; 32], message: &[u8], noise: &[u8; 16]) -> (sig: [u8; 64])
    requires
        !all_zero(seed@),
    ensures
        sig@ == ed25519_signature(seed@, message@, noise@),
{
    let kp = ed25519_compact::KeyPair::from_seed(ed25519_compact::Seed::new(*seed));
    *kp.sk.sign(message, Some(ed25519_compact::Noise::new(*noise)))
}

/// Whether every byte of `seed` is zero.
pub fn seed_is_all_zero(seed: &[u8; 32]) -> (z: bool)
    ensures
        z == all_zero(seed@),
{
    for i in 0..32
        invariant
            seed@.len() == 32,
            forall|j: int| 0 <= j < i ==> seed@[j] == 0,
    {
        if seed[i] != 0 {
            return false;
        }
    }
    true
}

/// The hex text of the public key of `seed` followed by that of the signature
/// of `message` made with `noise`; `None` exactly for the all-zero seed, which
/// derives no key pair.
pub fn key_and_signature(seed: &[u8; 32], noise: &[u8; 16], message: &[u8]) -> (r: Option<String>)
    ensures
        r is None <==> all_zero(seed@),
        r matches Some(s) ==> s@ == key_and_signature_text(seed@, noise@, message@),
        r matches Some(s) ==> s@.len() == 192,
{
    match public_key_of_seed(seed) {
        None => None,
        Some(pk) => {
            let sig = sign_with_seed(seed, message, noise);
            let mut s = hex_encode(&pk);
            let t = hex_encode(&sig);
            s.append(t.as_str());
            proof {
                lemma_hex_length(pk@);
                lemma_hex_length(sig@);
            }
            Some(s)
        },
    }
}

/// A fresh random key pair's public key and its signature of `data`, as hex
/// text. Whatever the random seed and noise, the text is the one that
/// `key_and_signature_text` gives for them. A seed drawn all zero derives no
/// key pair, so its first byte is set to one before use: every message, the
/// empty one included, gets a key and a signature.
pub fn ed25519_differential(data: &[u8]) -> (r: Option<String>)
    ensures
        exists|seed: Seq<u8>, noise: Seq<u8>|
            {
                &&& seed.len() == 32
                &&& noise.len() == 16
                &&& (r is None <==> all_zero(seed))
                &&& (r matches Some(s) ==> s@ == key_and_signature_text(seed, noise, data@))
            },
        r matches Some(s) ==> s@.len() == 192,
        r is Some,
{
    let mut seed = random_seed();
    if seed_is_all_zero(&seed) {
        seed[0] = 1;
        assert(seed@[0] != 0);
    }
    let noise = random_noise();
    let r = key_and_signature(&seed, &noise, data);
    assert(seed@.len() == 32 && noise@.len() == 16);
    r
}

/// The key-and-signature text is the hex text of the public key and the
/// signature laid end to end.
pub proof fn lemma_key_and_signature_is_hex_of_both(seed: Seq<u8>, noise: Seq<u8>, message: Seq<u8>)
    ensures
        key_and_signature_text(seed, noise, message) == hex_chars(
            ed25519_public_key(seed) + ed25519_signature(seed, message, noise),
        ),
{
    lemma_hex_concat(ed25519_public_key(seed), ed25519_signature(seed, message, noise));
}

} // verus!
