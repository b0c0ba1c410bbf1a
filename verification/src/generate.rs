//! Random ledger structures for the tests, with the fields that a test
//! fixes and the sizes that every generated structure keeps.

use vstd::prelude::*;
use crate::hexcode::{hex_decode, hex_decoded};
use crate::ledger::{CoinData, CoinId, Denom, Header, NetId, StakeDoc, Transaction, TxKind};
use crate::random::{random_hash, random_public_key, random_u128, random_u32_in, random_u64, random_u8};

verus! {

/// The numbers a header modifier fixes: height, fee pool, fee multiplier and
/// DOSC speed. Modifier 0 and the largest values of the unsigned integer
/// types fix them to that value (the height saturating at the largest
/// `u64`); any other modifier leaves them random (`None`).
pub open spec fn header_profile(modifier: u128) -> Option<(u64, u128, u128, u128)> {
    if modifier == 0 {
        Some((0, 0, 0, 0))
    } else if modifier == 0xff {
        Some((0xff, 0xff, 0xff, 0xff))
    } else if modifier == 0xffff {
        Some((0xffff, 0xffff, 0xffff, 0xffff))
    } else if modifier == 0xffff_ffff {
        Some((0xffff_ffff, 0xffff_ffff, 0xffff_ffff, 0xffff_ffff))
    } else if modifier == 0xffff_ffff_ffff_ffff {
        Some(
            (
                0xffff_ffff_ffff_ffff,
                0xffff_ffff_ffff_ffff,
                0xffff_ffff_ffff_ffff,
                0xffff_ffff_ffff_ffff,
            ),
        )
    } else if modifier == u128::MAX {
        Some((0xffff_ffff_ffff_ffff, u128::MAX, u128::MAX, u128::MAX))
    } else {
        None
    }
}

/// Whether `h` is a main-network header whose numbers follow `modifier`.
pub open spec fn header_follows(h: Header, modifier: u128) -> bool {
    &&& h.network == NetId::Mainnet
    &&& header_profile(modifier) matches Some(p) ==> (h.height, h.fee_pool, h.fee_multiplier, h.dosc_speed) == p
}

/// The six hashes of a header.
#[derive(Clone, Copy, Debug)]
pub struct HeaderHashes {
    pub previous: [u8; 32],
    pub history_hash: [u8; 32],
    pub coins_hash: [u8; 32],
    pub transactions_hash: [u8; 32],
    pub pools_hash: [u8; 32],
    pub stakes_hash: [u8; 32],
}

/// The numbers of a header: those `modifier` fixes, else the `drawn` ones.
pub open spec fn header_numbers(modifier: u128, drawn: (u64, u128, u128, u128)) -> (u64, u128, u128, u128) {
    match header_profile(modifier) {
        Some(p) => p,
        None => drawn,
    }
}

/// The main-network header with `hashes`, whose height, fee pool, fee
/// multiplier and DOSC speed are `header_numbers(modifier, drawn)`.
pub open spec fn header_with(modifier: u128, hashes: HeaderHashes, drawn: (u64, u128, u128, u128)) -> Header {
    let n = header_numbers(modifier, drawn);
    Header {
        network: NetId::Mainnet,
        previous: hashes.previous,
        height: n.0,
        history_hash: hashes.history_hash,
        coins_hash: hashes.coins_hash,
        transactions_hash: hashes.transactions_hash,
        fee_pool: n.1,
        fee_multiplier: n.2,
        dosc_speed: n.3,
        pools_hash: hashes.pools_hash,
        stakes_hash: hashes.stakes_hash,
    }
}

/// The numbers `modifier` fixes, if it fixes them.
pub fn fixed_header_numbers(modifier: u128) -> (r: Option<(u64, u128, u128, u128)>)
    ensures
        r == header_profile(modifier),
{
    if modifier == 0 {
        Some((0, 0, 0, 0))
    } else if modifier == 0xff {
        Some((0xff, 0xff, 0xff, 0xff))
    } else if modifier == 0xffff {
        Some((0xffff, 0xffff, 0xffff, 0xffff))
    } else if modifier == 0xffff_ffff {
        Some((0xffff_ffff, 0xffff_ffff, 0xffff_ffff, 0xffff_ffff))
    } else if modifier == 0xffff_ffff_ffff_ffff {
        Some(
            (
                0xffff_ffff_ffff_ffff,
                0xffff_ffff_ffff_ffff,
                0xffff_ffff_ffff_ffff,
                0xffff_ffff_ffff_ffff,
            ),
        )
    } else if modifier == u128::MAX {
        Some((0xffff_ffff_ffff_ffff, u128::MAX, u128::MAX, u128::MAX))
    } else {
        None
    }
}

/// The header that `modifier`, the drawn hashes and the drawn numbers give.
pub fn header_from_draws(modifier: u128, hashes: HeaderHashes, drawn: (u64, u128, u128, u128)) -> (h: Header)
    ensures
        h == header_with(modifier, hashes, drawn),
{
    let (height, fee_pool, fee_multiplier, dosc_speed) = match fixed_header_numbers(modifier) {
        Some(p) => p,
        None => drawn,
    };
    Header {
        network: NetId::Mainnet,
        previous: hashes.previous,
        height,
        history_hash: hashes.history_hash,
        coins_hash: hashes.coins_hash,
        transactions_hash: hashes.transactions_hash,
        fee_pool,
        fee_multiplier,
        dosc_speed,
        pools_hash: hashes.pools_hash,
        stakes_hash: hashes.stakes_hash,
    }
}

/// A main-network header with random hashes, whose height, fee pool, fee
/// multiplier and DOSC speed follow `modifier`, and are random where it
/// fixes none.
pub fn random_header(modifier: u128) -> (h: Header)
    ensures
        header_follows(h, modifier),
        exists|hashes: HeaderHashes, drawn: (u64, u128, u128, u128)|
            h == header_with(modifier, hashes, drawn),
{
    let hashes = HeaderHashes {
        previous: random_hash(),
        history_hash: random_hash(),
        coins_hash: random_hash(),
        transactions_hash: random_hash(),
        pools_hash: random_hash(),
        stakes_hash: random_hash(),
    };
    let drawn = match fixed_header_numbers(modifier) {
        Some(p) => p,
        None => (random_u64(), random_u128(), random_u128(), random_u128()),
    };
    header_from_draws(modifier, hashes, drawn)
}

/// A random header as `random_header` makes it, at height `block_height`.
pub fn header_at_height(block_height: u64, modifier: u128) -> (h: Header)
    ensures
        h.network == NetId::Mainnet,
        h.height == block_height,
        header_profile(modifier) matches Some(p) ==> (h.fee_pool, h.fee_multiplier, h.dosc_speed)
            == (p.1, p.2, p.3),
{
    let mut h = random_header(modifier);
    h.height = block_height;
    h
}

/// `n` random bytes.
pub fn random_bytes(n: u32) -> (v: Vec<u8>)
    ensures
        v@.len() == n,
{
    let mut v: Vec<u8> = Vec::new();
    for i in 0..n
        invariant
            v@.len() == i,
    {
        v.push(random_u8());
    }
    v
}

/// The coin reference that the drawn hash and index give.
pub fn coin_id_from_draws(txhash: [u8; 32], index: u8) -> (c: CoinId)
    ensures
        c.txhash == txhash,
        c.index == index,
{
    CoinId { txhash, index }
}

/// A reference to a random coin.
pub fn random_coin_id() -> (c: CoinId) {
    let txhash = random_hash();
    let index = random_u8();
    coin_id_from_draws(txhash, index)
}

/// Whether `c` is a coin as `random_coin_data` makes them: in the native
/// denomination, with fewer than 32 bytes of extra data.
pub open spec fn coin_data_shape(c: CoinData) -> bool {
    &&& c.denom == Denom::Mel
    &&& c.additional_data@.len() < 32
}

/// A random coin in the native denomination, with 0 to 31 random bytes of
/// extra data.
pub fn random_coin_data() -> (c: CoinData)
    ensures
        coin_data_shape(c),
{
    let size = random_u32_in(0, 32);
    let additional_data = random_bytes(size);
    let covhash = random_hash();
    let value = random_u128();
    coin_data_from_draws(covhash, value, additional_data)
}

/// The native-denomination coin that the drawn covenant hash, value and
/// extra data give.
pub fn coin_data_from_draws(covhash: [u8; 32], value: u128, additional_data: Vec<u8>) -> (c: CoinData)
    ensures
        c.covhash == covhash,
        c.value == value,
        c.denom == Denom::Mel,
        c.additional_data@ == additional_data@,
{
    CoinData { covhash, value, denom: Denom::Mel, additional_data }
}

/// Whether every byte string in `v` is shorter than 32 bytes.
pub open spec fn all_shorter_than_32(v: Seq<Vec<u8>>) -> bool {
    forall|i: int| 0 <= i < v.len() ==> (#[trigger] v[i])@.len() < 32
}

/// Whether `tx` is a transaction as `random_transaction` makes them: a swap
/// with 1 to 31 inputs, outputs, covenants and signatures, each covenant and
/// signature shorter than 32 bytes, every output as `random_coin_data` makes
/// them, and 2 bytes of data.
pub open spec fn transaction_shape(tx: Transaction) -> bool {
    &&& tx.kind == TxKind::Swap
    &&& 1 <= tx.inputs@.len() < 32
    &&& 1 <= tx.outputs@.len() < 32
    &&& forall|i: int| 0 <= i < tx.outputs@.len() ==> coin_data_shape(#[trigger] tx.outputs@[i])
    &&& 1 <= tx.covenants@.len() < 32
    &&& all_shorter_than_32(tx.covenants@)
    &&& tx.data@.len() == 2
    &&& 1 <= tx.sigs@.len() < 32
    &&& all_shorter_than_32(tx.sigs@)
}

/// Between 1 and 31 random byte strings, each shorter than 32 bytes.
fn random_byte_strings() -> (v: Vec<Vec<u8>>)
    ensures
        1 <= v@.len() < 32,
        all_shorter_than_32(v@),
{
    let count = random_u32_in(1, 32);
    let mut v: Vec<Vec<u8>> = Vec::new();
    for i in 0..count
        invariant
            v@.len() == i,
            all_shorter_than_32(v@),
    {
        let size = random_u32_in(0, 32);
        v.push(random_bytes(size));
    }
    v
}

/// A random swap transaction.
pub fn random_transaction() -> (tx: Transaction)
    ensures
        transaction_shape(tx),
{
    let num_inputs = random_u32_in(1, 32);
    let mut inputs: Vec<CoinId> = Vec::new();
    for i in 0..num_inputs
        invariant
            inputs@.len() == i,
    {
        inputs.push(random_coin_id());
    }
    let num_outputs = random_u32_in(1, 32);
    let mut outputs: Vec<CoinData> = Vec::new();
    for i in 0..num_outputs
        invariant
            outputs@.len() == i,
            forall|j: int| 0 <= j < outputs@.len() ==> coin_data_shape(#[trigger] outputs@[j]),
    {
        outputs.push(random_coin_data());
    }
    let covenants = random_byte_strings();
    let sigs = random_byte_strings();
    let fee = random_u128();
    let data = random_bytes(2);
    Transaction { kind: TxKind::Swap, inputs, outputs, fee, covenants, data, sigs }
}

/// A random transaction whose first output carries `value` and, as its
/// extra data, the bytes that the hex text `recipient` stands for. `None`
/// exactly when `recipient` is no hex text.
pub fn transaction_to_recipient(value: u128, recipient: &str) -> (r: Option<Transaction>)
    ensures
        r is None <==> hex_decoded(recipient@) is None,
        r matches Some(tx) ==> {
            &&& tx.kind == TxKind::Swap
            &&& 1 <= tx.inputs@.len() < 32
            &&& 1 <= tx.outputs@.len() < 32
            &&& tx.outputs@[0].value == value
            &&& tx.outputs@[0].denom == Denom::Mel
            &&& hex_decoded(recipient@) == Some(tx.outputs@[0].additional_data@)
            &&& forall|i: int| 1 <= i < tx.outputs@.len() ==> coin_data_shape(#[trigger] tx.outputs@[i])
            &&& 1 <= tx.covenants@.len() < 32
            &&& all_shorter_than_32(tx.covenants@)
            &&& tx.data@.len() == 2
            &&& 1 <= tx.sigs@.len() < 32
            &&& all_shorter_than_32(tx.sigs@)
        },
{
    let mut tx = random_transaction();
    match hex_decode(recipient) {
        None => None,
        Some(bytes) => {
            let covhash = tx.outputs[0].covhash;
            let first = CoinData { covhash, value, denom: Denom::Mel, additional_data: bytes };
            tx.outputs.set(0, first);
            Some(tx)
        },
    }
}

/// A stake document with a fresh public key and random epochs and stake.
pub fn random_stakedoc() -> (d: StakeDoc) {
    let pubkey = random_public_key();
    let e_start = random_u64();
    let e_post_end = random_u64();
    let syms_staked = random_u128();
    stakedoc_from_draws(pubkey, e_start, e_post_end, syms_staked)
}

/// The stake document that the drawn key, epochs and stake give.
pub fn stakedoc_from_draws(pubkey: [u8; 32], e_start: u64, e_post_end: u64, syms_staked: u128) -> (d: StakeDoc)
    ensures
        d.pubkey == pubkey,
        d.e_start == e_start,
        d.e_post_end == e_post_end,
        d.syms_staked == syms_staked,
{
    StakeDoc { pubkey, e_start, e_post_end, syms_staked }
}

/// The stake documents whose serializations the big-hash payload covers:
/// 800 random ones.
pub fn big_hash_documents() -> (docs: Vec<StakeDoc>)
    ensures
        docs@.len() == 800,
{
    create_datablocks(800)
}

/// `num` random stake documents.
pub fn create_datablocks(num: u32) -> (docs: Vec<StakeDoc>)
    ensures
        docs@.len() == num,
{
    let mut docs: Vec<StakeDoc> = Vec::new();
    for i in 0..num
        invariant
            docs@.len() == i,
    {
        docs.push(random_stakedoc());
    }
    docs
}

} // verus!
