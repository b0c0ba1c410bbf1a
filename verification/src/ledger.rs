//! The ledger structures that the tests generate: block headers, coins,
//! transactions and stake documents, with their fields as plain values.

use vstd::prelude::*;

verus! {

/// The network a header belongs to.
#[derive(Clone, Copy, Debug, PartialEq, Eq, Structural)]
pub enum NetId {
    Mainnet,
}

/// The denomination of a coin.
#[derive(Clone, Copy, Debug, PartialEq, Eq, Structural)]
pub enum Denom {
    Mel,
}

/// The kind of a transaction.
#[derive(Clone, Copy, Debug, PartialEq, Eq, Structural)]
pub enum TxKind {
    Swap,
}

/// A block header.
#[derive(Debug)]
pub struct Header {
    pub network: NetId,
    pub previous: [u8; 32],
    pub height: u64,
    pub history_hash: [u8; 32],
    pub coins_hash: [u8; 32],
    pub transactions_hash: [u8; 32],
    pub fee_pool: u128,
    pub fee_multiplier: u128,
    pub dosc_speed: u128,
    pub pools_hash: [u8; 32],
    pub stakes_hash: [u8; 32],
}

/// A reference to a coin: the transaction that made it and its output index.
#[derive(Debug)]
pub struct CoinId {
    pub txhash: [u8; 32],
    pub index: u8,
}

/// A coin: the covenant that guards it, its value and denomination, and
/// arbitrary extra data.
#[derive(Debug)]
pub struct CoinData {
    pub covhash: [u8; 32],
    pub value: u128,
    pub denom: Denom,
    pub additional_data: Vec<u8>,
}

/// A transaction.
#[derive(Debug)]
pub struct Transaction {
    pub kind: TxKind,
    pub inputs: Vec<CoinId>,
    pub outputs: Vec<CoinData>,
    pub fee: u128,
    pub covenants: Vec<Vec<u8>>,
    pub data: Vec<u8>,
    pub sigs: Vec<Vec<u8>>,
}

/// A stake document: who staked, for which epochs, and how much.
#[derive(Debug)]
pub struct StakeDoc {
    pub pubkey: [u8; 32],
    pub e_start: u64,
    pub e_post_end: u64,
    pub syms_staked: u128,
}

} // verus!
