//! Payload construction for differential tests between this chain's
//! reference encodings and an on-chain verifier: hex and ABI-word text,
//! variable-length integer encoding, byte slicing, keyed hashing,
//! signatures and randomly generated ledger structures.

pub mod text;
pub mod hexcode;
pub mod varint;
pub mod slicing;
pub mod hashing;
pub mod merkle;
pub mod signing;
pub mod ledger;
mod random;
pub mod generate;
pub mod payload;
