# melcheck

Payloads for differential tests between this chain's reference encodings
and an on-chain verifier.

- `src/` — the verified library:
  - `text`: digits, fixed-width 64-digit words, right padding;
  - `hexcode`: hex text of bytes and its reading back;
  - `varint`: the stdcode (bincode varint) encoding of `u128`;
  - `slicing`: byte ranges picked forwards or backwards;
  - `hashing`: keyed BLAKE3 node and data-block hashes, tree leaves;
  - `merkle`: the Merkle tree root over the leaves;
  - `signing`: Ed25519 keys and signatures as hex text;
  - `ledger`, `generate`: headers, coins, transactions and stake documents,
    and their random generation;
  - `payload`: the payload texts that the tests print.
- `app/` — the command-line driver: argument handling, serialization of the
  ledger structures, printing.
- `tests/` — tests of the library on concrete values.
