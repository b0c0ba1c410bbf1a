//! The text payloads that the differential tests hand to the verifier under
//! test: hex text, and 64-digit words in the style of ABI encoding.

use vstd::prelude::*;
use crate::hashing::{as_leaves, datablock_digest, datablock_hash};
use crate::merkle::{tree_root, tree_root_with_rs_merkle};
use crate::hexcode::{hex_chars, hex_decoded, hex_encode, lemma_hex_concat, lemma_hex_length, lemma_hex_round_trip};
use crate::ledger::Header;
use crate::slicing::{select_bytes, slice_bounds_ok, slice_selection};
use crate::text::{
    decimal_word, digits_value, fixed_digits, hex_word, lemma_fixed_digits_len,
    lemma_fixed_digits_value, lemma_words_are_wide_enough, pad_right_with_zeros, pad_right_zeros,
    push_char,
};
use crate::varint::{encode_u128, lemma_varint_length, varint_u128};

verus! {

/// `n` as a 64-digit hex word.
pub open spec fn hex_word_chars(n: nat) -> Seq<char> {
    fixed_digits(n, 16, 64)
}

/// `n` as a 64-digit decimal word.
pub open spec fn decimal_word_chars(n: nat) -> Seq<char> {
    fixed_digits(n, 10, 64)
}

/// `bytes` followed by `bytes.len() % 64` zero bytes.
pub open spec fn zero_extended(bytes: Seq<u8>) -> Seq<u8> {
    bytes + Seq::new(bytes.len() % 64, |i: int| 0u8)
}

/// The bytes of an ASCII text, one per character.
pub open spec fn ascii_bytes(s: Seq<char>) -> Seq<u8> {
    Seq::new(s.len(), |i: int| s[i] as u8)
}

/// The hex text of the stdcode encoding of `v`.
pub open spec fn decode_integer_text(v: u128) -> Seq<char> {
    hex_chars(varint_u128(v))
}

/// The word `0x40`, the encoding's length twice as words, then the hex text
/// of the encoding, padded on the right with `'0'` to 64 characters.
pub open spec fn integer_size_text(v: u128) -> Seq<char> {
    let e = varint_u128(v);
    hex_word_chars(0x40) + hex_word_chars(e.len()) + hex_word_chars(e.len()) + pad_right_zeros(
        hex_chars(e),
        64,
    )
}

/// The word `0x40`, the hex text of the transactions hash, the length of the
/// serialized header as a word, then the hex text of the zero-extended
/// serialized header padded on the right with `'0'` to 64 characters.
pub open spec fn transactions_hash_text(transactions_hash: Seq<u8>, serialized_header: Seq<u8>) -> Seq<char> {
    hex_word_chars(0x40) + hex_chars(transactions_hash) + hex_word_chars(serialized_header.len())
        + pad_right_zeros(hex_chars(zero_extended(serialized_header)), 64)
}

/// One data block in the tree payload: its length as a decimal word, then
/// the hex text of its zero-extended bytes.
pub open spec fn datablock_text(block: Seq<u8>) -> Seq<char> {
    decimal_word_chars(block.len()) + hex_chars(zero_extended(block))
}

/// The texts of `blocks`, one after the other.
pub open spec fn datablocks_text(blocks: Seq<Seq<u8>>) -> Seq<char>
    decreases blocks.len(),
{
    if blocks.len() == 0 {
        Seq::empty()
    } else {
        datablocks_text(blocks.drop_last()) + datablock_text(blocks.last())
    }
}

/// The tree payload: the data blocks' texts, a space, and the root's text.
pub open spec fn build_tree_text(blocks: Seq<Seq<u8>>, root_hex: Seq<char>) -> Seq<char> {
    datablocks_text(blocks) + seq![' '] + root_hex
}

/// The big-hash payload over the serialized stake documents: with `h` the
/// hex text of their zero-extension, the word `0x40`, the hex text of the
/// data-block hash of the bytes of `h`, the byte count that `h` stands for
/// as a word, then `h`.
pub open spec fn big_hash_text(serialized: Seq<u8>) -> Seq<char> {
    let z = zero_extended(serialized);
    let h = hex_chars(z);
    hex_word_chars(0x40) + hex_chars(datablock_digest(ascii_bytes(h))) + hex_word_chars(z.len()) + h
}

/// The number of leaves the tree test builds when asked for `requested`:
/// fewer than 16.
pub fn tree_leaf_count(requested: u32) -> (n: u32)
    ensures
        n == requested % 16,
        n < 16,
{
    requested % 16
}

/// `bytes` followed by `bytes.len() % 64` zero bytes.
pub fn zero_extend(bytes: &[u8]) -> (out: Vec<u8>)
    ensures
        out@ == zero_extended(bytes@),
{
    let mut out: Vec<u8> = Vec::new();
    for i in 0..bytes.len()
        invariant
            out@ == bytes@.take(i as int),
    {
        out.push(bytes[i]);
        assert(out@ =~= bytes@.take(i + 1));
    }
    let extra = bytes.len() % 64;
    for j in 0..extra
        invariant
            extra == bytes@.len() % 64,
            out@ == bytes@ + Seq::new(j as nat, |i: int| 0u8),
    {
        out.push(0u8);
        assert(out@ =~= bytes@ + Seq::new((j + 1) as nat, |i: int| 0u8));
    }
    assert(out@ =~= zero_extended(bytes@));
    out
}

/// The hex text of the stdcode encoding of `integer`.
pub fn decode_integer_differential(integer: u128) -> (s: String)
    ensures
        s@ == decode_integer_text(integer),
{
    let encoded = encode_u128(integer);
    hex_encode(encoded.as_slice())
}

/// The length of the stdcode encoding of `integer`, and the encoding itself,
/// as words.
pub fn integer_size_differential(integer: u128) -> (s: String)
    ensures
        s@ == integer_size_text(integer),
{
    let encoded = encode_u128(integer);
    let len = encoded.len() as u128;
    let mut s = hex_word(0x40);
    let w = hex_word(len);
    s.append(w.as_str());
    s.append(w.as_str());
    let mut h = hex_encode(encoded.as_slice());
    pad_right_with_zeros(&mut h, 64);
    s.append(h.as_str());
    s
}

/// The hex text of the bytes that `start` and `end` pick from `data`
/// (see `slice_selection`).
pub fn slice_differential(data: &[u8], start: isize, end: isize) -> (s: String)
    requires
        slice_bounds_ok(data@.len(), start as int, end as int),
    ensures
        s@ == hex_chars(slice_selection(data@, start as int, end as int)),
{
    let picked = select_bytes(data, start, end);
    hex_encode(picked.as_slice())
}

/// The transactions-hash payload of `header`, whose serialization is
/// `serialized_header`.
pub fn extract_transactions_hash_differential(header: &Header, serialized_header: &[u8]) -> (s: String)
    ensures
        s@ == transactions_hash_text(header.transactions_hash@, serialized_header@),
{
    let len = serialized_header.len();
    let extended = zero_extend(serialized_header);
    let mut s = hex_word(0x40);
    let t = hex_encode(&header.transactions_hash);
    s.append(t.as_str());
    let w = hex_word(len as u128);
    s.append(w.as_str());
    let mut h = hex_encode(extended.as_slice());
    pad_right_with_zeros(&mut h, 64);
    s.append(h.as_str());
    s
}

/// The tree payload over the serialized data blocks and a root's hex text.
pub fn tree_payload(serialized_datablocks: &Vec<Vec<u8>>, root_hex: &str) -> (s: String)
    ensures
        s@ == build_tree_text(serialized_datablocks@.map_values(|b: Vec<u8>| b@), root_hex@),
{
    let ghost blocks = serialized_datablocks@.map_values(|b: Vec<u8>| b@);
    let mut s = String::new();
    for i in 0..serialized_datablocks.len()
        invariant
            blocks == serialized_datablocks@.map_values(|b: Vec<u8>| b@),
            s@ == datablocks_text(blocks.take(i as int)),
    {
        let block = serialized_datablocks[i].as_slice();
        let w = decimal_word(block.len());
        let extended = zero_extend(block);
        let h = hex_encode(extended.as_slice());
        s.append(w.as_str());
        s.append(h.as_str());
        assert(blocks.take(i + 1).drop_last() =~= blocks.take(i as int));
    }
    assert(blocks.take(serialized_datablocks.len() as int) =~= blocks);
    push_char(&mut s, ' ');
    s.append(root_hex);
    s
}

/// The payload of the Merkle tree over the serialized data blocks: the blocks'
/// texts, a space, and the hex text of the root of the tree whose leaves are
/// the blocks' data-block hashes. `None` when there are no blocks, which make
/// no tree.
pub fn build_tree_differential(serialized_datablocks: &Vec<Vec<u8>>) -> (s: Option<String>)
    ensures
        s is None <==> serialized_datablocks@.len() == 0,
        s matches Some(t) ==> t@ == build_tree_text(
            serialized_datablocks@.map_values(|b: Vec<u8>| b@),
            hex_chars(tree_root(serialized_datablocks@.map_values(|b: Vec<u8>| datablock_digest(b@)))),
        ),
{
    let leaves = as_leaves(serialized_datablocks);
    assert(leaves@.map_values(|l: [u8; 32]| l@) =~= serialized_datablocks@.map_values(
        |b: Vec<u8>| datablock_digest(b@),
    ));
    match tree_root_with_rs_merkle(&leaves) {
        None => None,
        Some(root) => {
            let root_hex = hex_encode(&root);
            Some(tree_payload(serialized_datablocks, root_hex.as_str()))
        },
    }
}

/// The byte strings of `blocks`, one after the other.
pub open spec fn concatenation(blocks: Seq<Seq<u8>>) -> Seq<u8>
    decreases blocks.len(),
{
    if blocks.len() == 0 {
        Seq::empty()
    } else {
        concatenation(blocks.drop_last()) + blocks.last()
    }
}

/// The serialized documents, one after the other.
pub fn concatenate(blocks: &Vec<Vec<u8>>) -> (out: Vec<u8>)
    ensures
        out@ == concatenation(blocks@.map_values(|b: Vec<u8>| b@)),
{
    let ghost bs = blocks@.map_values(|b: Vec<u8>| b@);
    let mut out: Vec<u8> = Vec::new();
    for i in 0..blocks.len()
        invariant
            bs == blocks@.map_values(|b: Vec<u8>| b@),
            out@ == concatenation(bs.take(i as int)),
    {
        let block = &blocks[i];
        for j in 0..block.len()
            invariant
                bs == blocks@.map_values(|b: Vec<u8>| b@),
                i < blocks@.len(),
                block@ == bs[i as int],
                out@ == concatenation(bs.take(i as int)) + block@.take(j as int),
        {
            out.push(block[j]);
            assert(block@.take(j + 1) == block@.take(j as int).push(block@[j as int]));
        }
        assert(block@.take(block.len() as int) =~= block@);
        assert(bs.take(i + 1).drop_last() =~= bs.take(i as int));
    }
    assert(bs.take(blocks.len() as int) =~= bs);
    out
}

/// Hex text is ASCII.
proof fn lemma_hex_is_ascii(bytes: Seq<u8>)
    ensures
        vstd::utf8::is_ascii_chars(hex_chars(bytes)),
{
}

/// The big-hash payload over the concatenated serialized stake documents.
///
/// The word after the digest reads back as the number of bytes that the hex
/// text after it stands for.
pub fn big_hash(serialized_stakedocs: &[u8]) -> (s: String)
    ensures
        s@ == big_hash_text(serialized_stakedocs@),
        s@.len() == 192 + 2 * zero_extended(serialized_stakedocs@).len(),
        digits_value(s@.subrange(128, 192), 16) == zero_extended(serialized_stakedocs@).len(),
        s@.skip(192) == hex_chars(zero_extended(serialized_stakedocs@)),
        s@.subrange(64, 128) == hex_chars(datablock_digest(ascii_bytes(s@.skip(192)))),
{
    let extended = zero_extend(serialized_stakedocs);
    let stakedocs = hex_encode(extended.as_slice());
    let text = stakedocs.as_str();
    proof {
        lemma_hex_is_ascii(extended@);
        vstd::string::is_ascii_spec_bytes(text);
    }
    let text_bytes = text.as_bytes();
    assert(text_bytes@ =~= ascii_bytes(stakedocs@));
    let digest = datablock_hash(text_bytes);
    let mut s = hex_word(0x40);
    let d = hex_encode(&digest);
    s.append(d.as_str());
    let w = hex_word(extended.len() as u128);
    s.append(w.as_str());
    s.append(stakedocs.as_str());
    proof {
        lemma_hex_word_reads_back(0x40);
        lemma_hex_word_reads_back(extended@.len());
        lemma_hex_length(extended@);
        lemma_hex_length(digest@);
        assert(s@.subrange(128, 192) =~= hex_word_chars(extended@.len()));
        assert(s@.skip(192) =~= stakedocs@);
        assert(s@.subrange(64, 128) =~= hex_chars(digest@));
    }
    s
}

/// A hex word holds 64 characters and reads back as its number.
pub proof fn lemma_hex_word_reads_back(n: nat)
    requires
        n <= u128::MAX,
    ensures
        hex_word_chars(n).len() == 64,
        digits_value(hex_word_chars(n), 16) == n,
{
    lemma_fixed_digits_len(n, 16, 64);
    lemma_words_are_wide_enough();
    lemma_fixed_digits_value(n, 16, 64);
}

/// A decimal word holds 64 characters and reads back as its number.
pub proof fn lemma_decimal_word_reads_back(n: nat)
    requires
        n <= u64::MAX,
    ensures
        decimal_word_chars(n).len() == 64,
        digits_value(decimal_word_chars(n), 10) == n,
{
    lemma_fixed_digits_len(n, 10, 64);
    lemma_words_are_wide_enough();
    lemma_fixed_digits_value(n, 10, 64);
}

/// The integer-size payload is four 64-character words: the offset `0x40`,
/// the length of the stdcode encoding twice, and the encoding's hex text
/// filled up with `'0'`.
pub proof fn lemma_integer_size_layout(v: u128)
    ensures
        integer_size_text(v).len() == 256,
        digits_value(integer_size_text(v).subrange(0, 64), 16) == 0x40,
        digits_value(integer_size_text(v).subrange(64, 128), 16) == varint_u128(v).len(),
        digits_value(integer_size_text(v).subrange(128, 192), 16) == varint_u128(v).len(),
        integer_size_text(v).subrange(192, 192 + 2 * varint_u128(v).len() as int) == hex_chars(
            varint_u128(v),
        ),
        forall|i: int|
            192 + 2 * varint_u128(v).len() <= i < 256 ==> #[trigger] integer_size_text(v)[i] == '0',
{
    let e = varint_u128(v);
    lemma_varint_length(v);
    lemma_hex_word_reads_back(0x40);
    lemma_hex_word_reads_back(e.len());
    lemma_hex_length(e);
    let t = integer_size_text(v);
    let w0 = hex_word_chars(0x40);
    let w1 = hex_word_chars(e.len());
    let p = pad_right_zeros(hex_chars(e), 64);
    assert(t == w0 + w1 + w1 + p);
    assert(t.subrange(0, 64) =~= w0);
    assert(t.subrange(64, 128) =~= w1);
    assert(t.subrange(128, 192) =~= w1);
    assert(t.subrange(192, 192 + 2 * e.len() as int) =~= hex_chars(e));
}

/// The text of a data block: a 64-character word, then two hex digits for
/// each of its bytes and each byte of zero extension.
pub proof fn lemma_datablock_text_length(block: Seq<u8>)
    ensures
        datablock_text(block).len() == 64 + 2 * (block.len() + block.len() % 64),
{
    lemma_fixed_digits_len(block.len(), 10, 64);
    lemma_hex_length(zero_extended(block));
}

/// The tree payload over two runs of blocks is the payload over the first
/// followed by the payload over the second.
pub proof fn lemma_datablocks_text_concat(a: Seq<Seq<u8>>, b: Seq<Seq<u8>>)
    ensures
        datablocks_text(a + b) == datablocks_text(a) + datablocks_text(b),
    decreases b.len(),
{
    if b.len() == 0 {
        assert(a + b =~= a);
        assert(datablocks_text(a) + datablocks_text(b) =~= datablocks_text(a));
    } else {
        lemma_datablocks_text_concat(a, b.drop_last());
        assert((a + b).drop_last() =~= a + b.drop_last());
        assert((a + b).last() == b.last());
        assert(datablocks_text(a + b) =~= datablocks_text(a) + datablocks_text(b));
    }
}

/// The bytes `b` followed by `k` zero bytes, as hex text read back.
proof fn lemma_extension_reads_back(b: Seq<u8>)
    ensures
        hex_decoded(hex_chars(zero_extended(b))) matches Some(d) && d.len() == b.len() + b.len()
            % 64 && d.subrange(0, b.len() as int) == b && forall|i: int|
            b.len() <= i < d.len() ==> d[i] == 0,
{
    lemma_hex_round_trip(zero_extended(b));
    assert(zero_extended(b).subrange(0, b.len() as int) =~= b);
}

/// A data block's text opens with a word that reads, in base ten, as the
/// block's length, and the rest reads back as the block followed by
/// `len % 64` zero bytes.
pub proof fn lemma_datablock_text_reads_back(b: Seq<u8>)
    requires
        b.len() <= u64::MAX,
    ensures
        datablock_text(b).len() >= 64,
        digits_value(datablock_text(b).subrange(0, 64), 10) == b.len(),
        hex_decoded(datablock_text(b).skip(64)) matches Some(d) && d.len() == b.len() + b.len()
            % 64 && d.subrange(0, b.len() as int) == b && forall|i: int|
            b.len() <= i < d.len() ==> d[i] == 0,
{
    lemma_decimal_word_reads_back(b.len());
    let t = datablock_text(b);
    assert(t.subrange(0, 64) =~= decimal_word_chars(b.len()));
    assert(t.skip(64) =~= hex_chars(zero_extended(b)));
    lemma_extension_reads_back(b);
}

/// The tree payload opens with the first block's text, whose word reads, in
/// base ten, as that block's length, and ends with a space and the root's
/// text.
pub proof fn lemma_tree_payload_reads_back(blocks: Seq<Seq<u8>>, root_hex: Seq<char>)
    requires
        blocks.len() > 0,
        blocks[0].len() <= u64::MAX,
    ensures
        build_tree_text(blocks, root_hex).len() >= 65 + root_hex.len(),
        digits_value(build_tree_text(blocks, root_hex).subrange(0, 64), 10) == blocks[0].len(),
        build_tree_text(blocks, root_hex).subrange(0, datablock_text(blocks[0]).len() as int)
            == datablock_text(blocks[0]),
        build_tree_text(blocks, root_hex).skip(
            build_tree_text(blocks, root_hex).len() - root_hex.len() - 1,
        ) == seq![' '] + root_hex,
{
    let first = seq![blocks[0]];
    let rest = blocks.skip(1);
    assert(blocks =~= first + rest);
    lemma_datablocks_text_concat(first, rest);
    assert(first.drop_last() =~= Seq::<Seq<u8>>::empty());
    assert(datablocks_text(first.drop_last()) == Seq::<char>::empty());
    assert(first.last() == blocks[0]);
    assert(datablocks_text(first) =~= datablock_text(blocks[0]));
    lemma_datablock_text_reads_back(blocks[0]);
    let t = build_tree_text(blocks, root_hex);
    let d = datablock_text(blocks[0]);
    assert(t.subrange(0, d.len() as int) =~= d);
    assert(t.subrange(0, 64) =~= d.subrange(0, 64));
    assert(t.skip(t.len() - root_hex.len() - 1) =~= seq![' '] + root_hex);
}

/// The transactions-hash payload: a word reading as `0x40`, the hash's hex
/// text, a word reading, in base sixteen, as the serialized header's length,
/// then the serialized header's hex text.
pub proof fn lemma_transactions_hash_reads_back(transactions_hash: Seq<u8>, serialized_header: Seq<u8>)
    requires
        transactions_hash.len() == 32,
        serialized_header.len() <= u64::MAX,
    ensures
        transactions_hash_text(transactions_hash, serialized_header).len() >= 192 + 2
            * serialized_header.len(),
        digits_value(transactions_hash_text(transactions_hash, serialized_header).subrange(0, 64), 16)
            == 0x40,
        transactions_hash_text(transactions_hash, serialized_header).subrange(64, 128) == hex_chars(
            transactions_hash,
        ),
        digits_value(
            transactions_hash_text(transactions_hash, serialized_header).subrange(128, 192),
            16,
        ) == serialized_header.len(),
        transactions_hash_text(transactions_hash, serialized_header).subrange(
            192,
            192 + 2 * serialized_header.len() as int,
        ) == hex_chars(serialized_header),
{
    let h = serialized_header;
    lemma_hex_word_reads_back(0x40);
    lemma_hex_word_reads_back(h.len());
    lemma_hex_length(transactions_hash);
    let z = zero_extended(h);
    lemma_hex_concat(h, Seq::new(h.len() % 64, |i: int| 0u8));
    lemma_hex_length(h);
    lemma_hex_length(z);
    let t = transactions_hash_text(transactions_hash, h);
    let p = pad_right_zeros(hex_chars(z), 64);
    assert(t == hex_word_chars(0x40) + hex_chars(transactions_hash) + hex_word_chars(h.len()) + p);
    assert(t.subrange(0, 64) =~= hex_word_chars(0x40));
    assert(t.subrange(64, 128) =~= hex_chars(transactions_hash));
    assert(t.subrange(128, 192) =~= hex_word_chars(h.len()));
    assert(t.subrange(192, 192 + 2 * h.len() as int) =~= hex_chars(h));
}

/// The big-hash payload's digest is the data-block digest of exactly the
/// bytes of the text printed after the length word, and that text reads back
/// as the serialized documents followed by `len % 64` zero bytes; the word
/// before it reads as the number of bytes it stands for.
pub proof fn lemma_big_hash_digest_covers_printed_text(serialized: Seq<u8>)
    requires
        serialized.len() <= u64::MAX / 4,
    ensures
        ({
            let t = big_hash_text(serialized);
            let n = 2 * (serialized.len() + serialized.len() % 64);
            &&& t.len() >= 128 + n
            &&& t.subrange(64, t.len() - n - 64) == hex_chars(
                datablock_digest(ascii_bytes(t.skip(t.len() - n))),
            )
            &&& digits_value(t.subrange(t.len() - n - 64, t.len() - n), 16) == n / 2
            &&& hex_decoded(t.skip(t.len() - n)) matches Some(d) && d.len() == n / 2 && d.subrange(
                0,
                serialized.len() as int,
            ) == serialized && forall|i: int| serialized.len() <= i < d.len() ==> d[i] == 0
        }),
{
    let z = zero_extended(serialized);
    let h = hex_chars(z);
    let dg = hex_chars(datablock_digest(ascii_bytes(h)));
    let t = big_hash_text(serialized);
    let n = 2 * (serialized.len() + serialized.len() % 64);
    lemma_hex_length(z);
    lemma_hex_word_reads_back(0x40);
    lemma_hex_word_reads_back(z.len());
    assert(h.len() == n);
    assert(t == hex_word_chars(0x40) + dg + hex_word_chars(z.len()) + h);
    assert(t.skip(t.len() - n) =~= h);
    assert(t.subrange(64, t.len() - n - 64) =~= dg);
    assert(t.subrange(t.len() - n - 64, t.len() - n) =~= hex_word_chars(z.len()));
    lemma_extension_reads_back(serialized);
}

} // verus!
