//! Lower-case hex text of byte strings, and its reading back.

use vstd::prelude::*;
use crate::text::digit_char;

verus! {

/// The hex text of `bytes`: two lower-case digits per byte, high nibble first.
pub open spec fn hex_chars(bytes: Seq<u8>) -> Seq<char> {
    Seq::new(
        2 * bytes.len(),
        |i: int|
            if i % 2 == 0 {
                digit_char(bytes[i / 2] as int / 16)
            } else {
                digit_char(bytes[i / 2] as int % 16)
            },
    )
}

/// Whether `c` is a hex digit of either case.
pub open spec fn is_hex_char(c: char) -> bool {
    ('0' <= c <= '9') || ('a' <= c <= 'f') || ('A' <= c <= 'F')
}

/// The value of the hex digit `c`.
pub open spec fn hex_value(c: char) -> int {
    if '0' <= c <= '9' {
        c as int - 48
    } else if 'a' <= c <= 'f' {
        c as int - 87
    } else {
        c as int - 55
    }
}

/// The bytes that the hex text `s` stands for: `None` when `s` has an odd
/// number of characters or holds a character that is no hex digit.
pub open spec fn hex_decoded(s: Seq<char>) -> Option<Seq<u8>> {
    if s.len() % 2 == 0 && forall|i: int| 0 <= i < s.len() ==> is_hex_char(#[trigger] s[i]) {
        Some(
            Seq::new(
                s.len() / 2,
                |i: int| (16 * hex_value(s[2 * i]) + hex_value(s[2 * i + 1])) as u8,
            ),
        )
    } else {
        None
    }
}

/// `hex::encode`: the lower-case hex text of `data`, as `hex_chars` states it.
#[verifier::external_body]
fn encode_with_hex_crate(data: &[u8]) -> (s: String)
    ensures
        s@ == hex_chars(data@),
{
    hex::encode(data)
}

/// `hex::decode`: the bytes that `s` stands for, `None` exactly where the crate
/// returns an error (an odd length, or a byte that is no hex digit of either case).
#[verifier::external_body]
fn decode_with_hex_crate(s: &str) -> (r: Option<Vec<u8>>)
    ensures
        match r {
            Some(b) => hex_decoded(s@) == Some(b@),
            None => hex_decoded(s@) is None,
        },
{
    hex::decode(s).ok()
}

/// The lower-case hex text of `data`.
pub fn hex_encode(data: &[u8]) -> (s: String)
    ensures
        s@ == hex_chars(data@),
{
    encode_with_hex_crate(data)
}

/// The bytes that the hex text `s` stands for, if it is hex text.
pub fn hex_decode(s: &str) -> (r: Option<Vec<u8>>)
    ensures
        r is Some <==> hex_decoded(s@) is Some,
        r matches Some(b) ==> hex_decoded(s@) == Some(b@),
{
    decode_with_hex_crate(s)
}

/// A command-line hex argument: `"0x"` followed by hex text. `None` when the
/// prefix is missing or the rest is no hex text.
pub fn parse_hex_argument(arg: &str) -> (r: Option<Vec<u8>>)
    ensures
        r is Some <==> (arg@.len() >= 2 && arg@[0] == '0' && arg@[1] == 'x' && hex_decoded(
            arg@.skip(2),
        ) is Some),
        r matches Some(b) ==> hex_decoded(arg@.skip(2)) == Some(b@),
{
    let n = arg.unicode_len();
    if n < 2 || arg.get_char(0) != '0' || arg.get_char(1) != 'x' {
        return None;
    }
    let rest = arg.substring_char(2, n);
    assert(rest@ == arg@.skip(2));
    hex_decode(rest)
}

/// The hex text of a byte string is twice as long as the byte string.
pub proof fn lemma_hex_length(bytes: Seq<u8>)
    ensures
        hex_chars(bytes).len() == 2 * bytes.len(),
{
}

/// The hex text of a concatenation is the concatenation of the hex texts.
pub proof fn lemma_hex_concat(a: Seq<u8>, b: Seq<u8>)
    ensures
        hex_chars(a + b) == hex_chars(a) + hex_chars(b),
{
    let l = hex_chars(a + b);
    let r = hex_chars(a) + hex_chars(b);
    assert forall|i: int| 0 <= i < l.len() implies l[i] == r[i] by {
        if i >= 2 * a.len() {
            assert((i - 2 * a.len()) / 2 == i / 2 - a.len());
            assert((i - 2 * a.len()) % 2 == i % 2);
        }
    }
    assert(l =~= r);
}

/// A digit character is a hex digit, and reads back as its value.
proof fn lemma_digit_reads_back(d: int)
    requires
        0 <= d < 16,
    ensures
        is_hex_char(digit_char(d)),
        hex_value(digit_char(d)) == d,
{
}

/// Reading back the hex text of `bytes` gives `bytes`.
pub proof fn lemma_hex_round_trip(bytes: Seq<u8>)
    ensures
        hex_decoded(hex_chars(bytes)) == Some(bytes),
{
    let s = hex_chars(bytes);
    assert forall|i: int| 0 <= i < s.len() implies is_hex_char(#[trigger] s[i]) by {
        lemma_digit_reads_back(bytes[i / 2] as int / 16);
        lemma_digit_reads_back(bytes[i / 2] as int % 16);
    }
    let d = hex_decoded(s).unwrap();
    assert forall|i: int| 0 <= i < bytes.len() implies d[i] == bytes[i] by {
        assert((2 * i) / 2 == i);
        assert((2 * i + 1) / 2 == i);
        assert((2 * i) % 2 == 0);
        assert((2 * i + 1) % 2 == 1);
        lemma_digit_reads_back(bytes[i] as int / 16);
        lemma_digit_reads_back(bytes[i] as int % 16);
        assert(16 * (bytes[i] as int / 16) + bytes[i] % 16 == bytes[i]);
    }
    assert(d =~= bytes);
}

} // verus!
