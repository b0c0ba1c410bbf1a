//! The stdcode encoding of unsigned integers: bincode's variable-length
//! integer form, little-endian.

use vstd::prelude::*;

verus! {

/// The `n` least significant bytes of `v`, least significant first.
pub open spec fn le_bytes(v: nat, n: nat) -> Seq<u8>
    decreases n,
{
    if n == 0 {
        Seq::empty()
    } else {
        seq![(v % 256) as u8] + le_bytes(v / 256, (n - 1) as nat)
    }
}

/// The number that the little-endian bytes `s` stand for.
pub open spec fn le_value(s: Seq<u8>) -> nat
    decreases s.len(),
{
    if s.len() == 0 {
        0
    } else {
        s[0] as nat + 256 * le_value(s.drop_first())
    }
}

/// `256` to the power `n`.
pub open spec fn pow256(n: nat) -> nat
    decreases n,
{
    if n == 0 {
        1
    } else {
        256 * pow256((n - 1) as nat)
    }
}

/// The stdcode bytes of `v`: the value itself below 251; otherwise a marker
/// byte (251, 252, 253, 254 for 2, 4, 8, 16 bytes) and the value in the
/// narrowest of those widths, little-endian.
pub open spec fn varint_u128(v: u128) -> Seq<u8> {
    if v <= 250 {
        seq![v as u8]
    } else if v <= 0xffff {
        seq![251u8] + le_bytes(v as nat, 2)
    } else if v <= 0xffff_ffff {
        seq![252u8] + le_bytes(v as nat, 4)
    } else if v <= 0xffff_ffff_ffff_ffff {
        seq![253u8] + le_bytes(v as nat, 8)
    } else {
        seq![254u8] + le_bytes(v as nat, 16)
    }
}

/// Reads one stdcode integer from the front of `s`: its value and the number
/// of bytes it takes, or `None` when `s` does not start with one.
pub open spec fn varint_read(s: Seq<u8>) -> Option<(nat, nat)> {
    if s.len() == 0 {
        None
    } else if s[0] <= 250 {
        Some((s[0] as nat, 1))
    } else {
        let width: nat = if s[0] == 251 {
            2
        } else if s[0] == 252 {
            4
        } else if s[0] == 253 {
            8
        } else {
            16
        };
        if s[0] == 255 || s.len() < 1 + width {
            None
        } else {
            Some((le_value(s.subrange(1, 1 + width as int)), 1 + width))
        }
    }
}

/// `stdcode::serialize` on a `u128`: the bytes `varint_u128` states. Bincode's
/// default options set no size limit and the output is a growing vector, so the
/// call does not fail on any `u128`.
#[verifier::external_body]
fn serialize_with_stdcode(v: u128) -> (r: Option<Vec<u8>>)
    ensures
        r is Some,
        r matches Some(b) ==> b@ == varint_u128(v),
{
    stdcode::serialize(&v).ok()
}

/// The stdcode bytes of `v`.
pub fn encode_u128(v: u128) -> (b: Vec<u8>)
    ensures
        b@ == varint_u128(v),
{
    match serialize_with_stdcode(v) {
        Some(b) => b,
        None => {
            proof {
                assert(false);
            }
            Vec::new()
        },
    }
}

/// `le_bytes` holds `n` bytes.
pub proof fn lemma_le_bytes_len(v: nat, n: nat)
    ensures
        le_bytes(v, n).len() == n,
    decreases n,
{
    if n > 0 {
        lemma_le_bytes_len(v / 256, (n - 1) as nat);
    }
}

/// Reading back `n` little-endian bytes of `v` gives `v` when it fits.
pub proof fn lemma_le_round_trip(v: nat, n: nat)
    requires
        v < pow256(n),
    ensures
        le_value(le_bytes(v, n)) == v,
    decreases n,
{
    if n > 0 {
        let p = pow256((n - 1) as nat);
        assert(v / 256 < p) by (nonlinear_arith)
            requires
                v < 256 * p,
        ;
        lemma_le_round_trip(v / 256, (n - 1) as nat);
        let s = le_bytes(v, n);
        assert(s.drop_first() =~= le_bytes(v / 256, (n - 1) as nat));
    }
}

/// The stdcode encoding of a `u128` takes 1, 3, 5, 9 or 17 bytes.
pub proof fn lemma_varint_length(v: u128)
    ensures
        varint_u128(v).len() == (if v <= 250 {
            1nat
        } else if v <= 0xffff {
            3
        } else if v <= 0xffff_ffff {
            5
        } else if v <= 0xffff_ffff_ffff_ffff {
            9
        } else {
            17
        }),
{
    lemma_le_bytes_len(v as nat, 2);
    lemma_le_bytes_len(v as nat, 4);
    lemma_le_bytes_len(v as nat, 8);
    lemma_le_bytes_len(v as nat, 16);
}

/// Reading back the stdcode encoding of `v` gives `v` and consumes all of
/// it, whatever follows it.
pub proof fn lemma_varint_round_trip(v: u128, rest: Seq<u8>)
    ensures
        varint_read(varint_u128(v) + rest) == Some((v as nat, varint_u128(v).len())),
{
    lemma_varint_length(v);
    reveal_with_fuel(pow256, 17);
    let e = varint_u128(v);
    let s = e + rest;
    if v > 250 {
        let width: nat = if v <= 0xffff {
            2
        } else if v <= 0xffff_ffff {
            4
        } else if v <= 0xffff_ffff_ffff_ffff {
            8
        } else {
            16
        };
        assert(e == seq![s[0]] + le_bytes(v as nat, width));
        assert(s.subrange(1, 1 + width as int) =~= le_bytes(v as nat, width));
        lemma_le_round_trip(v as nat, width);
    }
}

} // verus!
