//! Byte ranges picked by a start and an end index, forwards or backwards.

use vstd::prelude::*;

verus! {

/// Whether `slice_differential` accepts `start` and `end` on `len` bytes:
/// forwards (`start < end`) it needs `0 <= start` and `end <= len`;
/// backwards it needs `-1 <= end` and `start < len`.
pub open spec fn slice_bounds_ok(len: nat, start: int, end: int) -> bool {
    if start < end {
        0 <= start && end <= len
    } else {
        -1 <= end && start < len
    }
}

/// The bytes picked from `data`: `data[start..end]` when `start < end`,
/// otherwise `data[end + 1..start + 1]` read from its last byte to its first.
pub open spec fn slice_selection(data: Seq<u8>, start: int, end: int) -> Seq<u8> {
    if start < end {
        data.subrange(start, end)
    } else {
        data.subrange(end + 1, start + 1).reverse()
    }
}

/// Whether `start` and `end` pick a range from `len` bytes.
pub fn slice_bounds_check(len: usize, start: isize, end: isize) -> (ok: bool)
    ensures
        ok == slice_bounds_ok(len as nat, start as int, end as int),
        ok <==> ((0 <= start < end <= len) || (-1 <= end <= start < len)),
{
    if start < end {
        0 <= start && 0 <= end && end as usize <= len
    } else {
        -1 <= end && (start < 0 || (start as usize) < len)
    }
}

/// The bytes `data[from..to]`.
pub fn copy_range(data: &[u8], from: usize, to: usize) -> (out: Vec<u8>)
    requires
        from <= to <= data@.len(),
    ensures
        out@ == data@.subrange(from as int, to as int),
{
    let mut out: Vec<u8> = Vec::new();
    let mut i: usize = from;
    while i < to
        invariant
            from <= i <= to <= data@.len(),
            out@ == data@.subrange(from as int, i as int),
        decreases to - i,
    {
        out.push(data[i]);
        i = i + 1;
        assert(out@ =~= data@.subrange(from as int, i as int));
    }
    out
}

/// The bytes `data[from..to]`, last byte first.
pub fn copy_range_reversed(data: &[u8], from: usize, to: usize) -> (out: Vec<u8>)
    requires
        from <= to <= data@.len(),
    ensures
        out@ == data@.subrange(from as int, to as int).reverse(),
{
    let mut out: Vec<u8> = Vec::new();
    let mut i: usize = to;
    while i > from
        invariant
            from <= i <= to <= data@.len(),
            out@ == data@.subrange(i as int, to as int).reverse(),
        decreases i - from,
    {
        i = i - 1;
        out.push(data[i]);
        assert(out@ =~= data@.subrange(i as int, to as int).reverse());
    }
    out
}

/// The bytes that `start` and `end` pick from `data`, as `slice_selection`
/// states them.
pub fn select_bytes(data: &[u8], start: isize, end: isize) -> (out: Vec<u8>)
    requires
        slice_bounds_ok(data@.len(), start as int, end as int),
    ensures
        out@ == slice_selection(data@, start as int, end as int),
{
    if start < end {
        copy_range(data, start as usize, end as usize)
    } else {
        let from: usize = if end < 0 {
            0
        } else {
            end as usize + 1
        };
        let to: usize = if start < 0 {
            0
        } else {
            start as usize + 1
        };
        copy_range_reversed(data, from, to)
    }
}

/// Picking backwards from `start` down to `end` gives the bytes that picking
/// forwards from `end + 1` to `start + 1` gives, in the opposite order.
pub proof fn lemma_backward_is_reversed_forward(data: Seq<u8>, start: int, end: int)
    requires
        end < start,
    ensures
        slice_selection(data, start, end) == slice_selection(data, end + 1, start + 1).reverse(),
{
}

/// Reading a backward selection backwards gives the forward selection.
pub proof fn lemma_backward_twice(data: Seq<u8>, start: int, end: int)
    requires
        end < start,
        slice_bounds_ok(data.len(), start, end),
    ensures
        slice_selection(data, start, end).reverse() == slice_selection(data, end + 1, start + 1),
{
    let f = data.subrange(end + 1, start + 1);
    assert(f.reverse().reverse() =~= f);
}

/// The ranges that can be picked are exactly the forward ranges
/// `0 <= start < end <= len` (up to and including the last byte) and the
/// backward ranges `-1 <= end <= start < len`; each picks `|end - start|`
/// bytes.
pub proof fn lemma_slice_bounds_exact(len: nat, start: int, end: int)
    ensures
        slice_bounds_ok(len, start, end) <==> ((0 <= start < end <= len) || (-1 <= end <= start
            < len)),
{
}

/// A picked range holds `|end - start|` bytes, each taken from `data`: the
/// forward one at `start + i`, the backward one at `start - i`.
pub proof fn lemma_selection_positions(data: Seq<u8>, start: int, end: int)
    requires
        slice_bounds_ok(data.len(), start, end),
    ensures
        start < end ==> slice_selection(data, start, end).len() == end - start && forall|i: int|
            0 <= i < end - start ==> #[trigger] slice_selection(data, start, end)[i] == data[start
                + i],
        end <= start ==> slice_selection(data, start, end).len() == start - end && forall|i: int|
            0 <= i < start - end ==> #[trigger] slice_selection(data, start, end)[i] == data[start
                - i],
{
}

} // verus!
