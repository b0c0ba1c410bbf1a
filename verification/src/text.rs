//! Text building blocks: digits, fixed-width number words, padding.

use vstd::prelude::*;

verus! {

/// The character for the digit `d` (`0 <= d < 16`): `0`-`9`, then lower-case `a`-`f`.
pub open spec fn digit_char(d: int) -> char {
    if d < 10 {
        (48 + d) as char
    } else {
        (87 + d) as char
    }
}

/// The last `width` digits of `n` in base `base`, most significant first,
/// with leading zeros: the text `format!("{:0>width$}")` gives for `n` when
/// `n` has at most `width` digits.
pub open spec fn fixed_digits(n: nat, base: nat, width: nat) -> Seq<char>
    decreases width,
{
    if width == 0 {
        Seq::empty()
    } else {
        fixed_digits(n / base, base, (width - 1) as nat).push(digit_char((n % base) as int))
    }
}

/// `s` followed by as many `'0'` as it takes to reach `width` characters;
/// `s` itself when it is already that long (`format!("{:0<width$}")`).
pub open spec fn pad_right_zeros(s: Seq<char>, width: nat) -> Seq<char> {
    if s.len() >= width {
        s
    } else {
        s + Seq::new((width - s.len()) as nat, |i: int| '0')
    }
}

/// Appends `c` to `s` (`String::push`).
#[verifier::external_body]
pub(crate) fn push_char(s: &mut String, c: char)
    ensures
        final(s)@ == old(s)@.push(c),
{
    s.push(c);
}

/// The character for one digit.
pub fn digit_to_char(d: u8) -> (c: char)
    requires
        d < 16,
    ensures
        c == digit_char(d as int),
{
    if d < 10 {
        (48u8 + d) as char
    } else {
        (87u8 + d) as char
    }
}

/// The `width` least significant digits of `n` in base `base`.
fn fixed_digit_chars(n: u128, base: u128, width: usize) -> (v: Vec<char>)
    requires
        2 <= base <= 16,
    ensures
        v@ == fixed_digits(n as nat, base as nat, width as nat),
    decreases width,
{
    if width == 0 {
        Vec::new()
    } else {
        let mut v = fixed_digit_chars(n / base, base, width - 1);
        let d = n % base;
        v.push(digit_to_char(d as u8));
        v
    }
}

/// A `String` holding exactly the characters of `cs`.
pub fn string_from_chars(cs: &Vec<char>) -> (s: String)
    ensures
        s@ == cs@,
{
    let mut s = String::new();
    for i in 0..cs.len()
        invariant
            s@ == cs@.take(i as int),
    {
        push_char(&mut s, cs[i]);
        assert(cs@.take(i + 1) == cs@.take(i as int).push(cs@[i as int]));
    }
    assert(cs@.take(cs.len() as int) == cs@);
    s
}

/// `n` as 64 lower-case hex digits (`format!("{:0>64x}", n)`).
pub fn hex_word(n: u128) -> (s: String)
    ensures
        s@ == fixed_digits(n as nat, 16, 64),
{
    string_from_chars(&fixed_digit_chars(n, 16, 64))
}

/// `n` as 64 decimal digits (`format!("{:0>64}", n)`).
pub fn decimal_word(n: usize) -> (s: String)
    ensures
        s@ == fixed_digits(n as nat, 10, 64),
{
    string_from_chars(&fixed_digit_chars(n as u128, 10, 64))
}

/// Appends `'0'` to `s` until it holds at least `width` characters.
pub fn pad_right_with_zeros(s: &mut String, width: usize)
    ensures
        final(s)@ == pad_right_zeros(old(s)@, width as nat),
{
    let ghost start = s@;
    let len = s.as_str().unicode_len();
    if len >= width {
        return;
    }
    let mut k: usize = len;
    while k < width
        invariant
            start.len() == len,
            len <= k <= width,
            s@ == start + Seq::new((k - len) as nat, |i: int| '0'),
        decreases width - k,
    {
        push_char(s, '0');
        k = k + 1;
        assert(s@ == start + Seq::new((k - len) as nat, |i: int| '0'));
    }
}

/// The value of the digit character `c` (`0`-`9`, `a`-`f`).
pub open spec fn digit_value(c: char) -> int {
    if c as int <= 57 {
        c as int - 48
    } else {
        c as int - 87
    }
}

/// The number that the digits `s` stand for in base `base`, most
/// significant first.
pub open spec fn digits_value(s: Seq<char>, base: nat) -> nat
    decreases s.len(),
{
    if s.len() == 0 {
        0
    } else {
        (digits_value(s.drop_last(), base) * base + digit_value(s.last())) as nat
    }
}

/// `base` to the power `n`.
pub open spec fn power(base: nat, n: nat) -> nat
    decreases n,
{
    if n == 0 {
        1
    } else {
        base * power(base, (n - 1) as nat)
    }
}

/// A fixed-width word holds exactly `width` characters.
pub proof fn lemma_fixed_digits_len(n: nat, base: nat, width: nat)
    requires
        base >= 2,
    ensures
        fixed_digits(n, base, width).len() == width,
    decreases width,
{
    if width > 0 {
        lemma_fixed_digits_len(n / base, base, (width - 1) as nat);
    }
}

/// Reading a fixed-width word back in its base gives the number, when the
/// number has no more digits than the word.
pub proof fn lemma_fixed_digits_value(n: nat, base: nat, width: nat)
    requires
        2 <= base <= 16,
        n < power(base, width),
    ensures
        digits_value(fixed_digits(n, base, width), base) == n,
    decreases width,
{
    if width > 0 {
        let p = power(base, (width - 1) as nat);
        assert(n / base < p) by (nonlinear_arith)
            requires
                n < base * p,
                base >= 2,
        ;
        lemma_fixed_digits_value(n / base, base, (width - 1) as nat);
        let d = (n % base) as int;
        assert(0 <= d < base) by (nonlinear_arith)
            requires
                base >= 2,
                d == n % base,
        ;
        assert((n / base) * base + n % base == n) by (nonlinear_arith)
            requires
                base >= 2,
        ;
        let s = fixed_digits(n, base, width);
        assert(s.drop_last() =~= fixed_digits(n / base, base, (width - 1) as nat));
    }
}

/// Powers grow with the exponent.
pub proof fn lemma_power_monotone(base: nat, m: nat, n: nat)
    requires
        base >= 1,
        m <= n,
    ensures
        power(base, m) <= power(base, n),
    decreases n,
{
    if m < n {
        lemma_power_monotone(base, m, (n - 1) as nat);
        let p = power(base, (n - 1) as nat);
        assert(p <= base * p) by (nonlinear_arith)
            requires
                base >= 1,
        ;
    }
}

/// Every `u128` has at most 64 hex digits and every `u64` at most 64
/// decimal digits.
pub proof fn lemma_words_are_wide_enough()
    ensures
        u128::MAX < power(16, 64),
        u64::MAX < power(10, 64),
{
    reveal_with_fuel(power, 33);
    assert(power(16, 32) == 0x1_0000_0000_0000_0000_0000_0000_0000_0000);
    lemma_power_monotone(16, 32, 64);
    assert(power(10, 20) == 100_000_000_000_000_000_000) by {
        reveal_with_fuel(power, 21);
    }
    lemma_power_monotone(10, 20, 64);
}

} // verus!
