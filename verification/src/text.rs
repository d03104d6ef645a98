//! Text building blocks: decimal and hexadecimal numerals, and the
//! character-level operations every printer is built from.

use vstd::prelude::*;

verus! {

/// The digit for `d` (`0..16`), with upper-case letters past nine.
pub open spec fn digit_char(d: nat) -> char {
    if d < 10 {
        (48 + d) as char
    } else {
        (55 + d) as char
    }
}

/// The decimal numeral of `n`, without leading zeros.
pub open spec fn nat_decimal(n: nat) -> Seq<char>
    decreases n,
{
    if n < 10 {
        seq![digit_char(n)]
    } else {
        nat_decimal(n / 10).push(digit_char(n % 10))
    }
}

/// The decimal numeral of `i`, with a leading `-` when it is negative.
pub open spec fn int_decimal(i: int) -> Seq<char> {
    if i < 0 {
        seq!['-'] + nat_decimal((-i) as nat)
    } else {
        nat_decimal(i as nat)
    }
}

/// The upper-case hexadecimal numeral of `n`, without leading zeros.
pub open spec fn nat_hex(n: nat) -> Seq<char>
    decreases n,
{
    if n < 16 {
        seq![digit_char(n)]
    } else {
        nat_hex(n / 16).push(digit_char(n % 16))
    }
}

/// `count` copies of `c`.
pub open spec fn repeat_char(c: char, count: nat) -> Seq<char> {
    Seq::new(count, |i: int| c)
}

/// [nat_hex] of `n`, padded on the left with zeros to at least `width` digits.
pub open spec fn hex_padded(n: nat, width: nat) -> Seq<char> {
    let digits = nat_hex(n);
    if digits.len() < width {
        repeat_char('0', (width - digits.len()) as nat) + digits
    } else {
        digits
    }
}

/// std's `String::push`, which appends `c` to the end of `s`: trusted to
/// leave the text of `s` followed by exactly `c`.
#[verifier::external_body]
pub(crate) fn push_char(s: &mut String, c: char)
    ensures
        final(s)@ == old(s)@.push(c),
{
    s.push(c)
}

/// The character of the digit `d`.
pub fn digit(d: u8) -> (c: char)
    requires
        d < 16,
    ensures
        c == digit_char(d as nat),
{
    if d < 10 {
        (48u8 + d) as char
    } else {
        (55u8 + d) as char
    }
}

/// Appends the decimal numeral of `n` to `out`.
pub fn push_decimal_u64(out: &mut String, n: u64)
    ensures
        final(out)@ == old(out)@ + nat_decimal(n as nat),
    decreases n,
{
    if n >= 10 {
        push_decimal_u64(out, n / 10);
    }
    push_char(out, digit((n % 10) as u8));
}

/// Appends the decimal numeral of `n` to `out`, with a `-` when negative.
pub fn push_decimal_i64(out: &mut String, n: i64)
    ensures
        final(out)@ == old(out)@ + int_decimal(n as int),
{
    if n < 0 {
        push_char(out, '-');
        let magnitude: u64 = (0i128 - n as i128) as u64;
        push_decimal_u64(out, magnitude);
        assert(out@ == old(out)@ + int_decimal(n as int));
    } else {
        push_decimal_u64(out, n as u64);
    }
}

/// The number of hexadecimal digits of `n`.
pub fn hex_len(n: u128) -> (len: usize)
    ensures
        len as nat == nat_hex(n as nat).len(),
        len <= 32,
    decreases n,
{
    if n < 16 {
        1
    } else {
        let rest = hex_len(n / 16);
        proof {
            lemma_hex_len_bound(n as nat);
        }
        rest + 1
    }
}

/// `16` to the power `k`.
pub open spec fn pow16(k: nat) -> nat
    decreases k,
{
    if k == 0 {
        1
    } else {
        16 * pow16((k - 1) as nat)
    }
}

/// A `u128` has at most 32 hexadecimal digits.
pub proof fn lemma_hex_len_bound(n: nat)
    requires
        n <= u128::MAX,
    ensures
        nat_hex(n).len() <= 32,
        nat_hex(n).len() >= 1,
{
    assert(pow16(32) == 0x1_0000_0000_0000_0000_0000_0000_0000_0000) by {
        reveal_with_fuel(pow16, 33);
    }
    lemma_hex_len_below(n, 32);
}

/// A number below `16^k` has at most `k` hexadecimal digits.
pub proof fn lemma_hex_len_below(n: nat, k: nat)
    requires
        k >= 1,
        n < pow16(k),
    ensures
        nat_hex(n).len() <= k,
        nat_hex(n).len() >= 1,
    decreases k,
{
    reveal_with_fuel(pow16, 2);
    if n >= 16 {
        assert(k > 1);
        let p = pow16((k - 1) as nat);
        assert(n / 16 < p);
        lemma_hex_len_below(n / 16, (k - 1) as nat);
    }
}

/// Appends the hexadecimal digits of `n` to `out`.
pub fn push_hex_u128(out: &mut String, n: u128)
    ensures
        final(out)@ == old(out)@ + nat_hex(n as nat),
    decreases n,
{
    if n >= 16 {
        push_hex_u128(out, n / 16);
    }
    push_char(out, digit((n % 16) as u8));
}

/// Appends `count` zeros to `out`.
pub fn push_zeros(out: &mut String, count: usize)
    ensures
        final(out)@ == old(out)@ + repeat_char('0', count as nat),
{
    let ghost start = out@;
    let mut i: usize = 0;
    while i < count
        invariant
            i <= count,
            out@ == start + repeat_char('0', i as nat),
        decreases count - i,
    {
        push_char(out, '0');
        i += 1;
        assert(out@ =~= start + repeat_char('0', i as nat));
    }
}

/// Appends [hex_padded] of `n` and `width` to `out`.
pub fn push_hex_padded(out: &mut String, n: u128, width: usize)
    ensures
        final(out)@ == old(out)@ + hex_padded(n as nat, width as nat),
{
    let len = hex_len(n);
    if len < width {
        push_zeros(out, width - len);
    }
    push_hex_u128(out, n);
    assert(out@ =~= old(out)@ + hex_padded(n as nat, width as nat));
}

} // verus!
