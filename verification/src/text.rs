//! Character-level building blocks shared by every renderer: the decimal
//! spelling of numbers, the binary value of a column of pixels, and the ANSI
//! escape sequences that select colours.

use vstd::prelude::*;
use crate::sixel::write_usize_noalloc;

verus! {

/// `String::push` of std appends the given character at the end of the
/// string; this states exactly that, and nothing about capacity.
pub assume_specification[ String::push ](string: &mut String, ch: char)
    ensures
        final(string)@ == old(string)@.push(ch),
;

/// `char::from_u32` of std: its documentation says that it returns the
/// character with the given code point when the number is a Unicode scalar
/// value (not above 0x10FFFF and not a surrogate), and `None` otherwise.
pub assume_specification[ core::char::from_u32 ](i: u32) -> (res: Option<char>)
    ensures
        (i <= 0xD7FF || (0xE000 <= i && i <= 0x10FFFF)) ==> res == Some(i as char),
        !(i <= 0xD7FF || (0xE000 <= i && i <= 0x10FFFF)) ==> res is None,
;

/// The ASCII digit for `d` (meant for `0 <= d < 10`).
pub open spec fn digit_char(d: int) -> char {
    (d + 48) as char
}

/// The decimal spelling of `n`, most significant digit first, without
/// leading zeros (zero itself is spelled `"0"`).
pub open spec fn decimal(n: nat) -> Seq<char>
    decreases n,
{
    if n < 10 {
        seq![digit_char(n as int)]
    } else {
        decimal(n / 10).push(digit_char((n % 10) as int))
    }
}

/// The number whose binary digits, least significant first, are `bits`.
pub open spec fn bits_value(bits: Seq<bool>) -> nat
    decreases bits.len(),
{
    if bits.len() == 0 {
        0
    } else {
        (if bits[0] { 1nat } else { 0nat }) + 2 * bits_value(bits.drop_first())
    }
}

/// Two to the power `n`.
pub open spec fn pow2_nat(n: nat) -> nat
    decreases n,
{
    if n == 0 {
        1
    } else {
        2 * pow2_nat((n - 1) as nat)
    }
}

/// Lemma: powers of two grow with the exponent.
pub proof fn lemma_pow2_le(n: nat, m: nat)
    requires
        n <= m,
    ensures
        pow2_nat(n) <= pow2_nat(m),
    decreases m,
{
    if n < m {
        lemma_pow2_le(n, (m - 1) as nat);
    }
}

/// The layer selector of a background colour escape.
pub open spec fn background() -> char {
    '4'
}

/// The layer selector of a foreground colour escape.
pub open spec fn foreground() -> char {
    '3'
}

/// `ESC [ <layer>8 ; 2 ; a ; b ; c m`: select the true-colour `(a, b, c)` for
/// the background (layer `4`) or the foreground (layer `3`).
pub open spec fn colour_escape(layer: char, a: nat, b: nat, c: nat) -> Seq<char> {
    seq!['\x1B', '[', layer, '8', ';', '2', ';'] + decimal(a) + seq![';'] + decimal(b) + seq![';']
        + decimal(c) + seq!['m']
}

/// Appends the colour escape for `(a, b, c)` on `layer` to `s`.
pub fn push_colour_escape(s: &mut String, layer: char, a: usize, b: usize, c: usize)
    ensures
        final(s)@ == old(s)@ + colour_escape(layer, a as nat, b as nat, c as nat),
{
    s.push('\x1B');
    s.push('[');
    s.push(layer);
    s.push('8');
    s.push(';');
    s.push('2');
    s.push(';');
    write_usize_noalloc(a, s);
    s.push(';');
    write_usize_noalloc(b, s);
    s.push(';');
    write_usize_noalloc(c, s);
    s.push('m');
    assert(final(s)@ =~= old(s)@ + colour_escape(layer, a as nat, b as nat, c as nat));
}

/// The number that a string of decimal digits denotes.
pub open spec fn digits_value(s: Seq<char>) -> int
    decreases s.len(),
{
    if s.len() == 0 {
        0
    } else {
        digits_value(s.drop_last()) * 10 + (s.last() as int - 48)
    }
}

/// Law: the decimal spelling of `n` is made of digits, has no leading zero
/// (unless it is the single digit of zero), and denotes `n`.
pub proof fn lemma_decimal_denotes(n: nat)
    ensures
        decimal(n).len() >= 1,
        forall|i: int| 0 <= i < decimal(n).len() ==> '0' <= #[trigger] decimal(n)[i] <= '9',
        n > 0 ==> decimal(n)[0] != '0',
        digits_value(decimal(n)) == n,
    decreases n,
{
    if n < 10 {
        assert(digit_char(n as int) as int == n + 48);
        assert(decimal(n).drop_last() =~= Seq::<char>::empty());
        assert(digits_value(decimal(n)) == digits_value(decimal(n).drop_last()) * 10 + (decimal(n).last() as int - 48));
        assert(digits_value(Seq::<char>::empty()) == 0);
    } else {
        lemma_decimal_denotes(n / 10);
        let d = decimal(n);
        assert(d.drop_last() =~= decimal(n / 10));
        assert(digit_char((n % 10) as int) as int == n % 10 + 48);
        assert(d.last() == digit_char((n % 10) as int));
        assert(digits_value(d) == digits_value(d.drop_last()) * 10 + (d.last() as int - 48));
        assert(digits_value(d) == (n / 10) as int * 10 + (n % 10) as int);
        assert forall|i: int| 0 <= i < d.len() implies '0' <= #[trigger] d[i] <= '9' by {
            if i < d.len() - 1 {
                assert(d[i] == decimal(n / 10)[i]);
            }
        }
    }
}

/// Law: bit `i` of the value of a list of bits is the `i`-th bit.
pub proof fn lemma_bits_value_bit(bits: Seq<bool>, i: nat)
    requires
        i < bits.len(),
    ensures
        (bits_value(bits) / pow2_nat(i)) % 2 == (if bits[i as int] { 1int } else { 0int }),
    decreases i,
{
    let b0: int = if bits[0] { 1 } else { 0 };
    assert(bits_value(bits) == b0 + 2 * bits_value(bits.drop_first()));
    if i == 0 {
        assert(pow2_nat(0) == 1);
        let v0 = bits_value(bits.drop_first()) as int;
        assert((b0 + 2 * v0) / 1 % 2 == b0) by (nonlinear_arith)
            requires
                0 <= b0 <= 1,
                v0 >= 0,
        ;
    } else {
        let rest = bits.drop_first();
        lemma_bits_value_bit(rest, (i - 1) as nat);
        let b: int = if bits[0] { 1 } else { 0 };
        let v = bits_value(rest) as int;
        let m = pow2_nat((i - 1) as nat) as int;
        lemma_pow2_positive((i - 1) as nat);
        assert((b + 2 * v) / (2 * m) == v / m) by (nonlinear_arith)
            requires
                0 <= b <= 1,
                m > 0,
                v >= 0,
        ;
        assert(bits_value(bits) == b + 2 * v);
        assert(pow2_nat(i) == 2 * m);
        assert(bits[i as int] == rest[i - 1]);
    }
}

/// Lemma: powers of two are positive.
pub proof fn lemma_pow2_positive(n: nat)
    ensures
        pow2_nat(n) > 0,
    decreases n,
{
    if n > 0 {
        lemma_pow2_positive((n - 1) as nat);
    }
}

/// Lemma: a list of `n` bits has a value below two to the `n`.
pub proof fn lemma_bits_value_bound(bits: Seq<bool>)
    ensures
        bits_value(bits) < pow2_nat(bits.len()),
    decreases bits.len(),
{
    if bits.len() > 0 {
        lemma_bits_value_bound(bits.drop_first());
    }
}

/// Law: two lists of bits of the same length with the same value are equal.
pub proof fn lemma_bits_value_injective(a: Seq<bool>, b: Seq<bool>)
    requires
        a.len() == b.len(),
        bits_value(a) == bits_value(b),
    ensures
        a == b,
{
    assert forall|i: int| 0 <= i < a.len() implies a[i] == b[i] by {
        lemma_bits_value_bit(a, i as nat);
        lemma_bits_value_bit(b, i as nat);
    }
    assert(a =~= b);
}

/// Lemma: a number below 10 is spelled with the one digit it is.
pub proof fn lemma_decimal_one_digit(n: nat)
    requires
        n < 10,
    ensures
        decimal(n) == seq![digit_char(n as int)],
{
}

/// Lemma: the spelling of `n >= 10` is that of `n / 10` followed by the last digit.
pub proof fn lemma_decimal_step(n: nat)
    requires
        n >= 10,
    ensures
        decimal(n) == decimal(n / 10).push(digit_char((n % 10) as int)),
{
}

} // verus!
