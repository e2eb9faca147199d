//! Decimal notation of token indexes, as the ASCII text that goes into
//! names, attributes and URIs.

use vstd::prelude::*;

verus! {

/// Numbers are written into a buffer of ten digits: every number below this
/// bound fits, and no other does.
pub const DECIMAL_LIMIT: u64 = 10_000_000_000;

/// The ASCII code of the decimal digit `d`.
pub open spec fn ascii_digit(d: nat) -> u8 {
    (48 + d) as u8
}

/// Whether `b` is the ASCII code of a decimal digit.
pub open spec fn is_ascii_digit(b: u8) -> bool {
    48 <= b <= 57
}

/// Ten to the power `k`.
pub open spec fn pow10(k: nat) -> nat
    decreases k,
{
    if k == 0 {
        1
    } else {
        10 * pow10((k - 1) as nat)
    }
}

/// The decimal notation of `n` in ASCII: most significant digit first,
/// without leading zeros ("0" for zero).
pub open spec fn decimal_digits(n: nat) -> Seq<u8>
    decreases n,
{
    if n < 10 {
        seq![ascii_digit(n)]
    } else {
        decimal_digits(n / 10).push(ascii_digit(n % 10))
    }
}

/// The number that a string of ASCII digits denotes in base ten.
pub open spec fn decimal_value(s: Seq<u8>) -> int
    decreases s.len(),
{
    if s.len() == 0 {
        0
    } else {
        decimal_value(s.drop_last()) * 10 + (s.last() - 48)
    }
}

/// Writes `number` in decimal ASCII digits.
///
/// The digit buffer holds ten characters, so `number` must be below
/// `DECIMAL_LIMIT`.
pub fn decimal_to_ascii(number: u64) -> (digits: Vec<u8>)
    requires
        number < DECIMAL_LIMIT,
    ensures
        digits@ == decimal_digits(number as nat),
    decreases number,
{
    let last: u8 = (number % 10) as u8;
    if number < 10 {
        vec![48u8 + last]
    } else {
        let mut digits = decimal_to_ascii(number / 10);
        digits.push(48u8 + last);
        digits
    }
}

/// Reading the decimal notation of a number back gives the number.
pub proof fn lemma_decimal_round_trip(n: nat)
    ensures
        decimal_value(decimal_digits(n)) == n,
    decreases n,
{
    let s = decimal_digits(n);
    assert(ascii_digit(n % 10) - 48 == n % 10);
    if n < 10 {
        assert(s.drop_last().len() == 0);
        assert(decimal_value(s.drop_last()) == 0);
    } else {
        lemma_decimal_round_trip(n / 10);
        assert(s.drop_last() =~= decimal_digits(n / 10));
    }
}

/// Every character of a decimal notation is an ASCII digit, and the first
/// one is a zero only for the number zero.
pub proof fn lemma_decimal_digits_shape(n: nat)
    ensures
        decimal_digits(n).len() >= 1,
        forall|i: int|
            0 <= i < decimal_digits(n).len() ==> is_ascii_digit(#[trigger] decimal_digits(n)[i]),
        decimal_digits(n)[0] == 48 <==> n == 0,
    decreases n,
{
    if n >= 10 {
        lemma_decimal_digits_shape(n / 10);
        let s = decimal_digits(n);
        let p = decimal_digits(n / 10);
        assert forall|i: int| 0 <= i < s.len() implies is_ascii_digit(#[trigger] s[i]) by {
            if i < p.len() {
                assert(s[i] == p[i]);
            }
        }
        assert(s[0] == p[0]);
    }
}

/// A number below `10^k` has at most `k` digits.
pub proof fn lemma_decimal_length(n: nat, k: nat)
    requires
        k >= 1,
        n < pow10(k),
    ensures
        decimal_digits(n).len() <= k,
    decreases n,
{
    if n >= 10 {
        if k == 1 {
            assert(pow10(1) == 10) by {
                reveal_with_fuel(pow10, 2);
            }
        } else {
            let m = pow10((k - 1) as nat);
            assert(pow10(k) == 10 * m);
            assert(n / 10 < m) by (nonlinear_arith)
                requires
                    n < 10 * m,
            ;
            lemma_decimal_length(n / 10, (k - 1) as nat);
        }
    }
}

/// Every number below `DECIMAL_LIMIT` fits the ten-character buffer.
pub proof fn lemma_decimal_fits_buffer(n: nat)
    requires
        n < DECIMAL_LIMIT,
    ensures
        decimal_digits(n).len() <= 10,
{
    assert(pow10(10) == 10_000_000_000) by {
        reveal_with_fuel(pow10, 11);
    }
    lemma_decimal_length(n, 10);
}

/// Different numbers have different decimal notations.
pub proof fn lemma_decimal_injective(a: nat, b: nat)
    requires
        decimal_digits(a) == decimal_digits(b),
    ensures
        a == b,
{
    lemma_decimal_round_trip(a);
    lemma_decimal_round_trip(b);
}

} // verus!
