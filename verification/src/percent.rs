//! Percentages of payments, computed exactly on 128-bit amounts.

use vstd::prelude::*;

verus! {

/// `pct` percent of `amount`, rounded down.
pub open spec fn percent_of(amount: int, pct: int) -> int {
    amount * pct / 100
}

proof fn lemma_percent_split(amount: nat, pct: nat)
    ensures
        percent_of(amount as int, pct as int) == 100 * ((amount / 100) * (pct / 100)) + (amount
            / 100) * (pct % 100) + (amount % 100) * (pct / 100) + ((amount % 100) * (pct % 100))
            / 100,
{
    let a = amount / 100;
    let b = amount % 100;
    let c = pct / 100;
    let d = pct % 100;
    assert(amount == 100 * a + b);
    assert(pct == 100 * c + d);
    let k = 100 * (a * c) + a * d + b * c;
    assert(amount * pct == 100 * k + b * d) by (nonlinear_arith)
        requires
            amount == 100 * a + b,
            pct == 100 * c + d,
            k == 100 * (a * c) + a * d + b * c,
    ;
    assert(b * d >= 0) by (nonlinear_arith)
        requires
            b >= 0,
            d >= 0,
    ;
    assert((100 * k + b * d) / 100 == k + (b * d) / 100) by (nonlinear_arith)
        requires
            b * d >= 0,
            k >= 0,
    ;
}

/// `pct` percent of `amount`, rounded down; `None` when the result does not
/// fit in 128 bits.
pub fn percent_of_amount(amount: u128, pct: u128) -> (share: Option<u128>)
    ensures
        match share {
            Some(v) => v == percent_of(amount as int, pct as int),
            None => percent_of(amount as int, pct as int) > u128::MAX,
        },
{
    proof {
        lemma_percent_split(amount as nat, pct as nat);
    }
    let a = amount / 100;
    let b = amount % 100;
    let c = pct / 100;
    let d = pct % 100;
    assert(a * d <= u128::MAX && b * c <= u128::MAX && b * d < 10000) by (nonlinear_arith)
        requires
            a == amount / 100,
            b == amount % 100,
            c == pct / 100,
            d == pct % 100,
            amount <= u128::MAX,
            pct <= u128::MAX,
    ;
    assert(a * d >= 0 && b * c >= 0 && a * c >= 0) by (nonlinear_arith)
        requires
            a >= 0,
            b >= 0,
            c >= 0,
            d >= 0,
    ;
    let ad = a * d;
    let bc = b * c;
    let bd = b * d / 100;
    match a.checked_mul(c) {
        None => None,
        Some(ac) => match ac.checked_mul(100) {
            None => None,
            Some(ac100) => match ac100.checked_add(ad) {
                None => None,
                Some(s1) => match s1.checked_add(bc) {
                    None => None,
                    Some(s2) => s2.checked_add(bd),
                },
            },
        },
    }
}

} // verus!
