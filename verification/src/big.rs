//! Unbounded amounts, held as little-endian 64-bit limbs.

use vstd::prelude::*;

verus! {

/// The base of a limb.
pub open spec fn limb_base() -> nat {
    0x1_0000_0000_0000_0000
}

/// The number that little-endian limbs denote.
pub open spec fn limbs_value(limbs: Seq<u64>) -> nat
    decreases limbs.len(),
{
    if limbs.len() == 0 {
        0
    } else {
        limbs[0] as nat + limb_base() * limbs_value(limbs.drop_first())
    }
}

/// The limbs from position `i` on (none past the end).
pub open spec fn limbs_from(limbs: Seq<u64>, i: int) -> Seq<u64> {
    if 0 <= i < limbs.len() {
        limbs.subrange(i, limbs.len() as int)
    } else {
        Seq::empty()
    }
}

proof fn lemma_limbs_from_step(limbs: Seq<u64>, i: int)
    requires
        0 <= i,
    ensures
        limbs_value(limbs_from(limbs, i)) == (if i < limbs.len() {
            limbs[i] as nat
        } else {
            0nat
        }) + limb_base() * limbs_value(limbs_from(limbs, i + 1)),
{
    if i < limbs.len() {
        let t = limbs_from(limbs, i);
        assert(t[0] == limbs[i]);
        assert(t.drop_first() =~= limbs_from(limbs, i + 1));
    } else {
        assert(limbs_from(limbs, i + 1).len() == 0);
    }
}

/// The limbs of `a` and `b` from position `i` on, added with `carry`.
fn add_limbs_from(a: &Vec<u64>, b: &Vec<u64>, i: usize, carry: u64) -> (sum: Vec<u64>)
    requires
        carry <= 1,
        i <= a.len() + b.len(),
    ensures
        limbs_value(sum@) == limbs_value(limbs_from(a@, i as int)) + limbs_value(
            limbs_from(b@, i as int),
        ) + carry,
    decreases a.len() + b.len() - i,
{
    proof {
        lemma_limbs_from_step(a@, i as int);
        lemma_limbs_from_step(b@, i as int);
    }
    if i >= a.len() && i >= b.len() {
        let mut sum: Vec<u64> = Vec::new();
        if carry != 0 {
            sum.push(carry);
            proof {
                assert(sum@.drop_first() =~= Seq::<u64>::empty());
                assert(limbs_value(sum@.drop_first()) == 0);
            }
        }
        proof {
            assert(limbs_value(limbs_from(a@, i as int)) == 0);
            assert(limbs_value(limbs_from(b@, i as int)) == 0);
        }
        return sum;
    }
    let x: u64 = if i < a.len() {
        a[i]
    } else {
        0
    };
    let y: u64 = if i < b.len() {
        b[i]
    } else {
        0
    };
    let total: u128 = x as u128 + y as u128 + carry as u128;
    let low: u64 = (total % 0x1_0000_0000_0000_0000u128) as u64;
    let next: u64 = (total / 0x1_0000_0000_0000_0000u128) as u64;
    assert(total == low + limb_base() * next && next <= 1) by (nonlinear_arith)
        requires
            total == x + y + carry,
            x < limb_base(),
            y < limb_base(),
            carry <= 1,
            low == total % 0x1_0000_0000_0000_0000u128,
            next == total / 0x1_0000_0000_0000_0000u128,
            limb_base() == 0x1_0000_0000_0000_0000u128,
    ;
    let mut rest = add_limbs_from(a, b, i + 1, next);
    let ghost tail = rest@;
    let mut sum: Vec<u64> = Vec::new();
    sum.push(low);
    sum.append(&mut rest);
    proof {
        assert(sum@[0] == low);
        assert(sum@.drop_first() =~= tail);
    }
    sum
}

/// `amount` as limbs.
pub fn limbs_of(amount: u128) -> (limbs: Vec<u64>)
    ensures
        limbs_value(limbs@) == amount,
{
    let low: u64 = (amount % 0x1_0000_0000_0000_0000u128) as u64;
    let high: u64 = (amount / 0x1_0000_0000_0000_0000u128) as u64;
    let mut limbs: Vec<u64> = Vec::new();
    limbs.push(low);
    limbs.push(high);
    proof {
        let top = limbs@.drop_first();
        assert(top.len() == 1);
        assert(top.drop_first() =~= Seq::<u64>::empty());
        assert(limbs_value(top.drop_first()) == 0);
        assert(top[0] == high);
        assert(limbs_value(top) == top[0] as nat + limb_base() * limbs_value(top.drop_first()));
        assert(limbs_value(top) == high);
        assert(amount == low + limb_base() * high) by (nonlinear_arith)
            requires
                low == amount % 0x1_0000_0000_0000_0000u128,
                high == amount / 0x1_0000_0000_0000_0000u128,
                limb_base() == 0x1_0000_0000_0000_0000u128,
        ;
    }
    limbs
}

/// A copy of `limbs`.
pub fn copy_limbs(limbs: &Vec<u64>) -> (copy: Vec<u64>)
    ensures
        copy@ == limbs@,
{
    let copy = limbs.clone();
    assert(copy@ =~= limbs@);
    copy
}

/// `limbs` plus `amount`, without bound.
pub fn add_amount(limbs: &Vec<u64>, amount: u128) -> (sum: Vec<u64>)
    ensures
        limbs_value(sum@) == limbs_value(limbs@) + amount,
{
    let other = limbs_of(amount);
    assert(limbs_from(limbs@, 0) =~= limbs@);
    assert(limbs_from(other@, 0) =~= other@);
    add_limbs_from(limbs, &other, 0, 0)
}

} // verus!
