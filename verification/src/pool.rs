//! The pool of indexes that are still to be minted. It behaves as a set whose
//! elements keep positions: a new index goes to the end, and a removed index
//! is replaced by the last one, so that positions stay contiguous.

use vstd::prelude::*;

verus! {

/// The pool after `position` is removed: the last index takes its place.
pub open spec fn swap_remove_at(pool: Seq<u64>, position: int) -> Seq<u64> {
    pool.update(position, pool.last()).drop_last()
}

/// The position of `index` in the pool.
pub open spec fn position_of(pool: Seq<u64>, index: u64) -> int {
    choose|i: int| 0 <= i < pool.len() && pool[i] == index
}

/// The pool after `index` is removed from it (it must be in it).
pub open spec fn remove_index(pool: Seq<u64>, index: u64) -> Seq<u64> {
    swap_remove_at(pool, position_of(pool, index))
}

/// The pool after `index` is added to it: appended unless already present.
pub open spec fn add_index(pool: Seq<u64>, index: u64) -> Seq<u64> {
    if pool.contains(index) {
        pool
    } else {
        pool.push(index)
    }
}

/// The pool after the indexes `start + 1` up to `start + count` are added in
/// increasing order.
pub open spec fn add_range(pool: Seq<u64>, start: u64, count: nat) -> Seq<u64>
    decreases count,
{
    if count == 0 {
        pool
    } else {
        add_index(add_range(pool, start, (count - 1) as nat), (start + count) as u64)
    }
}

/// Removing the element at a position keeps the others and drops that one.
pub proof fn lemma_swap_remove_at(pool: Seq<u64>, position: int)
    requires
        pool.no_duplicates(),
        0 <= position < pool.len(),
    ensures
        swap_remove_at(pool, position).no_duplicates(),
        swap_remove_at(pool, position).len() == pool.len() - 1,
        swap_remove_at(pool, position).to_set() == pool.to_set().remove(pool[position]),
        forall|x: u64| #[trigger]
            swap_remove_at(pool, position).contains(x) <==> (pool.contains(x) && x != pool[position]),
{
    let r = swap_remove_at(pool, position);
    let n = pool.len();
    assert forall|x: u64| r.contains(x) <==> (pool.contains(x) && x != pool[position]) by {
        if r.contains(x) {
            let j = choose|j: int| 0 <= j < r.len() && r[j] == x;
            if j == position {
                assert(x == pool[n - 1]);
                assert(n - 1 != position);
            } else {
                assert(x == pool[j]);
            }
        }
        if pool.contains(x) && x != pool[position] {
            let j = choose|j: int| 0 <= j < n && pool[j] == x;
            if j == n - 1 {
                assert(r[position] == x);
            } else {
                assert(r[j] == x);
            }
        }
    }
    assert forall|a: int, b: int| 0 <= a < b < r.len() implies r[a] != r[b] by {
        let a0 = if a == position { n - 1 } else { a };
        let b0 = if b == position { n - 1 } else { b };
        assert(r[a] == pool[a0]);
        assert(r[b] == pool[b0]);
    }
    assert(r.to_set() =~= pool.to_set().remove(pool[position]));
}

/// In a pool without duplicates, `position_of` finds the one position that
/// holds the index.
pub proof fn lemma_position_of(pool: Seq<u64>, index: u64, position: int)
    requires
        pool.no_duplicates(),
        0 <= position < pool.len(),
        pool[position] == index,
    ensures
        position_of(pool, index) == position,
{
    let p = position_of(pool, index);
    assert(0 <= p < pool.len() && pool[p] == index);
}

/// Adding an index keeps the pool free of duplicates and adds it to the set.
pub proof fn lemma_add_index(pool: Seq<u64>, index: u64)
    requires
        pool.no_duplicates(),
    ensures
        add_index(pool, index).no_duplicates(),
        add_index(pool, index).len() <= pool.len() + 1,
        add_index(pool, index).to_set() == pool.to_set().insert(index),
{
    if !pool.contains(index) {
        let r = pool.push(index);
        assert forall|a: int, b: int| 0 <= a < b < r.len() implies r[a] != r[b] by {
            if b == pool.len() {
                assert(pool[a] == r[a]);
            }
        }
        assert forall|x: u64| r.contains(x) <==> (pool.contains(x) || x == index) by {
            if r.contains(x) {
                let j = choose|j: int| 0 <= j < r.len() && r[j] == x;
                if j < pool.len() {
                    assert(pool[j] == x);
                }
            }
            if pool.contains(x) {
                let j = choose|j: int| 0 <= j < pool.len() && pool[j] == x;
                assert(r[j] == x);
            }
            if x == index {
                assert(r[pool.len() as int] == x);
            }
        }
        assert(r.to_set() =~= pool.to_set().insert(index));
    } else {
        assert(pool.to_set() =~= pool.to_set().insert(index));
    }
}

/// Adding a range keeps the pool free of duplicates, grows it by at most the
/// range's size, and adds exactly the range to the set.
pub proof fn lemma_add_range(pool: Seq<u64>, start: u64, count: nat)
    requires
        pool.no_duplicates(),
        start + count <= u64::MAX,
    ensures
        add_range(pool, start, count).no_duplicates(),
        add_range(pool, start, count).len() <= pool.len() + count,
        forall|x: u64| #[trigger]
            add_range(pool, start, count).contains(x) <==> (pool.contains(x) || (start < x
                && x <= start + count)),
    decreases count,
{
    if count > 0 {
        let prev = add_range(pool, start, (count - 1) as nat);
        lemma_add_range(pool, start, (count - 1) as nat);
        lemma_add_index(prev, (start + count) as u64);
        let r = add_range(pool, start, count);
        assert forall|x: u64| #[trigger]
            r.contains(x) <==> (pool.contains(x) || (start < x && x <= start + count)) by {
            assert(r.to_set().contains(x) == r.contains(x));
            assert(prev.to_set().contains(x) == prev.contains(x));
        }
    }
}

/// The position of `index` in the pool, if it is there.
pub fn find_index(pool: &Vec<u64>, index: u64) -> (position: Option<usize>)
    ensures
        match position {
            Some(i) => i < pool.len() && pool@[i as int] == index,
            None => !pool@.contains(index),
        },
{
    let n = pool.len();
    let mut i: usize = 0;
    while i < n
        invariant
            n == pool.len(),
            i <= n,
            forall|j: int| 0 <= j < i ==> pool@[j] != index,
        decreases n - i,
    {
        if pool[i] == index {
            return Some(i);
        }
        i = i + 1;
    }
    None
}

/// Adds `index` to the pool unless it is already there.
pub fn insert_index(pool: &mut Vec<u64>, index: u64)
    ensures
        final(pool)@ == add_index(old(pool)@, index),
{
    if find_index(pool, index).is_none() {
        pool.push(index);
    }
}

/// Removes `index` from the pool, moving the last index into its place.
pub fn swap_remove_index(pool: &mut Vec<u64>, index: u64) -> (removed: bool)
    requires
        old(pool)@.no_duplicates(),
    ensures
        removed == old(pool)@.contains(index),
        removed ==> final(pool)@ == remove_index(old(pool)@, index),
        removed ==> final(pool)@.no_duplicates(),
        removed ==> final(pool)@.len() == old(pool)@.len() - 1,
        !removed ==> final(pool)@ == old(pool)@,
{
    match find_index(pool, index) {
        Some(i) => {
            proof {
                lemma_position_of(pool@, index, i as int);
                lemma_swap_remove_at(pool@, i as int);
            }
            pool.swap_remove(i);
            true
        },
        None => false,
    }
}

/// A copy of the pool.
pub fn copy_pool(pool: &Vec<u64>) -> (copy: Vec<u64>)
    ensures
        copy@ == pool@,
{
    let copy = pool.clone();
    assert(copy@ =~= pool@);
    copy
}

} // verus!
