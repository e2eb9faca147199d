//! Properties of the contract that span several calls or hold of every
//! reachable storage.

use vstd::prelude::*;
use crate::decimal::{decimal_digits, lemma_decimal_injective, DECIMAL_LIMIT};
use crate::metadata::{
    attributes_of, attributes_prefix, attributes_suffix, media_extension, media_uri_of,
    metadata_extension, metadata_uri_of, name_of, name_separator, ipfs_gateway, path_separator,
};
use crate::pool::{lemma_swap_remove_at, position_of, remove_index, swap_remove_at};
use crate::swap::{
    draw_sequence, first_mint_is_empty, first_mint_value, giveaway_count, mint_listed,
    pause_error, reserved_indexes, reserved_keys,
    payouts_match, random_mint_count, redeem, referral_paid, reserve_for_bridge, settle_error, settled, stored_amount, stored_money, MintError, MintModel, MintStorage,
    NftMint, Payout, issue_collection_error, specific_mint_error, nft_matches, MintedNft,
};
use crate::decimal::decimal_value;
use crate::pool::{add_range, lemma_add_range};
use crate::swap::{initial_model, transfer_keys, EsdtTransfer};

verus! {

/// The sum of the amounts of a list of transfers.
pub open spec fn payout_total(payouts: Seq<Payout>) -> int
    decreases payouts.len(),
{
    if payouts.len() == 0 {
        0
    } else {
        payout_total(payouts.drop_last()) + payouts.last().amount
    }
}

/// A consistent storage satisfies the model's invariant.
pub proof fn law_storage_invariant(s: MintStorage)
    requires
        s.wf(),
    ensures
        s.model().wf(),
{
    s.lemma_wf_model();
}

/// `false` is stored as empty bytes, so the first-mint storage of every
/// address stays empty: `did_mint` answers `false` for every address, and
/// every mint counts as a first mint for the referral.
pub proof fn law_first_mint_storage_stays_empty(m: MintModel, address: Seq<u8>)
    requires
        m.wf(),
    ensures
        first_mint_is_empty(m.first_mint, address),
        !first_mint_value(m.first_mint, address),
        !(!(first_mint_is_empty(m.first_mint, address) || first_mint_value(
            m.first_mint,
            address,
        ))),
{
}

/// The giveaway accepts no payment yet asks for a positive one: it fails on
/// every call.
pub proof fn law_giveaway_always_fails(
    m: MintModel,
    caller: Seq<u8>,
    token: Seq<u8>,
    amount: u128,
    number_to_mint: u128,
)
    ensures
        giveaway_count(m, caller, token, amount, number_to_mint) is Err,
{
}

/// A purchase at random buys at least one NFT, no more than one transaction
/// may mint nor than the pool holds, and exactly as many as the payment
/// pays for.
pub proof fn law_random_mint_count(m: MintModel, token: Seq<u8>, amount: u128)
    requires
        random_mint_count(m, token, amount) is Ok,
    ensures
        match random_mint_count(m, token, amount) {
            Ok(count) => {
                &&& 1 <= count
                &&& count <= m.max_per_tx
                &&& count <= m.indexes.len()
                &&& count * stored_amount(m.price, token) == amount
            },
            Err(_) => true,
        },
{
    let price = stored_amount(m.price, token);
    assert(price > 0);
    assert((amount / price) * price == amount) by (nonlinear_arith)
        requires
            price > 0,
            amount % price == 0,
    ;
}

/// The transfers that share out a payment add up to the payment.
pub proof fn law_payouts_add_up(
    payouts: Seq<Payout>,
    m: MintModel,
    caller: Seq<u8>,
    token: Seq<u8>,
    amount: u128,
    referrer: Option<Seq<u8>>,
)
    requires
        settle_error(m, caller, amount, referrer) is None,
        payouts_match(payouts, m, caller, token, amount, referrer),
    ensures
        payout_total(payouts) == amount,
{
    reveal_with_fuel(payout_total, 4);
    if referral_paid(m, caller, referrer) {
        assert(payouts.drop_last().drop_last().drop_last().len() == 0);
        assert(payouts.drop_last().drop_last().last() == payouts[0]);
        assert(payouts.drop_last().last() == payouts[1]);
    } else {
        assert(payouts.drop_last().len() == 0);
    }
}

/// A referrer's earnings grow by exactly the share it is paid, and its count
/// by one.
pub proof fn law_referral_bookkeeping(
    payouts: Seq<Payout>,
    m: MintModel,
    caller: Seq<u8>,
    token: Seq<u8>,
    amount: u128,
    referrer: Seq<u8>,
)
    requires
        settle_error(m, caller, amount, Some(referrer)) is None,
        referral_paid(m, caller, Some(referrer)),
        payouts_match(payouts, m, caller, token, amount, Some(referrer)),
    ensures
        stored_money(settled(m, caller, amount, Some(referrer)).ref_money, referrer)
            == stored_money(m.ref_money, referrer) + payouts[0].amount,
        settled(m, caller, amount, Some(referrer)).ref_count[referrer] == (if m.ref_count.contains_key(
            referrer,
        ) {
            m.ref_count[referrer]
        } else {
            0
        }) + 1,
        payouts[0].to@ == referrer,
{
}

/// Minting a list of NFTs by index mints each at most once: on success the
/// list holds no index twice and only indexes of the pool, those leave the
/// pool, and every other index stays.
pub proof fn law_mint_listed(pool: Seq<u64>, numbers: Seq<u64>)
    requires
        pool.no_duplicates(),
        mint_listed(pool, numbers) is Ok,
    ensures
        match mint_listed(pool, numbers) {
            Ok(rest) => {
                &&& numbers.no_duplicates()
                &&& forall|i: int| 0 <= i < numbers.len() ==> pool.contains(#[trigger] numbers[i])
                &&& rest.no_duplicates()
                &&& rest.len() == pool.len() - numbers.len()
                &&& forall|x: u64| #[trigger]
                    rest.contains(x) <==> (pool.contains(x) && !numbers.contains(x))
            },
            Err(_) => true,
        },
    decreases numbers.len(),
{
    if numbers.len() > 0 {
        let first = numbers[0];
        let tail = numbers.drop_first();
        let pos = position_of(pool, first);
        assert(0 <= pos < pool.len() && pool[pos] == first);
        lemma_swap_remove_at(pool, pos);
        let p1 = remove_index(pool, first);
        law_mint_listed(p1, tail);
        assert forall|x: u64| numbers.contains(x) <==> (x == first || tail.contains(x)) by {
            if numbers.contains(x) {
                let i = choose|i: int| 0 <= i < numbers.len() && numbers[i] == x;
                if i > 0 {
                    assert(tail[i - 1] == x);
                }
            }
            if tail.contains(x) {
                let i = choose|i: int| 0 <= i < tail.len() && tail[i] == x;
                assert(numbers[i + 1] == x);
            }
            if x == first {
                assert(numbers[0] == x);
            }
        }
        assert forall|i: int| 0 <= i < numbers.len() implies pool.contains(#[trigger] numbers[i]) by {
            if i > 0 {
                assert(numbers[i] == tail[i - 1]);
                assert(p1.contains(tail[i - 1]));
            }
        }
        assert forall|a: int, b: int| 0 <= a < b < numbers.len() implies numbers[a] != numbers[b] by {
            assert(numbers[b] == tail[b - 1]);
            assert(p1.contains(tail[b - 1]));
            if a > 0 {
                assert(numbers[a] == tail[a - 1]);
            }
        }
    } else {
        assert forall|x: u64| !numbers.contains(x) by {}
    }
}

/// Drawing the NFT at a position takes exactly its index out of the pool.
pub proof fn law_draw_takes_the_drawn_index(pool: Seq<u64>, position: int)
    requires
        pool.no_duplicates(),
        0 <= position < pool.len(),
    ensures
        swap_remove_at(pool, position).no_duplicates(),
        swap_remove_at(pool, position).len() == pool.len() - 1,
        forall|x: u64| #[trigger]
            swap_remove_at(pool, position).contains(x) <==> (pool.contains(x) && x
                != pool[position]),
{
    lemma_swap_remove_at(pool, position);
}

/// Pausing is its own inverse: when a pause succeeds, a second one succeeds
/// too and restores the storage.
pub proof fn law_pause_twice(m: MintModel, caller: Seq<u8>)
    requires
        pause_error(m, caller) is None,
    ensures
        pause_error(MintModel { paused: !m.paused, ..m }, caller) is None,
        (MintModel { paused: !(MintModel { paused: !m.paused, ..m }).paused, ..m }) == m,
{
}

/// A price reads back as it was set, and setting it leaves the price of
/// every other token as it was.
pub proof fn law_price_read_after_write(
    prices: Map<Seq<u8>, u128>,
    token: Seq<u8>,
    other: Seq<u8>,
    price: u128,
)
    ensures
        stored_amount(prices.insert(token, price), token) == price,
        other != token ==> stored_amount(prices.insert(token, price), other) == stored_amount(
            prices,
            other,
        ),
{
}

/// An index reserved for an NFT of an older collection is exchanged once:
/// redeeming that NFT yields the index and restores the bridge table as it
/// was before the reservation, and redeeming it a second time fails.
pub proof fn law_reserve_then_redeem(
    pool: Seq<u64>,
    bridge: Map<(Seq<u8>, u64), u64>,
    total: u64,
    collection: Seq<u8>,
    nonce: u64,
    index: u64,
)
    requires
        reserve_for_bridge(pool, bridge, total, collection, seq![(nonce, index)]) is Ok,
        index < DECIMAL_LIMIT,
    ensures
        match reserve_for_bridge(pool, bridge, total, collection, seq![(nonce, index)]) {
            Ok((_, reserved, _)) => {
                &&& redeem(reserved, seq![(collection, nonce)], Seq::empty()) == Ok::<
                    (Map<(Seq<u8>, u64), u64>, Seq<u64>),
                    MintError,
                >((bridge, seq![index]))
                &&& redeem(reserved, seq![(collection, nonce), (collection, nonce)], Seq::empty())
                    == Err::<(Map<(Seq<u8>, u64), u64>, Seq<u64>), MintError>(
                    MintError::NotBridgeable,
                )
            },
            Err(_) => true,
        },
{
    reveal_with_fuel(reserve_for_bridge, 2);
    reveal_with_fuel(redeem, 3);
    let pairs = seq![(nonce, index)];
    let key = (collection, nonce);
    assert(pairs[0] == (nonce, index));
    assert(pairs.drop_first().len() == 0);
    let reserved = bridge.insert(key, index);
    assert(!bridge.contains_key(key));
    assert(reserved.remove(key) =~= bridge);
    let once = seq![key];
    assert(once.drop_first().len() == 0);
    assert(Seq::<u64>::empty().push(index) =~= seq![index]);
    let twice = seq![key, key];
    assert(twice.drop_first() =~= seq![key]);
    assert(!reserved.remove(key).contains_key(key));
}

/// Different indexes get different names within a collection.
pub proof fn law_names_are_distinct(collection_name: Seq<u8>, a: nat, b: nat)
    requires
        a != b,
    ensures
        name_of(collection_name, a) != name_of(collection_name, b),
{
    let p = collection_name + name_separator();
    if name_of(collection_name, a) == name_of(collection_name, b) {
        assert(name_of(collection_name, a).skip(p.len() as int) =~= decimal_digits(a));
        assert(name_of(collection_name, b).skip(p.len() as int) =~= decimal_digits(b));
        lemma_decimal_injective(a, b);
    }
}

proof fn lemma_middle_equal(p: Seq<u8>, x: Seq<u8>, y: Seq<u8>, q: Seq<u8>)
    requires
        p + x + q == p + y + q,
    ensures
        x == y,
{
    let s = p + x + q;
    let t = p + y + q;
    assert(s.len() == t.len());
    assert(s.subrange(p.len() as int, (s.len() - q.len()) as int) =~= x);
    assert(t.subrange(p.len() as int, (t.len() - q.len()) as int) =~= y);
}

/// Different indexes get different attributes and different URIs.
pub proof fn law_metadata_is_distinct(cid: Seq<u8>, a: nat, b: nat)
    requires
        a != b,
    ensures
        attributes_of(cid, a) != attributes_of(cid, b),
        media_uri_of(cid, a) != media_uri_of(cid, b),
        metadata_uri_of(cid, a) != metadata_uri_of(cid, b),
{
    let stem = attributes_prefix() + cid + path_separator();
    if attributes_of(cid, a) == attributes_of(cid, b) {
        assert(attributes_of(cid, a) == stem + decimal_digits(a) + attributes_suffix());
        lemma_middle_equal(stem, decimal_digits(a), decimal_digits(b), attributes_suffix());
        lemma_decimal_injective(a, b);
    }
    let uri_stem = ipfs_gateway() + cid + path_separator();
    if media_uri_of(cid, a) == media_uri_of(cid, b) {
        lemma_middle_equal(uri_stem, decimal_digits(a), decimal_digits(b), media_extension());
        lemma_decimal_injective(a, b);
    }
    if metadata_uri_of(cid, a) == metadata_uri_of(cid, b) {
        lemma_middle_equal(uri_stem, decimal_digits(a), decimal_digits(b), metadata_extension());
        lemma_decimal_injective(a, b);
    }
}

} // verus!

verus! {

/// Random draws take distinct indexes of the pool: on success as many
/// indexes are drawn as there are draws, none twice and all from the pool;
/// they leave the pool, and every other index stays.
pub proof fn law_draw_sequence(pool: Seq<u64>, positions: Seq<usize>, drawn: Seq<u64>)
    requires
        pool.no_duplicates(),
        draw_sequence(pool, positions, drawn) is Ok,
    ensures
        match draw_sequence(pool, positions, drawn) {
            Ok((rest, all)) => {
                &&& all.len() == drawn.len() + positions.len()
                &&& forall|i: int| 0 <= i < drawn.len() ==> all[i] == drawn[i]
                &&& all.skip(drawn.len() as int).no_duplicates()
                &&& forall|i: int|
                    drawn.len() <= i < all.len() ==> pool.contains(#[trigger] all[i])
                &&& rest.no_duplicates()
                &&& rest.len() == pool.len() - positions.len()
                &&& forall|x: u64| #[trigger]
                    rest.contains(x) <==> (pool.contains(x) && !all.skip(
                        drawn.len() as int,
                    ).contains(x))
            },
            Err(_) => true,
        },
    decreases positions.len(),
{
    if positions.len() == 0 {
        let (rest, all) = draw_sequence(pool, positions, drawn)->Ok_0;
        assert(all == drawn);
        assert forall|x: u64| !all.skip(drawn.len() as int).contains(x) by {}
    } else {
        let at = positions[0] - 1;
        let x0 = pool[at];
        let p1 = swap_remove_at(pool, at);
        let d1 = drawn.push(x0);
        lemma_swap_remove_at(pool, at);
        law_draw_sequence(p1, positions.drop_first(), d1);
        let (rest, all) = draw_sequence(pool, positions, drawn)->Ok_0;
        assert(draw_sequence(pool, positions, drawn) == draw_sequence(p1, positions.drop_first(), d1));
        let new = all.skip(drawn.len() as int);
        let new1 = all.skip(d1.len() as int);
        assert(new[0] == x0) by {
            assert(all[drawn.len() as int] == d1[drawn.len() as int]);
        }
        assert(new.drop_first() =~= new1);
        assert forall|y: u64| new.contains(y) <==> (y == x0 || new1.contains(y)) by {
            if new.contains(y) {
                let j = choose|j: int| 0 <= j < new.len() && new[j] == y;
                if j > 0 {
                    assert(new1[j - 1] == y);
                }
            }
            if new1.contains(y) {
                let j = choose|j: int| 0 <= j < new1.len() && new1[j] == y;
                assert(new[j + 1] == y);
            }
            if y == x0 {
                assert(new[0] == y);
            }
        }
        assert forall|a: int, b: int| 0 <= a < b < new.len() implies new[a] != new[b] by {
            assert(new[b] == new1[b - 1]);
            assert(all[d1.len() + b - 1] == new1[b - 1]);
            assert(p1.contains(new1[b - 1]));
            if a > 0 {
                assert(new[a] == new1[a - 1]);
            }
        }
        assert forall|i: int| drawn.len() <= i < all.len() implies pool.contains(#[trigger] all[i]) by {
            if i == drawn.len() {
                assert(all[i] == d1[i]);
            } else {
                assert(p1.contains(all[i]));
            }
        }
    }
}

/// Reserving indexes for an older collection: on success every index of
/// the pairs came from the pool and leaves it, each nonce had no index and
/// now has its own, every other entry of the table stays, and the
/// collection's count drops by the number of pairs.
pub proof fn law_reserve_for_bridge(
    pool: Seq<u64>,
    bridge: Map<(Seq<u8>, u64), u64>,
    total: u64,
    collection: Seq<u8>,
    pairs: Seq<(u64, u64)>,
)
    requires
        pool.no_duplicates(),
        reserve_for_bridge(pool, bridge, total, collection, pairs) is Ok,
    ensures
        match reserve_for_bridge(pool, bridge, total, collection, pairs) {
            Ok((rest, table, count)) => {
                &&& count == total - pairs.len()
                &&& rest.no_duplicates()
                &&& rest.len() == pool.len() - pairs.len()
                &&& forall|i: int| 0 <= i < pairs.len() ==> pool.contains(#[trigger] pairs[i].1)
                &&& forall|x: u64| #[trigger]
                    rest.contains(x) <==> (pool.contains(x) && !reserved_indexes(pairs).contains(x))
                &&& forall|i: int|
                    0 <= i < pairs.len() ==> !bridge.contains_key((collection, #[trigger] pairs[i].0))
                        && table.contains_key((collection, pairs[i].0)) && table[(
                        collection,
                        pairs[i].0,
                    )] == pairs[i].1
                &&& forall|k: (Seq<u8>, u64)| #[trigger]
                    table.contains_key(k) <==> (bridge.contains_key(k) || reserved_keys(
                        collection,
                        pairs,
                    ).contains(k))
                &&& forall|k: (Seq<u8>, u64)| bridge.contains_key(k) ==> #[trigger] table[k] == bridge[k]
            },
            Err(_) => true,
        },
    decreases pairs.len(),
{
    if pairs.len() == 0 {
        assert forall|x: u64| !reserved_indexes(pairs).contains(x) by {}
        assert forall|k: (Seq<u8>, u64)| !reserved_keys(collection, pairs).contains(k) by {}
    } else {
        let nonce = pairs[0].0;
        let index = pairs[0].1;
        let key = (collection, nonce);
        let pos = position_of(pool, index);
        assert(0 <= pos < pool.len() && pool[pos] == index);
        lemma_swap_remove_at(pool, pos);
        let p1 = remove_index(pool, index);
        let b1 = bridge.insert(key, index);
        let tail = pairs.drop_first();
        law_reserve_for_bridge(p1, b1, (total - 1) as u64, collection, tail);
        let (rest, table, count) = reserve_for_bridge(pool, bridge, total, collection, pairs)->Ok_0;
        assert(reserved_indexes(tail) =~= reserved_indexes(pairs).drop_first());
        assert(reserved_keys(collection, tail) =~= reserved_keys(collection, pairs).drop_first());
        assert forall|x: u64|
            reserved_indexes(pairs).contains(x) <==> (x == index || reserved_indexes(tail).contains(
                x,
            )) by {
            let ri = reserved_indexes(pairs);
            if ri.contains(x) {
                let j = choose|j: int| 0 <= j < ri.len() && ri[j] == x;
                if j > 0 {
                    assert(reserved_indexes(tail)[j - 1] == x);
                }
            }
            if reserved_indexes(tail).contains(x) {
                let j = choose|j: int|
                    0 <= j < reserved_indexes(tail).len() && reserved_indexes(tail)[j] == x;
                assert(ri[j + 1] == x);
            }
            if x == index {
                assert(ri[0] == x);
            }
        }
        assert forall|k: (Seq<u8>, u64)|
            reserved_keys(collection, pairs).contains(k) <==> (k == key || reserved_keys(
                collection,
                tail,
            ).contains(k)) by {
            let rk = reserved_keys(collection, pairs);
            let rt = reserved_keys(collection, tail);
            if rk.contains(k) {
                let j = choose|j: int| 0 <= j < rk.len() && rk[j] == k;
                if j > 0 {
                    assert(rt[j - 1] == k);
                }
            }
            if rt.contains(k) {
                let j = choose|j: int| 0 <= j < rt.len() && rt[j] == k;
                assert(rk[j + 1] == k);
            }
            if k == key {
                assert(rk[0] == k);
            }
        }
        assert forall|i: int| 0 <= i < pairs.len() implies pool.contains(#[trigger] pairs[i].1) by {
            if i > 0 {
                assert(pairs[i] == tail[i - 1]);
                assert(p1.contains(tail[i - 1].1));
            }
        }
        assert forall|i: int|
            0 <= i < pairs.len() implies !bridge.contains_key((collection, #[trigger] pairs[i].0))
            && table.contains_key((collection, pairs[i].0)) && table[(collection, pairs[i].0)]
            == pairs[i].1 by {
            if i > 0 {
                assert(pairs[i] == tail[i - 1]);
                assert(!b1.contains_key((collection, tail[i - 1].0)));
            } else {
                assert(b1.contains_key(key));
            }
        }
    }
}

/// Exchanging NFTs of older collections: on success every NFT named had a
/// reserved index, none is named twice, each yields its reserved index in
/// order, and exactly their entries leave the table.
pub proof fn law_redeem(
    bridge: Map<(Seq<u8>, u64), u64>,
    keys: Seq<(Seq<u8>, u64)>,
    minted: Seq<u64>,
)
    requires
        redeem(bridge, keys, minted) is Ok,
    ensures
        match redeem(bridge, keys, minted) {
            Ok((table, all)) => {
                &&& keys.no_duplicates()
                &&& forall|i: int| 0 <= i < keys.len() ==> bridge.contains_key(#[trigger] keys[i])
                &&& forall|k: (Seq<u8>, u64)| #[trigger]
                    table.contains_key(k) <==> (bridge.contains_key(k) && !keys.contains(k))
                &&& forall|k: (Seq<u8>, u64)| table.contains_key(k) ==> #[trigger] table[k] == bridge[k]
                &&& all.len() == minted.len() + keys.len()
                &&& forall|i: int| 0 <= i < minted.len() ==> all[i] == minted[i]
                &&& forall|i: int|
                    0 <= i < keys.len() ==> all[minted.len() + i] == bridge[#[trigger] keys[i]]
            },
            Err(_) => true,
        },
    decreases keys.len(),
{
    if keys.len() == 0 {
        assert forall|k: (Seq<u8>, u64)| !keys.contains(k) by {}
    } else {
        let k0 = keys[0];
        let tail = keys.drop_first();
        let b1 = bridge.remove(k0);
        let m1 = minted.push(bridge[k0]);
        law_redeem(b1, tail, m1);
        assert forall|k: (Seq<u8>, u64)| keys.contains(k) <==> (k == k0 || tail.contains(k)) by {
            if keys.contains(k) {
                let j = choose|j: int| 0 <= j < keys.len() && keys[j] == k;
                if j > 0 {
                    assert(tail[j - 1] == k);
                }
            }
            if tail.contains(k) {
                let j = choose|j: int| 0 <= j < tail.len() && tail[j] == k;
                assert(keys[j + 1] == k);
            }
            if k == k0 {
                assert(keys[0] == k);
            }
        }
        assert forall|a: int, b: int| 0 <= a < b < keys.len() implies keys[a] != keys[b] by {
            assert(keys[b] == tail[b - 1]);
            assert(b1.contains_key(tail[b - 1]));
            if a > 0 {
                assert(keys[a] == tail[a - 1]);
            }
        }
        assert forall|i: int| 0 <= i < keys.len() implies bridge.contains_key(#[trigger] keys[i]) by {
            if i > 0 {
                assert(keys[i] == tail[i - 1]);
                assert(b1.contains_key(tail[i - 1]));
            }
        }
        let (table, all) = redeem(bridge, keys, minted)->Ok_0;
        assert forall|i: int|
            0 <= i < keys.len() implies all[minted.len() + i] == bridge[#[trigger] keys[i]] by {
            if i > 0 {
                assert(keys[i] == tail[i - 1]);
                assert(all[m1.len() + (i - 1)] == b1[tail[i - 1]]);
                assert(b1.contains_key(tail[i - 1]));
            } else {
                assert(all[minted.len() as int] == m1[minted.len() as int]);
            }
        }
    }
}

/// Once an NFT of an older collection has no index reserved (because it
/// was exchanged), every exchange that names it fails.
pub proof fn law_redeemed_nft_is_refused(
    bridge: Map<(Seq<u8>, u64), u64>,
    keys: Seq<(Seq<u8>, u64)>,
    minted: Seq<u64>,
    key: (Seq<u8>, u64),
)
    requires
        !bridge.contains_key(key),
        keys.contains(key),
    ensures
        redeem(bridge, keys, minted) is Err,
    decreases keys.len(),
{
    if keys[0] != key && bridge.contains_key(keys[0]) && bridge[keys[0]] < DECIMAL_LIMIT {
        let j = choose|j: int| 0 <= j < keys.len() && keys[j] == key;
        assert(j > 0);
        assert(keys.drop_first()[j - 1] == key);
        law_redeemed_nft_is_refused(
            bridge.remove(keys[0]),
            keys.drop_first(),
            minted.push(bridge[keys[0]]),
            key,
        );
    }
}

/// Minting locks the content identifier: once one NFT has left the pool,
/// by random draws or by index, the pool is smaller than the collection's
/// count, which `set_cid` refuses.
pub proof fn law_cid_locks_after_minting(
    m: MintModel,
    caller: Seq<u8>,
    amount: u128,
    referrer: Option<Seq<u8>>,
    positions: Seq<usize>,
    numbers: Seq<u64>,
)
    requires
        m.wf(),
    ensures
        positions.len() >= 1 ==> match draw_sequence(m.indexes, positions, Seq::empty()) {
            Ok((pool, _)) => (MintModel {
                indexes: pool,
                ..settled(m, caller, amount, referrer)
            }).total != pool.len(),
            Err(_) => true,
        },
        numbers.len() >= 1 ==> match mint_listed(m.indexes, numbers) {
            Ok(pool) => (MintModel {
                indexes: pool,
                ..settled(m, caller, amount, referrer)
            }).total != pool.len(),
            Err(_) => true,
        },
{
    if positions.len() >= 1 && draw_sequence(m.indexes, positions, Seq::empty()) is Ok {
        law_draw_sequence(m.indexes, positions, Seq::empty());
    }
    if numbers.len() >= 1 && mint_listed(m.indexes, numbers) is Ok {
        law_mint_listed(m.indexes, numbers);
    }
}

/// A later call as it bears on the bridge table: a reservation of `pairs`
/// for `collection` out of `pool` (`populate_bridge_indexes`), an exchange of
/// the NFTs named by `keys` (`bridge_nfts`), or any other endpoint, none of
/// which touches the table.
pub enum BridgeCall {
    Other,
    Reserve { pool: Seq<u64>, total: u64, collection: Seq<u8>, pairs: Seq<(u64, u64)> },
    Redeem { keys: Seq<(Seq<u8>, u64)> },
}

/// The bridge table after `call`; a failed call leaves it as it was.
pub open spec fn after_call(bridge: Map<(Seq<u8>, u64), u64>, call: BridgeCall) -> Map<
    (Seq<u8>, u64),
    u64,
> {
    match call {
        BridgeCall::Other => bridge,
        BridgeCall::Reserve { pool, total, collection, pairs } => match reserve_for_bridge(
            pool,
            bridge,
            total,
            collection,
            pairs,
        ) {
            Ok((_, table, _)) => table,
            Err(_) => bridge,
        },
        BridgeCall::Redeem { keys } => match redeem(bridge, keys, Seq::empty()) {
            Ok((table, _)) => table,
            Err(_) => bridge,
        },
    }
}

/// The bridge table after `calls`, in order.
pub open spec fn after_calls(bridge: Map<(Seq<u8>, u64), u64>, calls: Seq<BridgeCall>) -> Map<
    (Seq<u8>, u64),
    u64,
>
    decreases calls.len(),
{
    if calls.len() == 0 {
        bridge
    } else {
        after_calls(after_call(bridge, calls[0]), calls.drop_first())
    }
}

/// Whether `call` reserves an index for `key` again.
pub open spec fn reserves_key(call: BridgeCall, key: (Seq<u8>, u64)) -> bool {
    match call {
        BridgeCall::Reserve { collection, pairs, .. } => reserved_keys(collection, pairs).contains(
            key,
        ),
        _ => false,
    }
}

proof fn lemma_reserve_keeps_key_out(
    pool: Seq<u64>,
    bridge: Map<(Seq<u8>, u64), u64>,
    total: u64,
    collection: Seq<u8>,
    pairs: Seq<(u64, u64)>,
    key: (Seq<u8>, u64),
)
    requires
        !bridge.contains_key(key),
        !reserved_keys(collection, pairs).contains(key),
    ensures
        match reserve_for_bridge(pool, bridge, total, collection, pairs) {
            Ok((_, table, _)) => !table.contains_key(key),
            Err(_) => true,
        },
    decreases pairs.len(),
{
    if pairs.len() > 0 {
        let nonce = pairs[0].0;
        let index = pairs[0].1;
        assert(reserved_keys(collection, pairs)[0] == (collection, nonce));
        let tail = pairs.drop_first();
        assert forall|k: (Seq<u8>, u64)| reserved_keys(collection, tail).contains(k) implies reserved_keys(
            collection,
            pairs,
        ).contains(k) by {
            let j = choose|j: int| 0 <= j < tail.len() && reserved_keys(collection, tail)[j] == k;
            assert(reserved_keys(collection, pairs)[j + 1] == k);
        }
        lemma_reserve_keeps_key_out(
            remove_index(pool, index),
            bridge.insert((collection, nonce), index),
            (total - 1) as u64,
            collection,
            tail,
            key,
        );
    }
}

proof fn lemma_calls_keep_key_out(
    bridge: Map<(Seq<u8>, u64), u64>,
    calls: Seq<BridgeCall>,
    key: (Seq<u8>, u64),
)
    requires
        !bridge.contains_key(key),
        forall|i: int| 0 <= i < calls.len() ==> !reserves_key(#[trigger] calls[i], key),
    ensures
        !after_calls(bridge, calls).contains_key(key),
    decreases calls.len(),
{
    if calls.len() > 0 {
        assert(!reserves_key(calls[0], key));
        match calls[0] {
            BridgeCall::Other => {},
            BridgeCall::Reserve { pool, total, collection, pairs } => {
                lemma_reserve_keeps_key_out(pool, bridge, total, collection, pairs, key);
            },
            BridgeCall::Redeem { keys } => {
                if redeem(bridge, keys, Seq::empty()) is Ok {
                    law_redeem(bridge, keys, Seq::empty());
                }
            },
        }
        let tail = calls.drop_first();
        assert forall|i: int| 0 <= i < tail.len() implies !reserves_key(#[trigger] tail[i], key) by {
            assert(tail[i] == calls[i + 1]);
        }
        lemma_calls_keep_key_out(after_call(bridge, calls[0]), tail, key);
    }
}

/// Each NFT of an older collection is exchanged at most once: after an
/// exchange that took `key`, and any later calls none of which reserves an
/// index for `key` again, `key` has no reserved index and every exchange
/// that names it fails.
pub proof fn law_bridged_at_most_once(
    bridge: Map<(Seq<u8>, u64), u64>,
    keys: Seq<(Seq<u8>, u64)>,
    key: (Seq<u8>, u64),
    calls: Seq<BridgeCall>,
    later_keys: Seq<(Seq<u8>, u64)>,
    minted: Seq<u64>,
)
    requires
        redeem(bridge, keys, Seq::empty()) is Ok,
        keys.contains(key),
        forall|i: int| 0 <= i < calls.len() ==> !reserves_key(#[trigger] calls[i], key),
        later_keys.contains(key),
    ensures
        !after_calls(after_call(bridge, BridgeCall::Redeem { keys }), calls).contains_key(key),
        redeem(after_calls(after_call(bridge, BridgeCall::Redeem { keys }), calls), later_keys, minted)
            is Err,
{
    law_redeem(bridge, keys, Seq::empty());
    let table = after_call(bridge, BridgeCall::Redeem { keys });
    assert(!table.contains_key(key));
    lemma_calls_keep_key_out(table, calls, key);
    law_redeemed_nft_is_refused(after_calls(table, calls), later_keys, minted, key);
}

/// A purchase at random succeeds exactly when the sale runs (not paused,
/// with the pool, the content identifier and the maximum per transaction
/// set), the paid token has a non-zero price, the payment is a non-zero
/// multiple of it, and the count it pays for is at most the maximum per
/// transaction and the pool's size; it then buys that count. Buying exactly
/// the maximum per transaction is allowed; it is refused as above the
/// maximum only when the count exceeds it.
pub proof fn law_random_mint_succeeds_exactly(m: MintModel, token: Seq<u8>, amount: u128)
    ensures
        (random_mint_count(m, token, amount) is Ok) <==> {
            &&& !m.paused
            &&& m.indexes.len() > 0
            &&& m.cid.len() > 0
            &&& m.max_per_tx > 0
            &&& m.price.contains_key(token)
            &&& m.price[token] > 0
            &&& amount > 0
            &&& amount % m.price[token] == 0
            &&& amount / m.price[token] <= m.max_per_tx
            &&& amount / m.price[token] <= m.indexes.len()
        },
        random_mint_count(m, token, amount) matches Ok(count) ==> count == amount / m.price[token],
        random_mint_count(m, token, amount) == Err::<u128, MintError>(MintError::AboveMaxPerTx)
            ==> m.price.contains_key(token) && amount / m.price[token] > m.max_per_tx,
        random_mint_count(m, token, amount) == Err::<u128, MintError>(MintError::NotEnoughNfts)
            ==> m.price.contains_key(token) && amount / m.price[token] > m.indexes.len(),
{
    if m.price.contains_key(token) && m.price[token] > 0 && amount > 0 && amount % m.price[token]
        == 0 {
        let p = m.price[token];
        assert(amount / p >= 1) by (nonlinear_arith)
            requires
                p > 0,
                amount > 0,
                amount % p == 0,
        ;
    }
}

/// The checks of a purchase by index pass exactly when the sale runs, the
/// paid token has a non-zero price for minting by index, the payment is a
/// non-zero multiple of it that pays for as many NFTs as were asked for, and
/// that number is at most the maximum per transaction and the pool's size.
/// Asking for exactly the maximum per transaction is allowed.
pub proof fn law_specific_mint_checks_exactly(
    m: MintModel,
    token: Seq<u8>,
    amount: u128,
    requested: nat,
)
    ensures
        (specific_mint_error(m, token, amount, requested) is None) <==> {
            &&& !m.paused
            &&& m.indexes.len() > 0
            &&& m.cid.len() > 0
            &&& m.max_per_tx > 0
            &&& m.specific_price.contains_key(token)
            &&& m.specific_price[token] > 0
            &&& amount > 0
            &&& amount % m.specific_price[token] == 0
            &&& amount / m.specific_price[token] == requested
            &&& requested <= m.max_per_tx
            &&& requested <= m.indexes.len()
        },
        specific_mint_error(m, token, amount, requested) == Some(MintError::AboveMaxPerTx)
            ==> requested > m.max_per_tx,
        specific_mint_error(m, token, amount, requested) == Some(MintError::NotEnoughNfts)
            ==> requested > m.indexes.len(),
{
}

/// Every transfer that shares out a payment is made in the token that was
/// paid. With a paid referral the referrer gets `ref_percent` percent of the
/// payment, the buyer `discount_percent` percent and the owner the rest, in
/// that order; otherwise the owner gets all of it.
pub proof fn law_payouts_in_paid_token(
    payouts: Seq<Payout>,
    m: MintModel,
    caller: Seq<u8>,
    token: Seq<u8>,
    amount: u128,
    referrer: Option<Seq<u8>>,
)
    requires
        m.wf(),
        payouts_match(payouts, m, caller, token, amount, referrer),
    ensures
        forall|i: int| 0 <= i < payouts.len() ==> (#[trigger] payouts[i]).token@ == token,
        payouts.len() == 1 || payouts.len() == 3,
        payouts.last().to@ == m.owner,
        (payouts.len() == 3) <==> (m.ref_percent > 0 && m.discount_percent > 0 && referrer is Some
            && referrer->0 != caller),
        payouts.len() == 1 ==> payouts[0].amount == amount,
        payouts.len() == 3 ==> {
            &&& payouts[0].to@ == referrer->0
            &&& payouts[0].amount == amount * m.ref_percent / 100
            &&& payouts[1].to@ == caller
            &&& payouts[1].amount == amount * m.discount_percent / 100
            &&& payouts[2].amount == amount - payouts[0].amount - payouts[1].amount
        },
{
    law_first_mint_storage_stays_empty(m, caller);
}

/// The owner's issuing, paid in EGLD, is refused as already issued exactly
/// when a token identifier is stored; the recorded collection name plays no
/// part, so an issuing that failed (and left only its name behind) can be
/// made again. A payment in another token, or a caller other than the
/// owner, is refused as such.
pub proof fn law_issue_refused_only_when_issued(
    m: MintModel,
    caller: Seq<u8>,
    token: Seq<u8>,
    name: Seq<u8>,
)
    ensures
        token.len() != 0 ==> issue_collection_error(m, caller, token) == Some(
            MintError::EsdtPaymentNotAccepted,
        ),
        token.len() == 0 && caller != m.owner ==> issue_collection_error(m, caller, token) == Some(
            MintError::NotOwner,
        ),
        token.len() == 0 && caller == m.owner ==> {
            &&& (issue_collection_error(m, caller, token) == Some(MintError::TokenAlreadyIssued))
                <==> m.token_id.len() != 0
            &&& (issue_collection_error(m, caller, token) is None) <==> m.token_id.len() == 0
        },
        issue_collection_error(MintModel { token_name: name, ..m }, caller, token)
            == issue_collection_error(m, caller, token),
{
}

/// Every NFT the contract creates, by a mint at random, a mint by index or
/// an exchange, is one unit of the collection's token with its own index and
/// royalties of 1000 (10%, in hundredths of a percent).
pub proof fn law_minted_nft_royalties(nft: MintedNft, m: MintModel, index: u64)
    requires
        nft_matches(nft, m, index),
    ensures
        nft.royalties == 1000,
        nft.amount == 1,
        nft.token_id@ == m.token_id,
        nft.index == index,
        nft.name@ == name_of(m.token_name, index as nat),
        nft.attributes@ == attributes_of(m.cid, index as nat),
        nft.uris@.len() == 2,
        nft.uris@[0]@ == media_uri_of(m.cid, index as nat),
        nft.uris@[1]@ == metadata_uri_of(m.cid, index as nat),
{
}

/// The owner can pause or resume the sale exactly when the pool, the content
/// identifier and the maximum per transaction are set; anyone else is
/// refused as not the owner.
pub proof fn law_pause_allowed_exactly(m: MintModel, caller: Seq<u8>)
    ensures
        (pause_error(m, caller) is None) <==> (caller == m.owner && m.indexes.len() > 0
            && m.cid.len() > 0 && m.max_per_tx > 0),
        (pause_error(m, caller) == Some(MintError::NotOwner)) <==> caller != m.owner,
{
}

/// Sharing out a payment fails as a self-referral exactly when both shares
/// are set and the caller names itself; without both shares or without a
/// referrer it never fails; with a referral to someone else it succeeds
/// exactly when the referrer's counter can still grow and the two shares
/// together do not exceed the payment.
pub proof fn law_settle_checks_exactly(
    m: MintModel,
    caller: Seq<u8>,
    amount: u128,
    referrer: Option<Seq<u8>>,
)
    requires
        m.wf(),
    ensures
        (settle_error(m, caller, amount, referrer) == Some(MintError::SelfReferral)) <==> (
        m.ref_percent > 0 && m.discount_percent > 0 && referrer == Some(caller)),
        m.ref_percent == 0 || m.discount_percent == 0 || referrer is None ==> settle_error(
            m,
            caller,
            amount,
            referrer,
        ) is None,
        m.ref_percent > 0 && m.discount_percent > 0 && referrer is Some && referrer->0 != caller
            ==> ((settle_error(m, caller, amount, referrer) is None) <==> {
            &&& (!m.ref_count.contains_key(referrer->0) || m.ref_count[referrer->0] < u64::MAX)
            &&& amount * m.ref_percent / 100 + amount * m.discount_percent / 100 <= amount
        }),
{
    law_first_mint_storage_stays_empty(m, caller);
}

/// Sharing out a payment changes only the caller's first-mint flag (to
/// `false`) and, with a paid referral, the referrer's counter (one more) and
/// earnings (its share more); every other address keeps its counter and
/// earnings, and every other part of the storage stays as it was.
pub proof fn law_settled_changes(m: MintModel, caller: Seq<u8>, amount: u128, referrer: Option<Seq<u8>>, other: Seq<u8>)
    requires
        m.wf(),
        settle_error(m, caller, amount, referrer) is None,
    ensures
        settled(m, caller, amount, referrer).first_mint == m.first_mint.insert(caller, false),
        (MintModel {
            first_mint: m.first_mint,
            ref_count: m.ref_count,
            ref_money: m.ref_money,
            ..settled(m, caller, amount, referrer)
        }) == m,
        !(m.ref_percent > 0 && m.discount_percent > 0 && referrer is Some) ==> settled(
            m,
            caller,
            amount,
            referrer,
        ).ref_count == m.ref_count && settled(m, caller, amount, referrer).ref_money == m.ref_money,
        m.ref_percent > 0 && m.discount_percent > 0 && referrer is Some ==> {
            let after = settled(m, caller, amount, referrer);
            let r = referrer->0;
            &&& after.ref_count.contains_key(r)
            &&& after.ref_count[r] == (if m.ref_count.contains_key(r) { m.ref_count[r] as int } else { 0 }) + 1
            &&& after.ref_money.contains_key(r)
            &&& after.ref_money[r] == (if m.ref_money.contains_key(r) { m.ref_money[r] as int } else { 0 })
                + amount * m.ref_percent / 100
            &&& other != r ==> (after.ref_count.contains_key(other) == m.ref_count.contains_key(other)
                && after.ref_count[other] == m.ref_count[other]
                && after.ref_money.contains_key(other) == m.ref_money.contains_key(other)
                && after.ref_money[other] == m.ref_money[other])
        },
{
    law_first_mint_storage_stays_empty(m, caller);
    assert((MintModel {
        first_mint: m.first_mint,
        ref_count: m.ref_count,
        ref_money: m.ref_money,
        ..settled(m, caller, amount, referrer)
    }) =~= m);
}

/// The text of a minted NFT: its name is `<collection name> #<index>`, its
/// attributes `metadata:<cid>/<index>.json;`, and its URIs
/// `https://ipfs.io/ipfs/<cid>/<index>.jpg` and
/// `https://ipfs.io/ipfs/<cid>/<index>.json`, where `<index>` is written in
/// decimal ASCII digits without leading zeros and reads back as the index.
pub proof fn law_metadata_format(collection_name: Seq<u8>, cid: Seq<u8>, index: nat)
    ensures
        name_of(collection_name, index) == collection_name + seq![32u8, 35] + decimal_digits(index),
        attributes_of(cid, index) == seq![109u8, 101, 116, 97, 100, 97, 116, 97, 58] + cid
            + seq![47u8] + decimal_digits(index) + seq![46u8, 106, 115, 111, 110, 59],
        media_uri_of(cid, index) == seq![
            104u8, 116, 116, 112, 115, 58, 47, 47, 105, 112, 102, 115, 46, 105, 111, 47, 105, 112, 102, 115, 47,
        ] + cid + seq![47u8] + decimal_digits(index) + seq![46u8, 106, 112, 103],
        metadata_uri_of(cid, index) == seq![
            104u8, 116, 116, 112, 115, 58, 47, 47, 105, 112, 102, 115, 46, 105, 111, 47, 105, 112, 102, 115, 47,
        ] + cid + seq![47u8] + decimal_digits(index) + seq![46u8, 106, 115, 111, 110],
        decimal_value(decimal_digits(index)) == index,
        forall|i: int| 0 <= i < decimal_digits(index).len() ==> 48 <= #[trigger] decimal_digits(index)[i] <= 57,
        decimal_digits(index).len() >= 1,
        decimal_digits(index)[0] == 48 <==> index == 0,
{
    crate::decimal::lemma_decimal_round_trip(index);
    crate::decimal::lemma_decimal_digits_shape(index);
}

/// The keys of the bridge table that calls name: a transfer names its
/// token and nonce, a reservation pair its nonce in the older collection, and
/// the index it reserves is the pair's second element; each list keeps the
/// order and length of what it is read from.
pub proof fn law_bridge_keys(
    transfers: Seq<EsdtTransfer>,
    collection: Seq<u8>,
    pairs: Seq<(u64, u64)>,
)
    ensures
        transfer_keys(transfers).len() == transfers.len(),
        forall|i: int|
            0 <= i < transfers.len() ==> #[trigger] transfer_keys(transfers)[i] == (
                transfers[i].token@,
                transfers[i].nonce,
            ),
        reserved_keys(collection, pairs).len() == pairs.len(),
        reserved_indexes(pairs).len() == pairs.len(),
        forall|i: int|
            0 <= i < pairs.len() ==> #[trigger] reserved_keys(collection, pairs)[i] == (
                collection,
                pairs[i].0,
            ) && reserved_indexes(pairs)[i] == pairs[i].1,
{
}

/// A new contract belongs to its deployer, starts paused, and holds nothing:
/// no token, name, content identifier, pool, reservation, price, shares,
/// maximum per transaction or referral record.
pub proof fn law_initial_storage(owner: Seq<u8>)
    ensures
        initial_model(owner).owner == owner,
        initial_model(owner).paused,
        initial_model(owner).token_id.len() == 0,
        initial_model(owner).token_name.len() == 0,
        initial_model(owner).cid.len() == 0,
        initial_model(owner).total == 0,
        initial_model(owner).indexes.len() == 0,
        initial_model(owner).bridge.dom().is_empty(),
        initial_model(owner).price.dom().is_empty(),
        initial_model(owner).specific_price.dom().is_empty(),
        initial_model(owner).max_per_tx == 0,
        initial_model(owner).ref_percent == 0,
        initial_model(owner).discount_percent == 0,
        initial_model(owner).ref_money.dom().is_empty(),
        initial_model(owner).ref_count.dom().is_empty(),
        initial_model(owner).first_mint.dom().is_empty(),
{
}

/// Populating the pool keeps the indexes it held in place, in front, adds
/// each index from `start + 1` to `start + count` that was missing, and adds
/// nothing else; no index is held twice.
pub proof fn law_populate_keeps_pool(pool: Seq<u64>, start: u64, count: nat)
    requires
        pool.no_duplicates(),
        start + count <= u64::MAX,
    ensures
        add_range(pool, start, count).len() >= pool.len(),
        add_range(pool, start, count).subrange(0, pool.len() as int) == pool,
        add_range(pool, start, count).no_duplicates(),
        forall|x: u64| #[trigger]
            add_range(pool, start, count).contains(x) <==> (pool.contains(x) || (start < x && x
                <= start + count)),
    decreases count,
{
    lemma_add_range(pool, start, count);
    if count > 0 {
        law_populate_keeps_pool(pool, start, (count - 1) as nat);
        let prev = add_range(pool, start, (count - 1) as nat);
        assert(add_range(pool, start, count).subrange(0, pool.len() as int) =~= prev.subrange(
            0,
            pool.len() as int,
        ));
    }
}

} // verus!
