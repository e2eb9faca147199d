use nft_mint::swap::{EsdtTransfer, IssueCallback, LocalRole, MintError, Payment};
use nft_mint::{MintStorage, NftMint};

fn owner() -> Vec<u8> {
    b"owner".to_vec()
}

fn buyer() -> Vec<u8> {
    b"buyer".to_vec()
}

fn egld() -> Vec<u8> {
    Vec::new()
}

/// The limbs of an amount with no zero limb on top.
fn trimmed(mut limbs: Vec<u64>) -> Vec<u64> {
    while limbs.last() == Some(&0) {
        limbs.pop();
    }
    limbs
}

/// An amount below 2^128 read from its limbs.
fn money(limbs: Vec<u64>) -> u128 {
    let limbs = trimmed(limbs);
    assert!(limbs.len() <= 2);
    let low = limbs.first().copied().unwrap_or(0) as u128;
    let high = limbs.get(1).copied().unwrap_or(0) as u128;
    low + (high << 64)
}

fn pay(amount: u128) -> Payment {
    Payment { token: egld(), amount }
}

/// A contract with indexes 1..=`count`, a content identifier, a maximum of 5
/// per transaction, EGLD prices of 10 (random) and 30 (by index), running.
fn ready(count: u64) -> MintStorage {
    let mut c = MintStorage::init(&owner());
    c.populate_indexes(&owner(), count).unwrap();
    c.set_cid(&owner(), &b"QmCid".to_vec()).unwrap();
    c.set_max_per_tx(&owner(), 5).unwrap();
    c.set_price(&owner(), &egld(), 10).unwrap();
    c.set_specific_price(&owner(), &egld(), 30).unwrap();
    c.pause(&owner()).unwrap();
    c
}

#[test]
fn init_starts_paused_and_empty() {
    let c = MintStorage::init(&owner());
    assert!(c.is_paused());
    assert_eq!(c.owner(), owner());
    assert!(c.v_indexes().is_empty());
    assert_eq!(c.total_number_of_nfts(), 0);
    assert!(c.nft_token_id().is_empty());
    assert_eq!(c.selling_price(&egld()), 0);
    assert_eq!(c.max_per_tx(), 0);
}

#[test]
fn owner_only_endpoints_refuse_others() {
    let mut c = ready(3);
    let other = buyer();
    assert_eq!(c.populate_indexes(&other, 1), Err(MintError::NotOwner));
    assert_eq!(c.set_cid(&other, &b"x".to_vec()), Err(MintError::NotOwner));
    assert_eq!(c.set_ref_percent(&other, 5), Err(MintError::NotOwner));
    assert_eq!(c.set_discount_percent(&other, 5), Err(MintError::NotOwner));
    assert_eq!(c.set_max_per_tx(&other, 5), Err(MintError::NotOwner));
    assert_eq!(c.set_price(&other, &egld(), 5), Err(MintError::NotOwner));
    assert_eq!(c.set_specific_price(&other, &egld(), 5), Err(MintError::NotOwner));
    assert_eq!(c.pause(&other), Err(MintError::NotOwner));
    assert_eq!(c.set_local_roles(&other).map(|r| r.token_id), Err(MintError::NotOwner));
    assert_eq!(c.populate_bridge_indexes(&other, &b"OLD".to_vec(), &vec![(1, 1)]), Err(MintError::NotOwner));
    assert_eq!(c.issue_collection(&other, &pay(5), &b"Coll".to_vec(), &b"COLL".to_vec()).map(|r| r.cost), Err(MintError::NotOwner));
    assert_eq!(c.v_indexes(), vec![1, 2, 3]);
}

#[test]
fn issue_collection_then_callback() {
    let mut c = MintStorage::init(&owner());
    let esdt = Payment { token: b"TOK-1".to_vec(), amount: 5 };
    assert_eq!(
        c.issue_collection(&owner(), &esdt, &b"Apes".to_vec(), &b"APES".to_vec()).map(|r| r.cost),
        Err(MintError::EsdtPaymentNotAccepted)
    );
    let request = c.issue_collection(&owner(), &pay(50), &b"Apes".to_vec(), &b"APES".to_vec()).unwrap();
    assert_eq!((request.cost, request.name, request.ticker), (50, b"Apes".to_vec(), b"APES".to_vec()));
    assert_eq!(c.nft_token_name(), b"Apes".to_vec());
    assert_eq!(c.set_local_roles(&owner()).map(|r| r.token_id), Err(MintError::TokenNotIssued));
    let refund = c.issue_callback(&Some(b"APES-abc".to_vec()), &pay(0));
    assert!(refund.is_none());
    assert_eq!(c.nft_token_id(), b"APES-abc".to_vec());
    let roles = c.set_local_roles(&owner()).unwrap();
    assert_eq!(roles.token_id, b"APES-abc".to_vec());
    assert_eq!(roles.roles, vec![LocalRole::NftCreate, LocalRole::NftBurn]);
    assert_eq!(
        c.issue_collection(&owner(), &pay(50), &b"Other".to_vec(), &b"OTH".to_vec()).map(|r| r.cost),
        Err(MintError::TokenAlreadyIssued)
    );
    assert_eq!(c.nft_token_name(), b"Apes".to_vec());
}

#[test]
fn failed_issue_refunds_egld_to_owner() {
    let mut c = MintStorage::init(&owner());
    let refund = c.issue_callback(&None, &pay(50)).unwrap();
    assert_eq!(refund.to, owner());
    assert_eq!(refund.token, egld());
    assert_eq!(refund.amount, 50);
    assert!(c.issue_callback(&None, &pay(0)).is_none());
    let esdt = Payment { token: b"TOK-1".to_vec(), amount: 5 };
    assert!(c.issue_callback(&None, &esdt).is_none());
    assert!(c.nft_token_id().is_empty());
}

#[test]
fn populate_adds_the_next_range() {
    let mut c = MintStorage::init(&owner());
    assert_eq!(c.populate_indexes(&owner(), 3), Ok(3));
    assert_eq!(c.populate_indexes(&owner(), 2), Ok(5));
    assert_eq!(c.v_indexes(), vec![1, 2, 3, 4, 5]);
    assert_eq!(c.populate_indexes(&owner(), 0), Ok(5));
}

#[test]
fn populate_skips_indexes_already_in_the_pool() {
    let mut c = MintStorage::init(&owner());
    c.populate_indexes(&owner(), 3).unwrap();
    c.populate_bridge_indexes(&owner(), &b"OLD".to_vec(), &vec![(77, 2)]).unwrap();
    assert_eq!(c.total_number_of_nfts(), 2);
    assert_eq!(c.v_indexes(), vec![1, 3]);
    // 3 is already there, 4 is new.
    assert_eq!(c.populate_indexes(&owner(), 2), Ok(4));
    assert_eq!(c.v_indexes(), vec![1, 3, 4]);
}

#[test]
fn bridge_reservation_checks_each_pair_and_is_atomic() {
    let mut c = MintStorage::init(&owner());
    c.populate_indexes(&owner(), 4).unwrap();
    let old = b"OLD-1".to_vec();
    assert_eq!(c.populate_bridge_indexes(&owner(), &old, &vec![(1, 9)]), Err(MintError::IndexNotFound));
    // The second pair reuses nonce 1: nothing is kept.
    assert_eq!(
        c.populate_bridge_indexes(&owner(), &old, &vec![(1, 2), (1, 3)]),
        Err(MintError::IndexAlreadyInBridge)
    );
    assert_eq!(c.v_indexes(), vec![1, 2, 3, 4]);
    assert_eq!(c.total_number_of_nfts(), 4);
    // The second pair reuses index 2, which left the pool with the first.
    assert_eq!(
        c.populate_bridge_indexes(&owner(), &old, &vec![(1, 2), (5, 2)]),
        Err(MintError::IndexNotFound)
    );
    assert_eq!(c.populate_bridge_indexes(&owner(), &old, &vec![(1, 2), (5, 1)]), Ok(()));
    assert_eq!(c.v_indexes(), vec![3, 4]);
    assert_eq!(c.total_number_of_nfts(), 2);
    assert_eq!(
        c.populate_bridge_indexes(&owner(), &old, &vec![(1, 3)]),
        Err(MintError::IndexAlreadyInBridge)
    );
}

#[test]
fn bridged_nfts_are_redeemed_once() {
    let mut c = MintStorage::init(&owner());
    c.populate_indexes(&owner(), 3).unwrap();
    c.set_cid(&owner(), &b"Qm".to_vec()).unwrap();
    let old = b"OLD-1".to_vec();
    c.populate_bridge_indexes(&owner(), &old, &vec![(7, 2)]).unwrap();
    let holder = buyer();
    let transfer = EsdtTransfer { token: old.clone(), nonce: 7, amount: 1 };
    let nfts = c.bridge_nfts(&holder, &vec![transfer.clone()]).unwrap();
    assert_eq!(nfts.len(), 1);
    assert_eq!(nfts[0].index, 2);
    assert_eq!(nfts[0].attributes, b"metadata:Qm/2.json;".to_vec());
    assert_eq!(c.bridge_nfts(&holder, &vec![transfer.clone()]).map(|v| v.len()), Err(MintError::NotBridgeable));
}

#[test]
fn redeemed_nft_stays_refused_after_later_calls() {
    let mut c = MintStorage::init(&owner());
    c.populate_indexes(&owner(), 4).unwrap();
    c.set_cid(&owner(), &b"Qm".to_vec()).unwrap();
    let old = b"OLD-1".to_vec();
    c.populate_bridge_indexes(&owner(), &old, &vec![(7, 2)]).unwrap();
    let taken = EsdtTransfer { token: old.clone(), nonce: 7, amount: 1 };
    c.bridge_nfts(&buyer(), &vec![taken.clone()]).unwrap();
    // Later calls that reserve other nonces or touch other storage.
    c.populate_bridge_indexes(&owner(), &old, &vec![(8, 3)]).unwrap();
    let _ = c.pause(&owner());
    c.set_max_per_tx(&owner(), 5).unwrap();
    let other = EsdtTransfer { token: old.clone(), nonce: 8, amount: 1 };
    assert_eq!(
        c.bridge_nfts(&buyer(), &vec![other, taken.clone()]).map(|v| v.len()),
        Err(MintError::NotBridgeable)
    );
    assert_eq!(c.bridge_nfts(&buyer(), &vec![taken]).map(|v| v.len()), Err(MintError::NotBridgeable));
}

#[test]
fn bridging_fails_as_a_whole() {
    let mut c = MintStorage::init(&owner());
    c.populate_indexes(&owner(), 3).unwrap();
    let old = b"OLD-1".to_vec();
    c.populate_bridge_indexes(&owner(), &old, &vec![(7, 2), (8, 3)]).unwrap();
    let good = EsdtTransfer { token: old.clone(), nonce: 7, amount: 1 };
    let unknown = EsdtTransfer { token: b"OTHER".to_vec(), nonce: 8, amount: 1 };
    assert_eq!(c.bridge_nfts(&buyer(), &vec![good.clone(), unknown]).map(|v| v.len()), Err(MintError::NotBridgeable));
    // The first transfer was not consumed.
    assert_eq!(c.bridge_nfts(&buyer(), &vec![good]).map(|v| v[0].index), Ok(2));
}

#[test]
fn cid_is_locked_once_minting_started() {
    let mut c = ready(3);
    assert_eq!(c.set_cid(&owner(), &b"QmNew".to_vec()), Ok(()));
    c.draw_index(1).unwrap();
    assert_eq!(c.set_cid(&owner(), &b"QmOther".to_vec()), Err(MintError::CidLocked));
    assert_eq!(c.nft_token_cid(), b"QmNew".to_vec());
}

#[test]
fn pause_checks_setup_then_toggles() {
    let mut c = MintStorage::init(&owner());
    assert_eq!(c.pause(&owner()), Err(MintError::IndexesNotPopulated));
    c.populate_indexes(&owner(), 2).unwrap();
    assert_eq!(c.pause(&owner()), Err(MintError::CidNotSet));
    c.set_cid(&owner(), &b"Qm".to_vec()).unwrap();
    assert_eq!(c.pause(&owner()), Err(MintError::MaxPerTxNotSet));
    c.set_max_per_tx(&owner(), 1).unwrap();
    assert!(c.is_paused());
    assert_eq!(c.pause(&owner()), Ok(()));
    assert!(!c.is_paused());
    assert_eq!(c.pause(&owner()), Ok(()));
    assert!(c.is_paused());
}

#[test]
fn prices_must_not_be_zero_and_read_back() {
    let mut c = MintStorage::init(&owner());
    let token = b"USDC-1".to_vec();
    assert_eq!(c.set_price(&owner(), &token, 0), Err(MintError::ZeroPrice));
    assert_eq!(c.set_specific_price(&owner(), &token, 0), Err(MintError::ZeroPrice));
    c.set_price(&owner(), &token, 25).unwrap();
    c.set_specific_price(&owner(), &token, 40).unwrap();
    assert_eq!(c.selling_price(&token), 25);
    assert_eq!(c.selling_specific_price(&token), 40);
    assert_eq!(c.selling_price(&egld()), 0);
    c.set_price(&owner(), &token, 30).unwrap();
    assert_eq!(c.selling_price(&token), 30);
}

#[test]
fn random_mint_checks_the_sale_and_the_payment() {
    let mut c = ready(3);
    let b = buyer();
    assert_eq!(c.check_random_mint(&b, &pay(20)).map(|p| p.count), Ok(2));
    assert_eq!(c.check_random_mint(&b, &pay(0)).map(|p| p.count), Err(MintError::ZeroPayment));
    let usdc = Payment { token: b"USDC-1".to_vec(), amount: 10 };
    assert_eq!(c.check_random_mint(&b, &usdc).map(|p| p.count), Err(MintError::TokenNotAccepted));
    assert_eq!(c.check_random_mint(&b, &pay(25)).map(|p| p.count), Err(MintError::WrongPaymentAmount));
    assert_eq!(c.check_random_mint(&b, &pay(40)).map(|p| p.count), Err(MintError::NotEnoughNfts));
    c.set_max_per_tx(&owner(), 2).unwrap();
    assert_eq!(c.check_random_mint(&b, &pay(30)).map(|p| p.count), Err(MintError::AboveMaxPerTx));
    c.pause(&owner()).unwrap();
    assert_eq!(c.check_random_mint(&b, &pay(20)).map(|p| p.count), Err(MintError::Paused));
}

#[test]
fn random_mint_requires_setup() {
    let mut c = ready(1);
    c.set_max_per_tx(&owner(), 0).unwrap();
    assert_eq!(c.check_random_mint(&buyer(), &pay(10)).map(|p| p.count), Err(MintError::MaxPerTxNotSet));
    c.set_cid(&owner(), &Vec::new()).unwrap();
    assert_eq!(c.check_random_mint(&buyer(), &pay(10)).map(|p| p.count), Err(MintError::CidNotSet));
    c.draw_index(1).unwrap();
    assert_eq!(c.check_random_mint(&buyer(), &pay(10)).map(|p| p.count), Err(MintError::IndexesNotPopulated));
}

#[test]
fn draw_takes_the_index_at_the_position() {
    let mut c = MintStorage::init(&owner());
    c.issue_collection(&owner(), &pay(5), &b"Apes".to_vec(), &b"APES".to_vec()).unwrap();
    c.issue_callback(&Some(b"APES-1".to_vec()), &pay(0));
    c.populate_indexes(&owner(), 4).unwrap();
    c.set_cid(&owner(), &b"QmCid".to_vec()).unwrap();
    let nft = c.draw_index(2).unwrap();
    assert_eq!(nft.index, 2);
    assert_eq!(nft.token_id, b"APES-1".to_vec());
    assert_eq!(nft.name, b"Apes #2".to_vec());
    assert_eq!(nft.attributes, b"metadata:QmCid/2.json;".to_vec());
    assert_eq!(nft.uris[0], b"https://ipfs.io/ipfs/QmCid/2.jpg".to_vec());
    assert_eq!(nft.uris[1], b"https://ipfs.io/ipfs/QmCid/2.json".to_vec());
    // The last index moved into the freed position.
    assert_eq!(c.v_indexes(), vec![1, 4, 3]);
    assert_eq!(c.draw_index(3).unwrap().index, 3);
    assert_eq!(c.v_indexes(), vec![1, 4]);
    assert_eq!(c.total_number_of_nfts(), 4);
}

#[test]
fn payment_without_referral_goes_to_the_owner() {
    let mut c = ready(3);
    let payouts = c.settle_payment(&buyer(), &pay(20), &None).unwrap();
    assert_eq!(payouts.len(), 1);
    assert_eq!(payouts[0].to, owner());
    assert_eq!(payouts[0].amount, 20);
    assert_eq!(c.ref_count(&buyer()), 0);
    assert!(!c.did_mint(&buyer()));
}

#[test]
fn referral_shares_add_up_to_the_payment() {
    let mut c = ready(3);
    c.set_ref_percent(&owner(), 10).unwrap();
    c.set_discount_percent(&owner(), 5).unwrap();
    let referrer = b"friend".to_vec();
    let payouts = c.settle_payment(&buyer(), &pay(1234), &Some(referrer.clone())).unwrap();
    assert_eq!(payouts.len(), 3);
    assert_eq!((payouts[0].to.clone(), payouts[0].amount), (referrer.clone(), 123));
    assert_eq!((payouts[1].to.clone(), payouts[1].amount), (buyer(), 61));
    assert_eq!((payouts[2].to.clone(), payouts[2].amount), (owner(), 1050));
    assert_eq!(payouts.iter().map(|p| p.amount).sum::<u128>(), 1234);
    assert_eq!(c.ref_count(&referrer), 1);
    assert_eq!(money(c.ref_money(&referrer)), 123);
    // `false` reads back as empty storage: the next mint is paid a referral again.
    assert!(!c.did_mint(&buyer()));
    let again = c.settle_payment(&buyer(), &pay(100), &Some(referrer.clone())).unwrap();
    assert_eq!(again.len(), 3);
    assert_eq!(c.ref_count(&referrer), 2);
    assert_eq!(money(c.ref_money(&referrer)), 133);
}

#[test]
fn referral_needs_both_shares() {
    let mut c = ready(3);
    c.set_ref_percent(&owner(), 10).unwrap();
    let payouts = c.settle_payment(&buyer(), &pay(100), &Some(buyer())).unwrap();
    assert_eq!(payouts.len(), 1);
    assert_eq!(payouts[0].amount, 100);
}

#[test]
fn self_referral_and_overpaid_referral_fail() {
    let mut c = ready(3);
    c.set_ref_percent(&owner(), 60).unwrap();
    c.set_discount_percent(&owner(), 50).unwrap();
    assert_eq!(c.settle_payment(&buyer(), &pay(100), &Some(buyer())).map(|p| p.len()), Err(MintError::SelfReferral));
    assert_eq!(
        c.settle_payment(&buyer(), &pay(100), &Some(b"friend".to_vec())).map(|p| p.len()),
        Err(MintError::PaymentExceeded)
    );
    assert_eq!(c.ref_count(&b"friend".to_vec()), 0);
    // A share above 100% can still fit on a tiny payment.
    c.set_ref_percent(&owner(), 101).unwrap();
    c.set_discount_percent(&owner(), 1).unwrap();
    let payouts = c.settle_payment(&buyer(), &pay(1), &Some(b"friend".to_vec())).unwrap();
    assert_eq!(payouts.iter().map(|p| p.amount).collect::<Vec<_>>(), vec![1, 0, 0]);
}

#[test]
fn referral_earnings_grow_past_128_bits() {
    let mut c = ready(3);
    c.set_ref_percent(&owner(), 50).unwrap();
    c.set_discount_percent(&owner(), 50).unwrap();
    let friend = b"friend".to_vec();
    let big = u128::MAX - 1;
    c.settle_payment(&buyer(), &pay(big), &Some(friend.clone())).unwrap();
    c.settle_payment(&buyer(), &pay(big), &Some(friend.clone())).unwrap();
    assert_eq!(money(c.ref_money(&friend)), (big / 2) * 2);
    let payouts = c.settle_payment(&buyer(), &pay(big), &Some(friend.clone())).unwrap();
    assert_eq!(payouts[0].amount, big / 2);
    // 3 * (2^127 - 1) = 2^128 + 2^127 - 3
    assert_eq!(
        trimmed(c.ref_money(&friend)),
        vec![0xFFFF_FFFF_FFFF_FFFD, 0x7FFF_FFFF_FFFF_FFFF, 1]
    );
    assert_eq!(c.ref_count(&friend), 3);
}

#[test]
fn referral_earnings_start_at_zero() {
    let c = ready(3);
    assert_eq!(trimmed(c.ref_money(&b"nobody".to_vec())), Vec::<u64>::new());
}

#[test]
fn specific_mint_takes_the_listed_indexes() {
    let mut c = ready(4);
    let out = c.mint_specific_nft(&buyer(), &pay(60), &vec![3, 1], &None).unwrap();
    assert_eq!(out.nfts.iter().map(|n| n.index).collect::<Vec<_>>(), vec![3, 1]);
    assert_eq!(out.payouts.len(), 1);
    assert_eq!(out.payouts[0].amount, 60);
    assert_eq!(c.v_indexes(), vec![4, 2]);
}

#[test]
fn specific_mint_checks_count_and_membership() {
    let mut c = ready(4);
    assert_eq!(c.mint_specific_nft(&buyer(), &pay(30), &vec![1, 2], &None).map(|o| o.nfts.len()), Err(MintError::WrongPaymentAmount));
    assert_eq!(c.mint_specific_nft(&buyer(), &pay(35), &vec![1], &None).map(|o| o.nfts.len()), Err(MintError::WrongPaymentAmount));
    assert_eq!(c.mint_specific_nft(&buyer(), &pay(60), &vec![2, 2], &None).map(|o| o.nfts.len()), Err(MintError::AlreadyMinted));
    assert_eq!(c.mint_specific_nft(&buyer(), &pay(30), &vec![9], &None).map(|o| o.nfts.len()), Err(MintError::AlreadyMinted));
    assert_eq!(c.v_indexes(), vec![1, 2, 3, 4]);
    let usdc = Payment { token: b"USDC-1".to_vec(), amount: 30 };
    assert_eq!(c.mint_specific_nft(&buyer(), &usdc, &vec![1], &None).map(|o| o.nfts.len()), Err(MintError::TokenNotAccepted));
}

#[test]
fn specific_mint_is_undone_by_a_failed_settlement() {
    let mut c = ready(4);
    c.set_ref_percent(&owner(), 10).unwrap();
    c.set_discount_percent(&owner(), 10).unwrap();
    assert_eq!(
        c.mint_specific_nft(&buyer(), &pay(30), &vec![2], &Some(buyer())).map(|o| o.nfts.len()),
        Err(MintError::SelfReferral)
    );
    assert_eq!(c.v_indexes(), vec![1, 2, 3, 4]);
}

#[test]
fn giveaway_never_succeeds() {
    let mut c = ready(3);
    let friend = b"friend".to_vec();
    assert_eq!(c.giveaway(&owner(), &pay(10), 1, &friend).map(|p| p.count), Err(MintError::EgldPaymentNotAccepted));
    let esdt = Payment { token: b"TOK-1".to_vec(), amount: 10 };
    assert_eq!(c.giveaway(&owner(), &esdt, 1, &friend).map(|p| p.count), Err(MintError::EsdtPaymentNotAccepted));
    assert_eq!(c.giveaway(&buyer(), &pay(0), 1, &friend).map(|p| p.count), Err(MintError::NotOwner));
    assert_eq!(c.giveaway(&owner(), &pay(0), 1, &friend).map(|p| p.count), Err(MintError::ZeroPayment));
    c.pause(&owner()).unwrap();
    assert_eq!(c.giveaway(&owner(), &pay(0), 1, &friend).map(|p| p.count), Err(MintError::Paused));
}

#[test]
fn error_messages_match_the_contract() {
    assert_eq!(MintError::Paused.message(), "Contract is paused");
    assert_eq!(MintError::NotOwner.message(), "Endpoint can only be called by owner");
    assert_eq!(MintError::AlreadyMinted.message(), "One of the NFTs requested was already minted");
    assert_eq!(MintError::SelfReferral.message(), "Caller can't refer themselves");
    assert_eq!(MintError::NotBridgeable.message(), "NFT can't be bridged");
    assert_eq!(MintError::CidLocked.message(), "Can't change cid after minting started");
}

#[test]
fn metadata_helpers_use_the_stored_settings() {
    let mut c = MintStorage::init(&owner());
    c.issue_collection(&owner(), &pay(5), &b"Apes".to_vec(), &b"APES".to_vec()).unwrap();
    c.populate_indexes(&owner(), 2).unwrap();
    c.set_cid(&owner(), &b"QmCid".to_vec()).unwrap();
    assert_eq!(c.decimal_to_ascii(305), b"305".to_vec());
    assert_eq!(c.create_name(7), b"Apes #7".to_vec());
    assert_eq!(c.create_attributes(7), b"metadata:QmCid/7.json;".to_vec());
    assert_eq!(
        c.create_uris(7),
        vec![b"https://ipfs.io/ipfs/QmCid/7.jpg".to_vec(), b"https://ipfs.io/ipfs/QmCid/7.json".to_vec()]
    );
}

#[test]
fn pool_never_holds_an_index_twice() {
    let mut c = ready(6);
    c.populate_bridge_indexes(&owner(), &b"OLD".to_vec(), &vec![(1, 3), (2, 6)]).unwrap();
    c.draw_index(1).unwrap();
    c.mint_specific_nft(&buyer(), &pay(30), &vec![2], &None).unwrap();
    c.populate_indexes(&owner(), 4).unwrap();
    let mut pool = c.v_indexes();
    assert!(pool.len() as u64 <= c.total_number_of_nfts());
    let n = pool.len();
    pool.sort();
    pool.dedup();
    assert_eq!(pool.len(), n);
}

fn punk_sale() -> MintStorage {
    let mut c = MintStorage::init(&owner());
    c.issue_collection(&owner(), &pay(5), &b"Punk".to_vec(), &b"PUNK".to_vec()).unwrap();
    c.issue_callback(&Some(b"PUNK-1".to_vec()), &pay(0));
    c.populate_indexes(&owner(), 8).unwrap();
    c.set_cid(&owner(), &b"Qm".to_vec()).unwrap();
    c.set_max_per_tx(&owner(), 5).unwrap();
    c.set_price(&owner(), &egld(), 100).unwrap();
    c.pause(&owner()).unwrap();
    c
}

#[test]
fn random_mint_draws_pays_and_records_the_referral() {
    let mut c = punk_sale();
    c.set_ref_percent(&owner(), 10).unwrap();
    c.set_discount_percent(&owner(), 5).unwrap();
    let friend = b"friend".to_vec();
    assert_eq!(c.check_random_mint(&buyer(), &pay(200)).map(|p| p.count), Ok(2));
    // Pool 1..=8: the draw 3 takes index 3 (8 moves there), then 7 takes 7.
    let out = c.mint_random_nft(&buyer(), &pay(200), &Some(friend.clone()), &vec![3, 7]).unwrap();
    let names: Vec<Vec<u8>> = out.nfts.iter().map(|n| n.name.clone()).collect();
    assert_eq!(names, vec![b"Punk #3".to_vec(), b"Punk #7".to_vec()]);
    assert!(out.nfts.iter().all(|n| n.token_id == b"PUNK-1".to_vec()));
    assert_eq!(c.v_indexes(), vec![1, 2, 8, 4, 5, 6]);
    let payouts: Vec<(Vec<u8>, u128)> = out.payouts.iter().map(|p| (p.to.clone(), p.amount)).collect();
    assert_eq!(payouts, vec![(friend.clone(), 20), (buyer(), 10), (owner(), 170)]);
    assert_eq!(c.ref_count(&friend), 1);
    assert_eq!(money(c.ref_money(&friend)), 20);
    assert_eq!(c.total_number_of_nfts(), 8);
}

#[test]
fn random_mint_without_referral_pays_the_owner() {
    let mut c = punk_sale();
    let out = c.mint_random_nft(&buyer(), &pay(100), &None, &vec![8]).unwrap();
    assert_eq!(out.nfts.len(), 1);
    assert_eq!(out.nfts[0].index, 8);
    assert_eq!(out.payouts.len(), 1);
    assert_eq!((out.payouts[0].to.clone(), out.payouts[0].amount), (owner(), 100));
    assert_eq!(c.v_indexes(), vec![1, 2, 3, 4, 5, 6, 7]);
}

#[test]
fn random_mint_fails_as_a_whole() {
    let mut c = punk_sale();
    c.set_ref_percent(&owner(), 60).unwrap();
    c.set_discount_percent(&owner(), 50).unwrap();
    assert_eq!(
        c.mint_random_nft(&buyer(), &pay(200), &Some(buyer()), &vec![1, 1]).map(|o| o.nfts.len()),
        Err(MintError::SelfReferral)
    );
    assert_eq!(
        c.mint_random_nft(&buyer(), &pay(200), &Some(b"friend".to_vec()), &vec![1, 1]).map(|o| o.nfts.len()),
        Err(MintError::PaymentExceeded)
    );
    assert_eq!(
        c.mint_random_nft(&buyer(), &pay(200), &None, &vec![1, 8]).map(|o| o.nfts.len()),
        Err(MintError::IndexOutOfRange)
    );
    assert_eq!(
        c.mint_random_nft(&buyer(), &pay(150), &None, &vec![]).map(|o| o.nfts.len()),
        Err(MintError::WrongPaymentAmount)
    );
    assert_eq!(c.v_indexes(), vec![1, 2, 3, 4, 5, 6, 7, 8]);
    assert_eq!(c.ref_count(&b"friend".to_vec()), 0);
}

#[test]
fn issue_request_grants_every_property() {
    let mut c = MintStorage::init(&owner());
    let request = c.issue_collection(&owner(), &pay(5), &b"Punk".to_vec(), &b"PUNK".to_vec()).unwrap();
    let p = request.properties;
    assert!(p.can_freeze && p.can_wipe && p.can_pause && p.can_change_owner && p.can_upgrade && p.can_add_special_roles);
    assert_eq!(request.callback, IssueCallback::IssueCallback);
}
