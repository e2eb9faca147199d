//! The minting contract. `MintStorage` holds the contract's storage, and the
//! trait `NftMint` gives its endpoints: each checks the call, updates the
//! storage and returns what the chain has to carry out (NFTs to create and
//! transfers to make).
//!
//! A call that fails leaves the storage as it was, as a failed transaction
//! does. Token identifiers and addresses are byte strings; EGLD is the empty
//! token identifier.

use vstd::prelude::*;
use crate::bridge::{BridgeKey, BridgeTable};
use crate::byte_map::{bytes_equal, copy_bytes, ByteMap};
use crate::big::{add_amount, copy_limbs, limbs_of, limbs_value};
use crate::decimal::{decimal_digits, DECIMAL_LIMIT};
use crate::percent::{percent_of, percent_of_amount};
use crate::metadata::{
    attributes_for, attributes_of, media_uri_of, metadata_uri_of, name_for, name_of, uris_for,
};
use crate::pool::{
    add_range, copy_pool, insert_index, lemma_add_index, lemma_swap_remove_at, remove_index,
    swap_remove_at, swap_remove_index,
};

verus! {

/// Royalties of every minted NFT, in hundredths of a percent.
pub const ROYALTIES: u64 = 1000;

/// Why a call fails.
#[derive(Debug, Clone, Copy, PartialEq, Eq, Structural)]
pub enum MintError {
    /// The endpoint can only be called by the owner.
    NotOwner,
    /// The endpoint accepts no EGLD payment.
    EgldPaymentNotAccepted,
    /// The endpoint accepts no ESDT payment.
    EsdtPaymentNotAccepted,
    /// The collection's token was already issued.
    TokenAlreadyIssued,
    /// The collection's token is not issued yet.
    TokenNotIssued,
    /// An index to bridge is not in the pool.
    IndexNotFound,
    /// A nonce of the older collection already has an index reserved.
    IndexAlreadyInBridge,
    /// The content identifier cannot change once minting has started.
    CidLocked,
    /// The sale is paused.
    Paused,
    /// The pool of indexes is empty.
    IndexesNotPopulated,
    /// No content identifier is set.
    CidNotSet,
    /// No maximum per transaction is set.
    MaxPerTxNotSet,
    /// The payment is zero.
    ZeroPayment,
    /// The payment token has no price.
    TokenNotAccepted,
    /// The payment is not the price times the number of NFTs asked for.
    WrongPaymentAmount,
    /// Fewer than one NFT is asked for.
    BelowMinimum,
    /// More NFTs are asked for than one transaction may mint.
    AboveMaxPerTx,
    /// More NFTs are asked for than the pool holds.
    NotEnoughNfts,
    /// A caller named itself as its referrer.
    SelfReferral,
    /// An NFT asked for by index is not in the pool.
    AlreadyMinted,
    /// An NFT sent for bridging has no index reserved.
    NotBridgeable,
    /// A price of zero.
    ZeroPrice,
    /// An index has more digits than a name can hold.
    IndexTooLarge,
    /// A random draw falls outside the pool.
    IndexOutOfRange,
    /// Referral and discount together exceed the payment.
    PaymentExceeded,
    /// A counter or an amount leaves its range.
    ArithmeticOverflow,
}

/// The message a call fails with.
pub open spec fn error_message(e: MintError) -> Seq<char> {
    match e {
        MintError::NotOwner => "Endpoint can only be called by owner"@,
        MintError::EgldPaymentNotAccepted => "function does not accept EGLD payment"@,
        MintError::EsdtPaymentNotAccepted => "function does not accept ESDT payment"@,
        MintError::TokenAlreadyIssued => "Token already issued!"@,
        MintError::TokenNotIssued => "Token not issued!"@,
        MintError::IndexNotFound => "Index not found"@,
        MintError::IndexAlreadyInBridge => "Index already in bridge"@,
        MintError::CidLocked => "Can't change cid after minting started"@,
        MintError::Paused => "Contract is paused"@,
        MintError::IndexesNotPopulated => "Indexes are not populated"@,
        MintError::CidNotSet => "CID is not set"@,
        MintError::MaxPerTxNotSet => "Max per tx not set"@,
        MintError::ZeroPayment => "Payment must be more than 0"@,
        MintError::TokenNotAccepted => "Can't mint with this token"@,
        MintError::WrongPaymentAmount => "Wrong payment amount sent"@,
        MintError::BelowMinimum => "Minimum amount to buy is 1"@,
        MintError::AboveMaxPerTx => "Can't mint more than max per tx"@,
        MintError::NotEnoughNfts => "Not enough NFTs to mint"@,
        MintError::SelfReferral => "Caller can't refer themselves"@,
        MintError::AlreadyMinted => "One of the NFTs requested was already minted"@,
        MintError::NotBridgeable => "NFT can't be bridged"@,
        MintError::ZeroPrice => "Can't set price to 0"@,
        MintError::IndexTooLarge => "panic occurred"@,
        MintError::IndexOutOfRange => "index out of range"@,
        MintError::PaymentExceeded => "cannot subtract because result would be negative"@,
        MintError::ArithmeticOverflow => "panic occurred"@,
    }
}

impl MintError {
    /// The message a call fails with.
    pub fn message(&self) -> (text: &'static str)
        ensures
            text@ == error_message(*self),
    {
        match self {
            MintError::NotOwner => "Endpoint can only be called by owner",
            MintError::EgldPaymentNotAccepted => "function does not accept EGLD payment",
            MintError::EsdtPaymentNotAccepted => "function does not accept ESDT payment",
            MintError::TokenAlreadyIssued => "Token already issued!",
            MintError::TokenNotIssued => "Token not issued!",
            MintError::IndexNotFound => "Index not found",
            MintError::IndexAlreadyInBridge => "Index already in bridge",
            MintError::CidLocked => "Can't change cid after minting started",
            MintError::Paused => "Contract is paused",
            MintError::IndexesNotPopulated => "Indexes are not populated",
            MintError::CidNotSet => "CID is not set",
            MintError::MaxPerTxNotSet => "Max per tx not set",
            MintError::ZeroPayment => "Payment must be more than 0",
            MintError::TokenNotAccepted => "Can't mint with this token",
            MintError::WrongPaymentAmount => "Wrong payment amount sent",
            MintError::BelowMinimum => "Minimum amount to buy is 1",
            MintError::AboveMaxPerTx => "Can't mint more than max per tx",
            MintError::NotEnoughNfts => "Not enough NFTs to mint",
            MintError::SelfReferral => "Caller can't refer themselves",
            MintError::AlreadyMinted => "One of the NFTs requested was already minted",
            MintError::NotBridgeable => "NFT can't be bridged",
            MintError::ZeroPrice => "Can't set price to 0",
            MintError::IndexTooLarge => "panic occurred",
            MintError::IndexOutOfRange => "index out of range",
            MintError::PaymentExceeded => "cannot subtract because result would be negative",
            MintError::ArithmeticOverflow => "panic occurred",
        }
    }
}

/// A payment that comes with a call: a token (EGLD is the empty identifier)
/// and an amount.
#[derive(Debug, Clone)]
pub struct Payment {
    pub token: Vec<u8>,
    pub amount: u128,
}

/// One NFT of an ESDT transfer that comes with a call.
#[derive(Debug, Clone)]
pub struct EsdtTransfer {
    pub token: Vec<u8>,
    pub nonce: u64,
    pub amount: u128,
}

/// A transfer the contract makes: `amount` of `token` to `to`.
#[derive(Debug, Clone)]
pub struct Payout {
    pub to: Vec<u8>,
    pub token: Vec<u8>,
    pub amount: u128,
}

/// An NFT to create: `amount` units of `token_id` with this name,
/// attributes, URIs and royalties.
#[derive(Debug, Clone)]
pub struct MintedNft {
    pub token_id: Vec<u8>,
    pub index: u64,
    pub name: Vec<u8>,
    pub attributes: Vec<u8>,
    pub uris: Vec<Vec<u8>>,
    pub royalties: u64,
    pub amount: u128,
}

/// The issuing of the collection's token to request from the chain: a
/// non-fungible token named `name` with ticker `ticker`, paid `cost` EGLD,
/// with `properties`, answered through `callback`.
#[derive(Debug, Clone)]
pub struct IssueRequest {
    pub cost: u128,
    pub name: Vec<u8>,
    pub ticker: Vec<u8>,
    pub properties: TokenProperties,
    pub callback: IssueCallback,
}

/// The properties a non-fungible token is issued with.
#[derive(Debug, Clone, Copy, PartialEq, Eq, Structural)]
pub struct TokenProperties {
    pub can_freeze: bool,
    pub can_wipe: bool,
    pub can_pause: bool,
    pub can_change_owner: bool,
    pub can_upgrade: bool,
    pub can_add_special_roles: bool,
}

/// The endpoint the chain calls back with the outcome of the issuing.
#[derive(Debug, Clone, Copy, PartialEq, Eq, Structural)]
pub enum IssueCallback {
    /// `issue_callback`.
    IssueCallback,
}

/// Every property granted.
pub open spec fn all_properties() -> TokenProperties {
    TokenProperties {
        can_freeze: true,
        can_wipe: true,
        can_pause: true,
        can_change_owner: true,
        can_upgrade: true,
        can_add_special_roles: true,
    }
}

/// A role the contract asks for on the collection's token.
#[derive(Debug, Clone, Copy, PartialEq, Eq, Structural)]
pub enum LocalRole {
    NftCreate,
    NftBurn,
}

/// The roles to request from the chain for the contract on `token_id`.
#[derive(Debug, Clone)]
pub struct RolesRequest {
    pub token_id: Vec<u8>,
    pub roles: Vec<LocalRole>,
}

/// A mint at random to carry out: `count` draws from the pool, whose NFTs go
/// to `recipient`.
#[derive(Debug, Clone)]
pub struct MintPlan {
    pub count: usize,
    pub recipient: Vec<u8>,
}

/// What a mint hands to the chain: the NFTs to create and send to the
/// caller, and the payouts.
#[derive(Debug, Clone)]
pub struct MintOutcome {
    pub nfts: Vec<MintedNft>,
    pub payouts: Vec<Payout>,
}

/// The contract's storage.
#[derive(Clone)]
pub struct MintStorage {
    /// The contract's owner.
    owner: Vec<u8>,
    /// The collection's token identifier; empty until issued.
    nft_token_id: Vec<u8>,
    /// The collection's name.
    nft_token_name: Vec<u8>,
    /// The content identifier under which the media and metadata lie.
    nft_token_cid: Vec<u8>,
    /// The number of NFTs in the collection.
    total_number_of_nfts: u64,
    /// The pool of indexes still to mint.
    indexes: Vec<u64>,
    /// Indexes reserved for NFTs of older collections.
    bridge_indexes: BridgeTable,
    /// Whether the sale is paused.
    is_paused: bool,
    /// The price of one NFT minted at random, per payment token.
    selling_price: ByteMap<u128>,
    /// The price of one NFT minted by index, per payment token.
    selling_specific_price: ByteMap<u128>,
    /// The most NFTs one transaction may mint.
    max_per_tx: u128,
    /// The referrer's share of a payment, in percent.
    ref_percent: u128,
    /// The referred buyer's discount, in percent.
    discount_percent: u128,
    /// What each referrer earned, as unbounded amounts.
    ref_money: ByteMap<Vec<u64>>,
    /// How many mints each referrer brought.
    ref_count: ByteMap<u64>,
    /// The per-address first-mint flag, as stored.
    is_first_mint: ByteMap<bool>,
}

/// The contract's storage as mathematical values.
#[verifier::ext_equal]
pub struct MintModel {
    pub owner: Seq<u8>,
    pub token_id: Seq<u8>,
    pub token_name: Seq<u8>,
    pub cid: Seq<u8>,
    pub total: u64,
    pub indexes: Seq<u64>,
    pub bridge: Map<BridgeKey, u64>,
    pub paused: bool,
    pub price: Map<Seq<u8>, u128>,
    pub specific_price: Map<Seq<u8>, u128>,
    pub max_per_tx: u128,
    pub ref_percent: u128,
    pub discount_percent: u128,
    pub ref_money: Map<Seq<u8>, nat>,
    pub ref_count: Map<Seq<u8>, u64>,
    pub first_mint: Map<Seq<u8>, bool>,
}

impl MintModel {
    /// What every reachable storage satisfies: the pool holds no index twice
    /// and no more indexes than the collection counts, and the first-mint
    /// flag is never stored as `true`.
    pub open spec fn wf(self) -> bool {
        &&& self.indexes.no_duplicates()
        &&& self.indexes.len() <= self.total
        &&& forall|a: Seq<u8>| #[trigger] self.first_mint.contains_key(a) ==> !self.first_mint[a]
    }
}

impl View for MintStorage {
    type V = MintModel;

    closed spec fn view(&self) -> MintModel {
        MintModel {
            owner: self.owner@,
            token_id: self.nft_token_id@,
            token_name: self.nft_token_name@,
            cid: self.nft_token_cid@,
            total: self.total_number_of_nfts,
            indexes: self.indexes@,
            bridge: self.bridge_indexes@,
            paused: self.is_paused,
            price: self.selling_price@,
            specific_price: self.selling_specific_price@,
            max_per_tx: self.max_per_tx,
            ref_percent: self.ref_percent,
            discount_percent: self.discount_percent,
            ref_money: self.ref_money@.map_values(|limbs: Vec<u64>| limbs_value(limbs@)),
            ref_count: self.ref_count@,
            first_mint: self.is_first_mint@,
        }
    }
}

/// The value a byte string holds, for an optional byte string.
pub open spec fn bytes_opt_view(o: Option<Vec<u8>>) -> Option<Seq<u8>> {
    match o {
        Some(v) => Some(v@),
        None => None,
    }
}

/// An amount read from storage: zero where nothing is stored.
pub open spec fn stored_amount(m: Map<Seq<u8>, u128>, key: Seq<u8>) -> u128 {
    if m.contains_key(key) {
        m[key]
    } else {
        0
    }
}

/// A referrer's earnings read from storage: zero where nothing is stored.
pub open spec fn stored_money(m: Map<Seq<u8>, nat>, key: Seq<u8>) -> nat {
    if m.contains_key(key) {
        m[key]
    } else {
        0
    }
}

/// The price stored for `token`: zero where none is set.
pub open spec fn price_in(prices: Map<Seq<u8>, u128>, token: Seq<u8>) -> int {
    if prices.contains_key(token) {
        prices[token] as int
    } else {
        0
    }
}

/// A counter read from storage: zero where nothing is stored.
pub open spec fn stored_count(m: Map<Seq<u8>, u64>, key: Seq<u8>) -> u64 {
    if m.contains_key(key) {
        m[key]
    } else {
        0
    }
}

/// Whether the first-mint storage of `address` is empty. `false` is stored
/// as empty bytes, so only a stored `true` makes it non-empty.
pub open spec fn first_mint_is_empty(m: Map<Seq<u8>, bool>, address: Seq<u8>) -> bool {
    !(m.contains_key(address) && m[address])
}

/// The first-mint flag of `address` as read from storage.
pub open spec fn first_mint_value(m: Map<Seq<u8>, bool>, address: Seq<u8>) -> bool {
    m.contains_key(address) && m[address]
}

/// The initial storage of a contract deployed by `owner`: everything empty
/// and the sale paused.
pub open spec fn initial_model(owner: Seq<u8>) -> MintModel {
    MintModel {
        owner,
        token_id: Seq::empty(),
        token_name: Seq::empty(),
        cid: Seq::empty(),
        total: 0,
        indexes: Seq::empty(),
        bridge: Map::empty(),
        paused: true,
        price: Map::empty(),
        specific_price: Map::empty(),
        max_per_tx: 0,
        ref_percent: 0,
        discount_percent: 0,
        ref_money: Map::empty(),
        ref_count: Map::empty(),
        first_mint: Map::empty(),
    }
}

fn stored_or_zero(value: Option<u128>) -> (amount: u128)
    ensures
        amount == match value {
            Some(v) => v,
            None => 0,
        },
{
    match value {
        Some(v) => v,
        None => 0,
    }
}

impl MintStorage {
    fn is_owner(&self, caller: &Vec<u8>) -> (owner: bool)
        ensures
            owner == (caller@ == self.owner@),
    {
        bytes_equal(caller, &self.owner)
    }
}

/// The failure of `issue_collection`, if any: the payment must be EGLD, the
/// caller the owner, and the token not issued yet.
pub open spec fn issue_collection_error(m: MintModel, caller: Seq<u8>, payment_token: Seq<u8>) -> Option<
    MintError,
> {
    if payment_token.len() != 0 {
        Some(MintError::EsdtPaymentNotAccepted)
    } else if caller != m.owner {
        Some(MintError::NotOwner)
    } else if m.token_id.len() != 0 {
        Some(MintError::TokenAlreadyIssued)
    } else {
        None
    }
}

/// The failure of `pause`, if any.
pub open spec fn pause_error(m: MintModel, caller: Seq<u8>) -> Option<MintError> {
    if caller != m.owner {
        Some(MintError::NotOwner)
    } else if m.indexes.len() == 0 {
        Some(MintError::IndexesNotPopulated)
    } else if m.cid.len() == 0 {
        Some(MintError::CidNotSet)
    } else if m.max_per_tx == 0 {
        Some(MintError::MaxPerTxNotSet)
    } else {
        None
    }
}

/// Whether `payout` sends `amount` of `token` to `to`.
pub open spec fn payout_is(payout: Payout, to: Seq<u8>, token: Seq<u8>, amount: int) -> bool {
    &&& payout.to@ == to
    &&& payout.token@ == token
    &&& payout.amount == amount
}


/// The indexes of a list of (nonce, index) pairs.
pub open spec fn reserved_indexes(pairs: Seq<(u64, u64)>) -> Seq<u64> {
    pairs.map_values(|p: (u64, u64)| p.1)
}

/// The keys of the bridge table that a list of (nonce, index) pairs of
/// `collection` names.
pub open spec fn reserved_keys(collection: Seq<u8>, pairs: Seq<(u64, u64)>) -> Seq<BridgeKey> {
    pairs.map_values(|p: (u64, u64)| (collection, p.0))
}

/// The outcome of reserving indexes for the NFTs of `collection`: each pair
/// holds a nonce of the older collection and an index of the pool. The index
/// leaves the pool, the collection's count drops by one, and the bridge table
/// records the reservation. The whole call fails on the first pair whose
/// index is not in the pool or whose nonce already has an index.
pub open spec fn reserve_for_bridge(
    pool: Seq<u64>,
    bridge: Map<BridgeKey, u64>,
    total: u64,
    collection: Seq<u8>,
    pairs: Seq<(u64, u64)>,
) -> Result<(Seq<u64>, Map<BridgeKey, u64>, u64), MintError>
    decreases pairs.len(),
{
    if pairs.len() == 0 {
        Ok((pool, bridge, total))
    } else {
        let nonce = pairs[0].0;
        let index = pairs[0].1;
        if !pool.contains(index) {
            Err(MintError::IndexNotFound)
        } else if bridge.contains_key((collection, nonce)) {
            Err(MintError::IndexAlreadyInBridge)
        } else if total == 0 {
            Err(MintError::ArithmeticOverflow)
        } else {
            reserve_for_bridge(
                remove_index(pool, index),
                bridge.insert((collection, nonce), index),
                (total - 1) as u64,
                collection,
                pairs.drop_first(),
            )
        }
    }
}


/// The failure shared by the sale endpoints, if any: the sale must run, and
/// the pool, the content identifier and the maximum per transaction be set.
pub open spec fn sale_error(m: MintModel) -> Option<MintError> {
    if m.paused {
        Some(MintError::Paused)
    } else if m.indexes.len() == 0 {
        Some(MintError::IndexesNotPopulated)
    } else if m.cid.len() == 0 {
        Some(MintError::CidNotSet)
    } else if m.max_per_tx == 0 {
        Some(MintError::MaxPerTxNotSet)
    } else {
        None
    }
}

/// How many NFTs a payment of `amount` in `token` buys at random, or why it
/// buys none.
pub open spec fn random_mint_count(m: MintModel, token: Seq<u8>, amount: u128) -> Result<
    u128,
    MintError,
> {
    match sale_error(m) {
        Some(e) => Err(e),
        None => {
            let price = stored_amount(m.price, token);
            if amount == 0 {
                Err(MintError::ZeroPayment)
            } else if price == 0 {
                Err(MintError::TokenNotAccepted)
            } else if amount % price != 0 {
                Err(MintError::WrongPaymentAmount)
            } else if amount / price < 1 {
                Err(MintError::BelowMinimum)
            } else if amount / price > m.max_per_tx {
                Err(MintError::AboveMaxPerTx)
            } else if amount / price > m.indexes.len() {
                Err(MintError::NotEnoughNfts)
            } else {
                Ok(amount / price)
            }
        },
    }
}

/// How many NFTs a giveaway of `number_to_mint` draws, or why it draws none.
/// The endpoint accepts no payment, yet asks for a non-zero payment that
/// divides by the price: no call passes both checks.
pub open spec fn giveaway_count(
    m: MintModel,
    caller: Seq<u8>,
    token: Seq<u8>,
    amount: u128,
    number_to_mint: u128,
) -> Result<u128, MintError> {
    if token.len() != 0 {
        Err(MintError::EsdtPaymentNotAccepted)
    } else if amount != 0 {
        Err(MintError::EgldPaymentNotAccepted)
    } else if caller != m.owner {
        Err(MintError::NotOwner)
    } else {
        match sale_error(m) {
            Some(e) => Err(e),
            None => {
                let price = stored_amount(m.price, token);
                if amount == 0 {
                    Err(MintError::ZeroPayment)
                } else if price == 0 {
                    Err(MintError::TokenNotAccepted)
                } else if amount % price != 0 {
                    Err(MintError::WrongPaymentAmount)
                } else if number_to_mint < 1 {
                    Err(MintError::BelowMinimum)
                } else if number_to_mint > m.max_per_tx {
                    Err(MintError::AboveMaxPerTx)
                } else if number_to_mint > m.indexes.len() {
                    Err(MintError::NotEnoughNfts)
                } else {
                    Ok(number_to_mint)
                }
            },
        }
    }
}

/// Whether `nft` is the NFT of the collection with index `index`.
pub open spec fn nft_matches(nft: MintedNft, m: MintModel, index: u64) -> bool {
    &&& nft.token_id@ == m.token_id
    &&& nft.index == index
    &&& nft.name@ == name_of(m.token_name, index as nat)
    &&& nft.attributes@ == attributes_of(m.cid, index as nat)
    &&& nft.uris@.len() == 2
    &&& nft.uris@[0]@ == media_uri_of(m.cid, index as nat)
    &&& nft.uris@[1]@ == metadata_uri_of(m.cid, index as nat)
    &&& nft.royalties == ROYALTIES
    &&& nft.amount == 1
}

impl MintStorage {
    fn sale_check(&self) -> (r: Option<MintError>)
        ensures
            r == sale_error(self@),
    {
        if self.is_paused {
            Some(MintError::Paused)
        } else if self.indexes.len() == 0 {
            Some(MintError::IndexesNotPopulated)
        } else if self.nft_token_cid.len() == 0 {
            Some(MintError::CidNotSet)
        } else if self.max_per_tx == 0 {
            Some(MintError::MaxPerTxNotSet)
        } else {
            None
        }
    }




    fn minted(&self, index: u64) -> (nft: MintedNft)
        requires
            index < DECIMAL_LIMIT,
        ensures
            nft_matches(nft, self@, index),
    {
        MintedNft {
            token_id: copy_bytes(&self.nft_token_id),
            index,
            name: self.create_name(index),
            attributes: self.create_attributes(index),
            uris: self.create_uris(index),
            royalties: ROYALTIES,
            amount: 1,
        }
    }
}

/// Whether a mint pays a referral: both shares are set, the caller names a
/// referrer other than itself, and the caller's first-mint storage is empty
/// or reads `true`.
pub open spec fn referral_paid(m: MintModel, caller: Seq<u8>, referrer: Option<Seq<u8>>) -> bool {
    &&& m.ref_percent > 0
    &&& m.discount_percent > 0
    &&& referrer is Some
    &&& referrer->0 != caller
    &&& (first_mint_is_empty(m.first_mint, caller) || first_mint_value(m.first_mint, caller))
}

/// The referrer's share of a payment of `amount`.
pub open spec fn referral_amount(m: MintModel, amount: u128) -> int {
    percent_of(amount as int, m.ref_percent as int)
}

/// The buyer's discount on a payment of `amount`.
pub open spec fn discount_amount(m: MintModel, amount: u128) -> int {
    percent_of(amount as int, m.discount_percent as int)
}

/// The failure of sharing out a payment of `amount`, if any: a caller that
/// names itself as referrer; a referral counter at its limit; referral and
/// discount that together exceed the payment.
pub open spec fn settle_error(m: MintModel, caller: Seq<u8>, amount: u128, referrer: Option<
    Seq<u8>,
>) -> Option<MintError> {
    if m.ref_percent > 0 && m.discount_percent > 0 && referrer is Some && referrer->0 == caller {
        Some(MintError::SelfReferral)
    } else if referral_paid(m, caller, referrer) && stored_count(m.ref_count, referrer->0)
        == u64::MAX {
        Some(MintError::ArithmeticOverflow)
    } else if referral_paid(m, caller, referrer) && referral_amount(m, amount) + discount_amount(
        m,
        amount,
    ) > amount {
        Some(MintError::PaymentExceeded)
    } else {
        None
    }
}

/// The storage after a payment of `amount` is shared out: the caller's
/// first-mint flag is set to `false`, and a paid referral adds one to the
/// referrer's count and its share to the referrer's earnings.
pub open spec fn settled(m: MintModel, caller: Seq<u8>, amount: u128, referrer: Option<Seq<u8>>) -> MintModel {
    if referral_paid(m, caller, referrer) {
        let r = referrer->0;
        MintModel {
            first_mint: m.first_mint.insert(caller, false),
            ref_count: m.ref_count.insert(r, (stored_count(m.ref_count, r) + 1) as u64),
            ref_money: m.ref_money.insert(
                r,
                (stored_money(m.ref_money, r) + referral_amount(m, amount)) as nat,
            ),
            ..m
        }
    } else {
        MintModel { first_mint: m.first_mint.insert(caller, false), ..m }
    }
}

/// The transfers that share out a payment of `amount` in `token`: with a
/// paid referral, the referrer's share, the caller's discount and the rest
/// to the owner, in that order; otherwise all of it to the owner.
pub open spec fn payouts_match(
    payouts: Seq<Payout>,
    m: MintModel,
    caller: Seq<u8>,
    token: Seq<u8>,
    amount: u128,
    referrer: Option<Seq<u8>>,
) -> bool {
    if referral_paid(m, caller, referrer) {
        &&& payouts.len() == 3
        &&& payout_is(payouts[0], referrer->0, token, referral_amount(m, amount))
        &&& payout_is(payouts[1], caller, token, discount_amount(m, amount))
        &&& payout_is(
            payouts[2],
            m.owner,
            token,
            amount - referral_amount(m, amount) - discount_amount(m, amount),
        )
    } else {
        &&& payouts.len() == 1
        &&& payout_is(payouts[0], m.owner, token, amount as int)
    }
}


/// The failure of the checks of a purchase of `requested` NFTs by index,
/// paid `amount` in `token`, if any.
pub open spec fn specific_mint_error(m: MintModel, token: Seq<u8>, amount: u128, requested: nat) -> Option<
    MintError,
> {
    match sale_error(m) {
        Some(e) => Some(e),
        None => {
            let price = stored_amount(m.specific_price, token);
            if amount == 0 {
                Some(MintError::ZeroPayment)
            } else if price == 0 {
                Some(MintError::TokenNotAccepted)
            } else if amount % price != 0 {
                Some(MintError::WrongPaymentAmount)
            } else if amount / price != requested {
                Some(MintError::WrongPaymentAmount)
            } else if amount / price > m.max_per_tx {
                Some(MintError::AboveMaxPerTx)
            } else if amount / price > m.indexes.len() {
                Some(MintError::NotEnoughNfts)
            } else {
                None
            }
        },
    }
}

/// The pool after the random draws `positions`, each counted from one in the
/// pool as it stands at that draw, with the drawn indexes appended to
/// `drawn`; or the failure of the first draw that cannot be made: a position
/// outside the pool, or an index with too many digits for its name.
pub open spec fn draw_sequence(pool: Seq<u64>, positions: Seq<usize>, drawn: Seq<u64>) -> Result<
    (Seq<u64>, Seq<u64>),
    MintError,
>
    decreases positions.len(),
{
    if positions.len() == 0 {
        Ok((pool, drawn))
    } else if positions[0] < 1 || positions[0] > pool.len() {
        Err(MintError::IndexOutOfRange)
    } else if pool[positions[0] - 1] >= DECIMAL_LIMIT {
        Err(MintError::IndexTooLarge)
    } else {
        draw_sequence(
            swap_remove_at(pool, positions[0] - 1),
            positions.drop_first(),
            drawn.push(pool[positions[0] - 1]),
        )
    }
}

/// The pool after the NFTs `numbers` are minted in order, or the failure of
/// the first that cannot be: one no longer in the pool, or one with too many
/// digits for its name.
pub open spec fn mint_listed(pool: Seq<u64>, numbers: Seq<u64>) -> Result<Seq<u64>, MintError>
    decreases numbers.len(),
{
    if numbers.len() == 0 {
        Ok(pool)
    } else if !pool.contains(numbers[0]) {
        Err(MintError::AlreadyMinted)
    } else if numbers[0] >= DECIMAL_LIMIT {
        Err(MintError::IndexTooLarge)
    } else {
        mint_listed(remove_index(pool, numbers[0]), numbers.drop_first())
    }
}

/// The keys of the bridge table that a list of transfers names.
pub open spec fn transfer_keys(transfers: Seq<EsdtTransfer>) -> Seq<BridgeKey> {
    transfers.map_values(|t: EsdtTransfer| (t.token@, t.nonce))
}

/// The bridge table after the NFTs of older collections named by `keys` are
/// exchanged in order, with the indexes they are exchanged for appended to
/// `minted`; or the failure of the first that cannot be: one without a
/// reserved index, or one whose index has too many digits for its name.
pub open spec fn redeem(bridge: Map<BridgeKey, u64>, keys: Seq<BridgeKey>, minted: Seq<u64>) -> Result<
    (Map<BridgeKey, u64>, Seq<u64>),
    MintError,
>
    decreases keys.len(),
{
    if keys.len() == 0 {
        Ok((bridge, minted))
    } else if !bridge.contains_key(keys[0]) {
        Err(MintError::NotBridgeable)
    } else if bridge[keys[0]] >= DECIMAL_LIMIT {
        Err(MintError::IndexTooLarge)
    } else {
        redeem(bridge.remove(keys[0]), keys.drop_first(), minted.push(bridge[keys[0]]))
    }
}

impl MintStorage {
    /// A consistent storage satisfies the model's invariant.
    pub proof fn lemma_wf_model(&self)
        requires
            self.wf(),
        ensures
            self.model().wf(),
    {
    }
}

/// The contract's endpoints and helpers, over a storage whose model is
/// `model()`; `wf()` is what every reachable storage satisfies.
pub trait NftMint: Sized {
    /// The storage as mathematical values.
    spec fn model(&self) -> MintModel;

    /// What every reachable storage satisfies.
    spec fn wf(&self) -> bool;

    /// Deploys the contract for `owner`; the sale starts paused.
    fn init(owner: &Vec<u8>) -> (contract: Self)
        ensures
            contract.wf(),
            contract.model() == initial_model(owner@),
    ;

    /// Sets the referrer's share, in percent. Owner only.
    fn set_ref_percent(&mut self, caller: &Vec<u8>, reff: u128) -> (r: Result<(), MintError>)
        requires
            old(self).wf(),
        ensures
            final(self).wf(),
            caller@ != old(self).model().owner ==> r == Err::<(), MintError>(MintError::NotOwner)
                && final(self).model() == old(self).model(),
            caller@ == old(self).model().owner ==> r is Ok && final(self).model() == (MintModel {
                ref_percent: reff,
                ..old(self).model()
            }),
    ;

    /// Sets the referred buyer's discount, in percent. Owner only.
    fn set_discount_percent(&mut self, caller: &Vec<u8>, disc: u128) -> (r: Result<(), MintError>)
        requires
            old(self).wf(),
        ensures
            final(self).wf(),
            caller@ != old(self).model().owner ==> r == Err::<(), MintError>(MintError::NotOwner)
                && final(self).model() == old(self).model(),
            caller@ == old(self).model().owner ==> r is Ok && final(self).model() == (MintModel {
                discount_percent: disc,
                ..old(self).model()
            }),
    ;

    /// Sets the most NFTs one transaction may mint. Owner only.
    fn set_max_per_tx(&mut self, caller: &Vec<u8>, max_per_tx: u128) -> (r: Result<(), MintError>)
        requires
            old(self).wf(),
        ensures
            final(self).wf(),
            caller@ != old(self).model().owner ==> r == Err::<(), MintError>(MintError::NotOwner)
                && final(self).model() == old(self).model(),
            caller@ == old(self).model().owner ==> r is Ok && final(self).model() == (MintModel {
                max_per_tx,
                ..old(self).model()
            }),
    ;

    /// Sets the price of one NFT minted at random, paid in `token_id`.
    /// Owner only; the price must not be zero.
    fn set_price(&mut self, caller: &Vec<u8>, token_id: &Vec<u8>, price: u128) -> (r: Result<
        (),
        MintError,
    >)
        requires
            old(self).wf(),
        ensures
            final(self).wf(),
            caller@ != old(self).model().owner ==> r == Err::<(), MintError>(MintError::NotOwner)
                && final(self).model() == old(self).model(),
            caller@ == old(self).model().owner && price == 0 ==> r == Err::<(), MintError>(
                MintError::ZeroPrice,
            ) && final(self).model() == old(self).model(),
            caller@ == old(self).model().owner && price > 0 ==> r is Ok && final(self).model() == (MintModel {
                price: old(self).model().price.insert(token_id@, price),
                ..old(self).model()
            }),
    ;

    /// Sets the price of one NFT minted by index, paid in `token_id`.
    /// Owner only; the price must not be zero.
    fn set_specific_price(&mut self, caller: &Vec<u8>, token_id: &Vec<u8>, price: u128) -> (r:
        Result<(), MintError>)
        requires
            old(self).wf(),
        ensures
            final(self).wf(),
            caller@ != old(self).model().owner ==> r == Err::<(), MintError>(MintError::NotOwner)
                && final(self).model() == old(self).model(),
            caller@ == old(self).model().owner && price == 0 ==> r == Err::<(), MintError>(
                MintError::ZeroPrice,
            ) && final(self).model() == old(self).model(),
            caller@ == old(self).model().owner && price > 0 ==> r is Ok && final(self).model() == (MintModel {
                specific_price: old(self).model().specific_price.insert(token_id@, price),
                ..old(self).model()
            }),
    ;

    /// Starts issuing the collection's token: records `collection_name` and
    /// returns the issuing to request, paid with `payment`; the chain answers
    /// with `issue_callback`. EGLD only, owner only, and only while no token
    /// is issued.
    fn issue_collection(
        &mut self,
        caller: &Vec<u8>,
        payment: &Payment,
        collection_name: &Vec<u8>,
        collection_ticker: &Vec<u8>,
    ) -> (r: Result<IssueRequest, MintError>)
        requires
            old(self).wf(),
        ensures
            final(self).wf(),
            match issue_collection_error(old(self).model(), caller@, payment.token@) {
                Some(e) => (r matches Err(e2) && e2 == e) && final(self).model() == old(self).model(),
                None => (r matches Ok(request) && request.cost == payment.amount && request.name@
                    == collection_name@ && request.ticker@ == collection_ticker@
                    && request.properties == all_properties() && request.callback
                    == IssueCallback::IssueCallback)
                    && final(self).model() == (MintModel {
                    token_name: collection_name@,
                    ..old(self).model()
                }),
            },
            caller@ == old(self).model().owner && payment.token@.len() == 0 ==> ((r matches Err(e)
                && e == MintError::TokenAlreadyIssued) <==> old(self).model().token_id.len() != 0)
                && (r is Ok <==> old(self).model().token_id.len() == 0),
    ;

    /// Receives the outcome of the issuing: the new token identifier, which
    /// is stored, or a failure, on which EGLD that came back is refunded to
    /// the owner.
    fn issue_callback(&mut self, issued: &Option<Vec<u8>>, returned: &Payment) -> (refund: Option<
        Payout,
    >)
        requires
            old(self).wf(),
        ensures
            final(self).wf(),
            match bytes_opt_view(*issued) {
                Some(token_id) => refund is None && final(self).model() == (MintModel {
                    token_id,
                    ..old(self).model()
                }),
                None => final(self).model() == old(self).model() && if returned.token@.len() == 0
                    && returned.amount > 0 {
                    (refund matches Some(p) && payout_is(
                        p,
                        old(self).model().owner,
                        returned.token@,
                        returned.amount as int,
                    ))
                } else {
                    refund is None
                },
            },
    ;

    /// Returns the request that grants the contract the roles to create and
    /// burn NFTs of the collection. Owner only, once the token is issued.
    fn set_local_roles(&self, caller: &Vec<u8>) -> (r: Result<RolesRequest, MintError>)
        requires
            self.wf(),
        ensures
            caller@ != self.model().owner ==> (r matches Err(e) && e == MintError::NotOwner),
            caller@ == self.model().owner && self.model().token_id.len() == 0 ==> (r matches Err(e)
                && e == MintError::TokenNotIssued),
            caller@ == self.model().owner && self.model().token_id.len() != 0 ==> (r matches Ok(
                request,
            ) && request.token_id@ == self.model().token_id && request.roles@ == seq![
                LocalRole::NftCreate,
                LocalRole::NftBurn,
            ]),
    ;

    /// Sets the content identifier. Owner only, and only while no NFT has
    /// left the pool (the pool holds as many indexes as the collection counts).
    fn set_cid(&mut self, caller: &Vec<u8>, cid: &Vec<u8>) -> (r: Result<(), MintError>)
        requires
            old(self).wf(),
        ensures
            final(self).wf(),
            caller@ != old(self).model().owner ==> r == Err::<(), MintError>(MintError::NotOwner)
                && final(self).model() == old(self).model(),
            caller@ == old(self).model().owner && old(self).model().total != old(self).model().indexes.len() ==> r
                == Err::<(), MintError>(MintError::CidLocked) && final(self).model() == old(self).model(),
            caller@ == old(self).model().owner && old(self).model().total == old(self).model().indexes.len() ==> r is Ok
                && final(self).model() == (MintModel { cid: cid@, ..old(self).model() }),
    ;

    /// Pauses the sale if it runs and resumes it if it is paused. Owner only,
    /// once the pool, the content identifier and the maximum per transaction
    /// are set.
    fn pause(&mut self, caller: &Vec<u8>) -> (r: Result<(), MintError>)
        requires
            old(self).wf(),
        ensures
            final(self).wf(),
            match pause_error(old(self).model(), caller@) {
                Some(e) => r == Err::<(), MintError>(e) && final(self).model() == old(self).model(),
                None => r is Ok && final(self).model() == (MintModel {
                    paused: !old(self).model().paused,
                    ..old(self).model()
                }),
            },
    ;

    /// Whether `address` is recorded as having minted: its first-mint
    /// storage is non-empty and reads `false`. A stored `false` is empty
    /// bytes, so no storage is both: the answer is always `false`.
    fn did_mint(&self, address: &Vec<u8>) -> (minted: bool)
        requires
            self.wf(),
        ensures
            minted == !(first_mint_is_empty(self.model().first_mint, address@) || first_mint_value(
                self.model().first_mint,
                address@,
            )),
            !minted,
    ;

    /// Adds the indexes `total + 1` up to `total + total_number_of_nfts_to_add`
    /// to the pool (those already there stay where they are), raises the
    /// collection's count by as much, and returns the new count. Owner only.
    fn populate_indexes(&mut self, caller: &Vec<u8>, total_number_of_nfts_to_add: u64) -> (r:
        Result<u64, MintError>)
        requires
            old(self).wf(),
        ensures
            final(self).wf(),
            caller@ != old(self).model().owner ==> r == Err::<u64, MintError>(MintError::NotOwner)
                && final(self).model() == old(self).model(),
            caller@ == old(self).model().owner && old(self).model().total + total_number_of_nfts_to_add > u64::MAX
                ==> r == Err::<u64, MintError>(MintError::ArithmeticOverflow) && final(self).model() == old(self).model(),
            caller@ == old(self).model().owner && old(self).model().total + total_number_of_nfts_to_add
                <= u64::MAX ==> r == Ok::<u64, MintError>(
                (old(self).model().total + total_number_of_nfts_to_add) as u64,
            ) && final(self).model() == (MintModel {
                total: (old(self).model().total + total_number_of_nfts_to_add) as u64,
                indexes: add_range(
                    old(self).model().indexes,
                    old(self).model().total,
                    total_number_of_nfts_to_add as nat,
                ),
                ..old(self).model()
            }),
    ;

    /// Reserves indexes of the pool for NFTs of the older collection
    /// `old_collection` (see `reserve_for_bridge`). Owner only.
    fn populate_bridge_indexes(
        &mut self,
        caller: &Vec<u8>,
        old_collection: &Vec<u8>,
        pairs: &Vec<(u64, u64)>,
    ) -> (r: Result<(), MintError>)
        requires
            old(self).wf(),
        ensures
            final(self).wf(),
            caller@ != old(self).model().owner ==> r == Err::<(), MintError>(MintError::NotOwner)
                && final(self).model() == old(self).model(),
            caller@ == old(self).model().owner ==> match reserve_for_bridge(
                old(self).model().indexes,
                old(self).model().bridge,
                old(self).model().total,
                old_collection@,
                pairs@,
            ) {
                Err(e) => r == Err::<(), MintError>(e) && final(self).model() == old(self).model(),
                Ok((indexes, bridge, total)) => r is Ok && final(self).model() == (MintModel {
                    indexes,
                    bridge,
                    total,
                    ..old(self).model()
                }),
            },
    ;

    /// The decimal ASCII digits of `number`, which must fit ten digits.
    fn decimal_to_ascii(&self, number: u64) -> (digits: Vec<u8>)
        requires
            number < DECIMAL_LIMIT,
        ensures
            digits@ == decimal_digits(number as nat),
    ;

    /// The attributes of token `number`.
    fn create_attributes(&self, number: u64) -> (attributes: Vec<u8>)
        requires
            number < DECIMAL_LIMIT,
        ensures
            attributes@ == attributes_of(self.model().cid, number as nat),
    ;

    /// The media URI and the metadata URI of token `number`.
    fn create_uris(&self, number: u64) -> (uris: Vec<Vec<u8>>)
        requires
            number < DECIMAL_LIMIT,
        ensures
            uris@.len() == 2,
            uris@[0]@ == media_uri_of(self.model().cid, number as nat),
            uris@[1]@ == metadata_uri_of(self.model().cid, number as nat),
    ;

    /// The name of token `number`.
    fn create_name(&self, number: u64) -> (name: Vec<u8>)
        requires
            number < DECIMAL_LIMIT,
        ensures
            name@ == name_of(self.model().token_name, number as nat),
    ;

    /// Checks a purchase of NFTs at random paid with `payment`, and returns
    /// how many the caller gets: as many random draws as `mint_random_nft`
    /// takes.
    fn check_random_mint(&self, caller: &Vec<u8>, payment: &Payment) -> (r: Result<MintPlan, MintError>)
        requires
            self.wf(),
        ensures
            match random_mint_count(self.model(), payment.token@, payment.amount) {
                Ok(count) => (r matches Ok(plan) && plan.count == count && plan.recipient@ == caller@),
                Err(e) => (r matches Err(e2) && e2 == e),
            },
            r matches Ok(plan) ==> 1 <= plan.count <= self.model().max_per_tx && plan.count
                <= self.model().indexes.len() && plan.count * price_in(self.model().price, payment.token@)
                == payment.amount,
            r matches Err(e) && e == MintError::AboveMaxPerTx ==> (payment.amount as int) / price_in(
                self.model().price,
                payment.token@,
            ) > self.model().max_per_tx,
    ;

    /// Mints NFTs at random for the caller, who pays `payment`, and shares
    /// the payment out. `positions` are the random draws, one per NFT bought
    /// (see `check_random_mint`), the `i`-th in `1..=` the pool's size less
    /// `i`. The whole call fails on the first failed check: those of
    /// `random_mint_count`, then those of `draw_sequence`, then those of
    /// `settle_error`.
    fn mint_random_nft(
        &mut self,
        caller: &Vec<u8>,
        payment: &Payment,
        ref_address: &Option<Vec<u8>>,
        positions: &Vec<usize>,
    ) -> (r: Result<MintOutcome, MintError>)
        requires
            old(self).wf(),
            random_mint_count(old(self).model(), payment.token@, payment.amount) matches Ok(count)
                ==> positions@.len() == count,
        ensures
            final(self).wf(),
            match random_mint_count(old(self).model(), payment.token@, payment.amount) {
                Err(e) => (r matches Err(e2) && e2 == e) && final(self).model() == old(self).model(),
                Ok(_) => match draw_sequence(old(self).model().indexes, positions@, Seq::empty()) {
                    Err(e) => (r matches Err(e2) && e2 == e) && final(self).model() == old(
                        self,
                    ).model(),
                    Ok((pool, drawn)) => match settle_error(
                        old(self).model(),
                        caller@,
                        payment.amount,
                        bytes_opt_view(*ref_address),
                    ) {
                        Some(e) => (r matches Err(e2) && e2 == e) && final(self).model() == old(
                            self,
                        ).model(),
                        None => (r matches Ok(out) && out.nfts@.len() == drawn.len() && (forall|
                            i: int,
                        |
                            0 <= i < drawn.len() ==> nft_matches(
                                #[trigger] out.nfts@[i],
                                old(self).model(),
                                drawn[i],
                            )) && payouts_match(
                            out.payouts@,
                            old(self).model(),
                            caller@,
                            payment.token@,
                            payment.amount,
                            bytes_opt_view(*ref_address),
                        )) && final(self).model() == (MintModel {
                            indexes: pool,
                            ..settled(
                                old(self).model(),
                                caller@,
                                payment.amount,
                                bytes_opt_view(*ref_address),
                            )
                        }),
                    },
                },
            },
            r matches Ok(out) ==> (forall|i: int|
                0 <= i < out.payouts@.len() ==> (#[trigger] out.payouts@[i]).token@ == payment.token@)
                && (forall|i: int|
                0 <= i < out.nfts@.len() ==> (#[trigger] out.nfts@[i]).royalties == 1000
                    && out.nfts@[i].amount == 1),
    ;

    /// Checks a giveaway of `number_to_mint` NFTs to `giveaway_address`.
    /// Owner only; see `giveaway_count`. The NFTs would then be drawn with
    /// `draw_index`.
    fn giveaway(
        &self,
        caller: &Vec<u8>,
        payment: &Payment,
        number_to_mint: u128,
        giveaway_address: &Vec<u8>,
    ) -> (r: Result<MintPlan, MintError>)
        requires
            self.wf(),
        ensures
            match giveaway_count(self.model(), caller@, payment.token@, payment.amount, number_to_mint) {
                Ok(count) => (r matches Ok(plan) && plan.count == count && plan.recipient@
                    == giveaway_address@),
                Err(e) => (r matches Err(e2) && e2 == e),
            },
    ;

    /// Draws the NFT at `position` (counted from one) of the pool: its index
    /// leaves the pool, the last index taking its place, and the NFT to create
    /// is returned. `position` is the random draw, in `1..=` the pool's size.
    fn draw_index(&mut self, position: usize) -> (r: Result<MintedNft, MintError>)
        requires
            old(self).wf(),
            1 <= position <= old(self).model().indexes.len(),
        ensures
            final(self).wf(),
            old(self).model().indexes[position - 1] >= DECIMAL_LIMIT ==> (r matches Err(e) && e
                == MintError::IndexTooLarge) && final(self).model() == old(self).model(),
            old(self).model().indexes[position - 1] < DECIMAL_LIMIT ==> (r matches Ok(nft) && nft_matches(
                nft,
                old(self).model(),
                old(self).model().indexes[position - 1],
            )) && final(self).model() == (MintModel {
                indexes: swap_remove_at(old(self).model().indexes, position - 1),
                ..old(self).model()
            }),
            r matches Ok(nft) ==> nft.royalties == 1000 && nft.amount == 1,
    ;

    /// Shares out the payment of a mint between the referrer, the caller
    /// and the owner (see `settled` and `payouts_match`), and returns the
    /// transfers to make.
    fn settle_payment(&mut self, caller: &Vec<u8>, payment: &Payment, ref_address: &Option<Vec<u8>>) -> (r:
        Result<Vec<Payout>, MintError>)
        requires
            old(self).wf(),
        ensures
            final(self).wf(),
            match settle_error(old(self).model(), caller@, payment.amount, bytes_opt_view(*ref_address)) {
                Some(e) => (r matches Err(e2) && e2 == e) && final(self).model() == old(self).model(),
                None => (r matches Ok(payouts) && payouts_match(
                    payouts@,
                    old(self).model(),
                    caller@,
                    payment.token@,
                    payment.amount,
                    bytes_opt_view(*ref_address),
                )) && final(self).model() == settled(
                    old(self).model(),
                    caller@,
                    payment.amount,
                    bytes_opt_view(*ref_address),
                ),
            },
            r matches Ok(payouts) ==> forall|i: int|
                0 <= i < payouts@.len() ==> (#[trigger] payouts@[i]).token@ == payment.token@,
    ;

    /// Mints the NFTs `numbers_to_mint`, chosen by index, for the caller, who
    /// pays `payment`, and shares the payment out. The whole call fails on the
    /// first failed check: those of `specific_mint_error`, then those of
    /// `mint_listed`, then those of `settle_error`.
    fn mint_specific_nft(
        &mut self,
        caller: &Vec<u8>,
        payment: &Payment,
        numbers_to_mint: &Vec<u64>,
        ref_address: &Option<Vec<u8>>,
    ) -> (r: Result<MintOutcome, MintError>)
        requires
            old(self).wf(),
        ensures
            final(self).wf(),
            match specific_mint_error(
                old(self).model(),
                payment.token@,
                payment.amount,
                numbers_to_mint@.len(),
            ) {
                Some(e) => (r matches Err(e2) && e2 == e) && final(self).model() == old(self).model(),
                None => match mint_listed(old(self).model().indexes, numbers_to_mint@) {
                    Err(e) => (r matches Err(e2) && e2 == e) && final(self).model() == old(self).model(),
                    Ok(pool) => match settle_error(
                        old(self).model(),
                        caller@,
                        payment.amount,
                        bytes_opt_view(*ref_address),
                    ) {
                        Some(e) => (r matches Err(e2) && e2 == e) && final(self).model() == old(self).model(),
                        None => (r matches Ok(out) && out.nfts@.len() == numbers_to_mint@.len()
                            && (forall|i: int|
                            0 <= i < numbers_to_mint@.len() ==> nft_matches(
                                #[trigger] out.nfts@[i],
                                old(self).model(),
                                numbers_to_mint@[i],
                            )) && payouts_match(
                            out.payouts@,
                            old(self).model(),
                            caller@,
                            payment.token@,
                            payment.amount,
                            bytes_opt_view(*ref_address),
                        )) && final(self).model() == (MintModel {
                            indexes: pool,
                            ..settled(
                                old(self).model(),
                                caller@,
                                payment.amount,
                                bytes_opt_view(*ref_address),
                            )
                        }),
                    },
                },
            },
            r matches Err(e) && e == MintError::AboveMaxPerTx ==> numbers_to_mint@.len()
                > old(self).model().max_per_tx,
            r matches Ok(out) ==> (forall|i: int|
                0 <= i < out.payouts@.len() ==> (#[trigger] out.payouts@[i]).token@ == payment.token@)
                && (forall|i: int|
                0 <= i < out.nfts@.len() ==> (#[trigger] out.nfts@[i]).royalties == 1000
                    && out.nfts@[i].amount == 1),
    ;

    /// Exchanges NFTs of older collections, sent with the call, for the NFTs
    /// of this collection reserved for them, minted for the caller. The whole
    /// call fails if one of them cannot be exchanged (see `redeem`).
    fn bridge_nfts(&mut self, caller: &Vec<u8>, transfers: &Vec<EsdtTransfer>) -> (r: Result<
        Vec<MintedNft>,
        MintError,
    >)
        requires
            old(self).wf(),
        ensures
            final(self).wf(),
            match redeem(old(self).model().bridge, transfer_keys(transfers@), Seq::empty()) {
                Err(e) => (r matches Err(e2) && e2 == e) && final(self).model() == old(self).model(),
                Ok((bridge, minted)) => (r matches Ok(nfts) && nfts@.len() == minted.len() && (
                forall|i: int|
                    0 <= i < minted.len() ==> nft_matches(#[trigger] nfts@[i], old(self).model(), minted[i])))
                    && final(self).model() == (MintModel { bridge, ..old(self).model() }),
            },
            r matches Ok(nfts) ==> forall|i: int|
                0 <= i < nfts@.len() ==> (#[trigger] nfts@[i]).royalties == 1000 && nfts@[i].amount
                    == 1,
    ;


    /// The price of one NFT minted at random, paid in `token_id`; zero where
    /// none is set.
    fn selling_price(&self, token_id: &Vec<u8>) -> (price: u128)
        requires
            self.wf(),
        ensures
            price == stored_amount(self.model().price, token_id@),
    ;

    /// The price of one NFT minted by index, paid in `token_id`; zero where
    /// none is set.
    fn selling_specific_price(&self, token_id: &Vec<u8>) -> (price: u128)
        requires
            self.wf(),
        ensures
            price == stored_amount(self.model().specific_price, token_id@),
    ;

    /// What `address` earned as a referrer, as little-endian 64-bit limbs.
    fn ref_money(&self, address: &Vec<u8>) -> (money: Vec<u64>)
        requires
            self.wf(),
        ensures
            limbs_value(money@) == stored_money(self.model().ref_money, address@),
    ;

    /// How many mints `address` brought as a referrer.
    fn ref_count(&self, address: &Vec<u8>) -> (count: u64)
        requires
            self.wf(),
        ensures
            count == stored_count(self.model().ref_count, address@),
    ;

    /// The indexes still to mint, in pool order.
    fn v_indexes(&self) -> (indexes: Vec<u64>)
        ensures
            indexes@ == self.model().indexes,
    ;

    /// The contract's owner.
    fn owner(&self) -> (value: Vec<u8>)
        ensures
            value@ == self.model().owner,
    ;

    /// The collection's token identifier; empty until issued.
    fn nft_token_id(&self) -> (value: Vec<u8>)
        ensures
            value@ == self.model().token_id,
    ;

    /// The collection's name.
    fn nft_token_name(&self) -> (value: Vec<u8>)
        ensures
            value@ == self.model().token_name,
    ;

    /// The content identifier.
    fn nft_token_cid(&self) -> (value: Vec<u8>)
        ensures
            value@ == self.model().cid,
    ;

    /// The number of NFTs in the collection.
    fn total_number_of_nfts(&self) -> (value: u64)
        ensures
            value == self.model().total,
    ;

    /// Whether the sale is paused.
    fn is_paused(&self) -> (value: bool)
        ensures
            value == self.model().paused,
    ;

    /// The most NFTs one transaction may mint.
    fn max_per_tx(&self) -> (value: u128)
        ensures
            value == self.model().max_per_tx,
    ;

    /// The referrer's share, in percent.
    fn ref_percent(&self) -> (value: u128)
        ensures
            value == self.model().ref_percent,
    ;

    /// The referred buyer's discount, in percent.
    fn discount_percent(&self) -> (value: u128)
        ensures
            value == self.model().discount_percent,
    ;
}

impl NftMint for MintStorage {
    open spec fn model(&self) -> MintModel {
        self@
    }

    /// The storage is consistent and satisfies the model's invariant.
    closed spec fn wf(&self) -> bool {
        &&& self.bridge_indexes.wf()
        &&& self.selling_price.wf()
        &&& self.selling_specific_price.wf()
        &&& self.ref_money.wf()
        &&& self.ref_count.wf()
        &&& self.is_first_mint.wf()
        &&& self.indexes@.no_duplicates()
        &&& self.indexes@.len() <= self.total_number_of_nfts
        &&& forall|a: Seq<u8>| #[trigger]
            self.is_first_mint@.contains_key(a) ==> !self.is_first_mint@[a]
    }

    fn init(owner: &Vec<u8>) -> (contract: Self)
    {
        MintStorage {
            owner: copy_bytes(owner),
            nft_token_id: Vec::new(),
            nft_token_name: Vec::new(),
            nft_token_cid: Vec::new(),
            total_number_of_nfts: 0,
            indexes: Vec::new(),
            bridge_indexes: BridgeTable::new(),
            is_paused: true,
            selling_price: ByteMap::new(),
            selling_specific_price: ByteMap::new(),
            max_per_tx: 0,
            ref_percent: 0,
            discount_percent: 0,
            ref_money: ByteMap::new(),
            ref_count: ByteMap::new(),
            is_first_mint: ByteMap::new(),
        }
    }

    fn set_ref_percent(&mut self, caller: &Vec<u8>, reff: u128) -> (r: Result<(), MintError>)
    {
        if !self.is_owner(caller) {
            return Err(MintError::NotOwner);
        }
        self.ref_percent = reff;
        Ok(())
    }

    fn set_discount_percent(&mut self, caller: &Vec<u8>, disc: u128) -> (r: Result<(), MintError>)
    {
        if !self.is_owner(caller) {
            return Err(MintError::NotOwner);
        }
        self.discount_percent = disc;
        Ok(())
    }

    fn set_max_per_tx(&mut self, caller: &Vec<u8>, max_per_tx: u128) -> (r: Result<(), MintError>)
    {
        if !self.is_owner(caller) {
            return Err(MintError::NotOwner);
        }
        self.max_per_tx = max_per_tx;
        Ok(())
    }

    fn set_price(&mut self, caller: &Vec<u8>, token_id: &Vec<u8>, price: u128) -> (r: Result<
        (),
        MintError,
    >)
    {
        if !self.is_owner(caller) {
            return Err(MintError::NotOwner);
        }
        if price == 0 {
            return Err(MintError::ZeroPrice);
        }
        self.selling_price.insert(token_id, price);
        Ok(())
    }

    fn set_specific_price(&mut self, caller: &Vec<u8>, token_id: &Vec<u8>, price: u128) -> (r:
        Result<(), MintError>)
    {
        if !self.is_owner(caller) {
            return Err(MintError::NotOwner);
        }
        if price == 0 {
            return Err(MintError::ZeroPrice);
        }
        self.selling_specific_price.insert(token_id, price);
        Ok(())
    }

    fn issue_collection(
        &mut self,
        caller: &Vec<u8>,
        payment: &Payment,
        collection_name: &Vec<u8>,
        collection_ticker: &Vec<u8>,
    ) -> (r: Result<IssueRequest, MintError>) {
        if payment.token.len() != 0 {
            return Err(MintError::EsdtPaymentNotAccepted);
        }
        if !self.is_owner(caller) {
            return Err(MintError::NotOwner);
        }
        if self.nft_token_id.len() != 0 {
            return Err(MintError::TokenAlreadyIssued);
        }
        self.nft_token_name = copy_bytes(collection_name);
        Ok(
            IssueRequest {
                cost: payment.amount,
                name: copy_bytes(collection_name),
                ticker: copy_bytes(collection_ticker),
                properties: TokenProperties {
                    can_freeze: true,
                    can_wipe: true,
                    can_pause: true,
                    can_change_owner: true,
                    can_upgrade: true,
                    can_add_special_roles: true,
                },
                callback: IssueCallback::IssueCallback,
            },
        )
    }

    fn issue_callback(&mut self, issued: &Option<Vec<u8>>, returned: &Payment) -> (refund: Option<
        Payout,
    >)
    {
        match issued {
            Some(token_id) => {
                self.nft_token_id = copy_bytes(token_id);
                None
            },
            None => {
                if returned.token.len() == 0 && returned.amount > 0 {
                    Some(
                        Payout {
                            to: copy_bytes(&self.owner),
                            token: copy_bytes(&returned.token),
                            amount: returned.amount,
                        },
                    )
                } else {
                    None
                }
            },
        }
    }

    fn set_local_roles(&self, caller: &Vec<u8>) -> (r: Result<RolesRequest, MintError>)
    {
        if !self.is_owner(caller) {
            return Err(MintError::NotOwner);
        }
        if self.nft_token_id.len() == 0 {
            return Err(MintError::TokenNotIssued);
        }
        let mut roles: Vec<LocalRole> = Vec::new();
        roles.push(LocalRole::NftCreate);
        roles.push(LocalRole::NftBurn);
        Ok(RolesRequest { token_id: copy_bytes(&self.nft_token_id), roles })
    }

    fn set_cid(&mut self, caller: &Vec<u8>, cid: &Vec<u8>) -> (r: Result<(), MintError>)
    {
        if !self.is_owner(caller) {
            return Err(MintError::NotOwner);
        }
        if self.total_number_of_nfts != self.indexes.len() as u64 {
            return Err(MintError::CidLocked);
        }
        self.nft_token_cid = copy_bytes(cid);
        Ok(())
    }

    fn pause(&mut self, caller: &Vec<u8>) -> (r: Result<(), MintError>)
    {
        if !self.is_owner(caller) {
            return Err(MintError::NotOwner);
        }
        if self.indexes.len() == 0 {
            return Err(MintError::IndexesNotPopulated);
        }
        if self.nft_token_cid.len() == 0 {
            return Err(MintError::CidNotSet);
        }
        if self.max_per_tx == 0 {
            return Err(MintError::MaxPerTxNotSet);
        }
        self.is_paused = !self.is_paused;
        Ok(())
    }

    fn did_mint(&self, address: &Vec<u8>) -> (minted: bool)
    {
        false
    }

    fn populate_indexes(&mut self, caller: &Vec<u8>, total_number_of_nfts_to_add: u64) -> (r:
        Result<u64, MintError>)
    {
        if !self.is_owner(caller) {
            return Err(MintError::NotOwner);
        }
        let total = self.total_number_of_nfts;
        if total > u64::MAX - total_number_of_nfts_to_add {
            return Err(MintError::ArithmeticOverflow);
        }
        let ghost old_pool = self.indexes@;
        let mut pool = copy_pool(&self.indexes);
        let mut i: u64 = 0;
        while i < total_number_of_nfts_to_add
            invariant
                total + total_number_of_nfts_to_add <= u64::MAX,
                i <= total_number_of_nfts_to_add,
                old_pool.no_duplicates(),
                pool@ == add_range(old_pool, total, i as nat),
                pool@.no_duplicates(),
                pool@.len() <= old_pool.len() + i,
            decreases total_number_of_nfts_to_add - i,
        {
            proof {
                lemma_add_index(pool@, (total + i + 1) as u64);
            }
            insert_index(&mut pool, total + i + 1);
            i = i + 1;
        }
        self.indexes = pool;
        self.total_number_of_nfts = total + total_number_of_nfts_to_add;
        Ok(self.total_number_of_nfts)
    }

    #[verifier::loop_isolation(false)]
    fn populate_bridge_indexes(
        &mut self,
        caller: &Vec<u8>,
        old_collection: &Vec<u8>,
        pairs: &Vec<(u64, u64)>,
    ) -> (r: Result<(), MintError>)
    {
        if !self.is_owner(caller) {
            return Err(MintError::NotOwner);
        }
        let ghost outcome = reserve_for_bridge(
            self@.indexes,
            self@.bridge,
            self@.total,
            old_collection@,
            pairs@,
        );
        let ghost pre = self@;
        let mut pool = copy_pool(&self.indexes);
        let mut bridge = self.bridge_indexes.duplicate();
        let mut total = self.total_number_of_nfts;
        let n = pairs.len();
        let mut i: usize = 0;
        assert(pairs@.skip(0) =~= pairs@);
        while i < n
            invariant
                self.wf(),
                self@ == pre,
                n == pairs.len(),
                i <= n,
                bridge.wf(),
                pool@.no_duplicates(),
                pool@.len() <= total,
                outcome == reserve_for_bridge(
                    pool@,
                    bridge@,
                    total,
                    old_collection@,
                    pairs@.skip(i as int),
                ),
            decreases n - i,
        {
            let (nonce, index) = pairs[i];
            let ghost rest = pairs@.skip(i as int);
            assert(rest[0] == pairs@[i as int]);
            assert(rest.drop_first() =~= pairs@.skip(i + 1));
            if !swap_remove_index(&mut pool, index) {
                return Err(MintError::IndexNotFound);
            }
            if bridge.contains(old_collection, nonce) {
                return Err(MintError::IndexAlreadyInBridge);
            }
            bridge.insert(old_collection, nonce, index);
            total = total - 1;
            i = i + 1;
        }
        self.indexes = pool;
        self.bridge_indexes = bridge;
        self.total_number_of_nfts = total;
        assert(self@.first_mint == pre.first_mint);
        Ok(())
    }

    fn decimal_to_ascii(&self, number: u64) -> (digits: Vec<u8>) {
        crate::decimal::decimal_to_ascii(number)
    }

    fn create_attributes(&self, number: u64) -> (attributes: Vec<u8>)
    {
        attributes_for(&self.nft_token_cid, number)
    }

    fn create_uris(&self, number: u64) -> (uris: Vec<Vec<u8>>)
    {
        uris_for(&self.nft_token_cid, number)
    }

    fn create_name(&self, number: u64) -> (name: Vec<u8>)
    {
        name_for(&self.nft_token_name, number)
    }

    fn check_random_mint(&self, caller: &Vec<u8>, payment: &Payment) -> (r: Result<MintPlan, MintError>)
    {
        if let Some(e) = self.sale_check() {
            return Err(e);
        }
        let price = stored_or_zero(self.selling_price.get(&payment.token));
        if payment.amount == 0 {
            return Err(MintError::ZeroPayment);
        }
        if price == 0 {
            return Err(MintError::TokenNotAccepted);
        }
        if payment.amount % price != 0 {
            return Err(MintError::WrongPaymentAmount);
        }
        let count = payment.amount / price;
        if count < 1 {
            return Err(MintError::BelowMinimum);
        }
        if count > self.max_per_tx {
            return Err(MintError::AboveMaxPerTx);
        }
        if count > self.indexes.len() as u128 {
            return Err(MintError::NotEnoughNfts);
        }
        assert(count * price == payment.amount) by (nonlinear_arith)
            requires
                price > 0,
                payment.amount % price == 0,
                count == payment.amount / price,
        ;
        Ok(MintPlan { count: count as usize, recipient: copy_bytes(caller) })
    }

    #[verifier::loop_isolation(false)]
    fn mint_random_nft(
        &mut self,
        caller: &Vec<u8>,
        payment: &Payment,
        ref_address: &Option<Vec<u8>>,
        positions: &Vec<usize>,
    ) -> (r: Result<MintOutcome, MintError>) {
        if let Err(e) = self.check_random_mint(caller, payment) {
            return Err(e);
        }
        let ghost pre = self@;
        let ghost outcome = draw_sequence(pre.indexes, positions@, Seq::empty());
        let ghost mut drawn: Seq<u64> = Seq::empty();
        let mut pool = copy_pool(&self.indexes);
        let mut nfts: Vec<MintedNft> = Vec::new();
        let n = positions.len();
        let mut i: usize = 0;
        assert(positions@.skip(0) =~= positions@);
        while i < n
            invariant
                self@ == pre,
                n == positions.len(),
                i <= n,
                pool@.no_duplicates(),
                pool@.len() <= pre.indexes.len(),
                outcome == draw_sequence(pool@, positions@.skip(i as int), drawn),
                nfts@.len() == drawn.len(),
                forall|j: int| 0 <= j < drawn.len() ==> nft_matches(#[trigger] nfts@[j], pre, drawn[j]),
            decreases n - i,
        {
            let position = positions[i];
            let ghost rest = positions@.skip(i as int);
            assert(rest[0] == position);
            assert(rest.drop_first() =~= positions@.skip(i + 1));
            if position < 1 || position > pool.len() {
                return Err(MintError::IndexOutOfRange);
            }
            let index = pool[position - 1];
            if index >= DECIMAL_LIMIT {
                return Err(MintError::IndexTooLarge);
            }
            nfts.push(self.minted(index));
            proof {
                lemma_swap_remove_at(pool@, position - 1);
                drawn = drawn.push(index);
            }
            pool.swap_remove(position - 1);
            i = i + 1;
        }
        assert(positions@.skip(n as int).len() == 0);
        let payouts = match self.settle_payment(caller, payment, ref_address) {
            Ok(p) => p,
            Err(e) => {
                return Err(e);
            },
        };
        self.indexes = pool;
        Ok(MintOutcome { nfts, payouts })
    }

    fn giveaway(
        &self,
        caller: &Vec<u8>,
        payment: &Payment,
        number_to_mint: u128,
        giveaway_address: &Vec<u8>,
    ) -> (r: Result<MintPlan, MintError>)
    {
        if payment.token.len() != 0 {
            return Err(MintError::EsdtPaymentNotAccepted);
        }
        if payment.amount != 0 {
            return Err(MintError::EgldPaymentNotAccepted);
        }
        if !self.is_owner(caller) {
            return Err(MintError::NotOwner);
        }
        if let Some(e) = self.sale_check() {
            return Err(e);
        }
        let price = stored_or_zero(self.selling_price.get(&payment.token));
        if payment.amount == 0 {
            return Err(MintError::ZeroPayment);
        }
        if price == 0 {
            return Err(MintError::TokenNotAccepted);
        }
        if payment.amount % price != 0 {
            return Err(MintError::WrongPaymentAmount);
        }
        if number_to_mint < 1 {
            return Err(MintError::BelowMinimum);
        }
        if number_to_mint > self.max_per_tx {
            return Err(MintError::AboveMaxPerTx);
        }
        if number_to_mint > self.indexes.len() as u128 {
            return Err(MintError::NotEnoughNfts);
        }
        Ok(MintPlan { count: number_to_mint as usize, recipient: copy_bytes(giveaway_address) })
    }

    fn draw_index(&mut self, position: usize) -> (r: Result<MintedNft, MintError>)
    {
        let index = self.indexes[position - 1];
        if index >= DECIMAL_LIMIT {
            return Err(MintError::IndexTooLarge);
        }
        let nft = self.minted(index);
        proof {
            lemma_swap_remove_at(self@.indexes, position - 1);
        }
        self.indexes.swap_remove(position - 1);
        Ok(nft)
    }

    fn settle_payment(&mut self, caller: &Vec<u8>, payment: &Payment, ref_address: &Option<Vec<u8>>) -> (r:
        Result<Vec<Payout>, MintError>)
    {
        let ghost pre = self@;
        let amount = payment.amount;
        if self.ref_percent > 0 && self.discount_percent > 0 {
            if let Some(referrer) = ref_address {
                if bytes_equal(caller, referrer) {
                    return Err(MintError::SelfReferral);
                }
                let flag = self.is_first_mint.get(caller);
                let is_empty = match flag {
                    Some(f) => !f,
                    None => true,
                };
                let value = match flag {
                    Some(f) => f,
                    None => false,
                };
                if is_empty || value {
                    let count = match self.ref_count.get(referrer) {
                        Some(c) => c,
                        None => 0,
                    };
                    if count == u64::MAX {
                        return Err(MintError::ArithmeticOverflow);
                    }
                    let ref_amount = match percent_of_amount(amount, self.ref_percent) {
                        Some(v) => v,
                        None => {
                            return Err(MintError::PaymentExceeded);
                        },
                    };
                    let discount = match percent_of_amount(amount, self.discount_percent) {
                        Some(v) => v,
                        None => {
                            return Err(MintError::PaymentExceeded);
                        },
                    };
                    if ref_amount > amount || discount > amount - ref_amount {
                        return Err(MintError::PaymentExceeded);
                    }
                    let new_money = match self.ref_money.get_ref(referrer) {
                        Some(limbs) => add_amount(limbs, ref_amount),
                        None => limbs_of(ref_amount),
                    };
                    self.ref_count.insert(referrer, count + 1);
                    self.ref_money.insert(referrer, new_money);
                    self.is_first_mint.insert(caller, false);
                    let mut payouts: Vec<Payout> = Vec::new();
                    payouts.push(
                        Payout {
                            to: copy_bytes(referrer),
                            token: copy_bytes(&payment.token),
                            amount: ref_amount,
                        },
                    );
                    payouts.push(
                        Payout {
                            to: copy_bytes(caller),
                            token: copy_bytes(&payment.token),
                            amount: discount,
                        },
                    );
                    payouts.push(
                        Payout {
                            to: copy_bytes(&self.owner),
                            token: copy_bytes(&payment.token),
                            amount: amount - ref_amount - discount,
                        },
                    );
                    assert(self@.first_mint == pre.first_mint.insert(caller@, false));
                    return Ok(payouts);
                }
            }
        }
        self.is_first_mint.insert(caller, false);
        assert(self@.first_mint == pre.first_mint.insert(caller@, false));
        let mut payouts: Vec<Payout> = Vec::new();
        payouts.push(
            Payout { to: copy_bytes(&self.owner), token: copy_bytes(&payment.token), amount },
        );
        Ok(payouts)
    }

    #[verifier::loop_isolation(false)]
    fn mint_specific_nft(
        &mut self,
        caller: &Vec<u8>,
        payment: &Payment,
        numbers_to_mint: &Vec<u64>,
        ref_address: &Option<Vec<u8>>,
    ) -> (r: Result<MintOutcome, MintError>)
    {
        if let Some(e) = self.sale_check() {
            return Err(e);
        }
        let price = stored_or_zero(self.selling_specific_price.get(&payment.token));
        if payment.amount == 0 {
            return Err(MintError::ZeroPayment);
        }
        if price == 0 {
            return Err(MintError::TokenNotAccepted);
        }
        if payment.amount % price != 0 {
            return Err(MintError::WrongPaymentAmount);
        }
        let count = payment.amount / price;
        if count != numbers_to_mint.len() as u128 {
            return Err(MintError::WrongPaymentAmount);
        }
        if count > self.max_per_tx {
            return Err(MintError::AboveMaxPerTx);
        }
        if count > self.indexes.len() as u128 {
            return Err(MintError::NotEnoughNfts);
        }
        let ghost pre = self@;
        let ghost outcome = mint_listed(pre.indexes, numbers_to_mint@);
        let mut pool = copy_pool(&self.indexes);
        let mut nfts: Vec<MintedNft> = Vec::new();
        let n = numbers_to_mint.len();
        let mut i: usize = 0;
        assert(numbers_to_mint@.skip(0) =~= numbers_to_mint@);
        while i < n
            invariant
                self@ == pre,
                n == numbers_to_mint.len(),
                i <= n,
                pool@.no_duplicates(),
                pool@.len() <= pre.indexes.len(),
                outcome == mint_listed(pool@, numbers_to_mint@.skip(i as int)),
                nfts@.len() == i,
                forall|j: int|
                    0 <= j < i ==> nft_matches(#[trigger] nfts@[j], pre, numbers_to_mint@[j]),
            decreases n - i,
        {
            let number = numbers_to_mint[i];
            let ghost rest = numbers_to_mint@.skip(i as int);
            assert(rest[0] == number);
            assert(rest.drop_first() =~= numbers_to_mint@.skip(i + 1));
            if !swap_remove_index(&mut pool, number) {
                return Err(MintError::AlreadyMinted);
            }
            if number >= DECIMAL_LIMIT {
                return Err(MintError::IndexTooLarge);
            }
            nfts.push(self.minted(number));
            i = i + 1;
        }
        assert(numbers_to_mint@.skip(n as int).len() == 0);
        let payouts = match self.settle_payment(caller, payment, ref_address) {
            Ok(p) => p,
            Err(e) => {
                return Err(e);
            },
        };
        self.indexes = pool;
        Ok(MintOutcome { nfts, payouts })
    }

    #[verifier::loop_isolation(false)]
    fn bridge_nfts(&mut self, caller: &Vec<u8>, transfers: &Vec<EsdtTransfer>) -> (r: Result<
        Vec<MintedNft>,
        MintError,
    >)
    {
        let ghost pre = self@;
        let ghost keys = transfer_keys(transfers@);
        let ghost outcome = redeem(pre.bridge, keys, Seq::empty());
        let ghost mut minted: Seq<u64> = Seq::empty();
        let mut table = self.bridge_indexes.duplicate();
        let mut nfts: Vec<MintedNft> = Vec::new();
        let n = transfers.len();
        let mut i: usize = 0;
        assert(keys.skip(0) =~= keys);
        while i < n
            invariant
                self@ == pre,
                self.wf(),
                n == transfers.len(),
                keys.len() == n,
                i <= n,
                table.wf(),
                outcome == redeem(table@, keys.skip(i as int), minted),
                nfts@.len() == minted.len(),
                forall|j: int| 0 <= j < minted.len() ==> nft_matches(#[trigger] nfts@[j], pre, minted[j]),
            decreases n - i,
        {
            let transfer = &transfers[i];
            let ghost rest = keys.skip(i as int);
            assert(rest[0] == (transfer.token@, transfer.nonce));
            assert(rest.drop_first() =~= keys.skip(i + 1));
            match table.remove(&transfer.token, transfer.nonce) {
                None => {
                    return Err(MintError::NotBridgeable);
                },
                Some(index) => {
                    if index >= DECIMAL_LIMIT {
                        return Err(MintError::IndexTooLarge);
                    }
                    nfts.push(self.minted(index));
                    proof {
                        minted = minted.push(index);
                    }
                },
            }
            i = i + 1;
        }
        assert(keys.skip(n as int).len() == 0);
        self.bridge_indexes = table;
        assert(self@.first_mint == pre.first_mint);
        Ok(nfts)
    }


    fn selling_price(&self, token_id: &Vec<u8>) -> (price: u128) {
        stored_or_zero(self.selling_price.get(token_id))
    }

    fn selling_specific_price(&self, token_id: &Vec<u8>) -> (price: u128) {
        stored_or_zero(self.selling_specific_price.get(token_id))
    }

    fn ref_money(&self, address: &Vec<u8>) -> (money: Vec<u64>) {
        match self.ref_money.get_ref(address) {
            Some(limbs) => copy_limbs(limbs),
            None => Vec::new(),
        }
    }

    fn ref_count(&self, address: &Vec<u8>) -> (count: u64) {
        match self.ref_count.get(address) {
            Some(c) => c,
            None => 0,
        }
    }

    fn v_indexes(&self) -> (indexes: Vec<u64>) {
        copy_pool(&self.indexes)
    }

    fn owner(&self) -> (value: Vec<u8>) {
        copy_bytes(&self.owner)
    }

    fn nft_token_id(&self) -> (value: Vec<u8>) {
        copy_bytes(&self.nft_token_id)
    }

    fn nft_token_name(&self) -> (value: Vec<u8>) {
        copy_bytes(&self.nft_token_name)
    }

    fn nft_token_cid(&self) -> (value: Vec<u8>) {
        copy_bytes(&self.nft_token_cid)
    }

    fn total_number_of_nfts(&self) -> (value: u64) {
        self.total_number_of_nfts
    }

    fn is_paused(&self) -> (value: bool) {
        self.is_paused
    }

    fn max_per_tx(&self) -> (value: u128) {
        self.max_per_tx
    }

    fn ref_percent(&self) -> (value: u128) {
        self.ref_percent
    }

    fn discount_percent(&self) -> (value: u128) {
        self.discount_percent
    }
}

} // verus!
