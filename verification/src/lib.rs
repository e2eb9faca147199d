//! A verified model of an NFT minting contract: a collection of numbered
//! NFTs sold at a fixed price per payment token, minted at random or by
//! number, with referral payouts, giveaways and bridging from an older
//! collection.

pub mod decimal;
pub mod metadata;
pub mod byte_map;
pub mod bridge;
pub mod pool;
pub mod swap;
pub mod percent;
pub use swap::{MintStorage, NftMint};
pub mod laws;
pub mod big;
