# nft_mint

A verified model of an NFT minting contract for an Elrond-style chain: a
numbered collection sold at a fixed price per payment token, minted at random
or by index, with referral payouts, owner giveaways and the exchange of NFTs
of an older collection.

Layout:

- `src/swap.rs` — the contract: `MintStorage` (the storage), the trait
  `NftMint` (one method per endpoint, each with its contract over the
  mathematical model `MintModel`), and the spec functions those contracts use.
- `src/pool.rs` — the pool of indexes still to mint (a set with positions,
  removal by swapping in the last element).
- `src/byte_map.rs`, `src/bridge.rs` — storage keyed by byte strings, and the
  table of indexes reserved for bridged NFTs.
- `src/decimal.rs`, `src/metadata.rs`, `src/percent.rs` — decimal digits,
  names, attributes and URIs, and exact percentages of payments.
- `src/big.rs` — unbounded amounts as 64-bit limbs, for referral earnings.
- `src/laws.rs` — properties that span several calls or hold of every
  reachable storage.
- `app/lib.rs` — runs the endpoints against the chain's services
  (randomness, hashing, NFT creation, transfers), which the library leaves
  out.
- `tests/` — tests on concrete values.
