# sg_p2p_nft_trade

Peer-to-peer NFT trading on a CosmWasm chain, as a verified library.

A sender offers some of its cw721 NFTs to a peer in exchange for NFTs the peer holds. The
peer may accept (both sides' NFTs are transferred) or reject the offer, the sender may
withdraw it, and the maintainer named at instantiation may remove it while its expiry still
lies within the allowed range.

- `src/` is the library, verified with Verus: the contract's storage model
  (`state.rs`), the expiry rule (`helpers.rs`), messages and responses (`msg.rs`), errors
  (`error.rs`), the message handlers with their contracts (`execute.rs`), the queries
  (`query.rs`), the list of cw721 queries a message needs, and the laws that relate them
  (`laws.rs`).
- `app/` is the contract around it: entry points, storage, address validation, the
  `owner_of` and `approval` queries to the cw721 collections, and the conversion of the
  library's response into cw721 transfer messages.
- `tests/` runs the library on concrete values.
