//! Peer-to-peer NFT trading: a sender offers NFTs to a peer in exchange for NFTs the peer
//! holds; the peer accepts (the NFTs change hands) or rejects, the sender may withdraw, and
//! the maintainer may remove an offer whose expiry still lies within the allowed range.

pub mod error;
pub mod helpers;
pub mod state;
pub mod execute;
pub mod msg;
pub mod query;
pub mod laws;
pub mod outcomes;
