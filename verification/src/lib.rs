//! # chia-peer
//!
//! The decisions of a Chia wallet-protocol light client: which full nodes to dial and in what
//! order, what to ask of a peer and what its replies mean, how subscribed coin state follows the
//! chain across reorgs, and what a chain source reports from it.
//!
//! ## Shape
//!
//! - [`ChiaLightClient`]: the client's state, and how replies and pushed messages change it.
//! - [`ChiaPeerProvider`]: the reads of a chain source, answered from the cache or a peer's reply.
//! - [`cache::CoinStateCache`]: the reorg-aware mirror of the subscribed coins.
//! - [`PeerFetcher`] and [`fetcher::PagedRead`]: requests, replies, and bounded paging.
//! - [`ordering`] and [`connect`]: IPv6-first dialing.
//!
//! Sockets, timers and locks are not in here. A caller performs what these functions ask for and
//! hands back what came of it.
//!
//! ## Reads are fail-closed
//!
//! `Ok(None)` and an empty list mean that a peer reported an absence. Whatever kept a peer from
//! answering is an `Err`.

pub mod address;
pub mod bridge;
pub mod bytes;
pub mod cache;
pub mod cache_effects;
pub mod cache_laws;
pub mod client;
pub mod config;
pub mod connect;
pub mod error;
pub mod fetcher;
pub mod id_map;
pub mod ordering;
pub mod protocol;
pub mod provider;
pub mod tls;

use vstd::prelude::*;

pub use crate::address::SocketAddr;
pub use crate::bytes::Bytes32;
pub use crate::client::{ChiaLightClient, SubmitOutcome, DEFAULT_PROVIDER_PRIORITY};
pub use crate::config::{ChiaNetwork, ChiaPeerConfig};
pub use crate::error::{ChainSourceError, ChiaPeerError};
pub use crate::fetcher::PeerFetcher;
pub use crate::provider::{ChiaPeerProvider, ProviderInfo, ProviderKind};

verus! {

/// The version of this crate.
pub const VERSION: &'static str = "0.1.2";

} // verus!
