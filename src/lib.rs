//! Client library for a rate-limited marketplace REST API: a pool of API keys
//! that respects a per-key request quota, the decisions that walk a numbered
//! page sequence, request addressing, response envelopes and item data.

pub mod key;
pub mod pool;
pub mod request;
pub mod paging;
pub mod objects;

pub use key::Key;
pub use pool::SkyblockApi;
pub use request::{ApiBody, ApiError, ClientError};
pub use paging::{PageStep, PageWalk};
pub use objects::auction::{
    Auction, Bid, Bids, Claim, GlobalAuctions, PartialAuction, PartialProfile, SearchedAuctions,
};
pub use objects::items::{Item, ItemBytes, ItemBytesError, ItemBytesT0, Rarity};
