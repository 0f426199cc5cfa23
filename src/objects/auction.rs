//! Auctions and their bids.
use vstd::prelude::*;
use crate::objects::items::Item;

verus! {

/// Whether an auction's proceeds have been claimed.
#[derive(Debug, PartialEq, Eq, Structural)]
pub struct Claim {
    pub claimed: bool,
}

/// A reference to an auction by its id.
#[derive(Debug, PartialEq, Eq)]
pub struct PartialAuction(pub String);

/// A reference to a player profile by its id.
#[derive(Debug, PartialEq, Eq)]
pub struct PartialProfile(pub String);

/// One auction: who runs it, when, what is sold, its bids and claim status.
#[derive(Debug, PartialEq, Eq)]
pub struct Auction {
    pub uuid: String,
    pub auctioneer: PartialProfile,
    pub coop: Vec<PartialProfile>,
    pub start: i64,
    pub end: i64,
    pub item: Item,
    pub bids: Bids,
    pub claim: Claim,
}

/// The bid summary of an auction.
#[derive(Debug, PartialEq, Eq)]
pub struct Bids {
    pub highest: i64,
    pub starting: i64,
    pub bids: Vec<Bid>,
}

/// One bid on an auction.
#[derive(Debug, PartialEq, Eq)]
pub struct Bid {
    pub auction_id: PartialAuction,
    pub bidder: PartialProfile,
    pub amount: i64,
    pub timestamp: i64,
}

/// One page of the listing of all active auctions.
#[derive(Debug, PartialEq, Eq)]
pub struct GlobalAuctions {
    pub page: usize,
    pub total_pages: usize,
    pub total_auctions: usize,
    pub last_update: u64,
    pub auctions: Vec<Auction>,
}

/// The auctions that a search found.
#[derive(Debug, PartialEq, Eq)]
pub struct SearchedAuctions {
    pub auctions: Vec<Auction>,
}

} // verus!
