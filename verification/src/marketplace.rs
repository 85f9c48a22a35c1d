//! Records and enumerations of the surrounding trading platform: account
//! management, collection creation, sale listings and auctions. The
//! contracts that act on these live outside the engine; here stand the
//! observability records they emit and the state enumerations they share,
//! together with the clock interface the auction flow consumes.

use vstd::prelude::*;
use crate::types::AccountId;

verus! {

/// Code hash of a deployable contract, modelled as a 128-bit integer.
pub type CodeHash = u128;

/// The two kinds of platform accounts.
#[derive(Clone, Copy, Debug, PartialEq, Eq, Structural)]
pub enum AccountType {
    User,
    Creator,
}

/// Lifecycle of an auction.
#[derive(Clone, Copy, Debug, PartialEq, Eq, Structural)]
pub enum AuctionStatus {
    WaitingAuction,
    InAuction,
    WaitingForClaim,
    Ended,
    Cancelled,
}

/// Lifecycle of a fixed-price sale listing.
#[derive(Clone, Copy, Debug, PartialEq, Eq, Structural)]
pub enum ListingStatus {
    OnSale,
    Sold,
    Cancelled,
}

/// A clock, implemented by the surrounding runtime; auctions compare
/// start and end times against it.
pub trait TimestampProvider {
    fn timestamp(&self) -> u64;
}

/// A user account contract was created for an account.
#[derive(Clone, Copy, Debug, PartialEq, Eq)]
pub struct AccountCreated {
    pub account_id: AccountId,
    pub contract_id: AccountId,
}

/// A creator account contract was created for an account.
#[derive(Clone, Copy, Debug, PartialEq, Eq)]
pub struct CreatorAccountCreated {
    pub account_id: AccountId,
    pub contract_id: AccountId,
}

/// The code hash used to instantiate accounts of one kind was replaced.
#[derive(Clone, Copy, Debug, PartialEq, Eq)]
pub struct CodeHashSet {
    pub code_hash: CodeHash,
    pub account_type: AccountType,
}

/// An admin was granted the admin role.
#[derive(Clone, Copy, Debug, PartialEq, Eq)]
pub struct AdminAdded {
    pub caller: AccountId,
    pub account_id: AccountId,
}

/// An admin's role was revoked.
#[derive(Clone, Copy, Debug, PartialEq, Eq)]
pub struct AdminRemoved {
    pub caller: AccountId,
    pub account_id: AccountId,
}

/// A creator deployed a new collection.
#[derive(Clone, Copy, Debug, PartialEq, Eq)]
pub struct CollectionCreated {
    pub creator: AccountId,
    pub collection: AccountId,
    pub index: u32,
}

/// A sale listing was cancelled by its creator.
#[derive(Clone, Copy, Debug, PartialEq, Eq)]
pub struct CancelListing {
    pub caller: AccountId,
    pub listing_id: u128,
}

/// A listed token was bought outright.
#[derive(Clone, Copy, Debug, PartialEq, Eq)]
pub struct BuyNFT {
    pub buyer: AccountId,
    pub listing_id: u128,
}

/// An auction was cancelled before receiving bids.
#[derive(Clone, Copy, Debug, PartialEq, Eq)]
pub struct CancelAuction {
    pub caller: AccountId,
    pub auction_id: u128,
}

/// A bid was placed in a running auction.
#[derive(Clone, Copy, Debug, PartialEq, Eq)]
pub struct BidPlaced {
    pub bidder: AccountId,
    pub auction_id: u128,
    pub bid: u128,
}

/// The winning bidder claimed the auctioned token.
#[derive(Clone, Copy, Debug, PartialEq, Eq)]
pub struct NFTClaimed {
    pub caller: AccountId,
    pub auction_id: u128,
}

/// An auction ended without any bid.
#[derive(Clone, Copy, Debug, PartialEq, Eq)]
pub struct NoBids {
    pub caller: AccountId,
    pub auction_id: u128,
}

/// An auction was opened for bidding.
#[derive(Clone, Copy, Debug, PartialEq, Eq)]
pub struct StartAuction {
    pub caller: AccountId,
    pub auction_id: u128,
}

/// An auction was closed for bidding.
#[derive(Clone, Copy, Debug, PartialEq, Eq)]
pub struct EndAuction {
    pub caller: AccountId,
    pub auction_id: u128,
}

} // verus!
