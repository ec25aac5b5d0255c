//! An escrow marketplace for unique digital assets.
//!
//! A seller locks an asset into the custody of a listing, names a price and a
//! time window, and a buyer may later swap payment for the asset in one atomic
//! step. The crate holds the listing life cycle, the transfers each operation
//! asks of a ledger, an in-memory ledger that commits a batch of transfers
//! wholly or not at all, and the bookkeeping of the collections that issue
//! the assets.

pub mod engine;
pub mod key;
pub mod laws;
pub mod ledger;
pub mod listing;
pub mod market;
pub mod nft;
pub mod record;

pub use engine::{
    cancel_listing, create_listing, purchase, settle, CancelListing, CreateListing, Plan, Purchase,
};
pub use key::Key;
pub use laws::Call;
pub use ledger::{Holder, Item, Ledger, LedgerState, Party, Transfer, TransferError};
pub use listing::{ErrorCode, Listing, ListingId, ListingStatus};
pub use market::{MarketState, Marketplace};
pub use record::{decode, encode, RECORD_LEN};
pub use nft::{
    initialize, mint_nft, mint_plan, transfer_nft, AccountRef, Collection, Initialize, Invocation,
    MintNFT, MintPlan, MintTo, TokenTransfer, TransferNFT, METADATA_PROGRAM,
    SELLER_FEE_BASIS_POINTS,
};
