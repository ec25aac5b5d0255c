use crate::key::Key;
use vstd::prelude::*;
use vstd::std_specs::cmp::PartialEqSpecImpl;

verus! {

/// The identifier of a listing: its position in the store that holds it.
pub type ListingId = u64;

/// Where a listing stands in its life. `Cancelled` and `Sold` are final.
#[derive(Clone, Copy, Debug, PartialEq, Eq, Structural)]
pub enum ListingStatus {
    Active,
    Cancelled,
    Sold,
}

impl ListingStatus {
    /// Whether no further transition can follow.
    pub open spec fn is_terminal(self) -> bool {
        self != ListingStatus::Active
    }
}

/// Why an operation was refused.
#[derive(Clone, Copy, Debug, PartialEq, Eq, Structural)]
pub enum ErrorCode {
    /// The listing was cancelled or sold before.
    ListingNotActive,
    /// The time of the purchase lies after the listing's deadline.
    ListingExpired,
    /// The caller is not the principal that the operation asks for.
    AuthorizationError,
    /// The ledger rejected the transfers.
    AssetTransferError,
    /// The price or the duration is not positive.
    ValidationError,
}

impl ErrorCode {
    /// The text of the error.
    pub open spec fn text(self) -> Seq<char> {
        match self {
            ErrorCode::ListingNotActive => "Listing is not active"@,
            ErrorCode::ListingExpired => "Listing has expired"@,
            ErrorCode::AuthorizationError => "Unauthorized access"@,
            ErrorCode::AssetTransferError => "Asset transfer rejected"@,
            ErrorCode::ValidationError => "Price and duration must be positive"@,
        }
    }

    /// The text of the error, as a string.
    pub fn message(&self) -> (s: String)
        ensures
            s@ == self.text(),
    {
        match self {
            ErrorCode::ListingNotActive => "Listing is not active".to_string(),
            ErrorCode::ListingExpired => "Listing has expired".to_string(),
            ErrorCode::AuthorizationError => "Unauthorized access".to_string(),
            ErrorCode::AssetTransferError => "Asset transfer rejected".to_string(),
            ErrorCode::ValidationError => "Price and duration must be positive".to_string(),
        }
    }
}

/// An offer of one asset at a fixed price until a deadline.
#[derive(Clone, Copy, Debug)]
pub struct Listing {
    /// The principal that created the listing.
    pub seller: Key,
    /// The asset under escrow.
    pub asset: Key,
    /// The price, in the ledger's unit of account.
    pub price: u64,
    /// The time of creation, in seconds.
    pub created_at: i64,
    /// The last second at which a purchase is accepted.
    pub expires_at: i64,
    pub status: ListingStatus,
}

impl Listing {
    /// What holds of every listing that was created: the price is positive
    /// and the deadline lies after the creation.
    pub open spec fn wf(self) -> bool {
        self.price > 0 && self.created_at < self.expires_at
    }

    /// The listing with another status and everything else as it is.
    pub open spec fn with_status(self, status: ListingStatus) -> Listing {
        Listing { status, ..self }
    }

    /// Whether `now` lies after the deadline.
    pub open spec fn expired_at(self, now: i64) -> bool {
        now > self.expires_at
    }

    pub fn is_active(&self) -> (b: bool)
        ensures
            b == (self.status == ListingStatus::Active),
    {
        self.status == ListingStatus::Active
    }

    pub fn is_expired(&self, now: i64) -> (b: bool)
        ensures
            b == self.expired_at(now),
    {
        now > self.expires_at
    }
}

impl PartialEq for Listing {
    fn eq(&self, other: &Listing) -> (r: bool) {
        self.seller == other.seller && self.asset == other.asset && self.price == other.price
            && self.created_at == other.created_at && self.expires_at == other.expires_at
            && self.status == other.status
    }
}

impl Eq for Listing {

}

impl PartialEqSpecImpl for Listing {
    open spec fn obeys_eq_spec() -> bool {
        true
    }

    open spec fn eq_spec(&self, other: &Listing) -> bool {
        *self == *other
    }
}

} // verus!
