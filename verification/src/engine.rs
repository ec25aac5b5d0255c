use crate::key::Key;
use crate::ledger::{Item, Party, Transfer};
use crate::listing::{ErrorCode, Listing, ListingStatus};
use vstd::prelude::*;

verus! {

/// What an accepted operation asks for: the transfers that the ledger is to
/// commit as one batch, and the record of the listing once it has.
#[derive(Debug)]
pub struct Plan {
    pub transfers: Vec<Transfer>,
    pub next: Listing,
}

/// A plan as a value of specifications.
pub struct PlanView {
    pub transfers: Seq<Transfer>,
    pub next: Listing,
}

impl View for Plan {
    type V = PlanView;

    open spec fn view(&self) -> PlanView {
        PlanView { transfers: self.transfers@, next: self.next }
    }
}

/// A request to open a listing: the seller, who makes the request, and the
/// asset offered.
#[derive(Clone, Copy, Debug)]
pub struct CreateListing {
    pub seller: Key,
    pub asset: Key,
}

/// A request to withdraw a listing: its record, and the principal that makes
/// the request as the seller.
#[derive(Clone, Copy, Debug)]
pub struct CancelListing {
    pub listing: Listing,
    pub seller: Key,
}

/// A request to buy: the record of the listing, and the buyer, who makes the
/// request.
#[derive(Clone, Copy, Debug)]
pub struct Purchase {
    pub listing: Listing,
    pub buyer: Key,
}

/// The seller hands the asset to the custody of the listing.
pub open spec fn escrow_deposit(asset: Key, seller: Key) -> Transfer {
    Transfer {
        from: Party::Principal(seller),
        to: Party::Escrow,
        item: Item::Asset(asset),
        authority: Party::Principal(seller),
    }
}

/// The custody of the listing hands the asset to `to`, on the authority of
/// the listing itself.
pub open spec fn escrow_release(asset: Key, to: Key) -> Transfer {
    Transfer {
        from: Party::Escrow,
        to: Party::Principal(to),
        item: Item::Asset(asset),
        authority: Party::Escrow,
    }
}

/// The buyer pays the price to the seller.
pub open spec fn payment(buyer: Key, seller: Key, price: u64) -> Transfer {
    Transfer {
        from: Party::Principal(buyer),
        to: Party::Principal(seller),
        item: Item::Funds(price),
        authority: Party::Principal(buyer),
    }
}

/// The record of a listing opened at `now`.
pub open spec fn opened(ctx: CreateListing, price: u64, duration: i64, now: i64) -> Listing {
    Listing {
        seller: ctx.seller,
        asset: ctx.asset,
        price,
        created_at: now,
        expires_at: (now + duration) as i64,
        status: ListingStatus::Active,
    }
}

/// What a request to open a listing comes to.
pub open spec fn create_outcome(ctx: CreateListing, price: u64, duration: i64, now: i64) -> Result<
    PlanView,
    ErrorCode,
> {
    if price > 0 && duration > 0 {
        Ok(
            PlanView {
                transfers: seq![escrow_deposit(ctx.asset, ctx.seller)],
                next: opened(ctx, price, duration, now),
            },
        )
    } else {
        Err(ErrorCode::ValidationError)
    }
}

/// What a request to withdraw a listing comes to. The deadline plays no part.
pub open spec fn cancel_outcome(ctx: CancelListing) -> Result<PlanView, ErrorCode> {
    if ctx.listing.status != ListingStatus::Active {
        Err(ErrorCode::ListingNotActive)
    } else if ctx.seller != ctx.listing.seller {
        Err(ErrorCode::AuthorizationError)
    } else {
        Ok(
            PlanView {
                transfers: seq![escrow_release(ctx.listing.asset, ctx.listing.seller)],
                next: ctx.listing.with_status(ListingStatus::Cancelled),
            },
        )
    }
}

/// What a request to buy at `now` comes to.
pub open spec fn purchase_outcome(ctx: Purchase, now: i64) -> Result<PlanView, ErrorCode> {
    if ctx.listing.status != ListingStatus::Active {
        Err(ErrorCode::ListingNotActive)
    } else if ctx.listing.expired_at(now) {
        Err(ErrorCode::ListingExpired)
    } else {
        Ok(
            PlanView {
                transfers: seq![
                    payment(ctx.buyer, ctx.listing.seller, ctx.listing.price),
                    escrow_release(ctx.listing.asset, ctx.buyer),
                ],
                next: ctx.listing.with_status(ListingStatus::Sold),
            },
        )
    }
}

/// Whether `r` is the outcome `expected`.
pub open spec fn is_outcome(r: Result<Plan, ErrorCode>, expected: Result<PlanView, ErrorCode>)
    -> bool {
    match r {
        Ok(plan) => expected == Ok::<PlanView, ErrorCode>(plan@),
        Err(e) => expected == Err::<PlanView, ErrorCode>(e),
    }
}

/// Opens a listing at `now`: the asset goes from the seller into the custody
/// of the new listing, which is active until `now + duration`. Refused where
/// the price or the duration is not positive.
pub fn create_listing(ctx: &CreateListing, price: u64, duration: i64, now: i64) -> (r: Result<
    Plan,
    ErrorCode,
>)
    requires
        price > 0 && duration > 0 ==> now + duration <= i64::MAX,
    ensures
        is_outcome(r, create_outcome(*ctx, price, duration, now)),
        r is Ok <==> price > 0 && duration > 0,
        r matches Ok(plan) ==> plan.next.wf() && plan.next.expires_at == now + duration,
{
    if price == 0 || duration <= 0 {
        return Err(ErrorCode::ValidationError);
    }
    let next = Listing {
        seller: ctx.seller,
        asset: ctx.asset,
        price,
        created_at: now,
        expires_at: now + duration,
        status: ListingStatus::Active,
    };
    let mut transfers: Vec<Transfer> = Vec::new();
    transfers.push(
        Transfer {
            from: Party::Principal(ctx.seller),
            to: Party::Escrow,
            item: Item::Asset(ctx.asset),
            authority: Party::Principal(ctx.seller),
        },
    );
    assert(transfers@ =~= seq![escrow_deposit(ctx.asset, ctx.seller)]);
    Ok(Plan { transfers, next })
}

/// Withdraws a listing: the asset goes from its custody back to the seller.
/// Refused where the listing is no longer active and, for an active one,
/// where the request does not come from its seller.
pub fn cancel_listing(ctx: &CancelListing) -> (r: Result<Plan, ErrorCode>)
    ensures
        is_outcome(r, cancel_outcome(*ctx)),
        r is Ok <==> ctx.listing.status == ListingStatus::Active && ctx.seller
            == ctx.listing.seller,
        ctx.seller != ctx.listing.seller ==> r is Err,
        ctx.listing.status == ListingStatus::Active && ctx.seller != ctx.listing.seller ==> r
            == Err::<Plan, ErrorCode>(ErrorCode::AuthorizationError),
{
    if !ctx.listing.is_active() {
        return Err(ErrorCode::ListingNotActive);
    }
    if ctx.listing.seller != ctx.seller {
        return Err(ErrorCode::AuthorizationError);
    }
    let mut next = ctx.listing;
    next.status = ListingStatus::Cancelled;
    let mut transfers: Vec<Transfer> = Vec::new();
    transfers.push(
        Transfer {
            from: Party::Escrow,
            to: Party::Principal(ctx.listing.seller),
            item: Item::Asset(ctx.listing.asset),
            authority: Party::Escrow,
        },
    );
    assert(transfers@ =~= seq![escrow_release(ctx.listing.asset, ctx.listing.seller)]);
    Ok(Plan { transfers, next })
}

/// Buys at `now`: the price goes from the buyer to the seller and the asset
/// from the custody of the listing to the buyer, as one batch. Refused where
/// the listing is no longer active and, for an active one, where `now` lies
/// after its deadline.
pub fn purchase(ctx: &Purchase, now: i64) -> (r: Result<Plan, ErrorCode>)
    ensures
        is_outcome(r, purchase_outcome(*ctx, now)),
        r is Ok <==> ctx.listing.status == ListingStatus::Active && now <= ctx.listing.expires_at,
        ctx.listing.status == ListingStatus::Active && now > ctx.listing.expires_at ==> r
            == Err::<Plan, ErrorCode>(ErrorCode::ListingExpired),
{
    if !ctx.listing.is_active() {
        return Err(ErrorCode::ListingNotActive);
    }
    if ctx.listing.is_expired(now) {
        return Err(ErrorCode::ListingExpired);
    }
    let mut next = ctx.listing;
    next.status = ListingStatus::Sold;
    let mut transfers: Vec<Transfer> = Vec::new();
    transfers.push(
        Transfer {
            from: Party::Principal(ctx.buyer),
            to: Party::Principal(ctx.listing.seller),
            item: Item::Funds(ctx.listing.price),
            authority: Party::Principal(ctx.buyer),
        },
    );
    transfers.push(
        Transfer {
            from: Party::Escrow,
            to: Party::Principal(ctx.buyer),
            item: Item::Asset(ctx.listing.asset),
            authority: Party::Escrow,
        },
    );
    assert(transfers@ =~= seq![
        payment(ctx.buyer, ctx.listing.seller, ctx.listing.price),
        escrow_release(ctx.listing.asset, ctx.buyer),
    ]);
    Ok(Plan { transfers, next })
}

/// The record to store once the ledger has answered: that of the plan where
/// the batch was committed, none where it was rejected.
pub open spec fn settled<E>(plan: PlanView, outcome: Result<(), E>) -> Result<
    Listing,
    ErrorCode,
> {
    match outcome {
        Ok(_) => Ok(plan.next),
        Err(_) => Err(ErrorCode::AssetTransferError),
    }
}

/// Closes an operation on the ledger's answer to its batch, whatever ledger
/// gave it. The status of a listing changes only here, and only where the
/// batch was committed.
pub fn settle<E>(plan: Plan, outcome: Result<(), E>) -> (r: Result<Listing, ErrorCode>)
    ensures
        r == settled(plan@, outcome),
{
    match outcome {
        Ok(_) => Ok(plan.next),
        Err(_) => Err(ErrorCode::AssetTransferError),
    }
}

} // verus!
