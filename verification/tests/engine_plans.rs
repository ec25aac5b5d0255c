use art_ai_marketplace::{
    cancel_listing, create_listing, purchase, settle, CancelListing, CreateListing, ErrorCode,
    Item, Key, Listing, ListingStatus, Party, Purchase, Transfer, TransferError,
};

fn id(n: u8) -> Key {
    Key([n; 32])
}

fn active() -> Listing {
    Listing {
        seller: id(1),
        asset: id(9),
        price: 100,
        created_at: 1000,
        expires_at: 1060,
        status: ListingStatus::Active,
    }
}

#[test]
fn create_plans_the_deposit_into_escrow() {
    let ctx = CreateListing { seller: id(1), asset: id(9) };
    let plan = create_listing(&ctx, 100, 60, 1000).unwrap();
    assert_eq!(plan.next, active());
    assert_eq!(
        plan.transfers,
        vec![Transfer {
            from: Party::Principal(id(1)),
            to: Party::Escrow,
            item: Item::Asset(id(9)),
            authority: Party::Principal(id(1)),
        }]
    );
}

#[test]
fn create_accepts_the_smallest_terms_and_a_time_before_the_epoch() {
    let ctx = CreateListing { seller: id(1), asset: id(9) };
    let plan = create_listing(&ctx, 1, 1, -10).unwrap();
    assert_eq!(plan.next.created_at, -10);
    assert_eq!(plan.next.expires_at, -9);
    let late = create_listing(&ctx, u64::MAX, 1, i64::MAX - 1).unwrap();
    assert_eq!(late.next.expires_at, i64::MAX);
    assert_eq!(late.next.price, u64::MAX);
}

#[test]
fn create_rejects_zero_price_and_idle_duration() {
    let ctx = CreateListing { seller: id(1), asset: id(9) };
    assert_eq!(create_listing(&ctx, 0, 60, 1000).unwrap_err(), ErrorCode::ValidationError);
    assert_eq!(create_listing(&ctx, 100, 0, 1000).unwrap_err(), ErrorCode::ValidationError);
    assert_eq!(create_listing(&ctx, 100, i64::MIN, 1000).unwrap_err(), ErrorCode::ValidationError);
    assert_eq!(create_listing(&ctx, 0, 0, 1000).unwrap_err(), ErrorCode::ValidationError);
}

#[test]
fn cancel_plans_the_release_to_the_seller() {
    let ctx = CancelListing { listing: active(), seller: id(1) };
    let plan = cancel_listing(&ctx).unwrap();
    assert_eq!(plan.next, Listing { status: ListingStatus::Cancelled, ..active() });
    assert_eq!(
        plan.transfers,
        vec![Transfer {
            from: Party::Escrow,
            to: Party::Principal(id(1)),
            item: Item::Asset(id(9)),
            authority: Party::Escrow,
        }]
    );
}

#[test]
fn cancel_checks_the_status_before_the_caller() {
    let stranger = CancelListing { listing: active(), seller: id(2) };
    assert_eq!(cancel_listing(&stranger).unwrap_err(), ErrorCode::AuthorizationError);
    let sold = Listing { status: ListingStatus::Sold, ..active() };
    let late = CancelListing { listing: sold, seller: id(1) };
    assert_eq!(cancel_listing(&late).unwrap_err(), ErrorCode::ListingNotActive);
    let late_stranger = CancelListing { listing: sold, seller: id(2) };
    assert_eq!(cancel_listing(&late_stranger).unwrap_err(), ErrorCode::ListingNotActive);
    let cancelled = Listing { status: ListingStatus::Cancelled, ..active() };
    let twice = CancelListing { listing: cancelled, seller: id(1) };
    assert_eq!(cancel_listing(&twice).unwrap_err(), ErrorCode::ListingNotActive);
}

#[test]
fn purchase_plans_payment_then_release() {
    let ctx = Purchase { listing: active(), buyer: id(2) };
    let plan = purchase(&ctx, 1010).unwrap();
    assert_eq!(plan.next, Listing { status: ListingStatus::Sold, ..active() });
    assert_eq!(
        plan.transfers,
        vec![
            Transfer {
                from: Party::Principal(id(2)),
                to: Party::Principal(id(1)),
                item: Item::Funds(100),
                authority: Party::Principal(id(2)),
            },
            Transfer {
                from: Party::Escrow,
                to: Party::Principal(id(2)),
                item: Item::Asset(id(9)),
                authority: Party::Escrow,
            },
        ]
    );
}

#[test]
fn purchase_checks_the_status_before_the_deadline() {
    let ctx = Purchase { listing: active(), buyer: id(2) };
    assert!(purchase(&ctx, 1060).is_ok());
    assert_eq!(purchase(&ctx, 1061).unwrap_err(), ErrorCode::ListingExpired);
    assert_eq!(purchase(&ctx, i64::MAX).unwrap_err(), ErrorCode::ListingExpired);
    assert!(purchase(&ctx, i64::MIN).is_ok());
    let cancelled = Listing { status: ListingStatus::Cancelled, ..active() };
    let gone = Purchase { listing: cancelled, buyer: id(2) };
    assert_eq!(purchase(&gone, 1061).unwrap_err(), ErrorCode::ListingNotActive);
    assert_eq!(purchase(&gone, 1010).unwrap_err(), ErrorCode::ListingNotActive);
}

#[test]
fn settle_stores_the_new_record_only_after_a_commit() {
    let ctx = Purchase { listing: active(), buyer: id(2) };
    let committed = settle(purchase(&ctx, 1010).unwrap(), Ok::<(), TransferError>(()));
    assert_eq!(committed, Ok(Listing { status: ListingStatus::Sold, ..active() }));
    let rejected = settle(purchase(&ctx, 1010).unwrap(), Err(TransferError::InsufficientFunds));
    assert_eq!(rejected, Err(ErrorCode::AssetTransferError));
    let unheld = settle(purchase(&ctx, 1010).unwrap(), Err("the account is frozen"));
    assert_eq!(unheld, Err(ErrorCode::AssetTransferError));
}

#[test]
fn listing_answers_for_its_status_and_deadline() {
    let l = active();
    assert!(l.is_active());
    assert!(!l.is_expired(1060));
    assert!(l.is_expired(1061));
    assert!(!Listing { status: ListingStatus::Sold, ..l }.is_active());
    assert!(!Listing { status: ListingStatus::Cancelled, ..l }.is_active());
}

#[test]
fn errors_have_their_texts() {
    assert_eq!(ErrorCode::ListingNotActive.message(), "Listing is not active");
    assert_eq!(ErrorCode::ListingExpired.message(), "Listing has expired");
    assert_eq!(ErrorCode::AuthorizationError.message(), "Unauthorized access");
    assert_eq!(ErrorCode::AssetTransferError.message(), "Asset transfer rejected");
    assert_eq!(ErrorCode::ValidationError.message(), "Price and duration must be positive");
}
