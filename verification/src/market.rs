use crate::engine::{
    cancel_listing, cancel_outcome, create_listing, create_outcome, purchase, purchase_outcome,
    settle, CancelListing, CreateListing, Purchase,
};
use crate::key::Key;
use crate::laws::{lemma_cancel_succeeds_iff, lemma_purchase_succeeds_iff};
use crate::ledger::{lemma_apply_one, lemma_apply_two, Holder, Ledger, LedgerState, TransferError};
use crate::listing::{ErrorCode, Listing, ListingId, ListingStatus};
use vstd::prelude::*;

verus! {

/// What a marketplace holds: the record of every listing that was ever
/// opened, each at the place its identifier names, and the ledger.
pub struct MarketState {
    pub listings: Seq<Listing>,
    pub ledger: LedgerState,
}

impl MarketState {
    /// The marketplace with no listing and an empty ledger.
    pub open spec fn empty() -> MarketState {
        MarketState { listings: Seq::empty(), ledger: LedgerState::empty() }
    }

    /// Whether a listing of that identifier exists.
    pub open spec fn has(self, id: ListingId) -> bool {
        id < self.listings.len()
    }

    /// The record of the listing `id`.
    pub open spec fn listing(self, id: ListingId) -> Listing {
        self.listings[id as int]
    }

    /// Whether `asset` is in the custody of the listing `id`.
    pub open spec fn in_escrow(self, asset: Key, id: ListingId) -> bool {
        self.ledger.holder(asset) == Some(Holder::Escrow(id))
    }

    /// What holds of a marketplace at all times: every record is well
    /// formed; the asset of an active listing is in the custody of that
    /// listing; and whatever is in the custody of a listing is the asset of
    /// that listing, which is active.
    pub open spec fn wf(self) -> bool {
        &&& forall|id: ListingId|
            #![trigger self.listing(id)]
            self.has(id) ==> self.listing(id).wf() && (self.listing(id).status
                == ListingStatus::Active ==> self.in_escrow(self.listing(id).asset, id))
        &&& forall|asset: Key, id: ListingId| #[trigger]
            self.in_escrow(asset, id) ==> self.has(id) && self.listing(id).status
                == ListingStatus::Active && self.listing(id).asset == asset
    }

    /// The marketplace after a request to open a listing, and the answer.
    pub open spec fn create(self, seller: Key, asset: Key, price: u64, duration: i64, now: i64) -> (
        MarketState,
        Result<ListingId, ErrorCode>,
    ) {
        let id = self.listings.len() as ListingId;
        match create_outcome(CreateListing { seller, asset }, price, duration, now) {
            Err(e) => (self, Err(e)),
            Ok(plan) => match self.ledger.apply_all(id, plan.transfers) {
                Err(_) => (self, Err(ErrorCode::AssetTransferError)),
                Ok(ledger) => (
                    MarketState { listings: self.listings.push(plan.next), ledger },
                    Ok(id),
                ),
            },
        }
    }

    /// The marketplace after `caller` asks to withdraw the listing `id`, and
    /// the answer.
    pub open spec fn cancel(self, id: ListingId, caller: Key) -> (
        MarketState,
        Result<(), ErrorCode>,
    ) {
        match cancel_outcome(CancelListing { listing: self.listing(id), seller: caller }) {
            Err(e) => (self, Err(e)),
            Ok(plan) => match self.ledger.apply_all(id, plan.transfers) {
                Err(_) => (self, Err(ErrorCode::AssetTransferError)),
                Ok(ledger) => (
                    MarketState { listings: self.listings.update(id as int, plan.next), ledger },
                    Ok(()),
                ),
            },
        }
    }

    /// The marketplace after `buyer` asks at `now` to buy the listing `id`,
    /// and the answer.
    pub open spec fn purchase(self, id: ListingId, buyer: Key, now: i64) -> (
        MarketState,
        Result<(), ErrorCode>,
    ) {
        match purchase_outcome(Purchase { listing: self.listing(id), buyer }, now) {
            Err(e) => (self, Err(e)),
            Ok(plan) => match self.ledger.apply_all(id, plan.transfers) {
                Err(_) => (self, Err(ErrorCode::AssetTransferError)),
                Ok(ledger) => (
                    MarketState { listings: self.listings.update(id as int, plan.next), ledger },
                    Ok(()),
                ),
            },
        }
    }
}

/// A marketplace: the store of listings, and the ledger on which their
/// transfers run. The custody of a listing can be debited through
/// `cancel_listing` and `purchase` only.
pub struct Marketplace {
    listings: Vec<Listing>,
    ledger: Ledger,
}

impl View for Marketplace {
    type V = MarketState;

    closed spec fn view(&self) -> MarketState {
        MarketState { listings: self.listings@, ledger: self.ledger@ }
    }
}

impl Marketplace {
    /// A marketplace with no listing and an empty ledger.
    pub fn new() -> (m: Marketplace)
        ensures
            m@ == MarketState::empty(),
            m@.wf(),
    {
        Marketplace { listings: Vec::new(), ledger: Ledger::new() }
    }

    /// The number of listings that were ever opened.
    pub fn listing_count(&self) -> (n: usize)
        ensures
            n == self@.listings.len(),
    {
        self.listings.len()
    }

    /// The record of the listing `id`, if there is one.
    pub fn get_listing(&self, id: ListingId) -> (r: Option<Listing>)
        ensures
            r == if self@.has(id) {
                Some(self@.listing(id))
            } else {
                None
            },
    {
        if id < self.listings.len() as u64 {
            Some(self.listings[id as usize])
        } else {
            None
        }
    }

    /// The balance of `principal`.
    pub fn balance_of(&self, principal: &Key) -> (amount: u64)
        ensures
            amount == self@.ledger.balance(Holder::Principal(*principal)),
    {
        self.ledger.balance_of(&Holder::Principal(*principal))
    }

    /// The holder of `asset`, if the asset was issued.
    pub fn holder_of(&self, asset: &Key) -> (h: Option<Holder>)
        ensures
            h == self@.ledger.holder(*asset),
    {
        self.ledger.holder_of(asset)
    }

    /// Whether `principal` is the present holder of `asset`.
    pub fn verify_ownership(&self, asset: &Key, principal: &Key) -> (b: bool)
        ensures
            b == self@.ledger.owns(*asset, *principal),
    {
        self.ledger.verify_ownership(asset, principal)
    }

    /// Gives `amount` to `principal`. Refused, with nothing changed, where
    /// the balance would pass the largest amount.
    pub fn deposit(&mut self, principal: Key, amount: u64) -> (r: Result<(), TransferError>)
        ensures
            final(self)@.listings == old(self)@.listings,
            match old(self)@.ledger.credit(Holder::Principal(principal), amount) {
                Ok(s) => r is Ok && final(self)@.ledger == s,
                Err(e) => r == Err::<(), TransferError>(e) && final(self)@ == old(self)@,
            },
            old(self)@.wf() ==> final(self)@.wf(),
    {
        let r = self.ledger.deposit(Holder::Principal(principal), amount);
        proof {
            if old(self)@.wf() && r is Ok {
                let before = old(self)@;
                let after = self@;
                assert forall|asset: Key, id: ListingId| #[trigger]
                    after.in_escrow(asset, id) implies after.has(id) && after.listing(id).status
                    == ListingStatus::Active && after.listing(id).asset == asset by {
                    assert(before.in_escrow(asset, id));
                }
                assert forall|id: ListingId| #![trigger after.listing(id)] after.has(id) implies
                    after.listing(id).wf() && (after.listing(id).status == ListingStatus::Active
                    ==> after.in_escrow(after.listing(id).asset, id)) by {
                    assert(before.listing(id) == after.listing(id));
                    if before.listing(id).status == ListingStatus::Active {
                        assert(before.in_escrow(before.listing(id).asset, id));
                    }
                }
            }
        }
        r
    }

    /// Issues a new asset to `owner`. Refused, with nothing changed, where an
    /// asset of that identifier exists.
    pub fn register_asset(&mut self, asset: Key, owner: Key) -> (r: Result<(), TransferError>)
        ensures
            final(self)@.listings == old(self)@.listings,
            match old(self)@.ledger.issue(asset, owner) {
                Ok(s) => r is Ok && final(self)@.ledger == s,
                Err(e) => r == Err::<(), TransferError>(e) && final(self)@ == old(self)@,
            },
            old(self)@.wf() ==> final(self)@.wf(),
    {
        let r = self.ledger.issue(asset, owner);
        proof {
            if old(self)@.wf() && r is Ok {
                let before = old(self)@;
                let after = self@;
                assert forall|a: Key, id: ListingId| #[trigger] after.in_escrow(a, id) implies
                    after.has(id) && after.listing(id).status == ListingStatus::Active
                    && after.listing(id).asset == a by {
                    assert(before.in_escrow(a, id));
                }
                assert forall|id: ListingId| #![trigger after.listing(id)] after.has(id) implies
                    after.listing(id).wf() && (after.listing(id).status == ListingStatus::Active
                    ==> after.in_escrow(after.listing(id).asset, id)) by {
                    assert(before.listing(id) == after.listing(id));
                    if before.listing(id).status == ListingStatus::Active {
                        assert(before.in_escrow(before.listing(id).asset, id));
                    }
                }
            }
        }
        r
    }

    /// Opens a listing of `asset` for `seller` at `now` and returns its
    /// identifier. The seller must be the present holder of the asset, which
    /// passes into the custody of the new listing in the same step; where the
    /// ledger rejects that, no listing is made.
    pub fn create_listing(
        &mut self,
        seller: Key,
        asset: Key,
        price: u64,
        duration: i64,
        now: i64,
    ) -> (r: Result<ListingId, ErrorCode>)
        requires
            price > 0 && duration > 0 ==> now + duration <= i64::MAX,
        ensures
            (final(self)@, r) == old(self)@.create(seller, asset, price, duration, now),
            r is Err ==> final(self)@ == old(self)@,
            r is Ok <==> price > 0 && duration > 0 && old(self)@.ledger.owns(asset, seller),
            !(price > 0 && duration > 0) ==> r == Err::<ListingId, ErrorCode>(
                ErrorCode::ValidationError,
            ),
            old(self)@.wf() ==> final(self)@.wf(),
    {
        let id = self.listings.len() as u64;
        let ctx = CreateListing { seller, asset };
        let plan = match create_listing(&ctx, price, duration, now) {
            Ok(plan) => plan,
            Err(e) => {
                return Err(e);
            },
        };
        proof {
            lemma_apply_one(self@.ledger, id, plan@.transfers[0]);
            assert(plan@.transfers =~= seq![plan@.transfers[0]]);
            lemma_create_keeps_wf(self@, seller, asset, price, duration, now);
        }
        if !self.ledger.verify_ownership(&asset, &seller) {
            return Err(ErrorCode::AssetTransferError);
        }
        let outcome = self.ledger.apply_batch(id, &plan.transfers);
        match settle(plan, outcome) {
            Ok(next) => {
                self.listings.push(next);
                Ok(id)
            },
            Err(e) => Err(e),
        }
    }

    /// Withdraws the listing `id` for `caller`: the asset passes from the
    /// custody of the listing back to the seller, and the listing is
    /// cancelled, in one step. The deadline plays no part.
    pub fn cancel_listing(&mut self, id: ListingId, caller: Key) -> (r: Result<(), ErrorCode>)
        requires
            old(self)@.has(id),
        ensures
            (final(self)@, r) == old(self)@.cancel(id, caller),
            r is Err ==> final(self)@ == old(self)@,
            old(self)@.listing(id).status != ListingStatus::Active ==> r == Err::<(), ErrorCode>(
                ErrorCode::ListingNotActive,
            ),
            caller != old(self)@.listing(id).seller ==> r is Err,
            old(self)@.wf() ==> (r is Ok <==> old(self)@.listing(id).status
                == ListingStatus::Active && caller == old(self)@.listing(id).seller),
            old(self)@.listing(id).status == ListingStatus::Active && caller != old(
                self,
            )@.listing(id).seller ==> r == Err::<(), ErrorCode>(ErrorCode::AuthorizationError),
            r is Ok ==> final(self)@.listing(id) == old(self)@.listing(id).with_status(
                ListingStatus::Cancelled,
            ),
            old(self)@.wf() ==> final(self)@.wf(),
    {
        assert(self@.listings.len() == self.listings.len());
        let ctx = CancelListing { listing: self.listings[id as usize], seller: caller };
        let plan = match cancel_listing(&ctx) {
            Ok(plan) => plan,
            Err(e) => {
                return Err(e);
            },
        };
        proof {
            lemma_cancel_keeps_wf(self@, id, caller);
            if self@.wf() {
                lemma_cancel_succeeds_iff(self@, id, caller);
            }
        }
        let outcome = self.ledger.apply_batch(id, &plan.transfers);
        match settle(plan, outcome) {
            Ok(next) => {
                self.listings.set(id as usize, next);
                Ok(())
            },
            Err(e) => Err(e),
        }
    }

    /// Buys the listing `id` for `buyer` at `now`: the price passes from the
    /// buyer to the seller, the asset from the custody of the listing to the
    /// buyer, and the listing is sold, in one step or not at all.
    pub fn purchase(&mut self, id: ListingId, buyer: Key, now: i64) -> (r: Result<(), ErrorCode>)
        requires
            old(self)@.has(id),
        ensures
            (final(self)@, r) == old(self)@.purchase(id, buyer, now),
            r is Err ==> final(self)@ == old(self)@,
            old(self)@.listing(id).status != ListingStatus::Active ==> r == Err::<(), ErrorCode>(
                ErrorCode::ListingNotActive,
            ),
            old(self)@.listing(id).status == ListingStatus::Active && now > old(self)@.listing(
                id,
            ).expires_at ==> r == Err::<(), ErrorCode>(ErrorCode::ListingExpired),
            r is Ok ==> final(self)@.listing(id) == old(self)@.listing(id).with_status(
                ListingStatus::Sold,
            ),
            old(self)@.wf() ==> (r is Ok <==> {
                let l = old(self)@.listing(id);
                &&& l.status == ListingStatus::Active
                &&& now <= l.expires_at
                &&& old(self)@.ledger.balance(Holder::Principal(buyer)) >= l.price
                &&& (buyer == l.seller || old(self)@.ledger.balance(Holder::Principal(l.seller))
                    + l.price <= u64::MAX)
            }),
            old(self)@.wf() ==> final(self)@.wf(),
    {
        assert(self@.listings.len() == self.listings.len());
        let ctx = Purchase { listing: self.listings[id as usize], buyer };
        let plan = match purchase(&ctx, now) {
            Ok(plan) => plan,
            Err(e) => {
                return Err(e);
            },
        };
        proof {
            lemma_purchase_keeps_wf(self@, id, buyer, now);
            if self@.wf() {
                lemma_purchase_succeeds_iff(self@, id, buyer, now);
            }
        }
        let outcome = self.ledger.apply_batch(id, &plan.transfers);
        match settle(plan, outcome) {
            Ok(next) => {
                self.listings.set(id as usize, next);
                Ok(())
            },
            Err(e) => Err(e),
        }
    }
}

/// Opening a listing keeps a marketplace well formed, and succeeds just
/// where the terms are positive and the seller holds the asset.
pub proof fn lemma_create_keeps_wf(
    s: MarketState,
    seller: Key,
    asset: Key,
    price: u64,
    duration: i64,
    now: i64,
)
    requires
        s.listings.len() <= u64::MAX,
        price > 0 && duration > 0 ==> now + duration <= i64::MAX,
    ensures
        s.wf() ==> s.create(seller, asset, price, duration, now).0.wf(),
        s.create(seller, asset, price, duration, now).1 is Ok <==> price > 0 && duration > 0
            && s.ledger.owns(asset, seller),
{
    let id = s.listings.len() as ListingId;
    let after = s.create(seller, asset, price, duration, now).0;
    if price > 0 && duration > 0 {
        let plan = create_outcome(CreateListing { seller, asset }, price, duration, now)->Ok_0;
        lemma_apply_one(s.ledger, id, plan.transfers[0]);
        assert(plan.transfers =~= seq![plan.transfers[0]]);
        if s.wf() && s.ledger.owns(asset, seller) {
            assert(id == s.listings.len());
            assert forall|a: Key, i: ListingId| #[trigger] after.in_escrow(a, i) implies after.has(
                i,
            ) && after.listing(i).status == ListingStatus::Active && after.listing(i).asset
                == a by {
                if a != asset {
                    assert(s.in_escrow(a, i));
                }
            }
            assert forall|i: ListingId| #![trigger after.listing(i)] after.has(i) implies
                after.listing(i).wf() && (after.listing(i).status == ListingStatus::Active
                ==> after.in_escrow(after.listing(i).asset, i)) by {
                if i != id {
                    assert(after.listing(i) == s.listing(i));
                    if s.listing(i).status == ListingStatus::Active {
                        assert(s.in_escrow(s.listing(i).asset, i));
                    }
                }
            }
        }
    }
}

/// Withdrawing a listing keeps a marketplace well formed.
pub proof fn lemma_cancel_keeps_wf(s: MarketState, id: ListingId, caller: Key)
    requires
        s.has(id),
    ensures
        s.wf() ==> s.cancel(id, caller).0.wf(),
{
    let after = s.cancel(id, caller).0;
    let outcome = cancel_outcome(CancelListing { listing: s.listing(id), seller: caller });
    if s.wf() && outcome is Ok {
        let plan = outcome->Ok_0;
        lemma_apply_one(s.ledger, id, plan.transfers[0]);
        assert(plan.transfers =~= seq![plan.transfers[0]]);
        let asset = s.listing(id).asset;
        assert(s.in_escrow(asset, id));
        assert forall|a: Key, i: ListingId| #[trigger] after.in_escrow(a, i) implies after.has(i)
            && after.listing(i).status == ListingStatus::Active && after.listing(i).asset == a by {
            if a != asset {
                assert(s.in_escrow(a, i));
            }
        }
        assert forall|i: ListingId| #![trigger after.listing(i)] after.has(i) implies after.listing(
            i,
        ).wf() && (after.listing(i).status == ListingStatus::Active ==> after.in_escrow(
            after.listing(i).asset,
            i,
        )) by {
            if i != id {
                assert(after.listing(i) == s.listing(i));
                if s.listing(i).status == ListingStatus::Active {
                    assert(s.in_escrow(s.listing(i).asset, i));
                }
            }
        }
    }
}

/// Buying a listing keeps a marketplace well formed.
pub proof fn lemma_purchase_keeps_wf(s: MarketState, id: ListingId, buyer: Key, now: i64)
    requires
        s.has(id),
    ensures
        s.wf() ==> s.purchase(id, buyer, now).0.wf(),
{
    let after = s.purchase(id, buyer, now).0;
    let outcome = purchase_outcome(Purchase { listing: s.listing(id), buyer }, now);
    if s.wf() && outcome is Ok {
        let plan = outcome->Ok_0;
        lemma_apply_two(s.ledger, id, plan.transfers[0], plan.transfers[1]);
        assert(plan.transfers =~= seq![plan.transfers[0], plan.transfers[1]]);
        let asset = s.listing(id).asset;
        assert(s.in_escrow(asset, id));
        assert forall|a: Key, i: ListingId| #[trigger] after.in_escrow(a, i) implies after.has(i)
            && after.listing(i).status == ListingStatus::Active && after.listing(i).asset == a by {
            if a != asset {
                assert(s.in_escrow(a, i));
            }
        }
        assert forall|i: ListingId| #![trigger after.listing(i)] after.has(i) implies after.listing(
            i,
        ).wf() && (after.listing(i).status == ListingStatus::Active ==> after.in_escrow(
            after.listing(i).asset,
            i,
        )) by {
            if i != id {
                assert(after.listing(i) == s.listing(i));
                if s.listing(i).status == ListingStatus::Active {
                    assert(s.in_escrow(s.listing(i).asset, i));
                }
            }
        }
    }
}

} // verus!
