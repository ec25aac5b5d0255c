use crate::engine::{cancel_outcome, create_outcome, purchase_outcome};
use crate::engine::{CancelListing, CreateListing, Purchase};
use crate::key::Key;
use crate::ledger::{lemma_apply_one, lemma_apply_two, Holder};
use crate::listing::{ErrorCode, ListingId, ListingStatus};
use crate::market::MarketState;
use vstd::prelude::*;

verus! {

/// A request on a listing that is open: to withdraw it, or to buy it.
pub enum Call {
    Cancel { caller: Key },
    Purchase { buyer: Key, now: i64 },
}

impl MarketState {
    /// The marketplace after one request on the listing `id`, and the answer.
    pub open spec fn call(self, id: ListingId, c: Call) -> (MarketState, Result<(), ErrorCode>) {
        match c {
            Call::Cancel { caller } => self.cancel(id, caller),
            Call::Purchase { buyer, now } => self.purchase(id, buyer, now),
        }
    }

    /// The marketplace after the requests on the listing `id` were served
    /// one after the other, in the order in which they were committed.
    pub open spec fn after_calls(self, id: ListingId, calls: Seq<Call>) -> MarketState
        decreases calls.len(),
    {
        if calls.len() == 0 {
            self
        } else {
            self.after_calls(id, calls.drop_last()).call(id, calls.last()).0
        }
    }

    /// The answer to the request at place `i` among `calls`.
    pub open spec fn answer(self, id: ListingId, calls: Seq<Call>, i: int) -> Result<
        (),
        ErrorCode,
    > {
        self.after_calls(id, calls.take(i)).call(id, calls[i]).1
    }
}

/// A request that is refused changes nothing: not the listing, not a
/// balance, not the holder of an asset.
pub proof fn lemma_refusal_changes_nothing(s: MarketState, id: ListingId, c: Call)
    ensures
        s.call(id, c).1 is Err ==> s.call(id, c).0 == s,
{
}

/// In a well-formed marketplace the custody of an active listing never
/// fails to release: a withdrawal succeeds just where the listing is active
/// and the request comes from its seller.
pub proof fn lemma_cancel_succeeds_iff(s: MarketState, id: ListingId, caller: Key)
    requires
        s.wf(),
        s.has(id),
    ensures
        s.cancel(id, caller).1 is Ok <==> s.listing(id).status == ListingStatus::Active && caller
            == s.listing(id).seller,
{
    let outcome = cancel_outcome(CancelListing { listing: s.listing(id), seller: caller });
    if outcome is Ok {
        let plan = outcome->Ok_0;
        lemma_apply_one(s.ledger, id, plan.transfers[0]);
        assert(plan.transfers =~= seq![plan.transfers[0]]);
        assert(s.in_escrow(s.listing(id).asset, id));
    }
}

/// In a well-formed marketplace a purchase succeeds just where the listing
/// is active, the deadline has not passed, the buyer has the price, and the
/// seller's balance can take it.
pub proof fn lemma_purchase_succeeds_iff(s: MarketState, id: ListingId, buyer: Key, now: i64)
    requires
        s.wf(),
        s.has(id),
    ensures
        s.purchase(id, buyer, now).1 is Ok <==> {
            let l = s.listing(id);
            &&& l.status == ListingStatus::Active
            &&& now <= l.expires_at
            &&& s.ledger.balance(Holder::Principal(buyer)) >= l.price
            &&& (buyer == l.seller || s.ledger.balance(Holder::Principal(l.seller)) + l.price
                <= u64::MAX)
        },
{
    let outcome = purchase_outcome(Purchase { listing: s.listing(id), buyer }, now);
    if outcome is Ok {
        let plan = outcome->Ok_0;
        lemma_apply_two(s.ledger, id, plan.transfers[0], plan.transfers[1]);
        assert(plan.transfers =~= seq![plan.transfers[0], plan.transfers[1]]);
        assert(s.in_escrow(s.listing(id).asset, id));
    }
}

/// A purchase that succeeds moves the price once, from the buyer to the
/// seller, and the asset once, from the custody of the listing to the buyer.
/// Every other balance, every other asset and every other listing stay as
/// they were.
pub proof fn lemma_purchase_moves_price_and_asset(
    s: MarketState,
    id: ListingId,
    buyer: Key,
    now: i64,
)
    requires
        s.has(id),
        s.purchase(id, buyer, now).1 is Ok,
    ensures
        ({
            let l = s.listing(id);
            let after = s.purchase(id, buyer, now).0;
            let paying = Holder::Principal(buyer);
            let paid = Holder::Principal(l.seller);
            &&& after.listing(id) == l.with_status(ListingStatus::Sold)
            &&& after.listings.len() == s.listings.len()
            &&& forall|other: ListingId|
                s.has(other) && other != id ==> after.listing(other) == s.listing(other)
            &&& s.in_escrow(l.asset, id)
            &&& after.ledger.holder(l.asset) == Some(paying)
            &&& forall|a: Key| a != l.asset ==> after.ledger.holder(a) == s.ledger.holder(a)
            &&& buyer != l.seller ==> after.ledger.balance(paying) == s.ledger.balance(paying)
                - l.price && after.ledger.balance(paid) == s.ledger.balance(paid) + l.price
            &&& buyer == l.seller ==> after.ledger.balance(paying) == s.ledger.balance(paying)
            &&& forall|h: Holder|
                h != paying && h != paid ==> after.ledger.balance(h) == s.ledger.balance(h)
        }),
{
    let plan = purchase_outcome(Purchase { listing: s.listing(id), buyer }, now)->Ok_0;
    lemma_apply_two(s.ledger, id, plan.transfers[0], plan.transfers[1]);
    assert(plan.transfers =~= seq![plan.transfers[0], plan.transfers[1]]);
}

/// A withdrawal that succeeds hands the asset from the custody of the
/// listing back to the seller and moves nothing else.
pub proof fn lemma_cancel_returns_asset(s: MarketState, id: ListingId, caller: Key)
    requires
        s.has(id),
        s.cancel(id, caller).1 is Ok,
    ensures
        ({
            let l = s.listing(id);
            let after = s.cancel(id, caller).0;
            &&& caller == l.seller
            &&& after.listing(id) == l.with_status(ListingStatus::Cancelled)
            &&& after.listings.len() == s.listings.len()
            &&& forall|other: ListingId|
                s.has(other) && other != id ==> after.listing(other) == s.listing(other)
            &&& s.in_escrow(l.asset, id)
            &&& after.ledger.holder(l.asset) == Some(Holder::Principal(l.seller))
            &&& forall|a: Key| a != l.asset ==> after.ledger.holder(a) == s.ledger.holder(a)
            &&& after.ledger.funds == s.ledger.funds
        }),
{
    let plan = cancel_outcome(CancelListing { listing: s.listing(id), seller: caller })->Ok_0;
    lemma_apply_one(s.ledger, id, plan.transfers[0]);
    assert(plan.transfers =~= seq![plan.transfers[0]]);
}

/// Requests on a listing neither add nor remove a listing.
pub proof fn lemma_calls_keep_listings(s: MarketState, id: ListingId, calls: Seq<Call>)
    requires
        s.has(id),
    ensures
        s.after_calls(id, calls).listings.len() == s.listings.len(),
    decreases calls.len(),
{
    if calls.len() > 0 {
        lemma_calls_keep_listings(s, id, calls.drop_last());
    }
}

/// Once a request on a listing has succeeded, the listing is cancelled or
/// sold, and stays so whatever requests follow.
pub proof fn lemma_terminal_after_success(
    s: MarketState,
    id: ListingId,
    calls: Seq<Call>,
    i: int,
    k: int,
)
    requires
        s.has(id),
        0 <= i < k <= calls.len(),
        s.answer(id, calls, i) is Ok,
    ensures
        s.after_calls(id, calls.take(k)).has(id),
        s.after_calls(id, calls.take(k)).listing(id).status.is_terminal(),
    decreases k,
{
    lemma_calls_keep_listings(s, id, calls.take(k - 1));
    assert(calls.take(k).drop_last() =~= calls.take(k - 1));
    assert(calls.take(k).last() == calls[k - 1]);
    if k > i + 1 {
        lemma_terminal_after_success(s, id, calls, i, k - 1);
    }
}

/// Of the requests to withdraw or to buy one listing, served one after the
/// other in any number and any order, at most one succeeds: every request
/// that is served after one that succeeded finds the listing no longer
/// active.
pub proof fn lemma_single_terminal_transition(
    s: MarketState,
    id: ListingId,
    calls: Seq<Call>,
    i: int,
    j: int,
)
    requires
        s.has(id),
        0 <= i < j < calls.len(),
        s.answer(id, calls, i) is Ok,
    ensures
        s.answer(id, calls, j) == Err::<(), ErrorCode>(ErrorCode::ListingNotActive),
        s.after_calls(id, calls.take(j + 1)) == s.after_calls(id, calls.take(j)),
{
    lemma_terminal_after_success(s, id, calls, i, j);
    assert(calls.take(j + 1).drop_last() =~= calls.take(j));
    assert(calls.take(j + 1).last() == calls[j]);
}

/// A listing that is withdrawn by its seller right after it was opened
/// leaves the ledger as it was before: the asset is with the seller again,
/// no balance has moved, and nothing remains in the custody of the listing,
/// which is cancelled.
pub proof fn lemma_create_then_cancel_restores(
    s: MarketState,
    seller: Key,
    asset: Key,
    price: u64,
    duration: i64,
    now: i64,
)
    requires
        s.wf(),
        s.listings.len() <= u64::MAX,
        s.create(seller, asset, price, duration, now).1 is Ok,
    ensures
        ({
            let opened = s.create(seller, asset, price, duration, now);
            let id = opened.1->Ok_0;
            let closed = opened.0.cancel(id, seller);
            &&& s.ledger.owns(asset, seller)
            &&& opened.0.in_escrow(asset, id)
            &&& closed.1 is Ok
            &&& closed.0.listing(id).status == ListingStatus::Cancelled
            &&& closed.0.ledger.owns(asset, seller)
            &&& closed.0.ledger == s.ledger
            &&& forall|a: Key| !closed.0.in_escrow(a, id)
        }),
{
    let id = s.listings.len() as ListingId;
    let plan = create_outcome(CreateListing { seller, asset }, price, duration, now)->Ok_0;
    lemma_apply_one(s.ledger, id, plan.transfers[0]);
    assert(plan.transfers =~= seq![plan.transfers[0]]);
    let opened = s.create(seller, asset, price, duration, now).0;
    assert(opened.has(id));
    assert(opened.listing(id) == plan.next);
    let back = cancel_outcome(CancelListing { listing: opened.listing(id), seller })->Ok_0;
    lemma_apply_one(opened.ledger, id, back.transfers[0]);
    assert(back.transfers =~= seq![back.transfers[0]]);
    let closed = opened.cancel(id, seller).0;
    assert(closed.ledger.assets =~= s.ledger.assets);
    assert forall|a: Key| !closed.in_escrow(a, id) by {
        if closed.in_escrow(a, id) {
            assert(s.in_escrow(a, id));
        }
    }
}

} // verus!
