use crate::key::Key;
use crate::listing::ListingId;
use vstd::prelude::*;
use vstd::std_specs::cmp::PartialEqSpecImpl;

verus! {

/// Who holds funds or an asset: a principal, or the escrow custody of one
/// listing.
#[derive(Clone, Copy, Debug)]
pub enum Holder {
    Principal(Key),
    Escrow(ListingId),
}

impl PartialEq for Holder {
    fn eq(&self, other: &Holder) -> (r: bool) {
        match (*self, *other) {
            (Holder::Principal(a), Holder::Principal(b)) => a == b,
            (Holder::Escrow(a), Holder::Escrow(b)) => a == b,
            _ => false,
        }
    }
}

impl Eq for Holder {

}

impl PartialEqSpecImpl for Holder {
    open spec fn obeys_eq_spec() -> bool {
        true
    }

    open spec fn eq_spec(&self, other: &Holder) -> bool {
        *self == *other
    }
}

/// A side of a transfer, as an operation on one listing names it. `Escrow` is
/// the custody of that listing: no transfer can name the custody of another.
#[derive(Clone, Copy, Debug)]
pub enum Party {
    Principal(Key),
    Escrow,
}

impl Party {
    /// The holder that the party stands for in a batch run for `listing`.
    pub open spec fn resolve(self, listing: ListingId) -> Holder {
        match self {
            Party::Principal(k) => Holder::Principal(k),
            Party::Escrow => Holder::Escrow(listing),
        }
    }

    /// The holder that the party stands for in a batch run for `listing`.
    pub fn holder(&self, listing: ListingId) -> (h: Holder)
        ensures
            h == self.resolve(listing),
    {
        match *self {
            Party::Principal(k) => Holder::Principal(k),
            Party::Escrow => Holder::Escrow(listing),
        }
    }
}

impl PartialEq for Party {
    fn eq(&self, other: &Party) -> (r: bool) {
        match (*self, *other) {
            (Party::Principal(a), Party::Principal(b)) => a == b,
            (Party::Escrow, Party::Escrow) => true,
            _ => false,
        }
    }
}

impl Eq for Party {

}

impl PartialEqSpecImpl for Party {
    open spec fn obeys_eq_spec() -> bool {
        true
    }

    open spec fn eq_spec(&self, other: &Party) -> bool {
        *self == *other
    }
}

/// What a transfer moves: an amount of funds, or the one unit of an asset.
#[derive(Clone, Copy, Debug)]
pub enum Item {
    Funds(u64),
    Asset(Key),
}

impl PartialEq for Item {
    fn eq(&self, other: &Item) -> (r: bool) {
        match (*self, *other) {
            (Item::Funds(a), Item::Funds(b)) => a == b,
            (Item::Asset(a), Item::Asset(b)) => a == b,
            _ => false,
        }
    }
}

impl Eq for Item {

}

impl PartialEqSpecImpl for Item {
    open spec fn obeys_eq_spec() -> bool {
        true
    }

    open spec fn eq_spec(&self, other: &Item) -> bool {
        *self == *other
    }
}

/// One movement that an operation asks of the ledger.
#[derive(Clone, Copy, Debug)]
pub struct Transfer {
    pub from: Party,
    pub to: Party,
    pub item: Item,
    /// Who authorizes the movement. The ledger accepts it from `from` only.
    pub authority: Party,
}

impl PartialEq for Transfer {
    fn eq(&self, other: &Transfer) -> (r: bool) {
        self.from == other.from && self.to == other.to && self.item == other.item
            && self.authority == other.authority
    }
}

impl Eq for Transfer {

}

impl PartialEqSpecImpl for Transfer {
    open spec fn obeys_eq_spec() -> bool {
        true
    }

    open spec fn eq_spec(&self, other: &Transfer) -> bool {
        *self == *other
    }
}

/// Why the ledger rejected a transfer.
#[derive(Clone, Copy, Debug, PartialEq, Eq, Structural)]
pub enum TransferError {
    /// The authority is not the holder that the transfer takes from.
    Unauthorized,
    /// The holder has less than the amount.
    InsufficientFunds,
    /// The receiving balance would pass the largest amount.
    BalanceOverflow,
    /// The asset is not with the holder that the transfer takes it from.
    AssetNotHeld,
    /// An asset of that identifier was issued before.
    AssetExists,
}

/// What a ledger holds: the balance of each holder that has one, and the
/// holder of each asset that was issued.
pub struct LedgerState {
    pub funds: Map<Holder, u64>,
    pub assets: Map<Key, Holder>,
}

impl LedgerState {
    /// The ledger with no balance and no asset.
    pub open spec fn empty() -> LedgerState {
        LedgerState { funds: Map::empty(), assets: Map::empty() }
    }

    /// The balance of `h`; zero where the ledger has none for it.
    pub open spec fn balance(self, h: Holder) -> u64 {
        if self.funds.dom().contains(h) {
            self.funds[h]
        } else {
            0
        }
    }

    /// The holder of `asset`, if the asset was issued.
    pub open spec fn holder(self, asset: Key) -> Option<Holder> {
        if self.assets.dom().contains(asset) {
            Some(self.assets[asset])
        } else {
            None
        }
    }

    /// Whether `principal` is the present holder of `asset`.
    pub open spec fn owns(self, asset: Key, principal: Key) -> bool {
        self.holder(asset) == Some(Holder::Principal(principal))
    }

    /// The ledger after `amount` is taken from `h`.
    pub open spec fn debit(self, h: Holder, amount: u64) -> Result<LedgerState, TransferError> {
        if self.balance(h) < amount {
            Err(TransferError::InsufficientFunds)
        } else {
            Ok(LedgerState { funds: self.funds.insert(h, (self.balance(h) - amount) as u64), ..self })
        }
    }

    /// The ledger after `amount` is given to `h`.
    pub open spec fn credit(self, h: Holder, amount: u64) -> Result<LedgerState, TransferError> {
        if self.balance(h) + amount > u64::MAX {
            Err(TransferError::BalanceOverflow)
        } else {
            Ok(LedgerState { funds: self.funds.insert(h, (self.balance(h) + amount) as u64), ..self })
        }
    }

    /// The ledger after `asset` passes from `from` to `to`.
    pub open spec fn hand_over(self, asset: Key, from: Holder, to: Holder) -> Result<
        LedgerState,
        TransferError,
    > {
        if self.holder(asset) != Some(from) {
            Err(TransferError::AssetNotHeld)
        } else {
            Ok(LedgerState { assets: self.assets.insert(asset, to), ..self })
        }
    }

    /// The ledger after a new asset is issued to `owner`.
    pub open spec fn issue(self, asset: Key, owner: Key) -> Result<LedgerState, TransferError> {
        if self.assets.dom().contains(asset) {
            Err(TransferError::AssetExists)
        } else {
            Ok(LedgerState { assets: self.assets.insert(asset, Holder::Principal(owner)), ..self })
        }
    }

    /// The ledger after one transfer of a batch run for `listing`, or the
    /// reason why the transfer is rejected.
    pub open spec fn apply(self, listing: ListingId, t: Transfer) -> Result<
        LedgerState,
        TransferError,
    > {
        let from = t.from.resolve(listing);
        let to = t.to.resolve(listing);
        if t.authority.resolve(listing) != from {
            Err(TransferError::Unauthorized)
        } else {
            match t.item {
                Item::Funds(amount) => match self.debit(from, amount) {
                    Ok(taken) => taken.credit(to, amount),
                    Err(e) => Err(e),
                },
                Item::Asset(asset) => self.hand_over(asset, from, to),
            }
        }
    }

    /// The ledger after every transfer of the batch, first to last, or the
    /// reason why the first transfer that fails is rejected.
    pub open spec fn apply_all(self, listing: ListingId, batch: Seq<Transfer>) -> Result<
        LedgerState,
        TransferError,
    >
        decreases batch.len(),
    {
        if batch.len() == 0 {
            Ok(self)
        } else {
            match self.apply_all(listing, batch.drop_last()) {
                Ok(before) => before.apply(listing, batch.last()),
                Err(e) => Err(e),
            }
        }
    }
}

/// A batch of one transfer does what the transfer does.
pub proof fn lemma_apply_one(s: LedgerState, listing: ListingId, t: Transfer)
    ensures
        s.apply_all(listing, seq![t]) == s.apply(listing, t),
{
    let batch = seq![t];
    assert(batch.drop_last() =~= Seq::<Transfer>::empty());
    assert(s.apply_all(listing, batch.drop_last()) == Ok::<LedgerState, TransferError>(s));
    assert(batch.last() == t);
}

/// A batch of two transfers does the first and, on what that leaves, the
/// second.
pub proof fn lemma_apply_two(s: LedgerState, listing: ListingId, t1: Transfer, t2: Transfer)
    ensures
        s.apply_all(listing, seq![t1, t2]) == match s.apply(listing, t1) {
            Ok(mid) => mid.apply(listing, t2),
            Err(e) => Err(e),
        },
{
    let batch = seq![t1, t2];
    assert(batch.drop_last() =~= seq![t1]);
    assert(batch.last() == t2);
    lemma_apply_one(s, listing, t1);
}

/// A batch whose beginning is rejected is rejected, for the same reason.
pub proof fn lemma_apply_all_stops(s: LedgerState, listing: ListingId, batch: Seq<Transfer>, n: int)
    requires
        0 <= n <= batch.len(),
        s.apply_all(listing, batch.take(n)) is Err,
    ensures
        s.apply_all(listing, batch) == s.apply_all(listing, batch.take(n)),
    decreases batch.len(),
{
    if n == batch.len() {
        assert(batch.take(n) =~= batch);
    } else {
        assert(batch.drop_last().take(n) =~= batch.take(n));
        lemma_apply_all_stops(s, listing, batch.drop_last(), n);
    }
}

/// The value that a table gives to `k`: that of the last entry with this
/// key.
spec fn lookup<K, V>(table: Seq<(K, V)>, k: K) -> Option<V>
    decreases table.len(),
{
    if table.len() == 0 {
        None
    } else if table.last().0 == k {
        Some(table.last().1)
    } else {
        lookup(table.drop_last(), k)
    }
}

proof fn lemma_lookup_push<K, V>(table: Seq<(K, V)>, k: K, v: V, probe: K)
    ensures
        lookup(table.push((k, v)), probe) == if probe == k {
            Some(v)
        } else {
            lookup(table, probe)
        },
{
    assert(table.push((k, v)).drop_last() =~= table);
}

proof fn lemma_lookup_update<K, V>(table: Seq<(K, V)>, i: int, k: K, v: V, probe: K)
    requires
        0 <= i < table.len(),
        table[i].0 == k,
        forall|j: int| i < j < table.len() ==> table[j].0 != k,
    ensures
        lookup(table.update(i, (k, v)), probe) == if probe == k {
            Some(v)
        } else {
            lookup(table, probe)
        },
    decreases table.len(),
{
    let changed = table.update(i, (k, v));
    if i == table.len() - 1 {
        assert(changed.drop_last() =~= table.drop_last());
    } else {
        assert(changed.drop_last() =~= table.drop_last().update(i, (k, v)));
        lemma_lookup_update(table.drop_last(), i, k, v, probe);
    }
}

spec fn table_map<K, V>(table: Seq<(K, V)>) -> Map<K, V> {
    Map::new(|k: K| lookup(table, k) is Some, |k: K| lookup(table, k)->0)
}

/// An in-memory ledger: balances and asset holders, with batches of
/// transfers that take effect wholly or not at all.
pub struct Ledger {
    funds: Vec<(Holder, u64)>,
    assets: Vec<(Key, Holder)>,
}

impl View for Ledger {
    type V = LedgerState;

    closed spec fn view(&self) -> LedgerState {
        LedgerState { funds: table_map(self.funds@), assets: table_map(self.assets@) }
    }
}

fn find_balance(table: &Vec<(Holder, u64)>, h: &Holder) -> (r: Option<usize>)
    ensures
        match r {
            Some(i) => i < table.len() && table@[i as int].0 == *h && lookup(table@, *h) == Some(
                table@[i as int].1,
            ) && forall|j: int| i < j < table.len() ==> table@[j].0 != *h,
            None => lookup(table@, *h) is None,
        },
{
    let mut i: usize = table.len();
    assert(table@.take(i as int) =~= table@);
    while i > 0
        invariant
            i <= table.len(),
            lookup(table@, *h) == lookup(table@.take(i as int), *h),
            forall|j: int| i <= j < table.len() ==> table@[j].0 != *h,
        decreases i,
    {
        i = i - 1;
        assert(table@.take(i + 1).drop_last() =~= table@.take(i as int));
        assert(table@.take(i + 1).last() == table@[i as int]);
        if table[i].0 == *h {
            return Some(i);
        }
    }
    None
}

fn find_holder(table: &Vec<(Key, Holder)>, asset: &Key) -> (r: Option<usize>)
    ensures
        match r {
            Some(i) => i < table.len() && table@[i as int].0 == *asset && lookup(table@, *asset)
                == Some(table@[i as int].1) && forall|j: int|
                i < j < table.len() ==> table@[j].0 != *asset,
            None => lookup(table@, *asset) is None,
        },
{
    let mut i: usize = table.len();
    assert(table@.take(i as int) =~= table@);
    while i > 0
        invariant
            i <= table.len(),
            lookup(table@, *asset) == lookup(table@.take(i as int), *asset),
            forall|j: int| i <= j < table.len() ==> table@[j].0 != *asset,
        decreases i,
    {
        i = i - 1;
        assert(table@.take(i + 1).drop_last() =~= table@.take(i as int));
        assert(table@.take(i + 1).last() == table@[i as int]);
        if table[i].0 == *asset {
            return Some(i);
        }
    }
    None
}

fn copy_table<T: Copy>(table: &Vec<T>) -> (r: Vec<T>)
    ensures
        r@ == table@,
{
    let mut r: Vec<T> = Vec::new();
    let mut i: usize = 0;
    while i < table.len()
        invariant
            i <= table.len(),
            r@ == table@.take(i as int),
        decreases table.len() - i,
    {
        r.push(table[i]);
        assert(table@.take(i + 1) =~= table@.take(i as int).push(table@[i as int]));
        i = i + 1;
    }
    assert(table@.take(i as int) =~= table@);
    r
}

impl Ledger {
    /// A ledger with no balance and no asset.
    pub fn new() -> (l: Ledger)
        ensures
            l@ == LedgerState::empty(),
    {
        let l = Ledger { funds: Vec::new(), assets: Vec::new() };
        assert(l@.funds =~= Map::empty());
        assert(l@.assets =~= Map::empty());
        l
    }

    /// The balance of `h`; zero where the ledger has none for it.
    pub fn balance_of(&self, h: &Holder) -> (amount: u64)
        ensures
            amount == self@.balance(*h),
    {
        match find_balance(&self.funds, h) {
            Some(i) => self.funds[i].1,
            None => 0,
        }
    }

    /// The holder of `asset`, if the asset was issued.
    pub fn holder_of(&self, asset: &Key) -> (h: Option<Holder>)
        ensures
            h == self@.holder(*asset),
    {
        match find_holder(&self.assets, asset) {
            Some(i) => Some(self.assets[i].1),
            None => None,
        }
    }

    /// Whether `principal` is the present holder of `asset`.
    pub fn verify_ownership(&self, asset: &Key, principal: &Key) -> (b: bool)
        ensures
            b == self@.owns(*asset, *principal),
    {
        match self.holder_of(asset) {
            Some(h) => h == Holder::Principal(*principal),
            None => false,
        }
    }

    fn set_balance(&mut self, h: Holder, amount: u64)
        ensures
            final(self)@ == (LedgerState {
                funds: old(self)@.funds.insert(h, amount),
                ..old(self)@
            }),
    {
        let ghost before = self.funds@;
        match find_balance(&self.funds, &h) {
            Some(i) => {
                self.funds.set(i, (h, amount));
                assert forall|probe: Holder|
                    lookup(self.funds@, probe) == if probe == h {
                        Some(amount)
                    } else {
                        lookup(before, probe)
                    } by {
                    lemma_lookup_update(before, i as int, h, amount, probe);
                }
            },
            None => {
                self.funds.push((h, amount));
                assert forall|probe: Holder|
                    lookup(self.funds@, probe) == if probe == h {
                        Some(amount)
                    } else {
                        lookup(before, probe)
                    } by {
                    lemma_lookup_push(before, h, amount, probe);
                }
            },
        }
        assert(self@.funds =~= old(self)@.funds.insert(h, amount));
    }

    fn set_holder(&mut self, asset: Key, h: Holder)
        ensures
            final(self)@ == (LedgerState {
                assets: old(self)@.assets.insert(asset, h),
                ..old(self)@
            }),
    {
        let ghost before = self.assets@;
        match find_holder(&self.assets, &asset) {
            Some(i) => {
                self.assets.set(i, (asset, h));
                assert forall|probe: Key|
                    lookup(self.assets@, probe) == if probe == asset {
                        Some(h)
                    } else {
                        lookup(before, probe)
                    } by {
                    lemma_lookup_update(before, i as int, asset, h, probe);
                }
            },
            None => {
                self.assets.push((asset, h));
                assert forall|probe: Key|
                    lookup(self.assets@, probe) == if probe == asset {
                        Some(h)
                    } else {
                        lookup(before, probe)
                    } by {
                    lemma_lookup_push(before, asset, h, probe);
                }
            },
        }
        assert(self@.assets =~= old(self)@.assets.insert(asset, h));
    }

    /// Gives `amount` to `h`. Refused, with nothing changed, where the
    /// balance would pass the largest amount.
    pub fn deposit(&mut self, h: Holder, amount: u64) -> (r: Result<(), TransferError>)
        ensures
            match old(self)@.credit(h, amount) {
                Ok(s) => r is Ok && final(self)@ == s,
                Err(e) => r == Err::<(), TransferError>(e) && final(self)@ == old(self)@,
            },
    {
        let balance = self.balance_of(&h);
        if amount > u64::MAX - balance {
            Err(TransferError::BalanceOverflow)
        } else {
            self.set_balance(h, balance + amount);
            Ok(())
        }
    }

    /// Takes `amount` from `h`. Refused, with nothing changed, where `h` has
    /// less.
    pub fn withdraw(&mut self, h: Holder, amount: u64) -> (r: Result<(), TransferError>)
        ensures
            match old(self)@.debit(h, amount) {
                Ok(s) => r is Ok && final(self)@ == s,
                Err(e) => r == Err::<(), TransferError>(e) && final(self)@ == old(self)@,
            },
    {
        let balance = self.balance_of(&h);
        if balance < amount {
            Err(TransferError::InsufficientFunds)
        } else {
            self.set_balance(h, balance - amount);
            Ok(())
        }
    }

    /// Issues a new asset to `owner`. Refused, with nothing changed, where an
    /// asset of that identifier exists.
    pub fn issue(&mut self, asset: Key, owner: Key) -> (r: Result<(), TransferError>)
        ensures
            match old(self)@.issue(asset, owner) {
                Ok(s) => r is Ok && final(self)@ == s,
                Err(e) => r == Err::<(), TransferError>(e) && final(self)@ == old(self)@,
            },
    {
        match self.holder_of(&asset) {
            Some(_) => Err(TransferError::AssetExists),
            None => {
                self.set_holder(asset, Holder::Principal(owner));
                Ok(())
            },
        }
    }

    fn hand_over(&mut self, asset: Key, from: Holder, to: Holder) -> (r: Result<(), TransferError>)
        ensures
            match old(self)@.hand_over(asset, from, to) {
                Ok(s) => r is Ok && final(self)@ == s,
                Err(e) => r == Err::<(), TransferError>(e) && final(self)@ == old(self)@,
            },
    {
        let held = match self.holder_of(&asset) {
            Some(h) => h == from,
            None => false,
        };
        if held {
            self.set_holder(asset, to);
            Ok(())
        } else {
            Err(TransferError::AssetNotHeld)
        }
    }

    /// One transfer of a batch run for `listing`. A transfer that is rejected
    /// may leave a part of its effect behind: `apply_batch` runs it on a copy.
    fn apply(&mut self, listing: ListingId, t: &Transfer) -> (r: Result<(), TransferError>)
        ensures
            match old(self)@.apply(listing, *t) {
                Ok(s) => r is Ok && final(self)@ == s,
                Err(e) => r == Err::<(), TransferError>(e),
            },
    {
        let from = t.from.holder(listing);
        let to = t.to.holder(listing);
        if t.authority.holder(listing) != from {
            return Err(TransferError::Unauthorized);
        }
        match t.item {
            Item::Funds(amount) => {
                match self.withdraw(from, amount) {
                    Ok(()) => self.deposit(to, amount),
                    Err(e) => Err(e),
                }
            },
            Item::Asset(asset) => self.hand_over(asset, from, to),
        }
    }

    fn copy(&self) -> (l: Ledger)
        ensures
            l@ == self@,
    {
        Ledger { funds: copy_table(&self.funds), assets: copy_table(&self.assets) }
    }

    /// Runs the batch on behalf of `listing`: every transfer takes effect, in
    /// order, or, where one is rejected, none does and the ledger is as it
    /// was.
    pub fn apply_batch(&mut self, listing: ListingId, batch: &Vec<Transfer>) -> (r: Result<
        (),
        TransferError,
    >)
        ensures
            match old(self)@.apply_all(listing, batch@) {
                Ok(s) => r is Ok && final(self)@ == s,
                Err(e) => r == Err::<(), TransferError>(e) && final(self)@ == old(self)@,
            },
    {
        let mut work = self.copy();
        let mut i: usize = 0;
        assert(batch@.take(0) =~= Seq::<Transfer>::empty());
        while i < batch.len()
            invariant
                i <= batch.len(),
                self@.apply_all(listing, batch@.take(i as int)) == Ok::<LedgerState, TransferError>(
                    work@,
                ),
            decreases batch.len() - i,
        {
            assert(batch@.take(i + 1).drop_last() =~= batch@.take(i as int));
            assert(batch@.take(i + 1).last() == batch@[i as int]);
            match work.apply(listing, &batch[i]) {
                Ok(()) => {},
                Err(e) => {
                    proof {
                        lemma_apply_all_stops(self@, listing, batch@, i + 1);
                    }
                    return Err(e);
                },
            }
            i = i + 1;
        }
        assert(batch@.take(i as int) =~= batch@);
        *self = work;
        Ok(())
    }
}

} // verus!
