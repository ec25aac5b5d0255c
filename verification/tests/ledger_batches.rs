use art_ai_marketplace::{Holder, Item, Key, Ledger, Party, Transfer, TransferError};

fn name(n: u8) -> Key {
    Key([n; 32])
}

fn pay(from: u8, to: u8, amount: u64) -> Transfer {
    Transfer {
        from: Party::Principal(name(from)),
        to: Party::Principal(name(to)),
        item: Item::Funds(amount),
        authority: Party::Principal(name(from)),
    }
}

fn funded() -> Ledger {
    let mut l = Ledger::new();
    assert_eq!(l.deposit(Holder::Principal(name(1)), 70), Ok(()));
    assert_eq!(l.deposit(Holder::Principal(name(2)), 5), Ok(()));
    assert_eq!(l.issue(name(9), name(1)), Ok(()));
    l
}

#[test]
fn new_ledger_is_empty() {
    let l = Ledger::new();
    assert_eq!(l.balance_of(&Holder::Principal(name(1))), 0);
    assert_eq!(l.balance_of(&Holder::Escrow(0)), 0);
    assert_eq!(l.holder_of(&name(9)), None);
    assert!(!l.verify_ownership(&name(9), &name(1)));
}

#[test]
fn batch_takes_effect_in_order() {
    let mut l = funded();
    let batch = vec![pay(1, 2, 30), pay(2, 3, 35)];
    assert_eq!(l.apply_batch(0, &batch), Ok(()));
    assert_eq!(l.balance_of(&Holder::Principal(name(1))), 40);
    assert_eq!(l.balance_of(&Holder::Principal(name(2))), 0);
    assert_eq!(l.balance_of(&Holder::Principal(name(3))), 35);
}

#[test]
fn batch_with_a_rejected_transfer_leaves_no_trace() {
    let mut l = funded();
    let batch = vec![pay(1, 2, 30), pay(2, 3, 36)];
    assert_eq!(l.apply_batch(0, &batch), Err(TransferError::InsufficientFunds));
    assert_eq!(l.balance_of(&Holder::Principal(name(1))), 70);
    assert_eq!(l.balance_of(&Holder::Principal(name(2))), 5);
    assert_eq!(l.balance_of(&Holder::Principal(name(3))), 0);
}

#[test]
fn empty_batch_is_accepted() {
    let mut l = funded();
    assert_eq!(l.apply_batch(3, &Vec::new()), Ok(()));
    assert_eq!(l.balance_of(&Holder::Principal(name(1))), 70);
}

#[test]
fn transfer_needs_the_authority_of_its_source() {
    let mut l = funded();
    let forged = Transfer { authority: Party::Principal(name(2)), ..pay(1, 2, 10) };
    assert_eq!(l.apply_batch(0, &vec![forged]), Err(TransferError::Unauthorized));
    let by_escrow = Transfer { authority: Party::Escrow, ..pay(1, 2, 10) };
    assert_eq!(l.apply_batch(0, &vec![by_escrow]), Err(TransferError::Unauthorized));
    assert_eq!(l.balance_of(&Holder::Principal(name(1))), 70);
}

#[test]
fn escrow_names_the_custody_of_the_listing_the_batch_runs_for() {
    let mut l = funded();
    let into = Transfer {
        from: Party::Principal(name(1)),
        to: Party::Escrow,
        item: Item::Asset(name(9)),
        authority: Party::Principal(name(1)),
    };
    assert_eq!(l.apply_batch(4, &vec![into]), Ok(()));
    assert_eq!(l.holder_of(&name(9)), Some(Holder::Escrow(4)));

    let out = Transfer {
        from: Party::Escrow,
        to: Party::Principal(name(2)),
        item: Item::Asset(name(9)),
        authority: Party::Escrow,
    };
    assert_eq!(l.apply_batch(5, &vec![out]), Err(TransferError::AssetNotHeld));
    assert_eq!(l.holder_of(&name(9)), Some(Holder::Escrow(4)));
    assert_eq!(l.apply_batch(4, &vec![out]), Ok(()));
    assert_eq!(l.holder_of(&name(9)), Some(Holder::Principal(name(2))));
    assert!(l.verify_ownership(&name(9), &name(2)));
}

#[test]
fn asset_moves_only_from_its_holder() {
    let mut l = funded();
    let theft = Transfer {
        from: Party::Principal(name(2)),
        to: Party::Principal(name(3)),
        item: Item::Asset(name(9)),
        authority: Party::Principal(name(2)),
    };
    assert_eq!(l.apply_batch(0, &vec![theft]), Err(TransferError::AssetNotHeld));
    let unknown = Transfer { item: Item::Asset(name(8)), ..theft };
    assert_eq!(l.apply_batch(0, &vec![unknown]), Err(TransferError::AssetNotHeld));
    assert_eq!(l.holder_of(&name(9)), Some(Holder::Principal(name(1))));
}

#[test]
fn credit_that_would_overflow_is_rejected() {
    let mut l = funded();
    assert_eq!(l.deposit(Holder::Principal(name(3)), u64::MAX - 9), Ok(()));
    assert_eq!(l.apply_batch(0, &vec![pay(1, 3, 10)]), Err(TransferError::BalanceOverflow));
    assert_eq!(l.balance_of(&Holder::Principal(name(1))), 70);
    assert_eq!(l.apply_batch(0, &vec![pay(1, 3, 9)]), Ok(()));
    assert_eq!(l.balance_of(&Holder::Principal(name(3))), u64::MAX);
    assert_eq!(l.balance_of(&Holder::Principal(name(1))), 61);
}

#[test]
fn payment_to_oneself_keeps_the_balance() {
    let mut l = funded();
    assert_eq!(l.apply_batch(0, &vec![pay(1, 1, 70)]), Ok(()));
    assert_eq!(l.balance_of(&Holder::Principal(name(1))), 70);
    assert_eq!(l.apply_batch(0, &vec![pay(1, 1, 71)]), Err(TransferError::InsufficientFunds));
}

#[test]
fn withdraw_and_deposit_are_exact() {
    let mut l = funded();
    assert_eq!(l.withdraw(Holder::Principal(name(1)), 70), Ok(()));
    assert_eq!(l.balance_of(&Holder::Principal(name(1))), 0);
    assert_eq!(l.withdraw(Holder::Principal(name(1)), 1), Err(TransferError::InsufficientFunds));
    assert_eq!(l.deposit(Holder::Principal(name(2)), u64::MAX - 4), Err(TransferError::BalanceOverflow));
    assert_eq!(l.deposit(Holder::Principal(name(2)), u64::MAX - 5), Ok(()));
    assert_eq!(l.balance_of(&Holder::Principal(name(2))), u64::MAX);
}

#[test]
fn asset_is_issued_once() {
    let mut l = funded();
    assert_eq!(l.issue(name(9), name(2)), Err(TransferError::AssetExists));
    assert_eq!(l.holder_of(&name(9)), Some(Holder::Principal(name(1))));
    assert_eq!(l.issue(name(8), name(2)), Ok(()));
    assert_eq!(l.holder_of(&name(8)), Some(Holder::Principal(name(2))));
}

#[test]
fn keys_and_holders_compare_by_value() {
    assert_eq!(Key::new([7; 32]), name(7));
    assert_ne!(name(7), name(8));
    let mut almost = [7u8; 32];
    almost[31] = 6;
    assert_ne!(Key(almost), name(7));
    assert_eq!(name(7).to_bytes(), [7u8; 32]);
    assert_eq!(Party::Escrow.holder(3), Holder::Escrow(3));
    assert_eq!(Party::Principal(name(1)).holder(3), Holder::Principal(name(1)));
    assert_ne!(Holder::Escrow(3), Holder::Escrow(4));
    assert_ne!(Holder::Escrow(1), Holder::Principal(name(1)));
    assert_ne!(Item::Funds(1), Item::Asset(name(1)));
    assert_eq!(pay(1, 2, 3), pay(1, 2, 3));
    assert_ne!(pay(1, 2, 3), pay(1, 2, 4));
}
