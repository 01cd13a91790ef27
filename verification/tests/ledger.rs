use nft_lending::{Identity, Ledger, LedgerError, Transfer};

fn id(n: u8) -> Identity {
    Identity::new([n; 32])
}

fn order(from: u8, to: u8, authority: u8, amount: u64) -> Transfer {
    Transfer { from: id(from), to: id(to), authority: id(authority), amount }
}

fn two_accounts() -> Ledger {
    let mut ledger = Ledger::new();
    assert!(ledger.open_account(id(1), id(9), 10));
    assert!(ledger.open_account(id(2), id(8), 5));
    ledger
}

#[test]
fn new_ledger_is_empty() {
    let ledger = Ledger::new();
    assert_eq!(ledger.supply(), 0);
    assert!(!ledger.contains(&id(1)));
    assert_eq!(ledger.balance_of(&id(1)), 0);
    assert_eq!(ledger.owner_of(&id(1)), None);
}

#[test]
fn opened_account_has_owner_and_balance() {
    let ledger = two_accounts();
    assert!(ledger.contains(&id(1)));
    assert_eq!(ledger.balance_of(&id(1)), 10);
    assert_eq!(ledger.owner_of(&id(1)), Some(id(9)));
    assert_eq!(ledger.balance_of(&id(2)), 5);
    assert_eq!(ledger.owner_of(&id(2)), Some(id(8)));
    assert_eq!(ledger.supply(), 15);
}

#[test]
fn account_cannot_be_opened_twice() {
    let mut ledger = two_accounts();
    assert!(!ledger.open_account(id(1), id(7), 3));
    assert_eq!(ledger.balance_of(&id(1)), 10);
    assert_eq!(ledger.owner_of(&id(1)), Some(id(9)));
    assert_eq!(ledger.supply(), 15);
}

#[test]
fn supply_never_exceeds_64_bits() {
    let mut ledger = Ledger::new();
    assert!(ledger.open_account(id(1), id(9), u64::MAX - 1));
    assert!(!ledger.open_account(id(2), id(9), 2));
    assert!(!ledger.contains(&id(2)));
    assert!(ledger.open_account(id(2), id(9), 1));
    assert_eq!(ledger.supply(), u64::MAX);
    assert!(!ledger.open_account(id(3), id(9), 1));
    assert!(ledger.open_account(id(3), id(9), 0));
}

#[test]
fn transfer_moves_exactly_the_amount() {
    let mut ledger = two_accounts();
    assert_eq!(ledger.transfer(&id(1), &id(2), &id(9), 4), Ok(()));
    assert_eq!(ledger.balance_of(&id(1)), 6);
    assert_eq!(ledger.balance_of(&id(2)), 9);
    assert_eq!(ledger.owner_of(&id(1)), Some(id(9)));
    assert_eq!(ledger.owner_of(&id(2)), Some(id(8)));
    assert_eq!(ledger.supply(), 15);
}

#[test]
fn transfer_of_the_whole_balance_empties_the_source() {
    let mut ledger = two_accounts();
    assert_eq!(ledger.transfer(&id(1), &id(2), &id(9), 10), Ok(()));
    assert_eq!(ledger.balance_of(&id(1)), 0);
    assert_eq!(ledger.balance_of(&id(2)), 15);
}

#[test]
fn transfer_of_nothing_changes_nothing() {
    let mut ledger = two_accounts();
    assert_eq!(ledger.transfer(&id(1), &id(2), &id(9), 0), Ok(()));
    assert_eq!(ledger.balance_of(&id(1)), 10);
    assert_eq!(ledger.balance_of(&id(2)), 5);
}

#[test]
fn transfer_to_the_same_account_keeps_the_balance() {
    let mut ledger = two_accounts();
    assert_eq!(ledger.transfer(&id(1), &id(1), &id(9), 7), Ok(()));
    assert_eq!(ledger.balance_of(&id(1)), 10);
    assert_eq!(ledger.transfer(&id(1), &id(1), &id(9), 11), Err(LedgerError::InsufficientBalance));
    assert_eq!(ledger.supply(), 15);
}

#[test]
fn transfer_beyond_the_balance_is_refused() {
    let mut ledger = two_accounts();
    assert_eq!(ledger.transfer(&id(1), &id(2), &id(9), 11), Err(LedgerError::InsufficientBalance));
    assert_eq!(ledger.balance_of(&id(1)), 10);
    assert_eq!(ledger.balance_of(&id(2)), 5);
}

#[test]
fn transfer_without_authority_is_refused() {
    let mut ledger = two_accounts();
    assert_eq!(ledger.transfer(&id(1), &id(2), &id(8), 1), Err(LedgerError::Unauthorized));
    assert_eq!(ledger.transfer(&id(1), &id(2), &id(1), 1), Err(LedgerError::Unauthorized));
    assert_eq!(ledger.balance_of(&id(1)), 10);
    assert_eq!(ledger.balance_of(&id(2)), 5);
}

#[test]
fn transfer_with_an_unknown_account_is_refused() {
    let mut ledger = two_accounts();
    assert_eq!(ledger.transfer(&id(3), &id(2), &id(9), 1), Err(LedgerError::Unauthorized));
    assert_eq!(ledger.transfer(&id(1), &id(3), &id(9), 1), Err(LedgerError::Unauthorized));
    assert_eq!(ledger.balance_of(&id(1)), 10);
    assert!(!ledger.contains(&id(3)));
}

#[test]
fn want_of_authority_is_reported_before_want_of_balance() {
    let mut ledger = two_accounts();
    assert_eq!(ledger.transfer(&id(1), &id(2), &id(8), 100), Err(LedgerError::Unauthorized));
}

#[test]
fn execute_carries_out_every_order() {
    let mut ledger = two_accounts();
    let orders = vec![order(1, 2, 9, 4), order(2, 1, 8, 9)];
    assert_eq!(ledger.execute(&orders), Ok(()));
    assert_eq!(ledger.balance_of(&id(1)), 15);
    assert_eq!(ledger.balance_of(&id(2)), 0);
}

#[test]
fn execute_judges_an_order_on_what_the_earlier_ones_left() {
    let mut ledger = two_accounts();
    // the second order needs what the first one brings
    let orders = vec![order(1, 2, 9, 10), order(2, 1, 8, 15)];
    assert_eq!(ledger.execute(&orders), Ok(()));
    assert_eq!(ledger.balance_of(&id(1)), 15);
    assert_eq!(ledger.balance_of(&id(2)), 0);
}

#[test]
fn execute_undoes_everything_when_an_order_is_refused() {
    let mut ledger = two_accounts();
    let orders = vec![order(1, 2, 9, 4), order(2, 1, 8, 10)];
    assert_eq!(ledger.execute(&orders), Err(LedgerError::InsufficientBalance));
    assert_eq!(ledger.balance_of(&id(1)), 10);
    assert_eq!(ledger.balance_of(&id(2)), 5);
    let orders = vec![order(1, 2, 9, 4), order(2, 1, 9, 1)];
    assert_eq!(ledger.execute(&orders), Err(LedgerError::Unauthorized));
    assert_eq!(ledger.balance_of(&id(1)), 10);
    assert_eq!(ledger.balance_of(&id(2)), 5);
    assert_eq!(ledger.supply(), 15);
}

#[test]
fn execute_of_no_orders_succeeds() {
    let mut ledger = two_accounts();
    assert_eq!(ledger.execute(&Vec::new()), Ok(()));
    assert_eq!(ledger.balance_of(&id(1)), 10);
}

#[test]
fn ledger_still_works_after_a_refused_execution() {
    let mut ledger = two_accounts();
    let orders = vec![order(1, 2, 9, 4), order(2, 3, 8, 1)];
    assert_eq!(ledger.execute(&orders), Err(LedgerError::Unauthorized));
    assert_eq!(ledger.transfer(&id(1), &id(2), &id(9), 10), Ok(()));
    assert_eq!(ledger.balance_of(&id(2)), 15);
    assert!(ledger.open_account(id(3), id(7), 1));
    assert_eq!(ledger.supply(), 16);
}
