use nft_lending::{
    Custody, Identity, LedgerError, LoanAgreement, NftLendingError,
};

fn id(n: u8) -> Identity {
    Identity::new([n; 32])
}

fn custody() -> Custody {
    Custody::from_slots(
        &id(1),
        Some((id(2), 255)),
        Some((id(3), 255)),
        Some((id(4), 255)),
        Some((id(5), 255)),
    )
    .unwrap()
}

#[test]
fn identities_are_equal_when_all_bytes_agree() {
    let mut bytes = [7u8; 32];
    assert_eq!(Identity::new(bytes), id(7));
    bytes[31] = 8;
    assert_ne!(Identity::new(bytes), id(7));
    let mut bytes = [7u8; 32];
    bytes[0] = 6;
    assert_ne!(Identity::new(bytes), id(7));
}

#[test]
fn identity_gives_back_its_bytes() {
    let mut bytes = [0u8; 32];
    for (i, byte) in bytes.iter_mut().enumerate() {
        *byte = i as u8;
    }
    let identity = Identity::new(bytes);
    assert_eq!(identity.to_bytes(), bytes);
    assert_eq!(identity.to_vec(), bytes.to_vec());
}

#[test]
fn each_error_has_its_message() {
    assert_eq!(NftLendingError::LoanCannotBeZero.message(), "Loan cannot be zero");
    assert_eq!(NftLendingError::CollateralCannotBeZero.message(), "Collateral cannot be zero");
    assert_eq!(NftLendingError::UnexpectedLoanAgreement.message(), "Unexpected loan agreement");
    assert_eq!(NftLendingError::DefaultAtIsNotReached.message(), "Default at is not reached");
    assert_eq!(NftLendingError::IncorrectBorrower.message(), "Incorrect borrower");
    assert_eq!(NftLendingError::InsufficientBalance.message(), "Insufficient balance");
    assert_eq!(NftLendingError::Unauthorized.message(), "Unauthorized");
}

#[test]
fn refusals_of_the_ledger_keep_their_names() {
    assert_eq!(
        NftLendingError::from_ledger(LedgerError::InsufficientBalance),
        NftLendingError::InsufficientBalance
    );
    assert_eq!(
        NftLendingError::from_ledger(LedgerError::Unauthorized),
        NftLendingError::Unauthorized
    );
}

#[test]
fn record_is_rebuilt_from_its_parts() {
    let agreement =
        LoanAgreement::from_parts(&custody(), id(10), Some(id(20)), 100, 1, 5000, true).unwrap();
    assert_eq!(agreement.id(), id(1));
    assert_eq!(agreement.borrower(), id(10));
    assert_eq!(agreement.lender(), Some(id(20)));
    assert_eq!(agreement.loan_amount(), 100);
    assert_eq!(agreement.collateral_amount(), 1);
    assert_eq!(agreement.deadline(), 5000);
    assert!(agreement.funded());
    let state = agreement.state();
    assert_eq!(state.custody, custody().accounts());
    assert_eq!(state.borrower, id(10));
    assert_eq!(state.loan_amount, 100);
}

#[test]
fn record_with_a_zero_amount_does_not_exist() {
    assert!(LoanAgreement::from_parts(&custody(), id(10), None, 0, 1, 5000, false).is_none());
    assert!(LoanAgreement::from_parts(&custody(), id(10), None, 100, 0, 5000, false).is_none());
    assert!(LoanAgreement::from_parts(&custody(), id(10), None, 0, 0, 5000, false).is_none());
    assert!(LoanAgreement::from_parts(&custody(), id(10), None, 1, 1, -5, false).is_some());
}
