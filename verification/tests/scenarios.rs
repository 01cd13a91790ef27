use nft_lending::{
    close, initialize, lender, repay, Close, Custody, CustodyAccounts, Identity, Initialize,
    Ledger, Lender, LoanAgreement, NftLendingError, Repay,
};

const T: i64 = 1_700_000_000;

fn id(n: u8) -> Identity {
    Identity::new([n; 32])
}

struct World {
    ledger: Ledger,
    custody: Custody,
    accounts: CustodyAccounts,
    borrower: Identity,
    lender: Identity,
    borrower_collateral: Identity,
    borrower_principal: Identity,
    lender_principal: Identity,
    lender_collateral: Identity,
}

fn world(borrower_collateral: u64, borrower_principal: u64, lender_principal: u64) -> World {
    let custody = Custody::derive(&id(1), &id(200)).expect("the agreement has a custody");
    let accounts = custody.accounts();
    let w = World {
        ledger: Ledger::new(),
        custody,
        accounts,
        borrower: id(10),
        lender: id(20),
        borrower_collateral: id(11),
        borrower_principal: id(12),
        lender_principal: id(21),
        lender_collateral: id(22),
    };
    let mut w = w;
    assert!(w.ledger.open_account(w.borrower_collateral, w.borrower, borrower_collateral));
    assert!(w.ledger.open_account(w.borrower_principal, w.borrower, borrower_principal));
    assert!(w.ledger.open_account(w.lender_principal, w.lender, lender_principal));
    assert!(w.ledger.open_account(w.lender_collateral, w.lender, 0));
    assert!(w.ledger.open_account(accounts.nft_vault, accounts.authority, 0));
    assert!(w.ledger.open_account(accounts.vault, accounts.authority, 0));
    assert!(w.ledger.open_account(accounts.collateral, accounts.authority, 0));
    w
}

fn open(w: &mut World, loan: u64, collateral: u64, deadline: i64) -> LoanAgreement {
    let ctx = Initialize {
        custody: w.custody,
        borrower: w.borrower,
        borrower_token_account: w.borrower_collateral,
    };
    initialize(&ctx, &mut w.ledger, loan, collateral, deadline, None).expect("opened")
}

fn fund_ctx(w: &World) -> Lender {
    Lender {
        lender: w.lender,
        lender_token_account: w.lender_principal,
        borrower_loan_token_account: w.borrower_principal,
    }
}

fn repay_ctx(w: &World) -> Repay {
    Repay {
        borrower: w.borrower,
        borrower_loan_token_account: w.borrower_principal,
        borrower_collateral_token_account: w.borrower_collateral,
    }
}

fn close_ctx(w: &World) -> Close {
    Close {
        lender: w.lender,
        lender_loan_token_account: w.lender_principal,
        lender_collateral_token_account: w.lender_collateral,
    }
}

#[test]
fn repaid_loan_runs_from_open_to_settle() {
    let mut w = world(1, 0, 100);
    let mut agreement = open(&mut w, 100, 1, T + 1000);
    assert_eq!(w.ledger.balance_of(&w.borrower_collateral), 0);
    assert_eq!(w.ledger.balance_of(&w.accounts.nft_vault), 1);
    assert!(!agreement.state().funded);

    assert_eq!(lender(&fund_ctx(&w), &mut agreement, &mut w.ledger, 1, 1), Ok(()));
    assert_eq!(w.ledger.balance_of(&w.borrower_principal), 100);
    assert_eq!(w.ledger.balance_of(&w.lender_principal), 0);
    assert_eq!(w.ledger.balance_of(&w.accounts.collateral), 1);
    assert_eq!(w.ledger.balance_of(&w.accounts.nft_vault), 0);
    assert!(agreement.state().funded);
    assert_eq!(agreement.state().lender, Some(w.lender));

    assert_eq!(repay(&repay_ctx(&w), &agreement, &mut w.ledger), Ok(()));
    assert_eq!(w.ledger.balance_of(&w.borrower_principal), 0);
    assert_eq!(w.ledger.balance_of(&w.accounts.vault), 100);
    assert_eq!(w.ledger.balance_of(&w.borrower_collateral), 1);
    assert_eq!(w.ledger.balance_of(&w.accounts.collateral), 0);

    assert_eq!(close(&close_ctx(&w), &agreement, &mut w.ledger, T + 600), Ok(()));
    assert_eq!(w.ledger.balance_of(&w.lender_principal), 100);
    assert_eq!(w.ledger.balance_of(&w.lender_collateral), 0);
    assert_eq!(w.ledger.balance_of(&w.accounts.vault), 0);
    assert_eq!(w.ledger.balance_of(&w.accounts.collateral), 0);
    assert_eq!(w.ledger.supply(), 101);
}

#[test]
fn defaulted_loan_falls_to_the_lender_after_the_deadline() {
    let mut w = world(1, 0, 100);
    let mut agreement = open(&mut w, 100, 1, T + 1000);
    assert_eq!(lender(&fund_ctx(&w), &mut agreement, &mut w.ledger, 1, 1), Ok(()));

    assert_eq!(
        close(&close_ctx(&w), &agreement, &mut w.ledger, T + 500),
        Err(NftLendingError::DefaultAtIsNotReached)
    );
    assert_eq!(w.ledger.balance_of(&w.accounts.collateral), 1);
    assert_eq!(w.ledger.balance_of(&w.lender_collateral), 0);

    assert_eq!(close(&close_ctx(&w), &agreement, &mut w.ledger, T + 1001), Ok(()));
    assert_eq!(w.ledger.balance_of(&w.lender_collateral), 1);
    assert_eq!(w.ledger.balance_of(&w.lender_principal), 0);
    assert_eq!(w.ledger.balance_of(&w.accounts.collateral), 0);
    assert_eq!(w.ledger.balance_of(&w.accounts.vault), 0);
    assert_eq!(w.ledger.balance_of(&w.borrower_principal), 100);
}
